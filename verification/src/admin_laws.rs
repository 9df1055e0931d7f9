//! What holds of the client's side of the Admin API: what an answer says,
//! field by field, whatever else it holds, and what a refusal says.

use std::io::ErrorKind;

use vstd::prelude::*;
use vstd::string::*;

use crate::admin::{
    broker_told, broker_views, brokers_ask, brokers_heard, brokers_told, failure, judged,
    maintenance_ask, maintenance_heard, status_ask, status_told, status_views, statuses_heard,
    statuses_told, texts_told, Broker, BrokerView, Call, CallView, ConfigStatus, ConfigStatusView,
    Reply, ReplyView,
};
use crate::fault::{Fault, FaultView};
use crate::json::{json_read, Json};
use crate::text::decimal;

verus! {

/// A list of brokers has one for each item, the one that this item
/// describes, and no other answer has any.
pub proof fn every_item_is_a_broker(items: Seq<Json>, other: Json)
    requires
        !(other is List),
    ensures
        brokers_told(Json::List(items)) matches Ok(brokers) && brokers.len() == items.len() && (
        forall|i: int|
            0 <= i < items.len() ==> #[trigger] brokers[i] == broker_told(items[i])),
        brokers_told(other) == Err::<Seq<BrokerView>, FaultView>(
            FaultView::Protocol("brokers that are not a list"@),
        ),
{
}

/// The broker that an item of a list describes is told by the item's own
/// fields, each by the field of its name, whatever the others and the other
/// items hold: the number, the life and the status, and the maintenance by
/// what the maintenance status says of draining, not of anything else. A
/// field that is not there or is of another kind leaves the broker node -1,
/// not alive, of no status, not draining.
pub proof fn brokers_are_told_by_their_fields(
    items: Seq<Json>,
    i: int,
    fields: Map<Seq<char>, Json>,
)
    requires
        0 <= i < items.len(),
        items[i] == Json::Fields(fields),
    ensures
        ({
            let b = brokers_told(Json::List(items))->Ok_0[i];
            &&& if fields.contains_key("node_id"@) {
                match fields["node_id"@] {
                    Json::Int(n) => b.node_id == (if i64::MIN <= n <= i64::MAX {
                        n
                    } else {
                        -1
                    }),
                    _ => b.node_id == -1,
                }
            } else {
                b.node_id == -1
            }
            &&& if fields.contains_key("is_alive"@) {
                match fields["is_alive"@] {
                    Json::Bool(alive) => b.is_alive == alive,
                    _ => !b.is_alive,
                }
            } else {
                !b.is_alive
            }
            &&& if fields.contains_key("membership_status"@) {
                match fields["membership_status"@] {
                    Json::Text(status) => b.membership_status == status,
                    _ => b.membership_status.len() == 0,
                }
            } else {
                b.membership_status.len() == 0
            }
        }),
{
}

/// A broker is draining where its maintenance status says so of draining,
/// and only there, whatever else that status and the broker hold.
pub proof fn draining_is_told_by_draining(
    items: Seq<Json>,
    i: int,
    fields: Map<Seq<char>, Json>,
    maintenance: Map<Seq<char>, Json>,
    draining: bool,
)
    requires
        0 <= i < items.len(),
        items[i] == Json::Fields(fields),
    ensures
        ({
            let b = brokers_told(Json::List(items))->Ok_0[i];
            &&& fields.contains_key("maintenance_status"@) && fields["maintenance_status"@]
                == Json::Fields(maintenance) && maintenance.contains_key("draining"@)
                && maintenance["draining"@] == Json::Bool(draining) ==> b.draining == draining
            &&& fields.contains_key("maintenance_status"@) && fields["maintenance_status"@]
                == Json::Fields(maintenance) && !(maintenance.contains_key("draining"@)
                && maintenance["draining"@] is Bool) ==> !b.draining
            &&& !(fields.contains_key("maintenance_status"@)
                && fields["maintenance_status"@] is Fields) ==> !b.draining
        }),
{
}

/// An item without fields describes no broker at all: node -1, not alive, of
/// no status, not draining; and no status of one.
pub proof fn items_without_fields_tell_nothing(items: Seq<Json>, i: int)
    requires
        0 <= i < items.len(),
        !(items[i] is Fields),
    ensures
        brokers_told(Json::List(items))->Ok_0[i] == (BrokerView {
            node_id: -1,
            is_alive: false,
            membership_status: Seq::<char>::empty(),
            draining: false,
        }),
        statuses_told(Json::List(items))->Ok_0[i] == (ConfigStatusView {
            node_id: -1,
            restart: false,
            config_version: 0,
            invalid: Seq::<Seq<char>>::empty(),
        }),
{
}

/// The texts among some documents, in their order.
pub open spec fn texts_among(items: Seq<Json>) -> Seq<Seq<char>>
    decreases items.len(),
{
    if items.len() == 0 {
        Seq::empty()
    } else {
        match items[0] {
            Json::Text(t) => seq![t] + texts_among(items.drop_first()),
            _ => texts_among(items.drop_first()),
        }
    }
}

proof fn lemma_texts_among_last(items: Seq<Json>)
    requires
        items.len() > 0,
    ensures
        texts_among(items) == match items.last() {
            Json::Text(t) => texts_among(items.drop_last()).push(t),
            _ => texts_among(items.drop_last()),
        },
    decreases items.len(),
{
    reveal_with_fuel(texts_among, 2);
    if items.len() == 1 {
        assert(items.drop_first() == Seq::<Json>::empty());
        assert(items.drop_last() == Seq::<Json>::empty());
    } else {
        lemma_texts_among_last(items.drop_first());
        assert(items.drop_first().drop_last() == items.drop_last().drop_first());
        assert(items.drop_first().last() == items.last());
    }
}

proof fn lemma_texts_among(items: Seq<Json>)
    ensures
        texts_told(Json::List(items)) == texts_among(items),
    decreases items.len(),
{
    if items.len() > 0 {
        lemma_texts_among(items.drop_last());
        lemma_texts_among_last(items);
    }
}

/// A list of statuses has one for each item, the one that this item
/// describes, and no other answer has any.
pub proof fn every_item_is_a_status(items: Seq<Json>, other: Json)
    requires
        !(other is List),
    ensures
        statuses_told(Json::List(items)) matches Ok(statuses) && statuses.len() == items.len() && (
        forall|i: int|
            0 <= i < items.len() ==> #[trigger] statuses[i] == status_told(items[i])),
        statuses_told(other) == Err::<Seq<ConfigStatusView>, FaultView>(
            FaultView::Protocol("a status that is not a list"@),
        ),
{
}

/// The status that an item of a list describes is told by the item's own
/// fields, each by the field of its name, whatever the others and the other
/// items hold. A field that is not there or is of another kind leaves the
/// status of node -1, without a restart, at version 0.
pub proof fn statuses_are_told_by_their_fields(
    items: Seq<Json>,
    i: int,
    fields: Map<Seq<char>, Json>,
)
    requires
        0 <= i < items.len(),
        items[i] == Json::Fields(fields),
    ensures
        ({
            let s = statuses_told(Json::List(items))->Ok_0[i];
            &&& if fields.contains_key("node_id"@) {
                match fields["node_id"@] {
                    Json::Int(n) => s.node_id == (if i64::MIN <= n <= i64::MAX {
                        n
                    } else {
                        -1
                    }),
                    _ => s.node_id == -1,
                }
            } else {
                s.node_id == -1
            }
            &&& if fields.contains_key("restart"@) {
                match fields["restart"@] {
                    Json::Bool(restart) => s.restart == restart,
                    _ => !s.restart,
                }
            } else {
                !s.restart
            }
            &&& if fields.contains_key("config_version"@) {
                match fields["config_version"@] {
                    Json::Int(n) => s.config_version == (if i64::MIN <= n <= i64::MAX {
                        n
                    } else {
                        0
                    }),
                    _ => s.config_version == 0,
                }
            } else {
                s.config_version == 0
            }
        }),
{
}

/// The properties that a node could not read are the texts of its list of
/// invalid ones, all of them and in order, whatever else the item holds, be
/// it under another name; none where there is no such list.
pub proof fn invalid_properties_are_told_by_invalid(
    items: Seq<Json>,
    i: int,
    fields: Map<Seq<char>, Json>,
    listed: Seq<Json>,
)
    requires
        0 <= i < items.len(),
        items[i] == Json::Fields(fields),
    ensures
        ({
            let s = statuses_told(Json::List(items))->Ok_0[i];
            &&& fields.contains_key("invalid"@) && fields["invalid"@] == Json::List(listed)
                ==> s.invalid == texts_among(listed)
            &&& !(fields.contains_key("invalid"@) && fields["invalid"@] is List)
                ==> s.invalid.len() == 0
        }),
{
    lemma_texts_among(listed);
}

/// Where every invalid property is a text, every one is told, at its place.
pub proof fn texts_are_told_one_for_one(listed: Seq<Json>, k: int)
    requires
        0 <= k < listed.len(),
        forall|j: int| 0 <= j < listed.len() ==> (#[trigger] listed[j]) is Text,
    ensures
        texts_among(listed).len() == listed.len(),
        Json::Text(texts_among(listed)[k]) == listed[k],
    decreases listed.len(),
{
    reveal_with_fuel(texts_among, 2);
    let rest = listed.drop_first();
    assert(listed[0] is Text);
    if rest.len() > 0 {
        assert forall|j: int| 0 <= j < rest.len() implies (#[trigger] rest[j]) is Text by {
            assert(listed[j + 1] is Text);
        }
        texts_are_told_one_for_one(
            rest,
            if k > 0 {
                k - 1
            } else {
                0
            },
        );
    }
}

/// What a success carries is what the call returns: the brokers, the
/// statuses and the done maintenance of the document in its body.
pub proof fn successes_are_heard(
    ask: CallView,
    status: int,
    body: Seq<u8>,
    document: Json,
    node_id: int,
    enable: bool,
)
    requires
        200 <= status < 300,
        body.len() > 0,
        json_read(body) == Ok::<Json, Seq<char>>(document),
    ensures
        ({
            let reply = ReplyView::Answered { status, body };
            &&& judged(ask, reply) == Ok::<Json, FaultView>(document)
            &&& brokers_heard(reply) == brokers_told(document)
            &&& statuses_heard(reply) == statuses_told(document)
            &&& maintenance_heard(node_id, enable, reply) == Ok::<(), FaultView>(())
        }),
{
}

/// A success without a body is a success without anything in it: enough for
/// maintenance, and a list of nothing for nobody.
pub proof fn empty_successes_are_null(ask: CallView, status: int, node_id: int, enable: bool)
    requires
        200 <= status < 300,
    ensures
        ({
            let reply = ReplyView::Answered { status, body: Seq::empty() };
            &&& judged(ask, reply) == Ok::<Json, FaultView>(Json::Null)
            &&& brokers_heard(reply) == Err::<Seq<BrokerView>, FaultView>(
                FaultView::Protocol("brokers that are not a list"@),
            )
            &&& statuses_heard(reply) == Err::<Seq<ConfigStatusView>, FaultView>(
                FaultView::Protocol("a status that is not a list"@),
            )
            &&& maintenance_heard(node_id, enable, reply) == Ok::<(), FaultView>(())
        }),
{
}

/// Whether all three calls come to this fault.
pub open spec fn all_fail(
    node_id: int,
    enable: bool,
    reply: ReplyView,
    fault: FaultView,
) -> bool {
    &&& brokers_heard(reply) == Err::<Seq<BrokerView>, FaultView>(fault)
    &&& statuses_heard(reply) == Err::<Seq<ConfigStatusView>, FaultView>(fault)
    &&& maintenance_heard(node_id, enable, reply) == Err::<(), FaultView>(fault)
}

/// A body that is not JSON is refused in the reader's words, whichever call
/// it answers.
pub proof fn bodies_that_are_not_json_are_refused(
    ask: CallView,
    status: int,
    body: Seq<u8>,
    words: Seq<char>,
    node_id: int,
    enable: bool,
)
    requires
        200 <= status < 300,
        body.len() > 0,
        json_read(body) == Err::<Json, Seq<char>>(words),
    ensures
        ({
            let reply = ReplyView::Answered { status, body };
            let fault = FaultView::Protocol("an answer that is not JSON: "@ + words);
            &&& judged(ask, reply) == Err::<Json, FaultView>(fault)
            &&& all_fail(node_id, enable, reply, fault)
        }),
{
}

/// A failed connection comes back as one, with its kind and its words, and
/// what is not HTTP as a fault of the protocol, whichever call was made.
pub proof fn failures_keep_their_kind_and_words(
    ask: CallView,
    kind: ErrorKind,
    message: Seq<char>,
    node_id: int,
    enable: bool,
)
    ensures
        ({
            let broken = ReplyView::Failed { io: Some(kind), message };
            let strange = ReplyView::Failed { io: None, message };
            let lost = FaultView::Connection { doing: "asking the Admin API"@, kind, message };
            &&& judged(ask, broken) == Err::<Json, FaultView>(lost)
            &&& all_fail(node_id, enable, broken, lost)
            &&& judged(ask, strange) == Err::<Json, FaultView>(FaultView::Protocol(message))
            &&& all_fail(node_id, enable, strange, FaultView::Protocol(message))
            &&& failure(Some(kind), message) == lost
            &&& failure(None, message) == FaultView::Protocol(message)
        }),
{
}

/// The fault that a status without success is, in these words: worth another
/// try from 500 on, and not below.
pub open spec fn refused_in(status: int, words: Seq<char>) -> FaultView {
    if status >= 500 {
        FaultView::Retryable(words)
    } else {
        FaultView::Permanent(words)
    }
}

/// An answer without success is refused by its status alone, whatever its
/// body, in words that name the request and the status.
pub proof fn refusals_name_the_request_and_the_status(
    ask: CallView,
    status: int,
    body: Seq<u8>,
    node_id: int,
)
    requires
        status < 200 || status >= 300,
    ensures
        ({
            let reply = ReplyView::Answered { status, body };
            let end = " with "@ + decimal(status);
            let node = "/v1/brokers/"@ + decimal(node_id) + "/maintenance"@;
            &&& judged(ask, reply) == Err::<Json, FaultView>(
                refused_in(
                    status,
                    "the Admin API answered "@ + ask.method + " "@ + ask.path + end,
                ),
            )
            &&& brokers_heard(reply) == Err::<Seq<BrokerView>, FaultView>(
                refused_in(status, "the Admin API answered GET /v1/brokers"@ + end),
            )
            &&& statuses_heard(reply) == Err::<Seq<ConfigStatusView>, FaultView>(
                refused_in(status, "the Admin API answered GET /v1/cluster_config/status"@ + end),
            )
            &&& maintenance_heard(node_id, true, reply) == Err::<(), FaultView>(
                refused_in(status, "the Admin API answered PUT "@ + node + end),
            )
            &&& maintenance_heard(node_id, false, reply) == Err::<(), FaultView>(
                refused_in(status, "the Admin API answered DELETE "@ + node + end),
            )
        }),
{
    let end = " with "@ + decimal(status);
    let node = "/v1/brokers/"@ + decimal(node_id) + "/maintenance"@;
    let front = "the Admin API answered "@;
    assert forall|m: Seq<char>, p: Seq<char>|
        #![trigger front + m + " "@ + p]
        front + m + " "@ + p + " with "@ + decimal(status) == front + m + " "@ + p + end by {
        assert(front + m + " "@ + p + " with "@ + decimal(status) =~= front + m + " "@ + p + end);
    }
    assert(front + "GET"@ + " "@ + "/v1/brokers"@ == "the Admin API answered GET /v1/brokers"@)
        by {
        reveal_strlit("the Admin API answered ");
        reveal_strlit("GET");
        reveal_strlit(" ");
        reveal_strlit("/v1/brokers");
        reveal_strlit("the Admin API answered GET /v1/brokers");
    }
    assert(front + "GET"@ + " "@ + "/v1/cluster_config/status"@
        == "the Admin API answered GET /v1/cluster_config/status"@) by {
        reveal_strlit("the Admin API answered ");
        reveal_strlit("GET");
        reveal_strlit(" ");
        reveal_strlit("/v1/cluster_config/status");
        reveal_strlit("the Admin API answered GET /v1/cluster_config/status");
    }
    assert(front + "PUT"@ + " "@ == "the Admin API answered PUT "@) by {
        reveal_strlit("the Admin API answered ");
        reveal_strlit("PUT");
        reveal_strlit(" ");
        reveal_strlit("the Admin API answered PUT ");
    }
    assert(front + "DELETE"@ + " "@ == "the Admin API answered DELETE "@) by {
        reveal_strlit("the Admin API answered ");
        reveal_strlit("DELETE");
        reveal_strlit(" ");
        reveal_strlit("the Admin API answered DELETE ");
    }
    assert(maintenance_ask(node_id, true).path == node);
    assert(maintenance_ask(node_id, false).path == node);
}

/// What the three calls ask of the API: each its method and path, any node's
/// number in decimal in the path of its maintenance, and JSON back.
pub proof fn calls_ask_by_method_and_path(node_id: int, enable: bool)
    ensures
        brokers_ask().method == "GET"@,
        brokers_ask().path == "/v1/brokers"@,
        status_ask().method == "GET"@,
        status_ask().path == "/v1/cluster_config/status"@,
        maintenance_ask(node_id, enable).method == (if enable {
            "PUT"@
        } else {
            "DELETE"@
        }),
        maintenance_ask(node_id, enable).path == brokers_ask().path + "/"@ + decimal(node_id)
            + "/maintenance"@,
        brokers_ask().accept == "application/json"@,
        status_ask().accept == "application/json"@,
        maintenance_ask(node_id, enable).accept == "application/json"@,
{
    assert("/v1/brokers/"@ == "/v1/brokers"@ + "/"@) by {
        reveal_strlit("/v1/brokers/");
        reveal_strlit("/v1/brokers");
        reveal_strlit("/");
    }
}

/// Each kind of fault says of another try what it is for; a failed
/// connection leaves it open.
pub proof fn faults_say_whether_to_retry(
    message: Seq<char>,
    doing: Seq<char>,
    kind: ErrorKind,
)
    ensures
        FaultView::Retryable(message).retryable() == Some(true),
        FaultView::Permanent(message).retryable() == Some(false),
        FaultView::Protocol(message).retryable() == Some(false),
        (FaultView::Connection { doing, kind, message }).retryable() is None,
{
}

/// The views of what goes to and comes from the API show every field as it
/// is held.
pub proof fn api_views_show_what_is_held(
    b: Broker,
    s: ConfigStatus,
    c: Call,
    message: String,
    doing: String,
    kind: ErrorKind,
    io: Option<ErrorKind>,
    status: u16,
    body: Vec<u8>,
)
    ensures
        b@.node_id == b.node_id,
        b@.is_alive == b.is_alive,
        b@.membership_status == b.membership_status@,
        b@.draining == b.draining,
        s@.node_id == s.node_id,
        s@.restart == s.restart,
        s@.config_version == s.config_version,
        s@.invalid.len() == s.invalid@.len(),
        forall|i: int| 0 <= i < s.invalid@.len() ==> #[trigger] s@.invalid[i] == s.invalid@[i]@,
        c@.method == c.method@,
        c@.path == c.path@,
        c@.accept == c.accept@,
        (Reply::Answered { status, body })@ == (ReplyView::Answered {
            status: status as int,
            body: body@,
        }),
        (Reply::Failed { io, message })@ == (ReplyView::Failed { io, message: message@ }),
        Fault::Retryable(message)@ == FaultView::Retryable(message@),
        Fault::Permanent(message)@ == FaultView::Permanent(message@),
        Fault::Protocol(message)@ == FaultView::Protocol(message@),
        (Fault::Connection { doing, kind, message })@ == (FaultView::Connection {
            doing: doing@,
            kind,
            message: message@,
        }),
{
}

/// A list is shown one for one, in order.
pub proof fn api_lists_are_shown_in_order(
    brokers: Seq<Broker>,
    statuses: Seq<ConfigStatus>,
    i: int,
)
    ensures
        broker_views(brokers).len() == brokers.len(),
        0 <= i < brokers.len() ==> broker_views(brokers)[i] == brokers[i]@,
        status_views(statuses).len() == statuses.len(),
        0 <= i < statuses.len() ==> status_views(statuses)[i] == statuses[i]@,
{
}

} // verus!
