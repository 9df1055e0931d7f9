//! What holds of the library as a whole: the two sides of the Admin API
//! speak of the same cluster, and a receive takes work only from a node that
//! is fit for it.

use vstd::prelude::*;

use crate::admin::{
    broker_told, brokers_ask, brokers_heard, brokers_told, judged, maintenance_ask,
    maintenance_heard, refusal, status_ask, status_told, statuses_heard, statuses_told,
    BrokerView, CallView, ConfigStatusView, ReplyView,
};
use crate::fault::FaultView;
use crate::json::{json_read, plain, readable_depth, Json};
use crate::session::{
    answered, broker_document, brokers_document, find, first_of, lemma_find_first,
    lemma_methods_differ, message_document, request_read, route, segments, status_document,
    statuses_document, with_draining, AdminRequestView, Route, SessionView,
};
use crate::text::{
    decimal, first_at, is_digit, is_space, lemma_cut_at_first, lemma_decimal_chars,
    lemma_decimal_is_read_back, lemma_last_piece, lemma_one_piece, lemma_trimmed,
    lemma_word_behind, lemma_words_before, spaceless, words,
};

use crate::transport::{
    comes_of, fit, taken, ArrivedView, DeliveryView, HeardView, RecordView, StepView,
    TransportView,
};

verus! {

/// What is not the Admin API is refused, and the refusal says whether to
/// retry: an answer of 500 or above is worth another try, any other answer
/// without success is not, and neither is what is not HTTP or not JSON.
pub proof fn refused_answers_say_whether_to_retry(ask: CallView, reply: ReplyView)
    ensures
        match reply {
            ReplyView::Failed { io, message } => judged(ask, reply) matches Err(fault)
                && fault.retryable() == (if io is Some {
                None
            } else {
                Some(false)
            }),
            ReplyView::Answered { status, body } => if status >= 500 {
                judged(ask, reply) matches Err(fault) && fault.retryable() == Some(true)
            } else if status < 200 || status >= 300 {
                judged(ask, reply) matches Err(fault) && fault.retryable() == Some(false)
            } else if body.len() > 0 && json_read(body) is Err {
                judged(ask, reply) matches Err(fault) && fault.retryable() == Some(false)
            } else {
                judged(ask, reply) is Ok
            },
        },
{
}

/// Whether every broker has a node number that fits.
pub open spec fn numbered(brokers: Seq<BrokerView>) -> bool {
    forall|i: int| 0 <= i < brokers.len() ==> i64::MIN <= (#[trigger] brokers[i]).node_id <= i64::MAX
}

/// One broker is read as it is written.
proof fn lemma_broker_told(b: BrokerView)
    requires
        i64::MIN <= b.node_id <= i64::MAX,
    ensures
        broker_told(broker_document(b)) == b,
{
    reveal_strlit("node_id");
    reveal_strlit("num_cores");
    reveal_strlit("membership_status");
    reveal_strlit("is_alive");
    reveal_strlit("maintenance_status");
    assert("node_id"@.len() == 7);
    assert("num_cores"@.len() == 9);
    assert("membership_status"@.len() == 17);
    assert("is_alive"@.len() == 8);
    assert("maintenance_status"@.len() == 18);
    reveal_strlit("draining");
    reveal_strlit("finished");
    assert("draining"@[0] == 'd');
    assert("finished"@[0] == 'f');
}

/// The brokers that a session lists are the brokers that a client reads out
/// of the list: every field of every one, in order.
pub proof fn brokers_are_read_back(brokers: Seq<BrokerView>)
    requires
        numbered(brokers),
    ensures
        brokers_told(brokers_document(brokers)) == Ok::<Seq<BrokerView>, FaultView>(brokers),
{
    let told = brokers_document(brokers)->List_0.map_values(|item: Json| broker_told(item));
    assert forall|i: int| 0 <= i < brokers.len() implies told[i] == brokers[i] by {
        lemma_broker_told(brokers[i]);
    }
    assert(told == brokers);
}

/// The statuses of these brokers' nodes: nothing waiting for a restart,
/// nothing invalid.
pub open spec fn settled(brokers: Seq<BrokerView>, config_version: int) -> Seq<ConfigStatusView> {
    brokers.map_values(
        |b: BrokerView|
            ConfigStatusView {
                node_id: b.node_id,
                restart: false,
                config_version,
                invalid: Seq::<Seq<char>>::empty(),
            },
    )
}

proof fn lemma_status_told(node_id: int, config_version: int)
    requires
        i64::MIN <= node_id <= i64::MAX,
        i64::MIN <= config_version <= i64::MAX,
    ensures
        status_told(status_document(node_id, config_version)) == (ConfigStatusView {
            node_id,
            restart: false,
            config_version,
            invalid: Seq::<Seq<char>>::empty(),
        }),
{
    reveal_strlit("node_id");
    reveal_strlit("restart");
    reveal_strlit("config_version");
    reveal_strlit("invalid");
    reveal_strlit("unknown");
    assert("node_id"@[0] == 'n');
    assert("restart"@[0] == 'r');
    assert("config_version"@[0] == 'c');
    assert("invalid"@[0] == 'i');
    assert("unknown"@[0] == 'u');
}

/// The statuses that a session lists are the statuses that a client reads
/// out of the list: one for each broker, at the session's version.
pub proof fn statuses_are_read_back(brokers: Seq<BrokerView>, config_version: int)
    requires
        numbered(brokers),
        i64::MIN <= config_version <= i64::MAX,
    ensures
        statuses_told(statuses_document(brokers, config_version)) == Ok::<
            Seq<ConfigStatusView>,
            FaultView,
        >(settled(brokers, config_version)),
{
    let told = statuses_document(brokers, config_version)->List_0.map_values(
        |item: Json| status_told(item),
    );
    assert forall|i: int| 0 <= i < brokers.len() implies told[i] == settled(
        brokers,
        config_version,
    )[i] by {
        lemma_status_told(brokers[i].node_id, config_version);
    }
    assert(told == settled(brokers, config_version));
}

proof fn lemma_words_of_paths()
    ensures
        !"v1"@.contains('/'),
        !"brokers"@.contains('/'),
        !"cluster_config"@.contains('/'),
        !"status"@.contains('/'),
        !"maintenance"@.contains('/'),
        "v1"@.len() > 0,
        "v1"@[0] != '/',
        "brokers"@.len() > 0,
        "brokers"@.last() != '/',
        "status"@.len() > 0,
        "status"@.last() != '/',
        "maintenance"@.len() > 0,
        "maintenance"@.last() != '/',
{
    reveal_strlit("v1");
    reveal_strlit("brokers");
    reveal_strlit("cluster_config");
    reveal_strlit("status");
    reveal_strlit("maintenance");
}

/// Asking for the brokers reaches the brokers.
pub proof fn brokers_are_served()
    ensures
        route(brokers_ask().method, brokers_ask().path) == Route::Brokers,
{
    lemma_words_of_paths();
    let body = "v1"@ + seq!['/'] + "brokers"@;
    assert("/v1/brokers"@ == seq!['/'] + body) by {
        reveal_strlit("/v1/brokers");
        reveal_strlit("v1");
        reveal_strlit("brokers");
    }
    assert(body[0] == "v1"@[0]);
    assert(body.last() == "brokers"@.last());
    lemma_trimmed(body, '/');
    lemma_one_piece("v1"@, '/');
    lemma_last_piece("v1"@, '/', "brokers"@);
    assert(segments("/v1/brokers"@) == seq!["v1"@, "brokers"@]);
}

/// Asking for the configuration status reaches it.
pub proof fn statuses_are_served()
    ensures
        route(status_ask().method, status_ask().path) == Route::Status,
{
    lemma_words_of_paths();
    let front = "v1"@ + seq!['/'] + "cluster_config"@;
    let body = front + seq!['/'] + "status"@;
    assert("/v1/cluster_config/status"@ == seq!['/'] + body) by {
        reveal_strlit("/v1/cluster_config/status");
        reveal_strlit("v1");
        reveal_strlit("cluster_config");
        reveal_strlit("status");
    }
    assert(body[0] == "v1"@[0]);
    assert(body.last() == "status"@.last());
    lemma_trimmed(body, '/');
    lemma_one_piece("v1"@, '/');
    lemma_last_piece("v1"@, '/', "cluster_config"@);
    lemma_last_piece(front, '/', "status"@);
    let s = segments("/v1/cluster_config/status"@);
    assert(s == seq!["v1"@, "cluster_config"@, "status"@]);
    assert(s.len() != seq!["v1"@, "brokers"@].len());
}

/// Asking to put a node into maintenance, or to take it out, reaches that
/// node with that wish, whatever its number.
pub proof fn maintenance_is_served(node_id: int, enable: bool)
    requires
        i64::MIN <= node_id <= i64::MAX,
    ensures
        route(
            maintenance_ask(node_id, enable).method,
            maintenance_ask(node_id, enable).path,
        ) == (Route::Maintenance { node_id, enable }),
{
    let path = maintenance_ask(node_id, enable).path;
    let id = decimal(node_id);
    lemma_words_of_paths();
    lemma_methods_differ();
    lemma_decimal_chars(node_id);
    assert(!id.contains('/'));
    let front = "v1"@ + seq!['/'] + "brokers"@;
    let middle = front + seq!['/'] + id;
    let body = middle + seq!['/'] + "maintenance"@;
    assert(path == seq!['/'] + body) by {
        assert("/v1/brokers/"@ == seq!['/'] + front + seq!['/']) by {
            reveal_strlit("/v1/brokers/");
            reveal_strlit("v1");
            reveal_strlit("brokers");
        }
        assert("/maintenance"@ == seq!['/'] + "maintenance"@) by {
            reveal_strlit("/maintenance");
            reveal_strlit("maintenance");
        }
    }
    assert(body[0] == "v1"@[0]);
    assert(body.last() == "maintenance"@.last());
    lemma_trimmed(body, '/');
    lemma_one_piece("v1"@, '/');
    lemma_last_piece("v1"@, '/', "brokers"@);
    lemma_last_piece(front, '/', id);
    lemma_last_piece(middle, '/', "maintenance"@);
    let s = segments(path);
    assert(s == seq!["v1"@, "brokers"@, id, "maintenance"@]);
    lemma_decimal_is_read_back(node_id, i64::MIN as int, i64::MAX as int);
}

/// The far end reports what was asked: a request line that gives a method
/// and a path, each without white space, is read as asking just that,
/// whatever the line says behind them.
pub proof fn requests_are_read(method: Seq<char>, path: Seq<char>, rest: Seq<char>)
    requires
        method.len() > 0,
        spaceless(method),
        path.len() > 0,
        spaceless(path),
    ensures
        request_read(seq![method + " "@ + path + " "@ + rest]) == Ok::<AdminRequestView, FaultView>(
            AdminRequestView { method, path },
        ),
{
    reveal_strlit(" ");
    assert(" "@ == seq![' ']);
    let one = method + " "@;
    let two = one + path;
    let three = two + " "@;
    let none = Seq::<char>::empty();
    lemma_word_behind(none, method);
    assert(none + method == method);
    assert(one.drop_last() == method);
    assert(words(one) == words(method));
    lemma_word_behind(one, path);
    assert(three.drop_last() == two);
    assert(words(three) == words(two));
    lemma_words_before(three, rest);
    let found = words(three + rest);
    assert(words(three) == seq![method, path]);
    assert(found.take(2)[0] == method);
    assert(found.take(2)[1] == path);
    assert(method + " "@ + path + " "@ + rest == three + rest);
}

/// The request line that a call sends.
pub open spec fn request_line(ask: CallView) -> Seq<char> {
    ask.method + " "@ + ask.path + " "@ + "HTTP/1.1"@
}

/// Whatever a client asks, the far end reports: the request lines of all
/// three calls are read as the requests that they make.
pub proof fn calls_are_reported(node_id: int, enable: bool)
    ensures
        request_read(seq![request_line(brokers_ask())]) == Ok::<AdminRequestView, FaultView>(
            requested(brokers_ask()),
        ),
        request_read(seq![request_line(status_ask())]) == Ok::<AdminRequestView, FaultView>(
            requested(status_ask()),
        ),
        request_read(seq![request_line(maintenance_ask(node_id, enable))]) == Ok::<
            AdminRequestView,
            FaultView,
        >(requested(maintenance_ask(node_id, enable))),
{
    reveal_strlit("GET");
    reveal_strlit("PUT");
    reveal_strlit("DELETE");
    reveal_strlit("/v1/brokers");
    reveal_strlit("/v1/cluster_config/status");
    reveal_strlit("/v1/brokers/");
    reveal_strlit("/maintenance");
    let id = decimal(node_id);
    lemma_decimal_chars(node_id);
    let ask = maintenance_ask(node_id, enable);
    assert(spaceless("/v1/brokers/"@));
    assert(spaceless("/maintenance"@));
    assert forall|i: int| 0 <= i < ask.path.len() implies !is_space(#[trigger] ask.path[i]) by {
        let a = "/v1/brokers/"@.len();
        if i < a {
            assert(ask.path[i] == "/v1/brokers/"@[i]);
        } else if i < a + id.len() {
            assert(ask.path[i] == id[i - a]);
            assert(is_digit(id[i - a]) || id[i - a] == '-');
        } else {
            assert(ask.path[i] == "/maintenance"@[i - a - id.len()]);
        }
    }
    requests_are_read("GET"@, "/v1/brokers"@, "HTTP/1.1"@);
    requests_are_read("GET"@, "/v1/cluster_config/status"@, "HTTP/1.1"@);
    requests_are_read(ask.method, ask.path, "HTTP/1.1"@);
}

/// Where any broker of a node stands, a first one is found.
pub proof fn lemma_find_some(brokers: Seq<BrokerView>, node_id: int, k: int)
    requires
        0 <= k < brokers.len(),
        brokers[k].node_id == node_id,
    ensures
        find(brokers, node_id) matches Some(i) && first_of(brokers, node_id, i),
    decreases k,
{
    if exists|j: int| 0 <= j < k && (#[trigger] brokers[j]).node_id == node_id {
        let j = choose|j: int| 0 <= j < k && (#[trigger] brokers[j]).node_id == node_id;
        lemma_find_some(brokers, node_id, j);
    } else {
        assert(first_of(brokers, node_id, k));
    }
}

/// The session that a request leaves behind.
pub open spec fn left_behind(session: SessionView, request: AdminRequestView) -> SessionView {
    SessionView { brokers: answered(session, request).brokers, ..session }
}

/// The request that a call makes.
pub open spec fn requested(ask: CallView) -> AdminRequestView {
    AdminRequestView { method: ask.method, path: ask.path }
}

/// No request changes anything but whether a broker is in maintenance: the
/// brokers stay as many and in the same order, each with its number, its
/// status and its life.
pub proof fn requests_keep_the_cluster(session: SessionView, request: AdminRequestView)
    ensures
        left_behind(session, request).brokers.len() == session.brokers.len(),
        forall|i: int|
            0 <= i < session.brokers.len() ==> (#[trigger] left_behind(session, request).brokers[i])
                == (BrokerView {
                draining: left_behind(session, request).brokers[i].draining,
                ..session.brokers[i]
            }),
{
    if let Route::Maintenance { node_id, enable } = route(request.method, request.path) {
        if exists|i: int| first_of(session.brokers, node_id, i) {
            let i = choose|i: int| first_of(session.brokers, node_id, i);
            assert(first_of(session.brokers, node_id, i));
        }
    }
}

/// Reading changes nothing: whatever is asked with `GET`, the session stays
/// as it was.
pub proof fn reading_changes_nothing(session: SessionView, path: Seq<char>)
    ensures
        left_behind(session, AdminRequestView { method: "GET"@, path }) == session,
{
    lemma_methods_differ();
}

/// Maintenance sticks: once a known node was put into maintenance, or taken
/// out, a client that asks for the brokers reads it as such, and every other
/// broker as before.
pub proof fn maintenance_sticks(session: SessionView, k: int, enable: bool)
    requires
        numbered(session.brokers),
        0 <= k < session.brokers.len(),
    ensures
        ({
            let node_id = session.brokers[k].node_id;
            let after = left_behind(session, requested(maintenance_ask(node_id, enable)));
            let told = brokers_told(answered(after, requested(brokers_ask())).document);
            &&& find(session.brokers, node_id) matches Some(i)
            &&& told == Ok::<Seq<BrokerView>, FaultView>(
                with_draining(session.brokers, i, enable),
            )
            &&& with_draining(session.brokers, i, enable)[i].node_id == node_id
            &&& with_draining(session.brokers, i, enable)[i].draining == enable
            &&& answered(session, requested(maintenance_ask(node_id, enable))).status == 200
        }),
{
    let node_id = session.brokers[k].node_id;
    maintenance_is_served(node_id, enable);
    lemma_find_some(session.brokers, node_id, k);
    let i = find(session.brokers, node_id)->0;
    let changed = with_draining(session.brokers, i, enable);
    brokers_are_served();
    assert(numbered(changed));
    brokers_are_read_back(changed);
}

/// The last wish stands: whatever was asked for a node before, what is asked
/// last leaves the session as if it alone had been asked.
pub proof fn the_last_wish_stands(session: SessionView, node_id: int, first: bool, last: bool)
    requires
        i64::MIN <= node_id <= i64::MAX,
    ensures
        ({
            let between = left_behind(session, requested(maintenance_ask(node_id, first)));
            left_behind(between, requested(maintenance_ask(node_id, last))) == left_behind(
                session,
                requested(maintenance_ask(node_id, last)),
            )
        }),
{
    maintenance_is_served(node_id, first);
    maintenance_is_served(node_id, last);
    if exists|i: int| first_of(session.brokers, node_id, i) {
        let i = choose|i: int| first_of(session.brokers, node_id, i);
        lemma_find_first(session.brokers, node_id, i);
        let between = with_draining(session.brokers, i, first);
        lemma_first_stays(session.brokers, between, node_id, i);
        assert(with_draining(between, i, last) == with_draining(session.brokers, i, last));
    }
}

/// Asking again changes nothing: any request answered a second time gets the
/// same answer and leaves the same session.
pub proof fn asking_again_changes_nothing(session: SessionView, request: AdminRequestView)
    ensures
        answered(left_behind(session, request), request) == answered(session, request),
        left_behind(left_behind(session, request), request) == left_behind(session, request),
{
    if let Route::Maintenance { node_id, enable } = route(request.method, request.path) {
        if exists|i: int| first_of(session.brokers, node_id, i) {
            let i = choose|i: int| first_of(session.brokers, node_id, i);
            lemma_find_first(session.brokers, node_id, i);
            let between = with_draining(session.brokers, i, enable);
            lemma_first_stays(session.brokers, between, node_id, i);
            assert(with_draining(between, i, enable) == between);
        }
    }
}

/// The session that these requests leave behind, one after another.
pub open spec fn left_by(session: SessionView, requests: Seq<AdminRequestView>) -> SessionView
    decreases requests.len(),
{
    if requests.len() == 0 {
        session
    } else {
        left_behind(left_by(session, requests.drop_last()), requests.last())
    }
}

/// Whether a request asks nothing of the maintenance of a node.
pub open spec fn spares(request: AdminRequestView, node_id: int) -> bool {
    match route(request.method, request.path) {
        Route::Maintenance { node_id: other, .. } => other != node_id,
        _ => true,
    }
}

/// Brokers of the same numbers have the same first broker of a node.
proof fn lemma_first_stays(
    before: Seq<BrokerView>,
    after: Seq<BrokerView>,
    node_id: int,
    i: int,
)
    requires
        first_of(before, node_id, i),
        after.len() == before.len(),
        forall|j: int|
            0 <= j < before.len() ==> (#[trigger] after[j]).node_id == before[j].node_id,
    ensures
        first_of(after, node_id, i),
        find(after, node_id) == Some(i),
{
    assert forall|j: int| 0 <= j < i implies (#[trigger] after[j]).node_id != node_id by {
        assert(before[j].node_id != node_id);
    }
    lemma_find_first(after, node_id, i);
}

/// What requests that spare a node leave of its first broker: all of it.
proof fn lemma_spared(session: SessionView, requests: Seq<AdminRequestView>, node_id: int, i: int)
    requires
        first_of(session.brokers, node_id, i),
        forall|k: int| 0 <= k < requests.len() ==> spares(#[trigger] requests[k], node_id),
    ensures
        left_by(session, requests).brokers.len() == session.brokers.len(),
        first_of(left_by(session, requests).brokers, node_id, i),
        left_by(session, requests).brokers[i] == session.brokers[i],
        forall|j: int|
            0 <= j < session.brokers.len() ==> (#[trigger] left_by(session, requests).brokers[j]).node_id
                == session.brokers[j].node_id,
    decreases requests.len(),
{
    if requests.len() > 0 {
        let earlier = requests.drop_last();
        let last = requests.last();
        assert forall|k: int| 0 <= k < earlier.len() implies spares(
            #[trigger] earlier[k],
            node_id,
        ) by {
            assert(spares(requests[k], node_id));
        }
        lemma_spared(session, earlier, node_id, i);
        let between = left_by(session, earlier);
        requests_keep_the_cluster(between, last);
        let after = left_behind(between, last);
        assert forall|j: int| 0 <= j < session.brokers.len() implies (
        #[trigger] after.brokers[j]).node_id == session.brokers[j].node_id by {
            assert(between.brokers[j].node_id == session.brokers[j].node_id);
        }
        lemma_first_stays(between.brokers, after.brokers, node_id, i);
        assert(spares(requests[requests.len() - 1], node_id));
        if let Route::Maintenance { node_id: other, enable } = route(last.method, last.path) {
            if exists|j: int| first_of(between.brokers, other, j) {
                let j = choose|j: int| first_of(between.brokers, other, j);
                assert(first_of(between.brokers, other, j));
            }
        }
    }
}

/// Maintenance sticks for as long as nobody asks otherwise: once a known
/// node was put into maintenance, or taken out, a client that asks for the
/// brokers after any requests that spare the node reads it as such, and with
/// its number, status and life.
pub proof fn maintenance_sticks_while_spared(
    session: SessionView,
    k: int,
    enable: bool,
    requests: Seq<AdminRequestView>,
)
    requires
        numbered(session.brokers),
        0 <= k < session.brokers.len(),
        forall|i: int|
            0 <= i < requests.len() ==> spares(
                #[trigger] requests[i],
                session.brokers[k].node_id,
            ),
    ensures
        ({
            let node_id = session.brokers[k].node_id;
            let asked = left_behind(session, requested(maintenance_ask(node_id, enable)));
            let after = left_by(asked, requests);
            let told = brokers_told(answered(after, requested(brokers_ask())).document);
            &&& find(session.brokers, node_id) matches Some(i)
            &&& told matches Ok(brokers)
            &&& find(brokers, node_id) == Some(i)
            &&& brokers[i] == (BrokerView { draining: enable, ..session.brokers[i] })
        }),
{
    let node_id = session.brokers[k].node_id;
    maintenance_is_served(node_id, enable);
    lemma_find_some(session.brokers, node_id, k);
    let i = find(session.brokers, node_id)->0;
    let asked = left_behind(session, requested(maintenance_ask(node_id, enable)));
    assert(asked.brokers == with_draining(session.brokers, i, enable));
    lemma_first_stays(session.brokers, asked.brokers, node_id, i);
    lemma_spared(asked, requests, node_id, i);
    let after = left_by(asked, requests);
    lemma_find_first(after.brokers, node_id, i);
    assert forall|j: int| 0 <= j < after.brokers.len() implies i64::MIN <= (
    #[trigger] after.brokers[j]).node_id <= i64::MAX by {
        assert(session.brokers[j].node_id == asked.brokers[j].node_id);
    }
    brokers_are_served();
    brokers_are_read_back(after.brokers);
}

/// Taking a node out undoes putting it in: a session whose node was not in
/// maintenance is left as it was.
pub proof fn maintenance_is_undone(session: SessionView, k: int)
    requires
        numbered(session.brokers),
        0 <= k < session.brokers.len(),
        !session.brokers[find(session.brokers, session.brokers[k].node_id)->0].draining,
    ensures
        ({
            let node_id = session.brokers[k].node_id;
            let during = left_behind(session, requested(maintenance_ask(node_id, true)));
            left_behind(during, requested(maintenance_ask(node_id, false))) == session
        }),
{
    let node_id = session.brokers[k].node_id;
    the_last_wish_stands(session, node_id, true, false);
    maintenance_is_served(node_id, false);
    lemma_find_some(session.brokers, node_id, k);
    let i = find(session.brokers, node_id)->0;
    assert(with_draining(session.brokers, i, false) == session.brokers);
}

/// A node that the cluster does not have is refused: nothing changes, and
/// the client reads a fault that is not worth another try.
pub proof fn unknown_nodes_are_refused(
    session: SessionView,
    node_id: int,
    enable: bool,
    body: Seq<u8>,
)
    requires
        i64::MIN <= node_id <= i64::MAX,
        forall|i: int|
            0 <= i < session.brokers.len() ==> (#[trigger] session.brokers[i]).node_id != node_id,
    ensures
        ({
            let ask = maintenance_ask(node_id, enable);
            let answer = answered(session, requested(ask));
            &&& answer.status == 404
            &&& answer.document == message_document("node not found"@)
            &&& left_behind(session, requested(ask)) == session
            &&& maintenance_heard(
                node_id,
                enable,
                ReplyView::Answered { status: answer.status, body },
            ) == Err::<(), FaultView>(FaultView::Permanent(refusal(ask, 404)))
            &&& FaultView::Permanent(refusal(ask, 404)).retryable() == Some(false)
        }),
{
    maintenance_is_served(node_id, enable);
}

/// Whether a client that gets the answer to a request with this body hears
/// what the session answered.
pub open spec fn heard_as_answered(
    session: SessionView,
    request: AdminRequestView,
    body: Seq<u8>,
) -> bool {
    let reply = ReplyView::Answered { status: answered(session, request).status, body };
    match route(request.method, request.path) {
        Route::Brokers => brokers_heard(reply) == Ok::<Seq<BrokerView>, FaultView>(session.brokers),
        Route::Status => statuses_heard(reply) == Ok::<Seq<ConfigStatusView>, FaultView>(
            settled(session.brokers, session.config_version),
        ),
        Route::Maintenance { node_id, enable } => if find(session.brokers, node_id) is Some {
            maintenance_heard(node_id, enable, reply) == Ok::<(), FaultView>(())
        } else {
            maintenance_heard(node_id, enable, reply) == Err::<(), FaultView>(
                FaultView::Permanent(refusal(maintenance_ask(node_id, enable), 404)),
            )
        },
        Route::Unserved => forall|ask: CallView| #[trigger]
            judged(ask, reply) == Err::<Json, FaultView>(FaultView::Permanent(refusal(ask, 404))),
    }
}

/// A body that is read as the document answered lets the client hear what
/// the session answered.
pub proof fn answers_are_heard(session: SessionView, request: AdminRequestView, body: Seq<u8>)
    requires
        numbered(session.brokers),
        i64::MIN <= session.config_version <= i64::MAX,
        body.len() > 0,
        json_read(body) == Ok::<Json, Seq<char>>(answered(session, request).document),
    ensures
        heard_as_answered(session, request, body),
{
    brokers_are_read_back(session.brokers);
    statuses_are_read_back(session.brokers, session.config_version);
}

/// What a session answers can be read: it nests little and holds no number
/// but integers.
pub proof fn answers_are_plain(session: SessionView, request: AdminRequestView)
    ensures
        plain(answered(session, request).document, readable_depth()),
{
    reveal_with_fuel(plain, 4);
    let document = answered(session, request).document;
    match route(request.method, request.path) {
        Route::Brokers => {
            assert forall|i: int| 0 <= i < session.brokers.len() implies plain(
                #[trigger] document->List_0[i],
                126,
            ) by {
                assert(document->List_0[i] == broker_document(session.brokers[i]));
            }
        },
        Route::Status => {
            assert forall|i: int| 0 <= i < session.brokers.len() implies plain(
                #[trigger] document->List_0[i],
                126,
            ) by {
                assert(document->List_0[i] == status_document(
                    session.brokers[i].node_id,
                    session.config_version,
                ));
            }
        },
        _ => {},
    }
}

/// Where a receive stands after all this was heard, one thing after another
/// from its first step on; nothing where something was heard that does not
/// come of the step before it.
pub open spec fn run(transport: TransportView, heard: Seq<HeardView>) -> Option<
    Result<StepView, FaultView>,
>
    decreases heard.len(),
{
    if heard.len() == 0 {
        Some(Ok(transport.first()))
    } else {
        match run(transport, heard.drop_last()) {
            Some(Ok(step)) => if comes_of(step, heard.last()) {
                Some(transport.after(step, heard.last()))
            } else {
                None
            },
            _ => None,
        }
    }
}

/// Whether the Admin API, asked first, said that the node is known, alive
/// and not in maintenance.
pub open spec fn said_fit(transport: TransportView, heard: Seq<HeardView>) -> bool {
    &&& heard.len() > 0
    &&& heard[0] matches HeardView::Replied(reply)
    &&& brokers_heard(reply) matches Ok(brokers)
    &&& find(brokers, transport.node) matches Some(i)
    &&& !brokers[i].draining
    &&& brokers[i].is_alive
}

/// How much is heard before the connection to the configured broker is
/// made: the reply of the Admin API, where there is one to consult.
pub open spec fn before_connecting(transport: TransportView) -> int {
    if transport.admin is Some {
        1
    } else {
        0
    }
}

/// What is true of a receive at each of its steps.
spec fn in_order(transport: TransportView, heard: Seq<HeardView>, step: StepView) -> bool {
    let b = before_connecting(transport);
    &&& !(step is Consult) && transport.admin is Some ==> said_fit(transport, heard)
    &&& match step {
        StepView::Consult { .. } => heard.len() == 0 && step == transport.first(),
        StepView::Connect(dial) => heard.len() == b && dial == transport.dial(transport.broker),
        StepView::Locate { topic } => heard.len() == b + 1 && topic == transport.topic,
        StepView::Reroute(dial) => heard.len() == b + 2 && rerouted(transport, heard, dial.address)
            && dial == transport.dial(dial.address),
        StepView::Fetch { .. } => step == transport.fetch() && at_leader(transport, heard),
        StepView::Done(_) => heard.len() > 0 && heard.last() is Fetched,
    }
}

/// Whether the broker named another as the leader.
pub open spec fn rerouted(
    transport: TransportView,
    heard: Seq<HeardView>,
    leader: Seq<char>,
) -> bool {
    let b = before_connecting(transport);
    &&& heard.len() > b + 1
    &&& heard[b + 1] == (HeardView::Located { leader })
    &&& leader.len() > 0
    &&& leader != transport.broker
}

/// Whether the connection held is to the leader: the configured broker was
/// connected to and named itself, or it named another and that one was
/// connected to in its place.
pub open spec fn at_leader(transport: TransportView, heard: Seq<HeardView>) -> bool {
    let b = before_connecting(transport);
    &&& heard.len() >= b + 2
    &&& heard[b] is Connected
    &&& heard[b + 1] matches HeardView::Located { leader }
    &&& leader.len() > 0
    &&& if leader != transport.broker {
        &&& heard.len() == b + 3
        &&& heard[b + 2] is Connected
        &&& run(transport, heard.drop_last()) == Some(
            Ok::<StepView, FaultView>(StepView::Reroute(transport.dial(leader))),
        )
    } else {
        heard.len() == b + 2
    }
}

proof fn lemma_in_order(transport: TransportView, heard: Seq<HeardView>, step: StepView)
    requires
        run(transport, heard) == Some(Ok::<StepView, FaultView>(step)),
    ensures
        in_order(transport, heard, step),
        heard.len() > before_connecting(transport) ==> heard[before_connecting(
            transport,
        )] is Connected,
    decreases heard.len(),
{
    if heard.len() > 0 {
        let earlier = heard.drop_last();
        let previous = run(transport, earlier)->0->Ok_0;
        lemma_in_order(transport, earlier, previous);
        assert forall|i: int| 0 <= i < earlier.len() implies earlier[i] == heard[i] by {}
    }
}

/// A broker being drained is not fetched from: wherever an Admin API is
/// configured, no step but the question to it is taken until it has said
/// that the node is known, alive and not in maintenance.
pub proof fn work_waits_for_the_admin_api(
    transport: TransportView,
    heard: Seq<HeardView>,
    step: StepView,
)
    requires
        transport.admin is Some,
        run(transport, heard) == Some(Ok::<StepView, FaultView>(step)),
        !(step is Consult),
    ensures
        said_fit(transport, heard),
{
    lemma_in_order(transport, heard, step);
}

/// Nothing follows a fault: a receive that met one is over.
pub proof fn nothing_follows_a_fault(
    transport: TransportView,
    heard: Seq<HeardView>,
    later: Seq<HeardView>,
)
    requires
        run(transport, heard) matches Some(Err(_)),
        later.len() > 0,
    ensures
        run(transport, heard + later) is None,
    decreases later.len(),
{
    let all = heard + later;
    assert(all.drop_last() == heard + later.drop_last());
    if later.len() == 1 {
        assert(heard + later.drop_last() == heard);
    } else {
        nothing_follows_a_fault(transport, heard, later.drop_last());
    }
}

/// A refusal ends the receive: where the Admin API says anything else of the
/// node, the receive is over, and the transport is as it was.
pub proof fn refusals_end_the_receive(transport: TransportView, reply: ReplyView)
    requires
        transport.admin is Some,
        transport.ready(reply) is Err,
    ensures
        run(transport, seq![HeardView::Replied(reply)]) == Some(
            Err::<StepView, FaultView>(transport.ready(reply)->Err_0),
        ),
        transport.moved(HeardView::Replied(reply)) == transport,
{
    let first = seq![HeardView::Replied(reply)];
    assert(first.drop_last() == Seq::<HeardView>::empty());
    reveal_with_fuel(run, 2);
}

/// A failure is handed on: where a step cannot be taken, be it a question, a
/// connection, a lookup or a fetch, the receive ends with that very fault,
/// and the transport, its cursor with it, is as it was.
pub proof fn failures_are_handed_on(
    transport: TransportView,
    heard: Seq<HeardView>,
    step: StepView,
    fault: FaultView,
)
    requires
        run(transport, heard) == Some(Ok::<StepView, FaultView>(step)),
        !(step is Done),
    ensures
        run(transport, heard.push(HeardView::Failed(fault))) == Some(
            Err::<StepView, FaultView>(fault),
        ),
        transport.moved(HeardView::Failed(fault)) == transport,
{
    assert(heard.push(HeardView::Failed(fault)).drop_last() == heard);
}

/// A topic without a leader is not fetched from: where the configured broker
/// names none, the receive ends with a fault worth another try, and the
/// transport is as it was.
pub proof fn topics_without_a_leader_are_refused(
    transport: TransportView,
    heard: Seq<HeardView>,
    step: StepView,
)
    requires
        run(transport, heard) == Some(Ok::<StepView, FaultView>(step)),
        step is Locate,
    ensures
        ({
            let nobody = HeardView::Located { leader: Seq::empty() };
            &&& run(transport, heard.push(nobody)) matches Some(Err(fault))
            &&& fault.retryable() == Some(true)
            &&& transport.moved(nobody) == transport
        }),
{
    let nobody = HeardView::Located { leader: Seq::empty() };
    assert(heard.push(nobody).drop_last() == heard);
}

/// What a refusal says: a node in maintenance and one that is not alive are
/// worth another try, one that the Admin API does not know is not.
pub proof fn refusals_say_whether_to_retry(node: int, brokers: Seq<BrokerView>)
    ensures
        match find(brokers, node) {
            None => fit(node, brokers) matches Err(fault) && fault.retryable() == Some(false),
            Some(i) => if brokers[i].draining || !brokers[i].is_alive {
                fit(node, brokers) matches Err(fault) && fault.retryable() == Some(true)
            } else {
                fit(node, brokers) == Ok::<(), FaultView>(())
            },
        },
{
}

/// Where no Admin API is configured, none is consulted.
pub proof fn nobody_is_consulted_unasked(
    transport: TransportView,
    heard: Seq<HeardView>,
    step: StepView,
)
    requires
        transport.admin is None,
        run(transport, heard) == Some(Ok::<StepView, FaultView>(step)),
    ensures
        !(step is Consult),
{
    lemma_in_order(transport, heard, step);
    if heard.len() == 0 {
        assert(step == transport.first());
    }
}

/// A fetch is made at the partition's leader, of this transport's topic and
/// partition, from the cursor on.
pub proof fn fetches_are_made_at_the_leader(
    transport: TransportView,
    heard: Seq<HeardView>,
    step: StepView,
)
    requires
        run(transport, heard) == Some(Ok::<StepView, FaultView>(step)),
        step is Fetch,
    ensures
        at_leader(transport, heard),
        step == (StepView::Fetch {
            topic: transport.topic,
            partition: transport.partition,
            offset: transport.cursor,
        }),
{
    lemma_in_order(transport, heard, step);
}

/// The next receive reads on behind the last record: it fetches from the
/// offset after it, and where nothing was fetched, from the same offset.
pub proof fn receives_read_on(transport: TransportView, records: Seq<RecordView>)
    ensures
        ({
            let next = transport.moved(HeardView::Fetched(records));
            &&& next.fetch() == (StepView::Fetch {
                topic: transport.topic,
                partition: transport.partition,
                offset: if records.len() == 0 {
                    transport.cursor
                } else {
                    records.last().offset + 1
                },
            })
            &&& next.first() == transport.first()
        }),
{
}

/// Whether records are what a fetch from an offset on brings: none before
/// it, each behind the one before.
pub open spec fn from_on(records: Seq<RecordView>, offset: int) -> bool {
    &&& forall|i: int| 0 <= i < records.len() ==> offset <= (#[trigger] records[i]).offset
    &&& forall|i: int, j: int|
        0 <= i < j < records.len() ==> (#[trigger] records[i]).offset < (
        #[trigger] records[j]).offset
}

/// The transport after these fetches, one for each receive.
pub open spec fn after_fetches(
    transport: TransportView,
    fetches: Seq<Seq<RecordView>>,
) -> TransportView
    decreases fetches.len(),
{
    if fetches.len() == 0 {
        transport
    } else {
        after_fetches(transport, fetches.drop_last()).past(fetches.last())
    }
}

/// Whether each of these fetches brings what a fetch from the cursor on
/// brings, the cursor being where the fetches before it left it.
pub open spec fn fetched_in_turn(transport: TransportView, fetches: Seq<Seq<RecordView>>) -> bool {
    forall|k: int|
        0 <= k < fetches.len() ==> from_on(
            #[trigger] fetches[k],
            after_fetches(transport, fetches.take(k)).cursor,
        )
}

/// The cursor never goes back, and comes to stand behind every record.
pub proof fn cursors_never_go_back(transport: TransportView, records: Seq<RecordView>)
    requires
        from_on(records, transport.cursor),
    ensures
        transport.moved(HeardView::Fetched(records)).cursor >= transport.cursor,
        forall|i: int|
            0 <= i < records.len() ==> (#[trigger] records[i]).offset < transport.moved(
                HeardView::Fetched(records),
            ).cursor,
{
}

/// After any receives the cursor stands no earlier than before them, and
/// behind every record that they brought.
proof fn lemma_cursor_behind(transport: TransportView, fetches: Seq<Seq<RecordView>>)
    requires
        fetched_in_turn(transport, fetches),
    ensures
        after_fetches(transport, fetches).cursor >= transport.cursor,
        forall|k: int, i: int|
            0 <= k < fetches.len() && 0 <= i < fetches[k].len() ==> (
            #[trigger] fetches[k][i]).offset < after_fetches(transport, fetches).cursor,
    decreases fetches.len(),
{
    if fetches.len() > 0 {
        let earlier = fetches.drop_last();
        let between = after_fetches(transport, earlier);
        assert forall|k: int| 0 <= k < earlier.len() implies from_on(
            #[trigger] earlier[k],
            after_fetches(transport, earlier.take(k)).cursor,
        ) by {
            assert(earlier[k] == fetches[k]);
            assert(earlier.take(k) == fetches.take(k));
        }
        lemma_cursor_behind(transport, earlier);
        assert(fetches.take(fetches.len() - 1) == earlier);
        assert(from_on(fetches[fetches.len() - 1], between.cursor));
        cursors_never_go_back(between, fetches.last());
        assert forall|k: int, i: int|
            0 <= k < fetches.len() && 0 <= i < fetches[k].len() implies (
        #[trigger] fetches[k][i]).offset < after_fetches(transport, fetches).cursor by {
            if k < earlier.len() {
                assert(earlier[k][i] == fetches[k][i]);
            }
        }
    }
}

/// No record comes twice: of the records that any number of receives in a
/// row bring, those of a later receive lie behind all of an earlier one.
pub proof fn no_record_comes_twice(
    transport: TransportView,
    fetches: Seq<Seq<RecordView>>,
    earlier: int,
    later: int,
    i: int,
    j: int,
)
    requires
        fetched_in_turn(transport, fetches),
        0 <= earlier < later < fetches.len(),
        0 <= i < fetches[earlier].len(),
        0 <= j < fetches[later].len(),
    ensures
        fetches[earlier][i].offset < fetches[later][j].offset,
{
    let before = fetches.take(later);
    assert forall|k: int| 0 <= k < before.len() implies from_on(
        #[trigger] before[k],
        after_fetches(transport, before.take(k)).cursor,
    ) by {
        assert(before[k] == fetches[k]);
        assert(before.take(k) == fetches.take(k));
    }
    lemma_cursor_behind(transport, before);
    assert(before[earlier][i] == fetches[earlier][i]);
    assert(from_on(fetches[later], after_fetches(transport, before).cursor));
}

/// Every record of a fetch arrives, in order: its bytes under the URI of
/// its offset.
pub proof fn records_arrive_whole(transport: TransportView, records: Seq<RecordView>, i: int)
    requires
        0 <= i < records.len(),
    ensures
        transport.arrivals(records).len() == records.len(),
        transport.arrivals(records)[i].origin_uri == transport.origin(records[i].offset),
        records[i].value matches Some(bytes) ==> transport.arrivals(records)[i].bytes == bytes,
        records[i].value is None ==> transport.arrivals(records)[i].bytes.len() == 0,
{
}

/// The origin tells the records of a transport apart: no two offsets have
/// the same URI.
pub proof fn origins_tell_offsets_apart(transport: TransportView, a: int, b: int)
    requires
        i64::MIN <= a <= i64::MAX,
        i64::MIN <= b <= i64::MAX,
        transport.origin(a) == transport.origin(b),
    ensures
        a == b,
{
    let front = "redpanda://"@ + transport.broker + "/"@ + transport.topic + "/"@ + decimal(
        transport.partition,
    ) + "?offset="@;
    let n = front.len() as int;
    assert(transport.origin(a) == front + decimal(a));
    assert(transport.origin(b) == front + decimal(b));
    assert((front + decimal(a)).skip(n) == decimal(a));
    assert((front + decimal(b)).skip(n) == decimal(b));
    lemma_decimal_is_read_back(a, i64::MIN as int, i64::MAX as int);
    lemma_decimal_is_read_back(b, i64::MIN as int, i64::MAX as int);
}

/// A target `peer/topic` whose peer has a port names both.
pub proof fn peers_with_a_port_are_named(
    transport: TransportView,
    peer: Seq<char>,
    topic: Seq<char>,
)
    requires
        !peer.contains('/'),
        peer.contains(':'),
    ensures
        transport.resolved(None, peer + seq!['/'] + topic) == (peer, topic),
{
    let target = peer + seq!['/'] + topic;
    let i = peer.len() as int;
    assert forall|j: int| 0 <= j < i implies target[j] != '/' by {
        assert(target[j] == peer[j]);
    }
    assert(first_at(target, '/', i));
    lemma_cut_at_first(target, '/', i);
    assert(target.take(i) == peer);
    assert(target.skip(i + 1) == topic);
}

/// A target without a slash, or with no port before its first slash, is a
/// topic alone, as a whole, and is sent to the transport's own broker.
pub proof fn topics_alone_go_to_the_own_broker(
    transport: TransportView,
    front: Seq<char>,
    rest: Seq<char>,
)
    requires
        !front.contains('/'),
    ensures
        transport.resolved(None, front) == (transport.broker, front),
        !front.contains(':') ==> transport.resolved(None, front + seq!['/'] + rest) == (
            transport.broker,
            front + seq!['/'] + rest,
        ),
{
    let target = front + seq!['/'] + rest;
    let i = front.len() as int;
    assert forall|j: int| 0 <= j < i implies target[j] != '/' by {
        assert(target[j] == front[j]);
    }
    assert(first_at(target, '/', i));
    lemma_cut_at_first(target, '/', i);
    assert(target.take(i) == front);
}

/// A target that is a URI goes where the URI says, to the transport's own
/// topic where the URI names none.
pub proof fn uris_are_followed(
    transport: TransportView,
    peer: Seq<char>,
    topic: Seq<char>,
    target: Seq<char>,
)
    ensures
        transport.resolved(Some((peer, topic)), target).0 == peer,
        transport.resolved(Some((peer, topic)), target).1 == (if topic.len() == 0 {
            transport.topic
        } else {
            topic
        }),
{
}

/// A record for a far end goes there, on this transport's topic and
/// partition, even where the topic reads as a target of its own.
pub proof fn far_ends_are_sent_the_own_topic(
    transport: TransportView,
    address: Seq<char>,
    payload: Seq<u8>,
)
    ensures
        ({
            let delivery = transport.delivery_to(address, payload);
            &&& delivery.dial == transport.dial(address)
            &&& delivery.topic == transport.topic
            &&& delivery.partition == transport.partition
            &&& delivery.key is None
            &&& delivery.value == payload
        }),
{
}

/// Whether what a far end was given is one record with the value that was
/// produced.
pub open spec fn carried(delivery: DeliveryView, produced: Option<ArrivedView>) -> bool {
    produced matches Some(arrived) && arrived.bytes == delivery.value
}

/// A payload for a far end is taken whole, whatever its bytes and however
/// many, none included: it is produced as it is and handed on as it was
/// produced, so that it comes out as it went in wherever the connection
/// between carries it.
pub proof fn payloads_are_taken_whole(
    transport: TransportView,
    address: Seq<char>,
    payload: Seq<u8>,
    produced: Option<ArrivedView>,
)
    requires
        carried(transport.delivery_to(address, payload), produced),
    ensures
        taken(produced) matches Ok(arrived) && arrived.bytes == payload,
{
}

} // verus!
