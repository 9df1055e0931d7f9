//! What holds of the far end of the Admin API, said of the requests as they
//! are written and the answers as they are read.

use vstd::prelude::*;
use vstd::string::*;
use vstd::utf8::*;

use crate::admin::BrokerView;
use crate::fault::FaultView;
use crate::json::Json;
use crate::laws::lemma_find_some;
use crate::session::{
    accepted, answered, broker_document, find, first_of, lemma_find_first, lemma_methods_differ,
    length_read, message_document, request_read, response, segments, status_document, text_of,
    Accepted, AcceptedView, AdminRequest, AdminRequestView, SessionView,
};
use crate::text::{
    decimal, integer, is_space, lemma_last_piece, lemma_one_piece, length, pieces, spaceless, texts,
    trimmed, words,
};
use crate::text_laws::{
    blank, blank_texts_have_no_words, ends_are_trimmed, joined, lengths_are_read,
    pieces_are_put_together_again, repeated, trimming_takes_only_the_ends, words_are_runs, zeros,
};
use crate::transport_laws::stands_first;

verus! {

/// A path with slashes at its ends, as many as may be.
pub open spec fn slashed(lead: nat, core: Seq<char>, trail: nat) -> Seq<char> {
    repeated('/', lead) + core + repeated('/', trail)
}

/// The path of a node's maintenance, the slashes at its ends aside.
pub open spec fn maintenance_core(id: Seq<char>) -> Seq<char> {
    "v1/brokers/"@ + id + "/maintenance"@
}

/// The request for a node's maintenance, or for its end, under whatever
/// slashes.
pub open spec fn maintenance_request(
    enable: bool,
    lead: nat,
    id: Seq<char>,
    trail: nat,
) -> AdminRequestView {
    AdminRequestView {
        method: if enable {
            "PUT"@
        } else {
            "DELETE"@
        },
        path: slashed(lead, maintenance_core(id), trail),
    }
}

/// The node that a path names, however it is written: node -1 where it is
/// not written as a number.
pub open spec fn node_named(id: Seq<char>) -> int {
    match integer(id) {
        Some(n) => n,
        None => -1,
    }
}

proof fn lemma_cores(id: Seq<char>)
    ensures
        "v1/brokers"@ == "v1"@ + seq!['/'] + "brokers"@,
        "v1/cluster_config/status"@ == "v1"@ + seq!['/'] + "cluster_config"@ + seq!['/']
            + "status"@,
        maintenance_core(id) == "v1"@ + seq!['/'] + "brokers"@ + seq!['/'] + id + seq!['/']
            + "maintenance"@,
        !"v1"@.contains('/'),
        !"brokers"@.contains('/'),
        !"cluster_config"@.contains('/'),
        !"status"@.contains('/'),
        !"maintenance"@.contains('/'),
        "v1/brokers"@.len() > 0 && "v1/brokers"@[0] != '/' && "v1/brokers"@.last() != '/',
        "v1/cluster_config/status"@.len() > 0 && "v1/cluster_config/status"@[0] != '/'
            && "v1/cluster_config/status"@.last() != '/',
        maintenance_core(id).len() > 0 && maintenance_core(id)[0] != '/' && maintenance_core(
            id,
        ).last() != '/',
{
    reveal_strlit("v1");
    reveal_strlit("brokers");
    reveal_strlit("cluster_config");
    reveal_strlit("status");
    reveal_strlit("maintenance");
    reveal_strlit("v1/brokers");
    reveal_strlit("v1/brokers/");
    reveal_strlit("v1/cluster_config/status");
    reveal_strlit("/maintenance");
    assert("v1/brokers/"@ == "v1"@ + seq!['/'] + "brokers"@ + seq!['/']);
    assert("/maintenance"@ == seq!['/'] + "maintenance"@);
    assert(maintenance_core(id)[0] == 'v');
    assert(maintenance_core(id).last() == 'e');
}

proof fn lemma_segments(lead: nat, id: Seq<char>, trail: nat)
    ensures
        segments(slashed(lead, "v1/brokers"@, trail)) == seq!["v1"@, "brokers"@],
        segments(slashed(lead, "v1/cluster_config/status"@, trail)) == seq![
            "v1"@,
            "cluster_config"@,
            "status"@,
        ],
        !id.contains('/') ==> segments(slashed(lead, maintenance_core(id), trail)) == seq![
            "v1"@,
            "brokers"@,
            id,
            "maintenance"@,
        ],
{
    lemma_cores(id);
    lemma_one_piece("v1"@, '/');
    lemma_last_piece("v1"@, '/', "brokers"@);
    lemma_last_piece("v1"@, '/', "cluster_config"@);
    lemma_last_piece("v1"@ + seq!['/'] + "cluster_config"@, '/', "status"@);
    ends_are_trimmed(lead, "v1/brokers"@, trail, '/');
    ends_are_trimmed(lead, "v1/cluster_config/status"@, trail, '/');
    assert(pieces("v1/brokers"@, '/') == seq!["v1"@, "brokers"@]);
    assert(pieces("v1/cluster_config/status"@, '/') == seq!["v1"@, "cluster_config"@, "status"@]);
    if !id.contains('/') {
        let front = "v1"@ + seq!['/'] + "brokers"@;
        let middle = front + seq!['/'] + id;
        lemma_last_piece(front, '/', id);
        lemma_last_piece(middle, '/', "maintenance"@);
        ends_are_trimmed(lead, maintenance_core(id), trail, '/');
        assert(pieces(maintenance_core(id), '/') == seq!["v1"@, "brokers"@, id, "maintenance"@]);
    }
}

/// Whether a document is a broker as the API lists one: these fields, each
/// with this of the broker, and no others.
pub open spec fn lists_broker(document: Json, b: BrokerView) -> bool {
    &&& document matches Json::Fields(f)
    &&& f.dom() == set![
        "node_id"@,
        "num_cores"@,
        "membership_status"@,
        "is_alive"@,
        "maintenance_status"@,
    ]
    &&& f["node_id"@] == Json::Int(b.node_id)
    &&& f["num_cores"@] == Json::Int(1)
    &&& f["membership_status"@] == Json::Text(b.membership_status)
    &&& f["is_alive"@] == Json::Bool(b.is_alive)
    &&& f["maintenance_status"@] matches Json::Fields(g)
    &&& g.dom() == set!["draining"@, "finished"@]
    &&& g["draining"@] == Json::Bool(b.draining)
    &&& g["finished"@] == Json::Bool(b.draining)
}

/// Whether a document is the status of a node that has taken on the
/// configuration: these fields and no others.
pub open spec fn lists_status(document: Json, node_id: int, config_version: int) -> bool {
    &&& document matches Json::Fields(f)
    &&& f.dom() == set!["node_id"@, "restart"@, "config_version"@, "invalid"@, "unknown"@]
    &&& f["node_id"@] == Json::Int(node_id)
    &&& f["restart"@] == Json::Bool(false)
    &&& f["config_version"@] == Json::Int(config_version)
    &&& f["invalid"@] == Json::List(Seq::empty())
    &&& f["unknown"@] == Json::List(Seq::empty())
}

/// Whether a document says this and nothing else.
pub open spec fn says(document: Json, message: Seq<char>) -> bool {
    &&& document matches Json::Fields(f)
    &&& f.dom() == set!["message"@]
    &&& f["message"@] == Json::Text(message)
}

proof fn lemma_lists_broker(b: BrokerView)
    ensures
        lists_broker(broker_document(b), b),
{
    reveal_strlit("node_id");
    reveal_strlit("num_cores");
    reveal_strlit("membership_status");
    reveal_strlit("is_alive");
    reveal_strlit("maintenance_status");
    reveal_strlit("draining");
    reveal_strlit("finished");
    assert("draining"@[0] != "finished"@[0]);
    assert("node_id"@.len() == 7 && "num_cores"@.len() == 9 && "membership_status"@.len() == 17
        && "is_alive"@.len() == 8 && "maintenance_status"@.len() == 18);
    let f = broker_document(b)->Fields_0;
    assert(f.dom() =~= set![
        "node_id"@,
        "num_cores"@,
        "membership_status"@,
        "is_alive"@,
        "maintenance_status"@,
    ]);
    let g = f["maintenance_status"@]->Fields_0;
    assert(g.dom() =~= set!["draining"@, "finished"@]);
}

proof fn lemma_lists_status(node_id: int, config_version: int)
    ensures
        lists_status(
            status_document(node_id, config_version),
            node_id,
            config_version,
        ),
{
    reveal_strlit("node_id");
    reveal_strlit("restart");
    reveal_strlit("config_version");
    reveal_strlit("invalid");
    reveal_strlit("unknown");
    assert("node_id"@[0] == 'n' && "restart"@[0] == 'r' && "config_version"@[0] == 'c'
        && "invalid"@[0] == 'i' && "unknown"@[0] == 'u');
    let f = status_document(node_id, config_version)->Fields_0;
    assert(f.dom() =~= set!["node_id"@, "restart"@, "config_version"@, "invalid"@, "unknown"@]);
}

/// Asked for its brokers, under whatever slashes, a session lists all of
/// them, in order, each field by field as it stands, and changes none.
pub proof fn brokers_are_listed(session: SessionView, lead: nat, trail: nat)
    ensures
        ({
            let request = AdminRequestView {
                method: "GET"@,
                path: slashed(lead, "v1/brokers"@, trail),
            };
            let answer = answered(session, request);
            &&& answer.status == 200
            &&& answer.brokers == session.brokers
            &&& answer.document matches Json::List(items)
            &&& items.len() == session.brokers.len()
            &&& forall|i: int|
                0 <= i < items.len() ==> lists_broker(#[trigger] items[i], session.brokers[i])
        }),
{
    lemma_segments(lead, Seq::empty(), trail);
    assert forall|i: int| 0 <= i < session.brokers.len() implies lists_broker(
        broker_document(#[trigger] session.brokers[i]),
        session.brokers[i],
    ) by {
        lemma_lists_broker(session.brokers[i]);
    }
}

/// Asked for the state of its configuration, under whatever slashes, a
/// session lists every broker's, in order, and changes none.
pub proof fn statuses_are_listed(session: SessionView, lead: nat, trail: nat)
    ensures
        ({
            let request = AdminRequestView {
                method: "GET"@,
                path: slashed(lead, "v1/cluster_config/status"@, trail),
            };
            let answer = answered(session, request);
            &&& answer.status == 200
            &&& answer.brokers == session.brokers
            &&& answer.document matches Json::List(items)
            &&& items.len() == session.brokers.len()
            &&& forall|i: int|
                0 <= i < items.len() ==> lists_status(
                    #[trigger] items[i],
                    session.brokers[i].node_id,
                    session.config_version,
                )
        }),
{
    lemma_segments(lead, Seq::empty(), trail);
    assert(seq!["v1"@, "cluster_config"@, "status"@].len() == 3);
    assert forall|i: int| 0 <= i < session.brokers.len() implies lists_status(
        status_document(
            (#[trigger] session.brokers[i]).node_id,
            session.config_version,
        ),
        session.brokers[i].node_id,
        session.config_version,
    ) by {
        lemma_lists_status(session.brokers[i].node_id, session.config_version);
    }
}

/// Asked to put a node into maintenance, or to take it out, a session does
/// so to the first broker of that node and to no other, changes nothing else
/// of it, and answers with an empty document.
pub proof fn maintenance_is_set_on_the_first_of_the_node(
    session: SessionView,
    enable: bool,
    lead: nat,
    id: Seq<char>,
    trail: nat,
    i: int,
)
    requires
        !id.contains('/'),
        stands_first(session.brokers, node_named(id), i),
    ensures
        ({
            let request = maintenance_request(enable, lead, id, trail);
            let answer = answered(session, request);
            let before = session.brokers[i];
            let after = answer.brokers[i];
            &&& answer.status == 200
            &&& answer.document matches Json::Fields(f)
            &&& f.dom() == Set::<Seq<char>>::empty()
            &&& answer.brokers.len() == session.brokers.len()
            &&& after.draining == enable
            &&& after.node_id == before.node_id
            &&& after.is_alive == before.is_alive
            &&& after.membership_status == before.membership_status
            &&& forall|j: int|
                0 <= j < session.brokers.len() && j != i ==> #[trigger] answer.brokers[j]
                    == session.brokers[j]
        }),
{
    lemma_methods_differ();
    lemma_segments(lead, id, trail);
    assert(first_of(session.brokers, node_named(id), i));
    lemma_find_first(session.brokers, node_named(id), i);
    assert(Map::<Seq<char>, Json>::empty().dom() =~= Set::<Seq<char>>::empty());
}

/// Asked for the maintenance of a node that it does not have, a session says
/// so, with 404, and changes nothing.
pub proof fn nodes_that_are_not_there_are_not_found(
    session: SessionView,
    enable: bool,
    lead: nat,
    id: Seq<char>,
    trail: nat,
)
    requires
        !id.contains('/'),
        forall|j: int|
            0 <= j < session.brokers.len() ==> (#[trigger] session.brokers[j]).node_id
                != node_named(id),
    ensures
        ({
            let request = maintenance_request(enable, lead, id, trail);
            let answer = answered(session, request);
            &&& answer.status == 404
            &&& says(answer.document, "node not found"@)
            &&& answer.brokers == session.brokers
        }),
{
    lemma_methods_differ();
    lemma_segments(lead, id, trail);
    lemma_find_none(session.brokers, node_named(id));
    lemma_says("node not found"@);
}

proof fn lemma_find_none(brokers: Seq<BrokerView>, node: int)
    requires
        forall|j: int| 0 <= j < brokers.len() ==> (#[trigger] brokers[j]).node_id != node,
    ensures
        find(brokers, node) is None,
{
    if exists|i: int| first_of(brokers, node, i) {
        let i = choose|i: int| first_of(brokers, node, i);
        assert(brokers[i].node_id != node);
    }
}

proof fn lemma_says(message: Seq<char>)
    ensures
        says(message_document(message), message),
{
    let f = message_document(message)->Fields_0;
    assert(f.dom() =~= set!["message"@]);
}

/// The first broker of a node is the one that is found, and none is found
/// only where there is none.
pub proof fn the_first_of_a_node_is_found(brokers: Seq<BrokerView>, node: int, i: int)
    ensures
        find(brokers, node) == Some(i) <==> stands_first(brokers, node, i),
        find(brokers, node) is None <==> forall|j: int|
            0 <= j < brokers.len() ==> (#[trigger] brokers[j]).node_id != node,
{
    if stands_first(brokers, node, i) {
        assert(first_of(brokers, node, i));
        lemma_find_first(brokers, node, i);
    }
    if find(brokers, node) == Some(i) {
        assert(first_of(brokers, node, i));
    }
    if forall|j: int| 0 <= j < brokers.len() ==> (#[trigger] brokers[j]).node_id != node {
        lemma_find_none(brokers, node);
    }
    if find(brokers, node) is None {
        assert forall|j: int| 0 <= j < brokers.len() implies (#[trigger] brokers[j]).node_id
            != node by {
            if brokers[j].node_id == node {
                lemma_find_some(brokers, node, j);
            }
        }
    }
}

/// Whether a request is one of those that are served, as it is written.
pub open spec fn is_served(request: AdminRequestView) -> bool {
    ||| request.method == "GET"@ && exists|lead: nat, trail: nat|
        request.path == #[trigger] slashed(lead, "v1/brokers"@, trail)
    ||| request.method == "GET"@ && exists|lead: nat, trail: nat|
        request.path == #[trigger] slashed(lead, "v1/cluster_config/status"@, trail)
    ||| (request.method == "PUT"@ || request.method == "DELETE"@) && exists|
        lead: nat,
        id: Seq<char>,
        trail: nat,
    |
        !id.contains('/') && request.path == #[trigger] slashed(lead, maintenance_core(id), trail)
}

proof fn lemma_joined(a: Seq<char>, b: Seq<char>, c: Seq<char>, d: Seq<char>)
    ensures
        joined(seq![a, b], '/') == a + seq!['/'] + b,
        joined(seq![a, b, c], '/') == a + seq!['/'] + b + seq!['/'] + c,
        joined(seq![a, b, c, d], '/') == a + seq!['/'] + b + seq!['/'] + c + seq!['/'] + d,
{
    assert(seq![a, b].drop_last() == seq![a]);
    assert(joined(seq![a], '/') == a);
    assert(joined(seq![a, b], '/') == a + seq!['/'] + b);
    assert(seq![a, b, c].drop_last() == seq![a, b]);
    assert(joined(seq![a, b, c], '/') == joined(seq![a, b], '/') + seq!['/'] + c);
    assert(seq![a, b, c, d].drop_last() == seq![a, b, c]);
    assert(joined(seq![a, b, c, d], '/') == joined(seq![a, b, c], '/') + seq!['/'] + d);
}

/// Anything else is not served: 404, whatever it is, and nothing changes.
pub proof fn anything_else_is_not_served(session: SessionView, request: AdminRequestView)
    requires
        !is_served(request),
    ensures
        answered(session, request).status == 404,
        says(answered(session, request).document, "not served here"@),
        answered(session, request).brokers == session.brokers,
{
    let path = request.path;
    let core = trimmed(path, '/');
    let s = segments(path);
    trimming_takes_only_the_ends(path, '/');
    let (lead, trail) = choose|lead: nat, trail: nat|
        path == #[trigger] repeated('/', lead) + core + #[trigger] repeated('/', trail);
    assert(path == slashed(lead, core, trail));
    pieces_are_put_together_again(core, '/');
    assert(joined(s, '/') == core);
    let id = s[2];
    lemma_cores(id);
    lemma_says("not served here"@);
    lemma_joined("v1"@, "brokers"@, id, "maintenance"@);
    lemma_joined("v1"@, "cluster_config"@, "status"@, "maintenance"@);
    if request.method == "GET"@ && s == seq!["v1"@, "brokers"@] {
        assert(core == "v1/brokers"@);
        assert(is_served(request));
    }
    if request.method == "GET"@ && s == seq!["v1"@, "cluster_config"@, "status"@] {
        assert(core == "v1/cluster_config/status"@);
        assert(is_served(request));
    }
    if (request.method == "PUT"@ || request.method == "DELETE"@) && s.len() == 4 && s[0] == "v1"@
        && s[1] == "brokers"@ && s[3] == "maintenance"@ {
        assert(s == seq!["v1"@, "brokers"@, id, "maintenance"@]);
        assert(core == maintenance_core(id));
        assert(!id.contains('/'));
        assert(is_served(request));
    }
}

/// A request is the first two words of the first line, whatever white space
/// stands around them and whatever follows, on that line and below it.
pub proof fn requests_are_the_first_two_words(
    lead: Seq<char>,
    method: Seq<char>,
    gap: Seq<char>,
    path: Seq<char>,
    rest: Seq<char>,
    below: Seq<Seq<char>>,
)
    requires
        blank(lead),
        method.len() > 0,
        spaceless(method),
        blank(gap),
        gap.len() > 0,
        path.len() > 0,
        spaceless(path),
        rest.len() > 0 ==> is_space(rest[0]),
    ensures
        request_read(seq![lead + method + gap + path + rest] + below) == Ok::<
            AdminRequestView,
            FaultView,
        >(AdminRequestView { method, path }),
{
    let line = lead + method + gap + path + rest;
    let tail = gap + path + rest;
    assert(tail[0] == gap[0]);
    words_are_runs(lead, method, tail);
    words_are_runs(gap, path, rest);
    assert(line == lead + method + tail);
    let found = words(line);
    assert(found == seq![method] + (seq![path] + words(rest)));
    assert(found[0] == method);
    assert(found[1] == path);
    assert((seq![line] + below)[0] == line);
}

/// Less than two words are no request: no line at all, a blank one, or a
/// word alone, whatever stands below.
pub proof fn lines_without_two_words_are_no_requests(
    lead: Seq<char>,
    word: Seq<char>,
    rest: Seq<char>,
    below: Seq<Seq<char>>,
)
    requires
        blank(lead),
        word.len() > 0,
        spaceless(word),
        blank(rest),
    ensures
        ({
            let refused = Err::<AdminRequestView, FaultView>(
                FaultView::Protocol("a request line that is not HTTP"@),
            );
            &&& request_read(Seq::empty()) == refused
            &&& request_read(seq![lead] + below) == refused
            &&& request_read(seq![lead + word + rest] + below) == refused
        }),
{
    blank_texts_have_no_words(lead);
    blank_texts_have_no_words(rest);
    if rest.len() > 0 {
        assert(is_space(rest[0]));
    }
    words_are_runs(lead, word, rest);
    assert((seq![lead] + below)[0] == lead);
    assert((seq![lead + word + rest] + below)[0] == lead + word + rest);
    assert(words(lead + word + rest) == seq![word]);
}

/// A declared length is the number it is written as, with leading zeros or a
/// plus sign or without, and is taken up to the most that is read and not
/// beyond; one that the machine cannot hold, or below zero, is no number. No
/// declared length is none.
pub proof fn lengths_are_taken_up_to_the_most(k: nat, n: nat, most: int)
    requires
        0 <= most <= usize::MAX,
    ensures
        ({
            let body = zeros(k) + decimal(n as int);
            let no_number = Err::<int, FaultView>(
                FaultView::Protocol("a length that is not a number"@),
            );
            let taken = if n <= most {
                Ok::<int, FaultView>(n as int)
            } else if n <= usize::MAX {
                Err(FaultView::Protocol("a body over what Xmip will read"@))
            } else {
                no_number
            };
            &&& length_read(None, most) == Ok::<int, FaultView>(0)
            &&& length_read(Some(body), most) == taken
            &&& length_read(Some(seq!['+'] + body), most) == taken
            &&& length_read(Some(seq!['-'] + body), most) == no_number
        }),
{
    lengths_are_read(k, n);
}

/// What is no number is no length.
pub proof fn lengths_are_numbers(text: Seq<char>, most: int)
    requires
        length(text) is None,
    ensures
        length_read(Some(text), most) == Err::<int, FaultView>(
            FaultView::Protocol("a length that is not a number"@),
        ),
{
}

/// A head lets in its request with its length; a fault of the request line
/// comes before one of the length.
pub proof fn heads_let_in_request_and_length(
    lines: Seq<Seq<char>>,
    declared: Option<Seq<char>>,
    most: int,
)
    ensures
        match (request_read(lines), length_read(declared, most)) {
            (Ok(request), Ok(length)) => {
                &&& accepted(lines, declared, most) matches Ok(a)
                &&& a.request == request
                &&& a.length == length
            },
            (Ok(_), Err(fault)) => accepted(lines, declared, most) == Err::<
                AcceptedView,
                FaultView,
            >(fault),
            (Err(fault), _) => accepted(lines, declared, most) == Err::<AcceptedView, FaultView>(
                fault,
            ),
        },
{
}

/// A response, line by line: the status, that the body is JSON, how many
/// bytes it is, that the connection closes, an empty line, and the body.
pub proof fn responses_are_written_line_by_line(status: int, body: Seq<char>)
    ensures
        ({
            let end = seq!['\r', '\n'];
            response(status, body) == "HTTP/1.1 "@ + decimal(status) + (if status == 200 {
                " OK"@
            } else {
                " Not Found"@
            }) + end + "Content-Type: application/json"@ + end + "Content-Length: "@ + decimal(
                encode_utf8(body).len() as int,
            ) + end + "Connection: close"@ + end + end + body
        }),
{
    let end = seq!['\r', '\n'];
    assert("\r\nContent-Type: application/json\r\nContent-Length: "@ == end
        + "Content-Type: application/json"@ + end + "Content-Length: "@) by {
        reveal_strlit("\r\nContent-Type: application/json\r\nContent-Length: ");
        reveal_strlit("Content-Type: application/json");
        reveal_strlit("Content-Length: ");
    }
    assert("\r\nConnection: close\r\n\r\n"@ == end + "Connection: close"@ + end + end) by {
        reveal_strlit("\r\nConnection: close\r\n\r\n");
        reveal_strlit("Connection: close");
    }
    assert(" OK"@ == " "@ + "OK"@) by {
        reveal_strlit(" OK");
        reveal_strlit(" ");
        reveal_strlit("OK");
    }
    assert(" Not Found"@ == " "@ + "Not Found"@) by {
        reveal_strlit(" Not Found");
        reveal_strlit(" ");
        reveal_strlit("Not Found");
    }
    let said = if status == 200 {
        "OK"@
    } else {
        "Not Found"@
    };
    let n = decimal(encode_utf8(body).len() as int);
    let front = "HTTP/1.1 "@ + decimal(status);
    let typed = "Content-Type: application/json"@;
    let sized = "Content-Length: "@;
    let closed = "Connection: close"@;
    assert(front + " "@ + said + (end + typed + end + sized) + n + (end + closed + end + end)
        + body == front + (" "@ + said) + end + typed + end + sized + n + end + closed + end + end
        + body);
}

/// The views of what a session takes show every field as it is held, and
/// lists one for one.
pub proof fn session_views_show_what_is_held(
    request: AdminRequest,
    a: Accepted,
    list: Seq<String>,
    i: int,
    text: &str,
)
    ensures
        request@.method == request.method@,
        request@.path == request.path@,
        a@.request == a.request@,
        a@.length == a.length,
        texts(list).len() == list.len(),
        0 <= i < list.len() ==> texts(list)[i] == list[i]@,
        text_of(Some(text)) == Some(text@),
        text_of(None) is None,
{
}

} // verus!
