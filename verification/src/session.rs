//! The far end of the Admin API: a session that answers the three calls
//! from memory, so that a test or a playground can stand in for a broker.

use std::time::Duration;

use serde_json::Value;
use vstd::prelude::*;
use vstd::string::*;
use vstd::utf8::*;

use crate::admin::{broker_views, or_else, Broker, BrokerView};
use crate::fault::{protocol_error, Fault, FaultView};
use crate::json::{self, documents, entries_of, gathered, json_of, json_text, reads_as, Json};
use crate::laws::{answers_are_heard, answers_are_plain, heard_as_answered, numbered};
use crate::text::{
    append_decimal, decimal, integer, length, pieces, read_integer, read_length, same, split,
    split_words, texts, trim, trimmed, words,
};

verus! {

/// What a request to [`AdminSession`] asked, as it reports it.
#[derive(Clone, Debug, PartialEq, Eq)]
pub struct AdminRequest {
    pub method: String,
    pub path: String,
}

/// An [`AdminRequest`] with its texts as characters.
pub struct AdminRequestView {
    pub method: Seq<char>,
    pub path: Seq<char>,
}

impl View for AdminRequest {
    type V = AdminRequestView;

    open spec fn view(&self) -> AdminRequestView {
        AdminRequestView { method: self.method@, path: self.path@ }
    }
}

/// What a session keeps.
pub struct SessionView {
    pub brokers: Seq<BrokerView>,
    pub config_version: int,
    pub timeout: Option<Duration>,
}

/// What a request asks of a session.
pub enum Route {
    Brokers,
    Status,
    Maintenance { node_id: int, enable: bool },
    Unserved,
}

/// The segments of a path, the slashes at its ends aside.
pub open spec fn segments(path: Seq<char>) -> Seq<Seq<char>> {
    pieces(trimmed(path, '/'), '/')
}

/// What a method and a path ask: one of the three calls, or nothing that is
/// served. A node that is not written as a number is node -1.
pub open spec fn route(method: Seq<char>, path: Seq<char>) -> Route {
    let s = segments(path);
    if method == "GET"@ && s == seq!["v1"@, "brokers"@] {
        Route::Brokers
    } else if method == "GET"@ && s == seq!["v1"@, "cluster_config"@, "status"@] {
        Route::Status
    } else if (method == "PUT"@ || method == "DELETE"@) && s.len() == 4 && s[0] == "v1"@ && s[1]
        == "brokers"@ && s[3] == "maintenance"@ {
        Route::Maintenance { node_id: or_else(integer(s[2]), -1), enable: method == "PUT"@ }
    } else {
        Route::Unserved
    }
}

/// Whether `i` is where the first broker of that node stands.
pub open spec fn first_of(brokers: Seq<BrokerView>, node_id: int, i: int) -> bool {
    &&& 0 <= i < brokers.len()
    &&& brokers[i].node_id == node_id
    &&& forall|j: int| 0 <= j < i ==> (#[trigger] brokers[j]).node_id != node_id
}

/// Where the first broker of that node stands, if there is one.
pub open spec fn find(brokers: Seq<BrokerView>, node_id: int) -> Option<int> {
    if exists|i: int| first_of(brokers, node_id, i) {
        Some(choose|i: int| first_of(brokers, node_id, i))
    } else {
        None
    }
}

/// The brokers with the one at `i` put into maintenance, or taken out.
pub open spec fn with_draining(brokers: Seq<BrokerView>, i: int, draining: bool) -> Seq<BrokerView> {
    brokers.update(i, BrokerView { draining, ..brokers[i] })
}

/// A broker as `GET /v1/brokers` lists it.
pub open spec fn broker_document(b: BrokerView) -> Json {
    Json::Fields(
        map![
            "node_id"@ => Json::Int(b.node_id),
            "num_cores"@ => Json::Int(1),
            "membership_status"@ => Json::Text(b.membership_status),
            "is_alive"@ => Json::Bool(b.is_alive),
            "maintenance_status"@ => Json::Fields(
                map![
                    "draining"@ => Json::Bool(b.draining),
                    "finished"@ => Json::Bool(b.draining),
                ],
            ),
        ],
    )
}

/// The answer to `GET /v1/brokers`.
pub open spec fn brokers_document(brokers: Seq<BrokerView>) -> Json {
    Json::List(brokers.map_values(|b: BrokerView| broker_document(b)))
}

/// A node as `GET /v1/cluster_config/status` lists it.
pub open spec fn status_document(node_id: int, config_version: int) -> Json {
    Json::Fields(
        map![
            "node_id"@ => Json::Int(node_id),
            "restart"@ => Json::Bool(false),
            "config_version"@ => Json::Int(config_version),
            "invalid"@ => Json::List(Seq::empty()),
            "unknown"@ => Json::List(Seq::empty()),
        ],
    )
}

/// The answer to `GET /v1/cluster_config/status`.
pub open spec fn statuses_document(brokers: Seq<BrokerView>, config_version: int) -> Json {
    Json::List(brokers.map_values(|b: BrokerView| status_document(b.node_id, config_version)))
}

/// A document that says one thing.
pub open spec fn message_document(message: Seq<char>) -> Json {
    Json::Fields(map!["message"@ => Json::Text(message)])
}

/// What a session answers, and the brokers it is left with.
pub struct Answer {
    pub status: int,
    pub document: Json,
    pub brokers: Seq<BrokerView>,
}

/// The answer to a request: the lists as they stand, the maintenance of a
/// known node as asked, and 404 for an unknown node and for anything else.
pub open spec fn answered(session: SessionView, request: AdminRequestView) -> Answer {
    let brokers = session.brokers;
    match route(request.method, request.path) {
        Route::Brokers => Answer { status: 200, document: brokers_document(brokers), brokers },
        Route::Status => Answer {
            status: 200,
            document: statuses_document(brokers, session.config_version),
            brokers,
        },
        Route::Maintenance { node_id, enable } => match find(brokers, node_id) {
            Some(i) => Answer {
                status: 200,
                document: Json::Fields(Map::empty()),
                brokers: with_draining(brokers, i, enable),
            },
            None => Answer {
                status: 404,
                document: message_document("node not found"@),
                brokers,
            },
        },
        Route::Unserved => Answer {
            status: 404,
            document: message_document("not served here"@),
            brokers,
        },
    }
}

/// The request that the lines of a request's head begin with: the first two
/// words of the first line.
pub open spec fn request_read(lines: Seq<Seq<char>>) -> Result<AdminRequestView, FaultView> {
    let line = if lines.len() == 0 {
        Seq::empty()
    } else {
        words(lines[0])
    };
    if line.len() >= 2 {
        Ok(AdminRequestView { method: line[0], path: line[1] })
    } else {
        Err(FaultView::Protocol("a request line that is not HTTP"@))
    }
}

/// How many bytes of body follow: what the `Content-Length` header declares,
/// none where there is no such header.
pub open spec fn length_read(declared: Option<Seq<char>>, most: int) -> Result<int, FaultView> {
    match declared {
        None => Ok(0),
        Some(text) => match length(text) {
            None => Err(FaultView::Protocol("a length that is not a number"@)),
            Some(n) => if n > most {
                Err(FaultView::Protocol("a body over what Xmip will read"@))
            } else {
                Ok(n)
            },
        },
    }
}

/// An HTTP response that closes its connection behind a JSON body.
pub open spec fn response(status: int, body: Seq<char>) -> Seq<char> {
    "HTTP/1.1 "@ + decimal(status) + " "@ + (if status == 200 {
        "OK"@
    } else {
        "Not Found"@
    }) + "\r\nContent-Type: application/json\r\nContent-Length: "@ + decimal(
        encode_utf8(body).len() as int,
    ) + "\r\nConnection: close\r\n\r\n"@ + body
}

/// The text of an optional string.
pub open spec fn text_of(o: Option<&str>) -> Option<Seq<char>> {
    match o {
        Some(s) => Some(s@),
        None => None,
    }
}

/// A first broker of a node is the one that is found.
pub proof fn lemma_find_first(brokers: Seq<BrokerView>, node_id: int, i: int)
    requires
        first_of(brokers, node_id, i),
    ensures
        find(brokers, node_id) == Some(i),
{
    let k = choose|k: int| first_of(brokers, node_id, k);
    assert(first_of(brokers, node_id, k));
    assert(k == i);
}

/// Where the first broker of that node stands, if there is one.
pub fn position(brokers: &Vec<Broker>, node_id: i64) -> (r: Option<usize>)
    ensures
        match r {
            Some(i) => i < brokers@.len() && find(broker_views(brokers@), node_id as int) == Some(
                i as int,
            ),
            None => find(broker_views(brokers@), node_id as int) is None,
        },
{
    let ghost views = broker_views(brokers@);
    let mut i: usize = 0;
    while i < brokers.len()
        invariant
            i <= brokers@.len(),
            views == broker_views(brokers@),
            forall|j: int| 0 <= j < i ==> (#[trigger] views[j]).node_id != node_id,
        decreases brokers@.len() - i,
    {
        assert(views[i as int] == brokers@[i as int]@);
        if brokers[i].node_id == node_id {
            proof {
                lemma_find_first(views, node_id as int, i as int);
            }
            return Some(i);
        }
        i += 1;
    }
    None
}

/// The three methods are three.
pub proof fn lemma_methods_differ()
    ensures
        "GET"@ != "PUT"@,
        "GET"@ != "DELETE"@,
        "PUT"@ != "DELETE"@,
{
    reveal_strlit("GET");
    reveal_strlit("PUT");
    reveal_strlit("DELETE");
    assert("GET"@[0] == 'G');
    assert("PUT"@[0] == 'P');
    assert("DELETE"@[0] == 'D');
}

fn entry(key: &str, value: Value) -> (r: (String, Value))
    ensures
        r.0@ == key@,
        r.1 == value,
{
    (key.to_owned(), value)
}

/// A broker as `GET /v1/brokers` lists it.
fn write_broker(b: &Broker) -> (r: Value)
    ensures
        json_of(r) == broker_document(b@),
{
    let mut inner: Vec<(String, Value)> = Vec::new();
    inner.push(entry("draining", json::truth(b.draining)));
    inner.push(entry("finished", json::truth(b.draining)));
    proof {
        reveal_strlit("draining");
        reveal_strlit("finished");
        assert("draining"@[0] != "finished"@[0]);
        let e = entries_of(inner@);
        reveal_with_fuel(gathered, 3);
        assert(e.drop_last().drop_last() == Seq::<(Seq<char>, Json)>::empty());
        assert(gathered(e) == map![
            "draining"@ => Json::Bool(b.draining),
            "finished"@ => Json::Bool(b.draining),
        ]);
    }
    let maintenance = json::fields(inner);
    let mut outer: Vec<(String, Value)> = Vec::new();
    outer.push(entry("node_id", json::integer(b.node_id)));
    outer.push(entry("num_cores", json::integer(1)));
    outer.push(entry("membership_status", json::text(b.membership_status.as_str())));
    outer.push(entry("is_alive", json::truth(b.is_alive)));
    outer.push(entry("maintenance_status", maintenance));
    proof {
        reveal_strlit("node_id");
        reveal_strlit("num_cores");
        reveal_strlit("membership_status");
        reveal_strlit("is_alive");
        reveal_strlit("maintenance_status");
        assert(outer@[0].0@.len() == 7);
        assert(outer@[1].0@.len() == 9);
        assert(outer@[2].0@.len() == 17);
        assert(outer@[3].0@.len() == 8);
        assert(outer@[4].0@.len() == 18);
        let e = entries_of(outer@);
        reveal_with_fuel(gathered, 6);
        assert(e.drop_last().drop_last().drop_last().drop_last().drop_last() == Seq::<
            (Seq<char>, Json),
        >::empty());
        assert(broker_document(b@) == Json::Fields(gathered(e))) by {
            assert(broker_document(b@)->Fields_0 =~= gathered(e));
        }
    }
    json::fields(outer)
}

/// A node as `GET /v1/cluster_config/status` lists it.
fn write_status(node_id: i64, config_version: i64) -> (r: Value)
    ensures
        json_of(r) == status_document(node_id as int, config_version as int),
{
    let none: Vec<Value> = Vec::new();
    let invalid = json::list(none);
    let none: Vec<Value> = Vec::new();
    let unknown = json::list(none);
    let mut outer: Vec<(String, Value)> = Vec::new();
    outer.push(entry("node_id", json::integer(node_id)));
    outer.push(entry("restart", json::truth(false)));
    outer.push(entry("config_version", json::integer(config_version)));
    outer.push(entry("invalid", invalid));
    outer.push(entry("unknown", unknown));
    proof {
        assert(documents(Seq::<Value>::empty()) == Seq::<Json>::empty());
        reveal_strlit("node_id");
        reveal_strlit("restart");
        reveal_strlit("config_version");
        reveal_strlit("invalid");
        reveal_strlit("unknown");
        assert(outer@[0].0@[0] == 'n');
        assert(outer@[1].0@[0] == 'r');
        assert(outer@[2].0@[0] == 'c');
        assert(outer@[3].0@[0] == 'i');
        assert(outer@[4].0@[0] == 'u');
        let e = entries_of(outer@);
        reveal_with_fuel(gathered, 6);
        assert(e.drop_last().drop_last().drop_last().drop_last().drop_last() == Seq::<
            (Seq<char>, Json),
        >::empty());
        let document = status_document(node_id as int, config_version as int);
        assert(document->Fields_0 =~= gathered(e));
    }
    json::fields(outer)
}

/// A document that says one thing.
fn write_message(message: &str) -> (r: Value)
    ensures
        json_of(r) == message_document(message@),
{
    let mut one: Vec<(String, Value)> = Vec::new();
    one.push(entry("message", json::text(message)));
    proof {
        let e = entries_of(one@);
        reveal_with_fuel(gathered, 2);
        assert(e.drop_last() == Seq::<(Seq<char>, Json)>::empty());
        assert(message_document(message@)->Fields_0 =~= gathered(e));
    }
    json::fields(one)
}

/// The API's side, from memory: one cluster of brokers, each in or out of
/// maintenance as the requests leave it.
pub struct AdminSession {
    brokers: Vec<Broker>,
    config_version: i64,
    timeout: Option<Duration>,
}

impl View for AdminSession {
    type V = SessionView;

    closed spec fn view(&self) -> SessionView {
        SessionView {
            brokers: broker_views(self.brokers@),
            config_version: self.config_version as int,
            timeout: self.timeout,
        }
    }
}

impl AdminSession {
    /// The answer to `GET /v1/brokers`.
    pub fn brokers_json(&self) -> (r: Value)
        ensures
            json_of(r) == brokers_document(self@.brokers),
    {
        let mut items: Vec<Value> = Vec::new();
        let mut i: usize = 0;
        while i < self.brokers.len()
            invariant
                i <= self.brokers@.len(),
                items@.len() == i,
                forall|j: int|
                    0 <= j < i ==> json_of(#[trigger] items@[j]) == broker_document(
                        self.brokers@[j]@,
                    ),
            decreases self.brokers@.len() - i,
        {
            items.push(write_broker(&self.brokers[i]));
            i += 1;
        }
        assert(documents(items@) == self@.brokers.map_values(|b: BrokerView| broker_document(b)));
        json::list(items)
    }

    /// The answer to `GET /v1/cluster_config/status`.
    fn statuses_json(&self) -> (r: Value)
        ensures
            json_of(r) == statuses_document(self@.brokers, self@.config_version),
    {
        let mut items: Vec<Value> = Vec::new();
        let mut i: usize = 0;
        while i < self.brokers.len()
            invariant
                i <= self.brokers@.len(),
                items@.len() == i,
                forall|j: int|
                    0 <= j < i ==> json_of(#[trigger] items@[j]) == status_document(
                        self.brokers@[j].node_id as int,
                        self.config_version as int,
                    ),
            decreases self.brokers@.len() - i,
        {
            items.push(write_status(self.brokers[i].node_id, self.config_version));
            i += 1;
        }
        assert(documents(items@) == self@.brokers.map_values(
            |b: BrokerView| status_document(b.node_id, self@.config_version),
        ));
        json::list(items)
    }

    /// Put the first broker of that node into maintenance, or take it out;
    /// whether there is one.
    fn set_draining(&mut self, node_id: i64, draining: bool) -> (r: bool)
        ensures
            final(self)@.config_version == old(self)@.config_version,
            final(self)@.timeout == old(self)@.timeout,
            match find(old(self)@.brokers, node_id as int) {
                Some(i) => r && final(self)@.brokers == with_draining(
                    old(self)@.brokers,
                    i,
                    draining,
                ),
                None => !r && final(self)@.brokers == old(self)@.brokers,
            },
    {
        let ghost before = self@.brokers;
        match position(&self.brokers, node_id) {
            Some(i) => {
                assert(before[i as int] == self.brokers@[i as int]@);
                self.brokers[i].draining = draining;
                assert(self@.brokers == with_draining(before, i as int, draining));
                true
            },
            None => false,
        }
    }

    /// One broker, node 0, alive and active.
    pub fn new(timeout: Option<Duration>) -> (r: Self)
        ensures
            r@ == (SessionView {
                brokers: seq![
                    BrokerView {
                        node_id: 0,
                        is_alive: true,
                        membership_status: "active"@,
                        draining: false,
                    },
                ],
                config_version: 1,
                timeout,
            }),
    {
        let mut brokers: Vec<Broker> = Vec::new();
        brokers.push(
            Broker {
                node_id: 0,
                is_alive: true,
                membership_status: "active".to_owned(),
                draining: false,
            },
        );
        let r = AdminSession { brokers, config_version: 1, timeout };
        assert(r@.brokers == seq![
            BrokerView {
                node_id: 0,
                is_alive: true,
                membership_status: "active"@,
                draining: false,
            },
        ]);
        r
    }

    /// These brokers rather than the one.
    pub fn with_brokers(self, brokers: Vec<Broker>) -> (r: Self)
        ensures
            r@ == (SessionView { brokers: broker_views(brokers@), ..self@ }),
    {
        AdminSession { brokers, ..self }
    }

    /// The brokers as the requests so far have left them.
    pub fn brokers(&self) -> (r: &[Broker])
        ensures
            broker_views(r@) == self@.brokers,
    {
        self.brokers.as_slice()
    }

    /// How long to wait for a request.
    pub fn timeout(&self) -> (r: Option<Duration>)
        ensures
            r == self@.timeout,
    {
        self.timeout
    }

    /// Answer a request from memory: the status and the document, the
    /// brokers left as the request asks.
    pub fn answer(&mut self, request: &AdminRequest) -> (r: (u16, Value))
        ensures
            r.0 == answered(old(self)@, request@).status,
            json_of(r.1) == answered(old(self)@, request@).document,
            final(self)@ == (SessionView {
                brokers: answered(old(self)@, request@).brokers,
                ..old(self)@
            }),
    {
        let parts = split(trim(request.path.as_str(), '/'), '/');
        let method = request.method.as_str();
        let ghost s = segments(request@.path);
        assert(texts(parts@) == s);
        assert(forall|i: int| 0 <= i < s.len() ==> parts@[i]@ == #[trigger] s[i]);
        if same(method, "GET") {
            proof {
                lemma_methods_differ();
            }
            if parts.len() == 2 && same(parts[0].as_str(), "v1") && same(
                parts[1].as_str(),
                "brokers",
            ) {
                assert(s == seq!["v1"@, "brokers"@]);
                return (200, self.brokers_json());
            }
            assert(s != seq!["v1"@, "brokers"@]);
            if parts.len() == 3 && same(parts[0].as_str(), "v1") && same(
                parts[1].as_str(),
                "cluster_config",
            ) && same(parts[2].as_str(), "status") {
                assert(s == seq!["v1"@, "cluster_config"@, "status"@]);
                return (200, self.statuses_json());
            }
            assert(s != seq!["v1"@, "cluster_config"@, "status"@]);
        } else if (same(method, "PUT") || same(method, "DELETE")) && parts.len() == 4 && same(
            parts[0].as_str(),
            "v1",
        ) && same(parts[1].as_str(), "brokers") && same(parts[3].as_str(), "maintenance") {
            let id: i64 = match read_integer(parts[2].as_str()) {
                Some(n) => n,
                None => -1,
            };
            if self.set_draining(id, same(method, "PUT")) {
                let none: Vec<(String, Value)> = Vec::new();
                proof {
                    reveal_with_fuel(gathered, 1);
                    assert(gathered(entries_of(none@)) == Map::<Seq<char>, Json>::empty());
                }
                return (200, json::fields(none));
            }
            return (404, write_message("node not found"));
        }
        assert(route(request@.method, request@.path) is Unserved);
        (404, write_message("not served here"))
    }

    /// Answer a request in full: the HTTP response to write back. A client
    /// that gets its body hears what the session answered.
    pub fn serve_one(&mut self, request: &AdminRequest) -> (r: String)
        ensures
            r@ == response(
                answered(old(self)@, request@).status,
                json_text(answered(old(self)@, request@).document),
            ),
            final(self)@ == (SessionView {
                brokers: answered(old(self)@, request@).brokers,
                ..old(self)@
            }),
            reads_as(
                json_text(answered(old(self)@, request@).document),
                answered(old(self)@, request@).document,
            ),
            heard_as_answered(
                old(self)@,
                request@,
                encode_utf8(json_text(answered(old(self)@, request@).document)),
            ),
    {
        let ghost before = self@;
        assert(numbered(before.brokers)) by {
            assert forall|i: int| 0 <= i < before.brokers.len() implies i64::MIN <= (
            #[trigger] before.brokers[i]).node_id <= i64::MAX by {
                assert(before.brokers[i] == self.brokers@[i]@);
            }
        }
        let (status, document) = self.answer(request);
        proof {
            answers_are_plain(before, request@);
        }
        let body = json::print(&document);
        proof {
            encode_utf8_decode_utf8(body@);
            let bytes = encode_utf8(body@);
            assert(bytes.len() > 0) by {
                if bytes.len() == 0 {
                    assert(decode_utf8(bytes).len() == 0);
                }
            }
            answers_are_heard(before, request@, bytes);
        }
        write_response(status, body.as_str())
    }
}

/// An HTTP response that closes its connection behind a JSON body.
pub fn write_response(status: u16, body: &str) -> (r: String)
    ensures
        r@ == response(status as int, body@),
{
    let mut out = "HTTP/1.1 ".to_owned();
    append_decimal(&mut out, status as i128);
    out.append(" ");
    out.append(
        if status == 200 {
            "OK"
        } else {
            "Not Found"
        },
    );
    out.append("\r\nContent-Type: application/json\r\nContent-Length: ");
    append_decimal(&mut out, body.as_bytes().len() as i128);
    out.append("\r\nConnection: close\r\n\r\n");
    out.append(body);
    out
}

/// The request that a request's head begins with.
///
/// # Errors
/// Where the first line is no request line.
pub fn read_request(lines: &Vec<String>) -> (r: Result<AdminRequest, Fault>)
    ensures
        match r {
            Ok(request) => request_read(texts(lines@)) == Ok::<AdminRequestView, FaultView>(
                request@,
            ),
            Err(fault) => request_read(texts(lines@)) == Err::<AdminRequestView, FaultView>(fault@),
        },
{
    if lines.len() > 0 {
        let line = split_words(lines[0].as_str());
        let ghost found = words(lines@[0]@);
        assert(texts(line@) == found);
        assert(forall|i: int| 0 <= i < found.len() ==> line@[i]@ == #[trigger] found[i]);
        if line.len() >= 2 {
            return Ok(AdminRequest { method: line[0].clone(), path: line[1].clone() });
        }
    }
    Err(protocol_error("a request line that is not HTTP"))
}

/// How many bytes of body follow a head that declares so many, where no more
/// than `most` are read.
///
/// # Errors
/// Where what is declared is no number, or too many.
pub fn body_length(declared: Option<&str>, most: usize) -> (r: Result<usize, Fault>)
    ensures
        match r {
            Ok(n) => length_read(text_of(declared), most as int) == Ok::<int, FaultView>(n as int),
            Err(fault) => length_read(text_of(declared), most as int) == Err::<int, FaultView>(
                fault@,
            ),
        },
{
    match declared {
        None => Ok(0),
        Some(text) => match read_length(text) {
            None => Err(protocol_error("a length that is not a number")),
            Some(n) => if n > most {
                Err(protocol_error("a body over what Xmip will read"))
            } else {
                Ok(n)
            },
        },
    }
}

/// What a head lets in: the request, and how many bytes of body to read
/// before it is answered.
pub struct AcceptedView {
    pub request: AdminRequestView,
    pub length: int,
}

/// What the head of a request lets in. The request line is looked at before
/// the length is.
pub open spec fn accepted(
    lines: Seq<Seq<char>>,
    declared: Option<Seq<char>>,
    most: int,
) -> Result<AcceptedView, FaultView> {
    match request_read(lines) {
        Err(fault) => Err(fault),
        Ok(request) => match length_read(declared, most) {
            Err(fault) => Err(fault),
            Ok(length) => Ok(AcceptedView { request, length }),
        },
    }
}

/// What a head lets in.
#[derive(Debug)]
pub struct Accepted {
    pub request: AdminRequest,
    pub length: usize,
}

impl View for Accepted {
    type V = AcceptedView;

    open spec fn view(&self) -> AcceptedView {
        AcceptedView { request: self.request@, length: self.length as int }
    }
}

/// What the head of a request lets in, where its `Content-Length` header
/// declares so much and no more than `most` bytes of body are read.
///
/// # Errors
/// Where the request is not HTTP or its body is not to be read.
pub fn accept(lines: &Vec<String>, declared: Option<&str>, most: usize) -> (r: Result<
    Accepted,
    Fault,
>)
    ensures
        match r {
            Ok(a) => accepted(texts(lines@), text_of(declared), most as int) == Ok::<
                AcceptedView,
                FaultView,
            >(a@),
            Err(fault) => accepted(texts(lines@), text_of(declared), most as int) == Err::<
                AcceptedView,
                FaultView,
            >(fault@),
        },
{
    let request = read_request(lines)?;
    let length = body_length(declared, most)?;
    Ok(Accepted { request, length })
}

} // verus!
