//! The Redpanda Admin API, on port 9644: what a Redpanda broker says about
//! itself that a Kafka broker does not. JSON over HTTP/1.1, one request per
//! connection.
//!
//! Three calls, the ones a Location consults before taking work: the
//! brokers and whether each is alive or draining, the cluster
//! configuration's status, and putting a broker into or out of maintenance.
//! Here stand what each call asks and what its answer means; the connection
//! is the caller's.

use std::io::ErrorKind;
use std::time::Duration;

use serde_json::Value;
use vstd::prelude::*;
use vstd::string::*;

use crate::fault::{protocol_error, Fault, FaultView};
use crate::json::{self, as_integer, as_text, as_truth, documents, json_of, json_read, member, Json};
use crate::text::{append_decimal, decimal, texts};

verus! {

/// One broker as `GET /v1/brokers` describes it.
#[derive(Clone, Debug, PartialEq, Eq)]
pub struct Broker {
    pub node_id: i64,
    pub is_alive: bool,
    /// `active`, or `draining` while leaving.
    pub membership_status: String,
    /// In maintenance: leadership moved away, no work taken.
    pub draining: bool,
}

/// A [`Broker`] with its text as characters.
pub struct BrokerView {
    pub node_id: int,
    pub is_alive: bool,
    pub membership_status: Seq<char>,
    pub draining: bool,
}

impl View for Broker {
    type V = BrokerView;

    open spec fn view(&self) -> BrokerView {
        BrokerView {
            node_id: self.node_id as int,
            is_alive: self.is_alive,
            membership_status: self.membership_status@,
            draining: self.draining,
        }
    }
}

/// The views of a list of brokers.
pub open spec fn broker_views(brokers: Seq<Broker>) -> Seq<BrokerView> {
    brokers.map_values(|b: Broker| b@)
}

/// One node's view of the cluster configuration, from
/// `GET /v1/cluster_config/status`.
#[derive(Clone, Debug, PartialEq, Eq)]
pub struct ConfigStatus {
    pub node_id: i64,
    /// Whether a change is waiting for a restart to take.
    pub restart: bool,
    pub config_version: i64,
    /// Properties the node could not read.
    pub invalid: Vec<String>,
}

/// A [`ConfigStatus`] with its texts as characters.
pub struct ConfigStatusView {
    pub node_id: int,
    pub restart: bool,
    pub config_version: int,
    pub invalid: Seq<Seq<char>>,
}

impl View for ConfigStatus {
    type V = ConfigStatusView;

    open spec fn view(&self) -> ConfigStatusView {
        ConfigStatusView {
            node_id: self.node_id as int,
            restart: self.restart,
            config_version: self.config_version as int,
            invalid: texts(self.invalid@),
        }
    }
}

/// The views of a list of statuses.
pub open spec fn status_views(statuses: Seq<ConfigStatus>) -> Seq<ConfigStatusView> {
    statuses.map_values(|s: ConfigStatus| s@)
}

/// A request of the Admin API.
#[derive(Debug)]
pub struct Call {
    pub method: String,
    pub path: String,
    /// What the `Accept` header says.
    pub accept: &'static str,
}

/// A [`Call`] with its texts as characters.
pub struct CallView {
    pub method: Seq<char>,
    pub path: Seq<char>,
    pub accept: Seq<char>,
}

impl View for Call {
    type V = CallView;

    open spec fn view(&self) -> CallView {
        CallView { method: self.method@, path: self.path@, accept: self.accept@ }
    }
}

/// What came of sending a [`Call`].
#[derive(Debug)]
pub enum Reply {
    /// An HTTP answer.
    Answered { status: u16, body: Vec<u8> },
    /// No HTTP answer: the connection failed in the way `io` tells, or what
    /// was answered is not HTTP.
    Failed { io: Option<ErrorKind>, message: String },
}

/// A [`Reply`] with its body as bytes and its message as characters.
pub enum ReplyView {
    Answered { status: int, body: Seq<u8> },
    Failed { io: Option<ErrorKind>, message: Seq<char> },
}

impl View for Reply {
    type V = ReplyView;

    open spec fn view(&self) -> ReplyView {
        match self {
            Reply::Answered { status, body } => ReplyView::Answered {
                status: *status as int,
                body: body@,
            },
            Reply::Failed { io, message } => ReplyView::Failed { io: *io, message: message@ },
        }
    }
}

/// A failure to get an answer, as a fault: the connection's retryable as its
/// kind says, an answer that is not HTTP never.
pub open spec fn failure(io: Option<ErrorKind>, message: Seq<char>) -> FaultView {
    match io {
        Some(kind) => FaultView::Connection { doing: "asking the Admin API"@, kind, message },
        None => FaultView::Protocol(message),
    }
}

/// The words that refuse an answer without success.
pub open spec fn refusal(ask: CallView, status: int) -> Seq<char> {
    "the Admin API answered "@ + ask.method + " "@ + ask.path + " with "@ + decimal(status)
}

/// The document that a reply carries: null where a success has no body. An
/// answer of 500 or above may go better another time, any other without
/// success will not.
pub open spec fn judged(ask: CallView, reply: ReplyView) -> Result<Json, FaultView> {
    match reply {
        ReplyView::Failed { io, message } => Err(failure(io, message)),
        ReplyView::Answered { status, body } => if status >= 500 {
            Err(FaultView::Retryable(refusal(ask, status)))
        } else if !(200 <= status < 300) {
            Err(FaultView::Permanent(refusal(ask, status)))
        } else if body.len() == 0 {
            Ok(Json::Null)
        } else {
            match json_read(body) {
                Ok(document) => Ok(document),
                Err(words) => Err(FaultView::Protocol("an answer that is not JSON: "@ + words)),
            }
        },
    }
}

/// `value` where there is one, else `default`.
pub open spec fn or_else<T>(value: Option<T>, default: T) -> T {
    match value {
        Some(v) => v,
        None => default,
    }
}

/// The broker that one item of the answer describes. What the item leaves
/// out or gets wrong is node -1, not alive, of no status, not draining.
pub open spec fn broker_told(item: Json) -> BrokerView {
    BrokerView {
        node_id: or_else(as_integer(member(item, "node_id"@)), -1),
        is_alive: or_else(as_truth(member(item, "is_alive"@)), false),
        membership_status: or_else(
            as_text(member(item, "membership_status"@)),
            Seq::<char>::empty(),
        ),
        draining: or_else(
            as_truth(member(member(item, "maintenance_status"@), "draining"@)),
            false,
        ),
    }
}

/// The brokers that an answer lists.
pub open spec fn brokers_told(answer: Json) -> Result<Seq<BrokerView>, FaultView> {
    match answer {
        Json::List(items) => Ok(items.map_values(|item: Json| broker_told(item))),
        _ => Err(FaultView::Protocol("brokers that are not a list"@)),
    }
}

/// The texts among the items of a list; none where there is no list.
pub open spec fn texts_told(document: Json) -> Seq<Seq<char>> {
    match document {
        Json::List(items) => items.filter_map(|item: Json| as_text(item)),
        _ => Seq::empty(),
    }
}

/// The status that one item of the answer describes. What the item leaves
/// out or gets wrong is node -1, no restart, version 0, nothing invalid.
pub open spec fn status_told(item: Json) -> ConfigStatusView {
    ConfigStatusView {
        node_id: or_else(as_integer(member(item, "node_id"@)), -1),
        restart: or_else(as_truth(member(item, "restart"@)), false),
        config_version: or_else(as_integer(member(item, "config_version"@)), 0),
        invalid: texts_told(member(item, "invalid"@)),
    }
}

/// The statuses that an answer lists.
pub open spec fn statuses_told(answer: Json) -> Result<Seq<ConfigStatusView>, FaultView> {
    match answer {
        Json::List(items) => Ok(items.map_values(|item: Json| status_told(item))),
        _ => Err(FaultView::Protocol("a status that is not a list"@)),
    }
}

/// Asking for every broker.
pub open spec fn brokers_ask() -> CallView {
    CallView { method: "GET"@, path: "/v1/brokers"@, accept: "application/json"@ }
}

/// Asking for the configuration status of every node.
pub open spec fn status_ask() -> CallView {
    CallView { method: "GET"@, path: "/v1/cluster_config/status"@, accept: "application/json"@ }
}

/// Asking to put a node into maintenance, or to take it out.
pub open spec fn maintenance_ask(node_id: int, enable: bool) -> CallView {
    CallView {
        method: if enable {
            "PUT"@
        } else {
            "DELETE"@
        },
        path: "/v1/brokers/"@ + decimal(node_id) + "/maintenance"@,
        accept: "application/json"@,
    }
}

/// The brokers that a reply to [`brokers_ask`] tells of.
pub open spec fn brokers_heard(reply: ReplyView) -> Result<Seq<BrokerView>, FaultView> {
    match judged(brokers_ask(), reply) {
        Ok(answer) => brokers_told(answer),
        Err(fault) => Err(fault),
    }
}

/// The statuses that a reply to [`status_ask`] tells of.
pub open spec fn statuses_heard(reply: ReplyView) -> Result<Seq<ConfigStatusView>, FaultView> {
    match judged(status_ask(), reply) {
        Ok(answer) => statuses_told(answer),
        Err(fault) => Err(fault),
    }
}

/// What a reply to [`maintenance_ask`] comes to: any success will do.
pub open spec fn maintenance_heard(node_id: int, enable: bool, reply: ReplyView) -> Result<
    (),
    FaultView,
> {
    match judged(maintenance_ask(node_id, enable), reply) {
        Ok(_) => Ok(()),
        Err(fault) => Err(fault),
    }
}

/// A failure to get an answer, as a fault.
pub fn failed(io: Option<ErrorKind>, message: String) -> (r: Fault)
    ensures
        r@ == failure(io, message@),
{
    match io {
        Some(kind) => Fault::Connection {
            doing: "asking the Admin API".to_owned(),
            kind,
            message,
        },
        None => Fault::Protocol(message),
    }
}

/// The broker that one item of the answer describes.
fn read_broker(item: &Value) -> (r: Broker)
    ensures
        r@ == broker_told(json_of(*item)),
{
    let node_id: i64 = match json::field(item, "node_id").as_i64() {
        Some(n) => n,
        None => -1,
    };
    let is_alive = match json::field(item, "is_alive").as_bool() {
        Some(b) => b,
        None => false,
    };
    let membership_status = match json::field(item, "membership_status").as_str() {
        Some(s) => s.to_owned(),
        None => String::new(),
    };
    let draining = match json::field(json::field(item, "maintenance_status"), "draining").as_bool() {
        Some(b) => b,
        None => false,
    };
    Broker { node_id, is_alive, membership_status, draining }
}

/// The brokers that an answer lists.
pub fn read_brokers(answer: &Value) -> (r: Result<Vec<Broker>, Fault>)
    ensures
        match r {
            Ok(brokers) => brokers_told(json_of(*answer)) == Ok::<Seq<BrokerView>, FaultView>(
                broker_views(brokers@),
            ),
            Err(fault) => brokers_told(json_of(*answer)) == Err::<Seq<BrokerView>, FaultView>(
                fault@,
            ),
        },
{
    match answer.as_array() {
        None => Err(protocol_error("brokers that are not a list")),
        Some(items) => {
            let mut brokers: Vec<Broker> = Vec::new();
            let mut i: usize = 0;
            while i < items.len()
                invariant
                    i <= items@.len(),
                    brokers@.len() == i,
                    forall|j: int|
                        0 <= j < i ==> (#[trigger] brokers@[j])@ == broker_told(json_of(items@[j])),
                decreases items@.len() - i,
            {
                brokers.push(read_broker(&items[i]));
                i += 1;
            }
            assert(broker_views(brokers@) == documents(items@).map_values(
                |item: Json| broker_told(item),
            ));
            Ok(brokers)
        },
    }
}

/// The texts among the items of a list.
fn read_texts(document: &Value) -> (r: Vec<String>)
    ensures
        texts(r@) == texts_told(json_of(*document)),
{
    let mut found: Vec<String> = Vec::new();
    assert(texts(found@) == Seq::<Seq<char>>::empty());
    match document.as_array() {
        None => found,
        Some(items) => {
            let ghost all = documents(items@);
            let ghost pick = |item: Json| as_text(item);
            let mut i: usize = 0;
            assert(all.take(0) == Seq::<Json>::empty());
            while i < items.len()
                invariant
                    i <= items@.len(),
                    all == documents(items@),
                    pick == (|item: Json| as_text(item)),
                    texts(found@) == all.take(i as int).filter_map(pick),
                decreases items@.len() - i,
            {
                assert(all.take(i + 1).drop_last() == all.take(i as int));
                assert(all.take(i + 1).last() == json_of(items@[i as int]));
                if let Some(text) = items[i].as_str() {
                    let ghost was = texts(found@);
                    found.push(text.to_owned());
                    assert(texts(found@) == was + seq![text@]);
                }
                i += 1;
            }
            assert(all.take(i as int) == all);
            found
        },
    }
}

/// The status that one item of the answer describes.
fn read_status(item: &Value) -> (r: ConfigStatus)
    ensures
        r@ == status_told(json_of(*item)),
{
    let node_id: i64 = match json::field(item, "node_id").as_i64() {
        Some(n) => n,
        None => -1,
    };
    let restart = match json::field(item, "restart").as_bool() {
        Some(b) => b,
        None => false,
    };
    let config_version: i64 = match json::field(item, "config_version").as_i64() {
        Some(n) => n,
        None => 0,
    };
    let invalid = read_texts(json::field(item, "invalid"));
    ConfigStatus { node_id, restart, config_version, invalid }
}

/// The statuses that an answer lists.
pub fn read_statuses(answer: &Value) -> (r: Result<Vec<ConfigStatus>, Fault>)
    ensures
        match r {
            Ok(statuses) => statuses_told(json_of(*answer)) == Ok::<
                Seq<ConfigStatusView>,
                FaultView,
            >(status_views(statuses@)),
            Err(fault) => statuses_told(json_of(*answer)) == Err::<
                Seq<ConfigStatusView>,
                FaultView,
            >(fault@),
        },
{
    match answer.as_array() {
        None => Err(protocol_error("a status that is not a list")),
        Some(items) => {
            let mut statuses: Vec<ConfigStatus> = Vec::new();
            let mut i: usize = 0;
            while i < items.len()
                invariant
                    i <= items@.len(),
                    statuses@.len() == i,
                    forall|j: int|
                        0 <= j < i ==> (#[trigger] statuses@[j])@ == status_told(
                            json_of(items@[j]),
                        ),
                decreases items@.len() - i,
            {
                statuses.push(read_status(&items[i]));
                i += 1;
            }
            assert(status_views(statuses@) == documents(items@).map_values(
                |item: Json| status_told(item),
            ));
            Ok(statuses)
        },
    }
}

/// The client's side: one request, one answer, over a fresh connection.
pub struct Admin {
    address: String,
    timeout: Option<Duration>,
}

/// An [`Admin`] with its address as characters.
pub struct AdminView {
    pub address: Seq<char>,
    pub timeout: Option<Duration>,
}

impl View for Admin {
    type V = AdminView;

    closed spec fn view(&self) -> AdminView {
        AdminView { address: self.address@, timeout: self.timeout }
    }
}

impl Admin {
    /// Speak to the Admin API at `address`, `host:9644`.
    pub fn new(address: &str, timeout: Option<Duration>) -> (r: Self)
        ensures
            r@ == (AdminView { address: address@, timeout }),
    {
        Admin { address: address.to_owned(), timeout }
    }

    /// Where to connect.
    pub fn address(&self) -> (r: &str)
        ensures
            r@ == self@.address,
    {
        self.address.as_str()
    }

    /// How long to wait for an answer.
    pub fn timeout(&self) -> (r: Option<Duration>)
        ensures
            r == self@.timeout,
    {
        self.timeout
    }

    /// The request for every broker in the cluster.
    pub fn ask_brokers() -> (r: Call)
        ensures
            r@ == brokers_ask(),
    {
        Call {
            method: "GET".to_owned(),
            path: "/v1/brokers".to_owned(),
            accept: "application/json",
        }
    }

    /// The request for the configuration status of every node.
    pub fn ask_cluster_config_status() -> (r: Call)
        ensures
            r@ == status_ask(),
    {
        Call {
            method: "GET".to_owned(),
            path: "/v1/cluster_config/status".to_owned(),
            accept: "application/json",
        }
    }

    /// The request that puts `node_id` into maintenance, or takes it out.
    pub fn ask_maintenance(node_id: i64, enable: bool) -> (r: Call)
        ensures
            r@ == maintenance_ask(node_id as int, enable),
    {
        let method = if enable {
            "PUT"
        } else {
            "DELETE"
        };
        let mut path = "/v1/brokers/".to_owned();
        append_decimal(&mut path, node_id as i128);
        path.append("/maintenance");
        Call { method: method.to_owned(), path, accept: "application/json" }
    }

    /// The document that the reply to a request carries.
    ///
    /// # Errors
    /// Where the API could not be reached, refused, or answered something
    /// that is not JSON.
    pub fn call(ask: &Call, reply: Reply) -> (r: Result<Value, Fault>)
        ensures
            match r {
                Ok(answer) => judged(ask@, reply@) == Ok::<Json, FaultView>(json_of(answer)),
                Err(fault) => judged(ask@, reply@) == Err::<Json, FaultView>(fault@),
            },
    {
        match reply {
            Reply::Failed { io, message } => Err(failed(io, message)),
            Reply::Answered { status, body } => {
                if status < 200 || status >= 300 {
                    let mut message = "the Admin API answered ".to_owned();
                    message.append(ask.method.as_str());
                    message.append(" ");
                    message.append(ask.path.as_str());
                    message.append(" with ");
                    append_decimal(&mut message, status as i128);
                    return Err(
                        if status >= 500 {
                            Fault::Retryable(message)
                        } else {
                            Fault::Permanent(message)
                        },
                    );
                }
                if body.len() == 0 {
                    return Ok(json::null());
                }
                match json::read(body.as_slice()) {
                    Ok(answer) => Ok(answer),
                    Err(error) => {
                        let mut message = "an answer that is not JSON: ".to_owned();
                        message.append(json::words_of(&error).as_str());
                        Err(Fault::Protocol(message))
                    },
                }
            },
        }
    }

    /// Every broker in the cluster, from the reply to
    /// [`Admin::ask_brokers`].
    ///
    /// # Errors
    /// Where the API could not be reached or answered something else.
    pub fn brokers(reply: Reply) -> (r: Result<Vec<Broker>, Fault>)
        ensures
            match r {
                Ok(brokers) => brokers_heard(reply@) == Ok::<Seq<BrokerView>, FaultView>(
                    broker_views(brokers@),
                ),
                Err(fault) => brokers_heard(reply@) == Err::<Seq<BrokerView>, FaultView>(fault@),
            },
    {
        let answer = Self::call(&Self::ask_brokers(), reply)?;
        read_brokers(&answer)
    }

    /// The configuration status of every node, from the reply to
    /// [`Admin::ask_cluster_config_status`].
    ///
    /// # Errors
    /// Where the API could not be reached or answered something else.
    pub fn cluster_config_status(reply: Reply) -> (r: Result<Vec<ConfigStatus>, Fault>)
        ensures
            match r {
                Ok(statuses) => statuses_heard(reply@) == Ok::<Seq<ConfigStatusView>, FaultView>(
                    status_views(statuses@),
                ),
                Err(fault) => statuses_heard(reply@) == Err::<Seq<ConfigStatusView>, FaultView>(
                    fault@,
                ),
            },
    {
        let answer = Self::call(&Self::ask_cluster_config_status(), reply)?;
        read_statuses(&answer)
    }

    /// Whether `node_id` was put into maintenance, or taken out, from the
    /// reply to [`Admin::ask_maintenance`].
    ///
    /// # Errors
    /// Where the API could not be reached or refused.
    pub fn maintenance(node_id: i64, enable: bool, reply: Reply) -> (r: Result<(), Fault>)
        ensures
            match r {
                Ok(()) => maintenance_heard(node_id as int, enable, reply@) == Ok::<(), FaultView>(
                    (),
                ),
                Err(fault) => maintenance_heard(node_id as int, enable, reply@) == Err::<
                    (),
                    FaultView,
                >(fault@),
            },
    {
        Self::call(&Self::ask_maintenance(node_id, enable), reply)?;
        Ok(())
    }
}

} // verus!
