//! Streams that arrive as Redpanda records. One record is one Stream, the
//! topic, partition and offset kept beside it.
//!
//! On the wire Redpanda is Kafka. What it adds is the Admin API, and a
//! transport that knows its address consults it before taking work: a
//! broker being drained hands its leadership away, and a fetch made then is
//! a fetch made twice.
//!
//! The origin URI carries what the fetch knew:
//! `redpanda://broker/orders/0?offset=41`. A send target is
//! `redpanda://host:9092/orders`, `host:9092/orders`, or a topic alone on
//! the configured broker.

use std::time::Duration;

use vstd::prelude::*;
use vstd::slice::slice_to_vec;
use vstd::string::*;

use crate::admin::{
    broker_views, brokers_ask, brokers_heard, or_else, Admin, AdminView, Broker, BrokerView, Call,
    CallView, Reply, ReplyView,
};
use crate::fault::{protocol_error, Fault, FaultView};
use crate::session::{find, position};
use crate::text::{append_decimal, cut_once, decimal, holds, same, split_once};

verus! {

/// A record as a fetch brings it.
#[derive(Debug)]
pub struct Record {
    pub offset: i64,
    pub value: Option<Vec<u8>>,
}

/// A [`Record`] with its value as bytes.
pub struct RecordView {
    pub offset: int,
    pub value: Option<Seq<u8>>,
}

impl View for Record {
    type V = RecordView;

    open spec fn view(&self) -> RecordView {
        RecordView {
            offset: self.offset as int,
            value: match self.value {
                Some(bytes) => Some(bytes@),
                None => None,
            },
        }
    }
}

/// The views of a list of records.
pub open spec fn record_views(records: Seq<Record>) -> Seq<RecordView> {
    records.map_values(|r: Record| r@)
}

/// A Stream that arrived, and where it came from.
#[derive(Debug)]
pub struct Arrived {
    pub origin_uri: String,
    pub bytes: Vec<u8>,
}

/// An [`Arrived`] with its texts as characters and bytes.
pub struct ArrivedView {
    pub origin_uri: Seq<char>,
    pub bytes: Seq<u8>,
}

impl View for Arrived {
    type V = ArrivedView;

    open spec fn view(&self) -> ArrivedView {
        ArrivedView { origin_uri: self.origin_uri@, bytes: self.bytes@ }
    }
}

/// The views of a list of arrivals.
pub open spec fn arrived_views(arrived: Seq<Arrived>) -> Seq<ArrivedView> {
    arrived.map_values(|a: Arrived| a@)
}

/// How to connect to a broker.
#[derive(Debug)]
pub struct Dial {
    pub address: String,
    /// What the client calls itself.
    pub client: String,
    pub timeout: Option<Duration>,
}

/// A [`Dial`] with its texts as characters.
pub struct DialView {
    pub address: Seq<char>,
    pub client: Seq<char>,
    pub timeout: Option<Duration>,
}

impl View for Dial {
    type V = DialView;

    open spec fn view(&self) -> DialView {
        DialView { address: self.address@, client: self.client@, timeout: self.timeout }
    }
}

/// One record to produce, and where.
#[derive(Debug)]
pub struct Delivery {
    pub dial: Dial,
    pub topic: String,
    pub partition: i32,
    pub key: Option<Vec<u8>>,
    pub value: Vec<u8>,
}

/// A [`Delivery`] with its texts as characters and bytes.
pub struct DeliveryView {
    pub dial: DialView,
    pub topic: Seq<char>,
    pub partition: int,
    pub key: Option<Seq<u8>>,
    pub value: Seq<u8>,
}

impl View for Delivery {
    type V = DeliveryView;

    open spec fn view(&self) -> DeliveryView {
        DeliveryView {
            dial: self.dial@,
            topic: self.topic@,
            partition: self.partition as int,
            key: match self.key {
                Some(bytes) => Some(bytes@),
                None => None,
            },
            value: self.value@,
        }
    }
}

/// What a transport is set to, and the offset it reads from next.
pub struct TransportView {
    pub broker: Seq<char>,
    pub topic: Seq<char>,
    pub partition: int,
    pub admin: Option<Seq<char>>,
    pub node: int,
    pub client: Seq<char>,
    pub cursor: int,
    pub timeout: Option<Duration>,
}

impl TransportView {
    /// A transport that nothing but the broker and the topic was said of.
    pub open spec fn fresh(broker: Seq<char>, topic: Seq<char>) -> TransportView {
        TransportView {
            broker,
            topic,
            partition: 0,
            admin: None,
            node: 0,
            client: "xmip"@,
            cursor: 0,
            timeout: None,
        }
    }

    /// How this transport connects to `address`.
    pub open spec fn dial(self, address: Seq<char>) -> DialView {
        DialView { address, client: self.client, timeout: self.timeout }
    }

    /// How to reach the partition's leader, once the configured broker has
    /// named it; nothing where that broker is the leader itself. A topic
    /// whose leader goes unnamed has none, and may have one another time.
    pub open spec fn led_by(self, leader: Seq<char>) -> Result<Option<DialView>, FaultView> {
        if leader.len() == 0 {
            Err(FaultView::Retryable("the topic "@ + self.topic + " has no leader"@))
        } else if leader == self.broker {
            Ok(None)
        } else {
            Ok(Some(self.dial(leader)))
        }
    }

    /// The broker and the topic that a target names: those of the URI where
    /// the target is one, the transport's own topic where the URI leaves it
    /// out; else those of `peer/topic` where the peer has a port; else the
    /// target is a topic on the transport's own broker. `named` is what the
    /// URI names, where the target is one.
    pub open spec fn resolved(
        self,
        named: Option<(Seq<char>, Seq<char>)>,
        target: Seq<char>,
    ) -> (Seq<char>, Seq<char>) {
        match named {
            Some((peer, topic)) => if topic.len() == 0 {
                (peer, self.topic)
            } else {
                (peer, topic)
            },
            None => match cut_once(target, '/') {
                Some((peer, topic)) => if peer.contains(':') {
                    (peer, topic)
                } else {
                    (self.broker, target)
                },
                None => (self.broker, target),
            },
        }
    }

    /// What is produced for a send of these bytes to a target: one record
    /// without a key.
    pub open spec fn delivery(
        self,
        named: Option<(Seq<char>, Seq<char>)>,
        target: Seq<char>,
        bytes: Seq<u8>,
    ) -> DeliveryView {
        let (broker, topic) = self.resolved(named, target);
        DeliveryView {
            dial: self.dial(broker),
            topic,
            partition: self.partition,
            key: None,
            value: bytes,
        }
    }

    /// What is produced for a far end at an address: one record without a
    /// key, on this transport's topic and partition, whatever the topic
    /// looks like.
    pub open spec fn delivery_to(self, address: Seq<char>, payload: Seq<u8>) -> DeliveryView {
        DeliveryView {
            dial: self.dial(address),
            topic: self.topic,
            partition: self.partition,
            key: None,
            value: payload,
        }
    }

    /// The origin of the record at an offset.
    pub open spec fn origin(self, offset: int) -> Seq<char> {
        "redpanda://"@ + self.broker + "/"@ + self.topic + "/"@ + decimal(self.partition)
            + "?offset="@ + decimal(offset)
    }

    /// A record as it arrives: its value, nothing where it has none, under
    /// its origin.
    pub open spec fn arrival(self, record: RecordView) -> ArrivedView {
        ArrivedView {
            origin_uri: self.origin(record.offset),
            bytes: or_else(record.value, Seq::<u8>::empty()),
        }
    }

    /// The records of a fetch as they arrive, in order.
    pub open spec fn arrivals(self, records: Seq<RecordView>) -> Seq<ArrivedView> {
        records.map_values(|r: RecordView| self.arrival(r))
    }

    /// The transport with its cursor moved past the last of these records.
    pub open spec fn past(self, records: Seq<RecordView>) -> TransportView {
        if records.len() == 0 {
            self
        } else {
            TransportView { cursor: records.last().offset + 1, ..self }
        }
    }

    /// What a reply of the Admin API means for taking work; without an Admin
    /// API nothing stands against it.
    pub open spec fn ready(self, reply: ReplyView) -> Result<(), FaultView> {
        match self.admin {
            None => Ok(()),
            Some(_) => match brokers_heard(reply) {
                Ok(brokers) => fit(self.node, brokers),
                Err(fault) => Err(fault),
            },
        }
    }
}

/// Whether a node is fit to take work, by what the Admin API says of the
/// brokers: a node in maintenance and a node that is not alive will be back,
/// one that is not known will not.
pub open spec fn fit(node: int, brokers: Seq<BrokerView>) -> Result<(), FaultView> {
    match find(brokers, node) {
        None => Err(FaultView::Permanent("the Admin API knows no node "@ + decimal(node))),
        Some(i) => if brokers[i].draining {
            Err(FaultView::Retryable("node "@ + decimal(node) + " is in maintenance"@))
        } else if !brokers[i].is_alive {
            Err(FaultView::Retryable("node "@ + decimal(node) + " is not alive"@))
        } else {
            Ok(())
        },
    }
}

/// Whether a node is fit to take work.
///
/// # Errors
/// Retryable where the node is draining or not alive — it will be back;
/// permanent where the API knows no such node.
pub fn check_fit(node: i64, brokers: &Vec<Broker>) -> (r: Result<(), Fault>)
    ensures
        match r {
            Ok(()) => fit(node as int, broker_views(brokers@)) == Ok::<(), FaultView>(()),
            Err(fault) => fit(node as int, broker_views(brokers@)) == Err::<(), FaultView>(fault@),
        },
{
    match position(brokers, node) {
        None => {
            let mut message = "the Admin API knows no node ".to_owned();
            append_decimal(&mut message, node as i128);
            Err(Fault::Permanent(message))
        },
        Some(i) => {
            assert(broker_views(brokers@)[i as int] == brokers@[i as int]@);
            let mut message = "node ".to_owned();
            append_decimal(&mut message, node as i128);
            if brokers[i].draining {
                message.append(" is in maintenance");
                Err(Fault::Retryable(message))
            } else if !brokers[i].is_alive {
                message.append(" is not alive");
                Err(Fault::Retryable(message))
            } else {
                Ok(())
            }
        },
    }
}

/// The view of what a producer sent, where it sent anything.
pub open spec fn produced_view(produced: Option<Arrived>) -> Option<ArrivedView> {
    match produced {
        Some(arrived) => Some(arrived@),
        None => None,
    }
}

/// The one record that a far end waits for, as it was produced.
pub open spec fn taken(produced: Option<ArrivedView>) -> Result<ArrivedView, FaultView> {
    match produced {
        Some(arrived) => Ok(arrived),
        None => Err(FaultView::Protocol("the client closed without producing"@)),
    }
}

/// The one record that a far end waits for.
///
/// # Errors
/// Where the producer closed its connection without one.
pub fn take_one(produced: Option<Arrived>) -> (r: Result<Arrived, Fault>)
    ensures
        match r {
            Ok(arrived) => taken(produced_view(produced)) == Ok::<ArrivedView, FaultView>(arrived@),
            Err(fault) => taken(produced_view(produced)) == Err::<ArrivedView, FaultView>(fault@),
        },
{
    match produced {
        Some(arrived) => Ok(arrived),
        None => Err(protocol_error("the client closed without producing")),
    }
}

/// What a receive does next.
pub enum Step {
    /// Ask the Admin API.
    Consult { admin: Admin, ask: Call },
    /// Connect to the configured broker.
    Connect(Dial),
    /// Ask the broker connected to who leads the topic.
    Locate { topic: String },
    /// Connect to the leader in place of the configured broker.
    Reroute(Dial),
    /// Fetch the records from an offset on.
    Fetch { topic: String, partition: i32, offset: i64 },
    /// Nothing: this is what arrived.
    Done(Vec<Arrived>),
}

/// A [`Step`] with what it carries as its view.
pub enum StepView {
    Consult { admin: AdminView, ask: CallView },
    Connect(DialView),
    Locate { topic: Seq<char> },
    Reroute(DialView),
    Fetch { topic: Seq<char>, partition: int, offset: int },
    Done(Seq<ArrivedView>),
}

impl View for Step {
    type V = StepView;

    open spec fn view(&self) -> StepView {
        match self {
            Step::Consult { admin, ask } => StepView::Consult { admin: admin@, ask: ask@ },
            Step::Connect(dial) => StepView::Connect(dial@),
            Step::Locate { topic } => StepView::Locate { topic: topic@ },
            Step::Reroute(dial) => StepView::Reroute(dial@),
            Step::Fetch { topic, partition, offset } => StepView::Fetch {
                topic: topic@,
                partition: *partition as int,
                offset: *offset as int,
            },
            Step::Done(arrived) => StepView::Done(arrived_views(arrived@)),
        }
    }
}

/// What came of a step.
pub enum Heard {
    /// The Admin API replied, or could not be made to.
    Replied(Reply),
    /// The connection stands.
    Connected,
    /// The topic's leader; empty where there is none.
    Located { leader: String },
    /// The records of the fetch.
    Fetched(Vec<Record>),
    /// The step could not be taken.
    Failed(Fault),
}

/// A [`Heard`] with what it carries as its view.
pub enum HeardView {
    Replied(ReplyView),
    Connected,
    Located { leader: Seq<char> },
    Fetched(Seq<RecordView>),
    Failed(FaultView),
}

impl View for Heard {
    type V = HeardView;

    open spec fn view(&self) -> HeardView {
        match self {
            Heard::Replied(reply) => HeardView::Replied(reply@),
            Heard::Connected => HeardView::Connected,
            Heard::Located { leader } => HeardView::Located { leader: leader@ },
            Heard::Fetched(records) => HeardView::Fetched(record_views(records@)),
            Heard::Failed(fault) => HeardView::Failed(fault@),
        }
    }
}

/// Whether this can come of that step: any step can fail.
pub open spec fn comes_of(step: StepView, heard: HeardView) -> bool {
    match step {
        StepView::Consult { .. } => heard is Replied || heard is Failed,
        StepView::Connect(_) => heard is Connected || heard is Failed,
        StepView::Locate { .. } => heard is Located || heard is Failed,
        StepView::Reroute(_) => heard is Connected || heard is Failed,
        StepView::Fetch { .. } => heard is Fetched || heard is Failed,
        StepView::Done(_) => false,
    }
}

impl TransportView {
    /// Fetch the records from the cursor on.
    pub open spec fn fetch(self) -> StepView {
        StepView::Fetch { topic: self.topic, partition: self.partition, offset: self.cursor }
    }

    /// What a receive begins with: the Admin API where there is one to
    /// consult, else the broker.
    pub open spec fn first(self) -> StepView {
        match self.admin {
            Some(address) => StepView::Consult {
                admin: AdminView { address, timeout: self.timeout },
                ask: brokers_ask(),
            },
            None => StepView::Connect(self.dial(self.broker)),
        }
    }

    /// What a receive does once this came of that step.
    pub open spec fn after(self, step: StepView, heard: HeardView) -> Result<StepView, FaultView> {
        match heard {
            HeardView::Replied(reply) => match self.ready(reply) {
                Ok(()) => Ok(StepView::Connect(self.dial(self.broker))),
                Err(fault) => Err(fault),
            },
            HeardView::Connected => if step is Connect {
                Ok(StepView::Locate { topic: self.topic })
            } else {
                Ok(self.fetch())
            },
            HeardView::Located { leader } => match self.led_by(leader) {
                Ok(Some(dial)) => Ok(StepView::Reroute(dial)),
                Ok(None) => Ok(self.fetch()),
                Err(fault) => Err(fault),
            },
            HeardView::Fetched(records) => Ok(StepView::Done(self.arrivals(records))),
            HeardView::Failed(fault) => Err(fault),
        }
    }

    /// The transport once this was heard: only records move its cursor.
    pub open spec fn moved(self, heard: HeardView) -> TransportView {
        match heard {
            HeardView::Fetched(records) => self.past(records),
            _ => self,
        }
    }
}

/// The views of what a URI names.
pub open spec fn named_views(named: Option<(&str, &str)>) -> Option<(Seq<char>, Seq<char>)> {
    match named {
        Some((peer, topic)) => Some((peer@, topic@)),
        None => None,
    }
}

/// A transport to one partition of one topic.
pub struct RedpandaTransport {
    broker: String,
    topic: String,
    partition: i32,
    admin: Option<String>,
    node: i64,
    client: String,
    cursor: i64,
    timeout: Option<Duration>,
}

impl View for RedpandaTransport {
    type V = TransportView;

    closed spec fn view(&self) -> TransportView {
        TransportView {
            broker: self.broker@,
            topic: self.topic@,
            partition: self.partition as int,
            admin: match self.admin {
                Some(address) => Some(address@),
                None => None,
            },
            node: self.node as int,
            client: self.client@,
            cursor: self.cursor as int,
            timeout: self.timeout,
        }
    }
}

impl RedpandaTransport {
    /// Every transport calls itself by the one name.
    #[verifier::type_invariant]
    spec fn calls_itself_xmip(self) -> bool {
        self.client@ == "xmip"@
    }

    /// Whether a reply of the Admin API, where one is configured, says that
    /// this node is fit to take work. The reply is to
    /// [`Admin::ask_brokers`].
    ///
    /// # Errors
    /// Retryable where the node is draining or not alive — it will be back;
    /// permanent where the API knows no such node.
    pub fn check_ready(&self, reply: Reply) -> (r: Result<(), Fault>)
        ensures
            match r {
                Ok(()) => self@.ready(reply@) == Ok::<(), FaultView>(()),
                Err(fault) => self@.ready(reply@) == Err::<(), FaultView>(fault@),
            },
    {
        if self.admin.is_none() {
            return Ok(());
        }
        let brokers = Admin::brokers(reply)?;
        check_fit(self.node, &brokers)
    }

    /// What the transport calls itself, whatever it was set to.
    pub fn client(&self) -> (r: &str)
        ensures
            r@ == self@.client,
            r@ == "xmip"@,
    {
        proof {
            use_type_invariant(self);
        }
        self.client.as_str()
    }

    /// How this transport connects to `address`.
    pub fn dial(&self, address: &str) -> (r: Dial)
        ensures
            r@ == self@.dial(address@),
            r@.client == "xmip"@,
    {
        Dial {
            address: address.to_owned(),
            client: self.client().to_owned(),
            timeout: self.timeout,
        }
    }

    /// Connect to the partition's leader: how to reach it, once the
    /// configured broker has named it; nothing where that broker is the
    /// leader itself.
    ///
    /// # Errors
    /// Where the topic has no leader.
    pub fn connect(&self, leader: &str) -> (r: Result<Option<Dial>, Fault>)
        ensures
            match r {
                Ok(Some(dial)) => self@.led_by(leader@) == Ok::<Option<DialView>, FaultView>(
                    Some(dial@),
                ),
                Ok(None) => self@.led_by(leader@) == Ok::<Option<DialView>, FaultView>(None),
                Err(fault) => self@.led_by(leader@) == Err::<Option<DialView>, FaultView>(fault@),
            },
            self@.client == "xmip"@,
    {
        proof {
            use_type_invariant(self);
        }
        if leader.is_empty() {
            let mut message = "the topic ".to_owned();
            message.append(self.topic.as_str());
            message.append(" has no leader");
            Err(Fault::Retryable(message))
        } else if same(leader, self.broker.as_str()) {
            Ok(None)
        } else {
            Ok(Some(self.dial(leader)))
        }
    }

    /// Where a target names the broker and topic itself, or is a topic
    /// alone on this transport's broker. `named` is what the target names as
    /// a `redpanda` URI, where it is one.
    pub fn resolve<'a>(&'a self, named: Option<(&'a str, &'a str)>, target: &'a str) -> (r: (
        &'a str,
        &'a str,
    ))
        ensures
            (r.0@, r.1@) == self@.resolved(named_views(named), target@),
    {
        match named {
            Some((peer, topic)) => if topic.is_empty() {
                (peer, self.topic.as_str())
            } else {
                (peer, topic)
            },
            None => match split_once(target, '/') {
                Some((peer, topic)) => if holds(peer, ':') {
                    (peer, topic)
                } else {
                    (self.broker.as_str(), target)
                },
                None => (self.broker.as_str(), target),
            },
        }
    }

    /// The origin of the record at an offset.
    fn origin(&self, offset: i64) -> (r: String)
        ensures
            r@ == self@.origin(offset as int),
    {
        let mut uri = "redpanda://".to_owned();
        uri.append(self.broker.as_str());
        uri.append("/");
        uri.append(self.topic.as_str());
        uri.append("/");
        append_decimal(&mut uri, self.partition as i128);
        uri.append("?offset=");
        append_decimal(&mut uri, offset as i128);
        uri
    }

    /// Take in the records of a fetch, the cursor moved past the last.
    pub fn arrive(&mut self, records: Vec<Record>) -> (r: Vec<Arrived>)
        requires
            forall|i: int| 0 <= i < records@.len() ==> (#[trigger] records@[i]).offset < i64::MAX,
        ensures
            arrived_views(r@) == old(self)@.arrivals(record_views(records@)),
            final(self)@ == old(self)@.past(record_views(records@)),
    {
        let ghost before = self@;
        let ghost all = record_views(records@);
        let mut arrived: Vec<Arrived> = Vec::new();
        assert(all.take(0) == Seq::<RecordView>::empty());
        for record in it: records
            invariant
                it.seq() == records@,
                all == record_views(records@),
                forall|i: int|
                    0 <= i < records@.len() ==> (#[trigger] records@[i]).offset < i64::MAX,
                self@ == before.past(all.take(it.index() as int)),
                arrived@.len() == it.index(),
                forall|j: int|
                    0 <= j < it.index() ==> (#[trigger] arrived@[j])@ == before.arrival(all[j]),
        {
            let ghost at = it.index() as int;
            assert(record == records@[at]);
            assert(all[at] == record@);
            let origin_uri = self.origin(record.offset);
            assert(origin_uri@ == before.origin(record.offset as int));
            let bytes = match record.value {
                Some(bytes) => bytes,
                None => Vec::new(),
            };
            arrived.push(Arrived { origin_uri, bytes });
            proof {
                use_type_invariant(&*self);
            }
            self.cursor = record.offset + 1;
            assert(all.take(at + 1).last() == all[at]);
        }
        assert(all.take(all.len() as int) == all);
        assert(arrived_views(arrived@) == before.arrivals(all));
        arrived
    }

    /// What a receive begins with.
    pub fn begin(&self) -> (r: Step)
        ensures
            r@ == self@.first(),
            self@.client == "xmip"@,
    {
        proof {
            use_type_invariant(self);
        }
        match &self.admin {
            Some(address) => Step::Consult {
                admin: Admin::new(address.as_str(), self.timeout),
                ask: Admin::ask_brokers(),
            },
            None => Step::Connect(self.dial(self.broker.as_str())),
        }
    }

    /// Fetch the records from the cursor on.
    fn fetch(&self) -> (r: Step)
        ensures
            r@ == self@.fetch(),
    {
        Step::Fetch { topic: self.topic.clone(), partition: self.partition, offset: self.cursor }
    }

    /// The records from the cursor on, the cursor moved past the last — once
    /// the Admin API, where consulted, says the node is taking work: what to
    /// do once this came of that step.
    ///
    /// # Errors
    /// Where the Admin API says that the node is not fit to take work, or
    /// does not say that it is; where the topic has no leader; and where a
    /// step could not be taken, its own fault.
    pub fn receive(&mut self, step: Step, heard: Heard) -> (r: Result<Step, Fault>)
        requires
            comes_of(step@, heard@),
            heard matches Heard::Fetched(records) ==> forall|i: int|
                0 <= i < records@.len() ==> (#[trigger] records@[i]).offset < i64::MAX,
        ensures
            match r {
                Ok(next) => old(self)@.after(step@, heard@) == Ok::<StepView, FaultView>(next@),
                Err(fault) => old(self)@.after(step@, heard@) == Err::<StepView, FaultView>(fault@),
            },
            final(self)@ == old(self)@.moved(heard@),
            final(self)@.client == "xmip"@,
    {
        proof {
            use_type_invariant(&*self);
        }
        match heard {
            Heard::Replied(reply) => {
                self.check_ready(reply)?;
                Ok(Step::Connect(self.dial(self.broker.as_str())))
            },
            Heard::Connected => match step {
                Step::Connect(_) => Ok(Step::Locate { topic: self.topic.clone() }),
                _ => Ok(self.fetch()),
            },
            Heard::Located { leader } => match self.connect(leader.as_str()) {
                Ok(Some(dial)) => Ok(Step::Reroute(dial)),
                Ok(None) => Ok(self.fetch()),
                Err(fault) => Err(fault),
            },
            Heard::Fetched(records) => Ok(Step::Done(self.arrive(records))),
            Heard::Failed(fault) => Err(fault),
        }
    }

    /// The record that sends `bytes` to `target`. `named` is what the target
    /// names as a `redpanda` URI, where it is one.
    pub fn send(&self, named: Option<(&str, &str)>, target: &str, bytes: &[u8]) -> (r: Delivery)
        ensures
            r@ == self@.delivery(named_views(named), target@, bytes@),
            r@.dial.client == "xmip"@,
    {
        let (broker, topic) = self.resolve(named, target);
        Delivery {
            dial: self.dial(broker),
            topic: topic.to_owned(),
            partition: self.partition,
            key: None,
            value: slice_to_vec(bytes),
        }
    }

    /// A fresh producer to `address`, one record on this transport's topic.
    pub fn send_to(&self, address: &str, payload: &[u8]) -> (r: Delivery)
        ensures
            r@ == self@.delivery_to(address@, payload@),
            r@.dial.client == "xmip"@,
    {
        Delivery {
            dial: self.dial(address),
            topic: self.topic.clone(),
            partition: self.partition,
            key: None,
            value: slice_to_vec(payload),
        }
    }

    /// Speak to the broker at `broker` about `topic`, partition 0, reading
    /// from its beginning.
    pub fn new(broker: &str, topic: &str) -> (r: Self)
        ensures
            r@ == TransportView::fresh(broker@, topic@),
    {
        RedpandaTransport {
            broker: broker.to_owned(),
            topic: topic.to_owned(),
            partition: 0,
            admin: None,
            node: 0,
            client: "xmip".to_owned(),
            cursor: 0,
            timeout: None,
        }
    }

    /// Consult the Admin API at `address`, `host:9644`, before receiving.
    pub fn with_admin(self, address: &str) -> (r: Self)
        ensures
            r@ == (TransportView { admin: Some(address@), ..self@ }),
    {
        proof {
            use_type_invariant(&self);
        }
        RedpandaTransport { admin: Some(address.to_owned()), ..self }
    }

    /// The node the broker is, as the Admin API numbers it; 0 until said.
    pub fn on_node(self, node: i64) -> (r: Self)
        ensures
            r@ == (TransportView { node: node as int, ..self@ }),
    {
        proof {
            use_type_invariant(&self);
        }
        RedpandaTransport { node, ..self }
    }

    /// This partition rather than 0.
    pub fn on_partition(self, partition: i32) -> (r: Self)
        ensures
            r@ == (TransportView { partition: partition as int, ..self@ }),
    {
        proof {
            use_type_invariant(&self);
        }
        RedpandaTransport { partition, ..self }
    }

    /// Start reading from this offset rather than the beginning.
    pub fn from_offset(self, offset: i64) -> (r: Self)
        ensures
            r@ == (TransportView { cursor: offset as int, ..self@ }),
    {
        proof {
            use_type_invariant(&self);
        }
        RedpandaTransport { cursor: offset, ..self }
    }

    /// Give up on a broker that stops mid-message.
    pub fn timing_out_after(self, timeout: Duration) -> (r: Self)
        ensures
            r@ == (TransportView { timeout: Some(timeout), ..self@ }),
    {
        proof {
            use_type_invariant(&self);
        }
        RedpandaTransport { timeout: Some(timeout), ..self }
    }

    /// Both ends on this machine: an ephemeral local port, the loopback's
    /// timeout, one topic called `probe`. The Admin API is not consulted; a
    /// send never does.
    pub fn loopback(timeout: Duration) -> (r: Self)
        ensures
            r@ == (TransportView {
                timeout: Some(timeout),
                ..TransportView::fresh("127.0.0.1:0"@, "probe"@)
            }),
    {
        Self::new("127.0.0.1:0", "probe").timing_out_after(timeout)
    }

    /// The offset the next receive reads from.
    pub fn cursor(&self) -> (r: i64)
        ensures
            r == self@.cursor,
    {
        self.cursor
    }

    /// What the transport is called.
    pub fn name(&self) -> (r: &'static str)
        ensures
            r@ == "redpanda"@,
    {
        "redpanda"
    }

    /// The broker to connect to, or to be.
    pub fn broker(&self) -> (r: &str)
        ensures
            r@ == self@.broker,
    {
        self.broker.as_str()
    }

    /// The topic that targets naming none are sent to.
    pub fn topic(&self) -> (r: &str)
        ensures
            r@ == self@.topic,
    {
        self.topic.as_str()
    }

    /// How long to wait for the other side.
    pub fn timeout(&self) -> (r: Option<Duration>)
        ensures
            r == self@.timeout,
    {
        self.timeout
    }
}

} // verus!
