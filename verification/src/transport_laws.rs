//! What holds of the transport, said of what goes in and what comes out:
//! the records that are handed over, the node that is asked after, the
//! record that a send produces, and the way a receive takes.

use vstd::prelude::*;
use vstd::string::*;

use crate::admin::{brokers_ask, brokers_heard, AdminView, BrokerView, ReplyView};
use crate::fault::FaultView;
use crate::laws::run;
use crate::session::{first_of, lemma_find_first};
use crate::text::decimal;
use crate::text_laws::texts_are_cut_at_the_first;
use crate::transport::{
    arrived_views, comes_of, fit, named_views, produced_view, record_views, taken, Arrived,
    ArrivedView, Delivery, DeliveryView, Dial, DialView, Heard, HeardView, Record, RecordView,
    Step, StepView, TransportView,
};

verus! {

/// Whether these are those records, handed over: one for each, in order, its
/// bytes the record's value, nothing where the record has none, under the
/// URI of the record's offset.
pub open spec fn hands_over(
    transport: TransportView,
    records: Seq<RecordView>,
    arrived: Seq<ArrivedView>,
) -> bool {
    &&& arrived.len() == records.len()
    &&& forall|i: int|
        #![trigger arrived[i]]
        0 <= i < records.len() ==> {
            &&& match records[i].value {
                Some(value) => arrived[i].bytes == value,
                None => arrived[i].bytes.len() == 0,
            }
            &&& arrived[i].origin_uri == "redpanda://"@ + transport.broker + "/"@
                + transport.topic + "/"@ + decimal(transport.partition) + "?offset="@ + decimal(
                records[i].offset,
            )
        }
}

/// Every record of a fetch is handed over, and with that the receive is
/// done: as many arrive as were fetched, each with its value and its offset.
pub proof fn every_fetched_record_is_handed_over(
    transport: TransportView,
    step: StepView,
    records: Seq<RecordView>,
)
    ensures
        hands_over(transport, records, transport.arrivals(records)),
        transport.after(step, HeardView::Fetched(records)) matches Ok(StepView::Done(arrived))
            && hands_over(transport, records, arrived),
{
}

/// A receive is done by handing over every record of the fetch it heard
/// last: those, all those and no others, so that none that its cursor moved
/// past is left behind.
pub proof fn done_receives_hand_over_what_was_fetched(
    transport: TransportView,
    heard: Seq<HeardView>,
    arrived: Seq<ArrivedView>,
)
    requires
        run(transport, heard) == Some(Ok::<StepView, FaultView>(StepView::Done(arrived))),
    ensures
        heard.len() > 0,
        heard.last() matches HeardView::Fetched(records) && hands_over(
            transport,
            records,
            arrived,
        ) && (records.len() > 0 ==> transport.moved(heard.last()).cursor == records[records.len()
            - 1].offset + 1),
{
    if heard.len() > 0 {
        let step = run(transport, heard.drop_last())->Some_0->Ok_0;
        match heard.last() {
            HeardView::Fetched(records) => {
                every_fetched_record_is_handed_over(transport, step, records);
            },
            _ => {},
        }
    }
}

/// A receive that stands at its fetch and hears of records is done, with all
/// of them handed over.
pub proof fn fetches_end_the_receive(
    transport: TransportView,
    heard: Seq<HeardView>,
    records: Seq<RecordView>,
)
    requires
        run(transport, heard) matches Some(Ok(step)) && step is Fetch,
    ensures
        run(transport, heard.push(HeardView::Fetched(records))) matches Some(
            Ok(StepView::Done(arrived)),
        ) && hands_over(transport, records, arrived),
{
    let step = run(transport, heard)->Some_0->Ok_0;
    lemma_run_on(transport, heard, step, HeardView::Fetched(records));
    every_fetched_record_is_handed_over(transport, step, records);
}

proof fn lemma_run_on(
    transport: TransportView,
    heard: Seq<HeardView>,
    step: StepView,
    next: HeardView,
)
    requires
        run(transport, heard) == Some(Ok::<StepView, FaultView>(step)),
        comes_of(step, next),
    ensures
        run(transport, heard.push(next)) == Some(transport.after(step, next)),
{
    assert(heard.push(next).drop_last() == heard);
}

/// Hearing of records moves the cursor right behind the last of them, and
/// nothing else moves it; nothing but the cursor ever changes.
pub proof fn only_records_move_the_cursor(transport: TransportView, heard: HeardView)
    ensures
        match heard {
            HeardView::Fetched(records) => transport.moved(heard).cursor == (if records.len()
                == 0 {
                transport.cursor
            } else {
                records[records.len() - 1].offset + 1
            }),
            _ => transport.moved(heard).cursor == transport.cursor,
        },
        heard matches HeardView::Fetched(records) ==> transport.past(records) == transport.moved(
            heard,
        ),
        transport.moved(heard).broker == transport.broker,
        transport.moved(heard).topic == transport.topic,
        transport.moved(heard).partition == transport.partition,
        transport.moved(heard).admin == transport.admin,
        transport.moved(heard).node == transport.node,
        transport.moved(heard).client == transport.client,
        transport.moved(heard).timeout == transport.timeout,
{
}

/// Whether the first broker of that node in a list is the one at `i`.
pub open spec fn stands_first(brokers: Seq<BrokerView>, node: int, i: int) -> bool {
    &&& 0 <= i < brokers.len()
    &&& brokers[i].node_id == node
    &&& forall|j: int| 0 <= j < i ==> (#[trigger] brokers[j]).node_id != node
}

/// A node is fit by what the list says of that node, whatever it says of the
/// others: fit where it is alive and not draining; else in maintenance where
/// it drains, and not alive where it does not, both worth another try.
pub proof fn nodes_are_fit_by_their_own(node: int, brokers: Seq<BrokerView>, i: int)
    requires
        stands_first(brokers, node, i),
    ensures
        brokers[i].is_alive && !brokers[i].draining ==> fit(node, brokers) == Ok::<(), FaultView>(
            (),
        ),
        brokers[i].draining ==> fit(node, brokers) == Err::<(), FaultView>(
            FaultView::Retryable("node "@ + decimal(node) + " is in maintenance"@),
        ),
        !brokers[i].is_alive && !brokers[i].draining ==> fit(node, brokers) == Err::<(), FaultView>(
            FaultView::Retryable("node "@ + decimal(node) + " is not alive"@),
        ),
{
    assert(first_of(brokers, node, i));
    lemma_find_first(brokers, node, i);
}

/// A node that the list does not have is fit for nothing, and no other try
/// will change that.
pub proof fn nodes_that_are_not_listed_are_not_known(node: int, brokers: Seq<BrokerView>)
    requires
        forall|j: int| 0 <= j < brokers.len() ==> (#[trigger] brokers[j]).node_id != node,
    ensures
        fit(node, brokers) == Err::<(), FaultView>(
            FaultView::Permanent("the Admin API knows no node "@ + decimal(node)),
        ),
{
    if exists|i: int| first_of(brokers, node, i) {
        let i = choose|i: int| first_of(brokers, node, i);
        assert(brokers[i].node_id != node);
    }
}

/// With an Admin API, a reply that lists brokers makes ready, or does not,
/// by what it says of the transport's own node.
pub proof fn readiness_is_told_by_the_own_node(
    transport: TransportView,
    reply: ReplyView,
    brokers: Seq<BrokerView>,
    i: int,
)
    requires
        transport.admin is Some,
        brokers_heard(reply) == Ok::<Seq<BrokerView>, FaultView>(brokers),
        stands_first(brokers, transport.node, i),
    ensures
        brokers[i].is_alive && !brokers[i].draining ==> transport.ready(reply) == Ok::<
            (),
            FaultView,
        >(()),
        brokers[i].draining ==> transport.ready(reply) == Err::<(), FaultView>(
            FaultView::Retryable("node "@ + decimal(transport.node) + " is in maintenance"@),
        ),
        !brokers[i].is_alive && !brokers[i].draining ==> transport.ready(reply) == Err::<
            (),
            FaultView,
        >(FaultView::Retryable("node "@ + decimal(transport.node) + " is not alive"@)),
{
    nodes_are_fit_by_their_own(transport.node, brokers, i);
}

/// With an Admin API, a reply that lists brokers but not the transport's own
/// node does not make ready, nor will another.
pub proof fn nodes_that_are_not_listed_are_not_ready(
    transport: TransportView,
    reply: ReplyView,
    brokers: Seq<BrokerView>,
)
    requires
        transport.admin is Some,
        brokers_heard(reply) == Ok::<Seq<BrokerView>, FaultView>(brokers),
        forall|j: int|
            0 <= j < brokers.len() ==> (#[trigger] brokers[j]).node_id != transport.node,
    ensures
        transport.ready(reply) == Err::<(), FaultView>(
            FaultView::Permanent("the Admin API knows no node "@ + decimal(transport.node)),
        ),
{
    nodes_that_are_not_listed_are_not_known(transport.node, brokers);
}

/// A reply that lists nothing is no readiness but its own fault; without an
/// Admin API every reply is as good.
pub proof fn readiness_is_asked_only_of_the_admin_api(
    transport: TransportView,
    reply: ReplyView,
    fault: FaultView,
)
    ensures
        transport.admin is None ==> transport.ready(reply) == Ok::<(), FaultView>(()),
        transport.admin is Some && brokers_heard(reply) == Err::<Seq<BrokerView>, FaultView>(fault)
            ==> transport.ready(reply) == Err::<(), FaultView>(fault),
{
}

/// Whatever the target, a send produces one record on the partition that the
/// transport is set to, without a key, the bytes its value, by a connection
/// that calls itself and times out as the transport does. It goes to the
/// broker and the topic that the target resolves to.
pub proof fn sends_keep_partition_and_payload(
    transport: TransportView,
    named: Option<(Seq<char>, Seq<char>)>,
    target: Seq<char>,
    bytes: Seq<u8>,
)
    ensures
        ({
            let d = transport.delivery(named, target, bytes);
            &&& d.partition == transport.partition
            &&& d.key is None
            &&& d.value == bytes
            &&& d.dial.address == transport.resolved(named, target).0
            &&& d.topic == transport.resolved(named, target).1
            &&& d.dial.client == transport.client
            &&& d.dial.timeout == transport.timeout
        }),
{
}

/// Whether a record goes to that address and topic.
pub open spec fn goes_to(d: DeliveryView, address: Seq<char>, topic: Seq<char>) -> bool {
    d.dial.address == address && d.topic == topic
}

/// Where a send goes, for each way of writing a target: to the peer and the
/// topic of a URI, to the transport's own topic there where the URI names
/// none; to the peer and the topic of `peer/topic` where the peer has a
/// port; and with anything else for a topic, to the transport's own broker.
pub proof fn sends_go_where_the_target_says(
    transport: TransportView,
    peer: Seq<char>,
    topic: Seq<char>,
    target: Seq<char>,
    bytes: Seq<u8>,
)
    ensures
        topic.len() > 0 ==> goes_to(
            transport.delivery(Some((peer, topic)), target, bytes),
            peer,
            topic,
        ),
        goes_to(
            transport.delivery(Some((peer, Seq::empty())), target, bytes),
            peer,
            transport.topic,
        ),
        !peer.contains('/') && peer.contains(':') ==> goes_to(
            transport.delivery(None, peer + seq!['/'] + topic, bytes),
            peer,
            topic,
        ),
        !peer.contains('/') && !peer.contains(':') ==> goes_to(
            transport.delivery(None, peer + seq!['/'] + topic, bytes),
            transport.broker,
            peer + seq!['/'] + topic,
        ),
        !target.contains('/') ==> goes_to(
            transport.delivery(None, target, bytes),
            transport.broker,
            target,
        ),
{
    if !peer.contains('/') {
        texts_are_cut_at_the_first(peer, '/', topic);
    }
    if !target.contains('/') {
        texts_are_cut_at_the_first(target, '/', topic);
    }
}

/// A far end is sent one record at its own address, on the transport's topic
/// and partition, without a key, the payload its value.
pub proof fn far_ends_are_sent_one_record(
    transport: TransportView,
    address: Seq<char>,
    payload: Seq<u8>,
)
    ensures
        ({
            let d = transport.delivery_to(address, payload);
            &&& goes_to(d, address, transport.topic)
            &&& d.partition == transport.partition
            &&& d.key is None
            &&& d.value == payload
            &&& d.dial.client == transport.client
            &&& d.dial.timeout == transport.timeout
        }),
{
}

/// A connection is made to the address asked for, in the transport's name
/// and under its timeout.
pub proof fn connections_are_the_transports_own(transport: TransportView, address: Seq<char>)
    ensures
        transport.dial(address).address == address,
        transport.dial(address).client == transport.client,
        transport.dial(address).timeout == transport.timeout,
{
}

/// A transport of which nothing was said speaks to its broker about its
/// topic, partition 0 and from the beginning, as `xmip`, consults nobody,
/// takes its broker for node 0 and waits as long as it takes.
pub proof fn fresh_transports_start_from_the_beginning(broker: Seq<char>, topic: Seq<char>)
    ensures
        ({
            let t = TransportView::fresh(broker, topic);
            &&& t.broker == broker
            &&& t.topic == topic
            &&& t.partition == 0
            &&& t.cursor == 0
            &&& t.client == "xmip"@
            &&& t.admin is None
            &&& t.node == 0
            &&& t.timeout is None
        }),
{
}

/// The origin of a record names the broker, the topic, the partition and the
/// offset.
pub proof fn origins_name_what_the_fetch_knew(transport: TransportView, offset: int)
    ensures
        transport.origin(offset) == "redpanda://"@ + transport.broker + "/"@ + transport.topic
            + "/"@ + decimal(transport.partition) + "?offset="@ + decimal(offset),
{
}

/// Who leads the topic decides where to go: nowhere where nobody does, which
/// is worth another try; nowhere else where the broker does itself; and else
/// to the leader.
pub proof fn leaders_are_followed(transport: TransportView, leader: Seq<char>)
    ensures
        leader.len() == 0 ==> transport.led_by(leader) == Err::<Option<DialView>, FaultView>(
            FaultView::Retryable("the topic "@ + transport.topic + " has no leader"@),
        ),
        leader.len() > 0 && leader == transport.broker ==> transport.led_by(leader) == Ok::<
            Option<DialView>,
            FaultView,
        >(None),
        leader.len() > 0 && leader != transport.broker ==> transport.led_by(leader) == Ok::<
            Option<DialView>,
            FaultView,
        >(
            Some(
                DialView {
                    address: leader,
                    client: transport.client,
                    timeout: transport.timeout,
                },
            ),
        ),
{
}

/// A receive begins by asking the Admin API for its brokers, where it has
/// one, and else by connecting to its own broker.
pub proof fn receives_begin(transport: TransportView)
    ensures
        transport.admin matches Some(address) ==> {
            &&& transport.first() matches StepView::Consult { admin, ask }
            &&& admin.address == address
            &&& admin.timeout == transport.timeout
            &&& ask.method == "GET"@
            &&& ask.path == "/v1/brokers"@
            &&& ask.accept == "application/json"@
        },
        transport.admin is None ==> transport.first() == StepView::Connect(
            DialView {
                address: transport.broker,
                client: transport.client,
                timeout: transport.timeout,
            },
        ),
{
}

/// What follows on what was heard, step by step: the broker once the node is
/// known to be fit; the leader once the broker is there; the fetch once the
/// leader is; nothing on a fault but the fault.
pub proof fn steps_follow_in_order(
    transport: TransportView,
    step: StepView,
    reply: ReplyView,
    leader: Seq<char>,
    fault: FaultView,
)
    ensures
        ({
            let fetch = StepView::Fetch {
                topic: transport.topic,
                partition: transport.partition,
                offset: transport.cursor,
            };
            let to = |address: Seq<char>| DialView {
                address,
                client: transport.client,
                timeout: transport.timeout,
            };
            &&& transport.fetch() == fetch
            &&& transport.after(step, HeardView::Replied(reply)) == match transport.ready(reply) {
                Ok(()) => Ok::<StepView, FaultView>(StepView::Connect(to(transport.broker))),
                Err(unfit) => Err(unfit),
            }
            &&& step is Connect ==> transport.after(step, HeardView::Connected) == Ok::<
                StepView,
                FaultView,
            >(StepView::Locate { topic: transport.topic })
            &&& step is Reroute ==> transport.after(step, HeardView::Connected) == Ok::<
                StepView,
                FaultView,
            >(fetch)
            &&& transport.after(step, HeardView::Located { leader }) == if leader.len() == 0 {
                Err::<StepView, FaultView>(
                    FaultView::Retryable("the topic "@ + transport.topic + " has no leader"@),
                )
            } else if leader == transport.broker {
                Ok(fetch)
            } else {
                Ok(StepView::Reroute(to(leader)))
            }
            &&& transport.after(step, HeardView::Failed(fault)) == Err::<StepView, FaultView>(fault)
        }),
{
}

/// What is heard where all goes well: that the node is fit, where there is
/// an Admin API to say so, that the broker is there, who leads, and that the
/// leader is there, where it is another.
pub open spec fn all_well(
    transport: TransportView,
    reply: ReplyView,
    leader: Seq<char>,
) -> Seq<HeardView> {
    (if transport.admin is Some {
        seq![HeardView::Replied(reply)]
    } else {
        Seq::empty()
    }) + seq![HeardView::Connected, HeardView::Located { leader }] + (if leader
        == transport.broker {
        Seq::empty()
    } else {
        seq![HeardView::Connected]
    })
}

/// Where all goes well a receive comes to its fetch, from the cursor on, and
/// with the fetch to its end, every record of it handed over.
pub proof fn receives_come_to_their_records(
    transport: TransportView,
    reply: ReplyView,
    brokers: Seq<BrokerView>,
    i: int,
    leader: Seq<char>,
    records: Seq<RecordView>,
)
    requires
        transport.admin is Some ==> brokers_heard(reply) == Ok::<Seq<BrokerView>, FaultView>(
            brokers,
        ) && stands_first(brokers, transport.node, i) && brokers[i].is_alive
            && !brokers[i].draining,
        leader.len() > 0,
    ensures
        ({
            let heard = all_well(transport, reply, leader);
            &&& run(transport, heard) == Some(
                Ok::<StepView, FaultView>(
                    StepView::Fetch {
                        topic: transport.topic,
                        partition: transport.partition,
                        offset: transport.cursor,
                    },
                ),
            )
            &&& run(transport, heard.push(HeardView::Fetched(records))) matches Some(
                Ok(StepView::Done(arrived)),
            )
            &&& hands_over(transport, records, arrived)
        }),
{
    let none = Seq::<HeardView>::empty();
    let connect = StepView::Connect(transport.dial(transport.broker));
    let located = HeardView::Located { leader };
    let h0 = if transport.admin is Some {
        none.push(HeardView::Replied(reply))
    } else {
        none
    };
    if transport.admin is Some {
        readiness_is_told_by_the_own_node(transport, reply, brokers, i);
        lemma_run_on(transport, none, transport.first(), HeardView::Replied(reply));
    }
    assert(run(transport, h0) == Some(Ok::<StepView, FaultView>(connect)));
    let locate = StepView::Locate { topic: transport.topic };
    lemma_run_on(transport, h0, connect, HeardView::Connected);
    let h1 = h0.push(HeardView::Connected);
    lemma_run_on(transport, h1, locate, located);
    let h2 = h1.push(located);
    let heard = all_well(transport, reply, leader);
    if leader == transport.broker {
        assert(heard == h2);
    } else {
        lemma_run_on(
            transport,
            h2,
            StepView::Reroute(transport.dial(leader)),
            HeardView::Connected,
        );
        assert(heard == h2.push(HeardView::Connected));
    }
    fetches_end_the_receive(transport, heard, records);
}

/// What can come of a step: its own kind of answer, or a failure; nothing
/// comes of being done.
pub proof fn answers_fit_their_steps(
    admin: AdminView,
    dial: DialView,
    topic: Seq<char>,
    partition: int,
    offset: int,
    arrived: Seq<ArrivedView>,
    heard: HeardView,
)
    ensures
        comes_of(StepView::Consult { admin, ask: brokers_ask() }, heard) <==> (heard is Replied
            || heard is Failed),
        comes_of(StepView::Connect(dial), heard) <==> (heard is Connected || heard is Failed),
        comes_of(StepView::Locate { topic }, heard) <==> (heard is Located || heard is Failed),
        comes_of(StepView::Reroute(dial), heard) <==> (heard is Connected || heard is Failed),
        comes_of(StepView::Fetch { topic, partition, offset }, heard) <==> (heard is Fetched
            || heard is Failed),
        !comes_of(StepView::Done(arrived), heard),
{
}

/// A far end takes what was produced as it is, and nothing produced is a
/// fault of the protocol.
pub proof fn far_ends_take_what_was_produced(arrived: ArrivedView)
    ensures
        taken(Some(arrived)) == Ok::<ArrivedView, FaultView>(arrived),
        taken(None) == Err::<ArrivedView, FaultView>(
            FaultView::Protocol("the client closed without producing"@),
        ),
{
}

/// The views of what a transport takes and gives show every field as it is
/// held.
pub proof fn transport_views_show_what_is_held(
    record: Record,
    arrived: Arrived,
    dial: Dial,
    delivery: Delivery,
    peer: &str,
    topic: &str,
)
    ensures
        record@.offset == record.offset,
        record.value is Some <==> record@.value is Some,
        record.value matches Some(value) ==> record@.value == Some(value@),
        arrived@.origin_uri == arrived.origin_uri@,
        arrived@.bytes == arrived.bytes@,
        produced_view(Some(arrived)) == Some(arrived@),
        produced_view(None) is None,
        dial@.address == dial.address@,
        dial@.client == dial.client@,
        dial@.timeout == dial.timeout,
        delivery@.dial == delivery.dial@,
        delivery@.topic == delivery.topic@,
        delivery@.partition == delivery.partition,
        delivery.key is Some <==> delivery@.key is Some,
        delivery.key matches Some(key) ==> delivery@.key == Some(key@),
        delivery@.value == delivery.value@,
        named_views(Some((peer, topic))) == Some((peer@, topic@)),
        named_views(None) is None,
{
}

/// Lists of records and of arrivals are shown one for one, in order.
pub proof fn transport_lists_are_shown_in_order(
    records: Seq<Record>,
    arrived: Seq<Arrived>,
    i: int,
)
    ensures
        record_views(records).len() == records.len(),
        0 <= i < records.len() ==> record_views(records)[i] == records[i]@,
        arrived_views(arrived).len() == arrived.len(),
        0 <= i < arrived.len() ==> arrived_views(arrived)[i] == arrived[i]@,
{
}

/// A step and what was heard are shown as what they are, with all that they
/// carry.
pub proof fn steps_are_shown_as_what_they_are(step: Step, heard: Heard)
    ensures
        match step {
            Step::Consult { admin, ask } => step@ == (StepView::Consult {
                admin: admin@,
                ask: ask@,
            }),
            Step::Connect(dial) => step@ == StepView::Connect(dial@),
            Step::Locate { topic } => step@ == (StepView::Locate { topic: topic@ }),
            Step::Reroute(dial) => step@ == StepView::Reroute(dial@),
            Step::Fetch { topic, partition, offset } => step@ == (StepView::Fetch {
                topic: topic@,
                partition: partition as int,
                offset: offset as int,
            }),
            Step::Done(arrived) => step@ == StepView::Done(arrived_views(arrived@)),
        },
        match heard {
            Heard::Replied(reply) => heard@ == HeardView::Replied(reply@),
            Heard::Connected => heard@ == HeardView::Connected,
            Heard::Located { leader } => heard@ == (HeardView::Located { leader: leader@ }),
            Heard::Fetched(records) => heard@ == HeardView::Fetched(record_views(records@)),
            Heard::Failed(fault) => heard@ == HeardView::Failed(fault@),
        },
{
}

} // verus!
