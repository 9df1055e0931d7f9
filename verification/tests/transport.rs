use std::time::Duration;

use redpanda::transport::{check_fit, take_one};
use redpanda::{
    Admin, AdminRequest, AdminSession, Arrived, Broker, Fault, Heard, Record, RedpandaTransport,
    Reply, Step,
};

fn secs(n: u64) -> Duration {
    Duration::from_secs(n)
}

fn records(first: i64, values: &[&[u8]]) -> Heard {
    let mut list = Vec::new();
    for (i, value) in values.iter().enumerate() {
        list.push(Record {
            offset: first + i64::try_from(i).expect("few"),
            value: Some(value.to_vec()),
        });
    }
    Heard::Fetched(list)
}

fn node(draining: bool) -> Broker {
    Broker {
        node_id: 0,
        is_alive: true,
        membership_status: "active".to_string(),
        draining,
    }
}

/// What the far end of the Admin API says of the brokers.
fn look(session: &mut AdminSession) -> Reply {
    let ask = Admin::ask_brokers();
    let response = session.serve_one(&AdminRequest {
        method: ask.method,
        path: ask.path,
    });
    let body = response.split_once("\r\n\r\n").expect("a head").1;
    Reply::Answered {
        status: 200,
        body: body.as_bytes().to_vec(),
    }
}

#[test]
fn the_transport_sends_and_receives_over_kafka_with_its_own_origin() {
    let address = "127.0.0.1:40000";
    let mut near = RedpandaTransport::new(address, "orders")
        .from_offset(1)
        .timing_out_after(secs(2));
    let produced = near.send(
        Some((address, "orders")),
        &format!("redpanda://{address}/orders"),
        b"produced",
    );
    let again = near.send(None, &format!("{address}/orders"), b"again");
    for (delivery, expected) in [(produced, &b"produced"[..]), (again, b"again")] {
        assert_eq!(delivery.value, expected);
        assert_eq!(delivery.key, None);
        assert_eq!(delivery.dial.address, address);
        assert_eq!(delivery.dial.client, "xmip");
        assert_eq!(delivery.dial.timeout, Some(secs(2)));
        assert_eq!(delivery.topic, "orders");
        assert_eq!(delivery.partition, 0);
    }
    let step = near.begin();
    assert!(matches!(&step, Step::Connect(dial) if dial.address == address));
    let step = near.receive(step, Heard::Connected).expect("connected");
    assert!(matches!(&step, Step::Locate { topic } if topic == "orders"));
    let heard = Heard::Located {
        leader: address.to_string(),
    };
    let step = near.receive(step, heard).expect("located");
    assert!(matches!(&step, Step::Fetch { topic, partition: 0, offset: 1 } if topic == "orders"));
    assert_eq!(near.cursor(), 1);
    let done = near.receive(step, records(1, &[b"one", b"two"])).expect("round trip");
    let Step::Done(arrived) = done else {
        panic!("not done");
    };
    assert_eq!(arrived.len(), 2, "from offset 1");
    assert_eq!(arrived[0].bytes, b"one");
    assert!(arrived[0].origin_uri.starts_with("redpanda://127.0.0.1:"));
    assert!(arrived[1].origin_uri.ends_with("/orders/0?offset=2"));
    assert_eq!(near.cursor(), 3);
    assert_eq!(near.name(), "redpanda");
}

#[test]
fn a_node_in_maintenance_takes_no_work_until_it_is_out() {
    let mut near = RedpandaTransport::new("127.0.0.1:40000", "orders")
        .with_admin("127.0.0.1:40001")
        .timing_out_after(secs(2));
    let mut admin = AdminSession::new(Some(secs(2))).with_brokers(vec![node(true)]);
    let step = near.begin();
    assert!(matches!(&step, Step::Consult { admin, ask }
        if admin.address() == "127.0.0.1:40001" && admin.timeout() == Some(secs(2))
            && ask.method == "GET" && ask.path == "/v1/brokers"));
    let Err(refused) = near.receive(step, Heard::Replied(look(&mut admin))) else {
        panic!("draining");
    };
    let mut admin = admin.with_brokers(vec![node(false)]);
    let step = near.begin();
    let step = near.receive(step, Heard::Replied(look(&mut admin))).expect("second look");
    assert!(matches!(&step, Step::Connect(_)));
    let step = near.receive(step, Heard::Connected).expect("accepting");
    let heard = Heard::Located {
        leader: "127.0.0.1:40000".to_string(),
    };
    let step = near.receive(step, heard).expect("serving");
    let done = near.receive(step, records(0, &[b"one"])).expect("round trip");
    let Step::Done(arrived) = done else {
        panic!("not done");
    };
    let unknown = RedpandaTransport::new("127.0.0.1:1", "orders")
        .with_admin("127.0.0.1:40001")
        .on_node(7)
        .timing_out_after(secs(2))
        .check_ready(look(&mut AdminSession::new(Some(secs(2)))))
        .expect_err("no node 7");
    assert_eq!(refused.retryable(), Some(true));
    assert!(matches!(&refused, Fault::Retryable(m) if m.contains("in maintenance")));
    assert_eq!(arrived.len(), 1);
    assert_eq!(arrived[0].bytes, b"one");
    assert_eq!(unknown.retryable(), Some(false));
}

#[test]
fn a_node_is_fit_or_the_fault_says_why() {
    let mut brokers = vec![node(true), node(false)];
    brokers[1].node_id = -3;
    assert!(check_fit(-3, &brokers).is_ok());
    let fault = check_fit(0, &brokers).expect_err("draining");
    assert!(matches!(fault, Fault::Retryable(m) if m == "node 0 is in maintenance"));
    brokers[1].is_alive = false;
    let fault = check_fit(-3, &brokers).expect_err("not alive");
    assert!(matches!(fault, Fault::Retryable(m) if m == "node -3 is not alive"));
    let fault = check_fit(7, &brokers).expect_err("unknown");
    assert!(matches!(fault, Fault::Permanent(m) if m == "the Admin API knows no node 7"));
    brokers[0].is_alive = false;
    let fault = check_fit(0, &brokers).expect_err("both");
    assert!(matches!(fault, Fault::Retryable(m) if m == "node 0 is in maintenance"));
    let mut twice = vec![node(false), node(true)];
    assert!(check_fit(0, &twice).is_ok());
    twice.swap(0, 1);
    assert!(check_fit(0, &twice).is_err());
}

#[test]
fn without_an_admin_api_nothing_stands_against_work() {
    let plain = RedpandaTransport::new("b:1", "orders");
    let reply = Reply::Answered {
        status: 500,
        body: Vec::new(),
    };
    assert!(plain.check_ready(reply).is_ok());
    assert!(matches!(plain.begin(), Step::Connect(_)));
    let reply = Reply::Answered {
        status: 500,
        body: Vec::new(),
    };
    let fault = plain.with_admin("a:1").check_ready(reply).expect_err("500");
    assert_eq!(fault.retryable(), Some(true));
}

#[test]
fn a_leader_elsewhere_is_connected_to_instead() {
    let mut near = RedpandaTransport::new("b:1", "orders").on_partition(4).from_offset(9);
    assert!(near.connect("b:1").expect("a leader").is_none());
    let dial = near.connect("c:2").expect("a leader").expect("elsewhere");
    assert_eq!(dial.address, "c:2");
    assert_eq!(dial.client, near.client());
    let step = near.begin();
    let step = near.receive(step, Heard::Connected).expect("connected");
    let heard = Heard::Located {
        leader: "c:2".to_string(),
    };
    let step = near.receive(step, heard).expect("located");
    assert!(matches!(&step, Step::Reroute(dial) if dial.address == "c:2" && dial.client == "xmip"));
    let step = near.receive(step, Heard::Connected).expect("connected");
    assert!(matches!(step, Step::Fetch { partition: 4, offset: 9, .. }));
}

#[test]
fn the_cursor_moves_past_the_last_record_only() {
    let mut near = RedpandaTransport::new("b:1", "orders").on_partition(-2).from_offset(5);
    assert!(near.arrive(Vec::new()).is_empty());
    assert_eq!(near.cursor(), 5);
    let arrived = near.arrive(vec![
        Record {
            offset: 41,
            value: None,
        },
        Record {
            offset: -8,
            value: Some(vec![0, 255]),
        },
    ]);
    assert_eq!(arrived[0].origin_uri, "redpanda://b:1/orders/-2?offset=41");
    assert!(arrived[0].bytes.is_empty());
    assert_eq!(arrived[1].origin_uri, "redpanda://b:1/orders/-2?offset=-8");
    assert_eq!(arrived[1].bytes, [0, 255]);
    assert_eq!(near.cursor(), -7);
    let arrived = near.arrive(vec![Record {
        offset: i64::MAX - 1,
        value: None,
    }]);
    assert!(arrived[0].origin_uri.ends_with("?offset=9223372036854775806"));
    assert_eq!(near.cursor(), i64::MAX);
}

#[test]
fn targets_name_a_broker_a_topic_or_both() {
    let near = RedpandaTransport::new("b:1", "orders");
    assert_eq!(near.resolve(Some(("h:9092", "t")), "redpanda://h:9092/t"), ("h:9092", "t"));
    assert_eq!(near.resolve(Some(("h:9092", "")), "redpanda://h:9092"), ("h:9092", "orders"));
    assert_eq!(near.resolve(None, "h:9092/t"), ("h:9092", "t"));
    assert_eq!(near.resolve(None, "h:9092/t/u"), ("h:9092", "t/u"));
    assert_eq!(near.resolve(None, "h:9092/"), ("h:9092", ""));
    assert_eq!(near.resolve(None, "t"), ("b:1", "t"));
    assert_eq!(near.resolve(None, "h/t:u"), ("b:1", "h/t:u"));
    assert_eq!(near.resolve(None, "h:9092"), ("b:1", "h:9092"));
    assert_eq!(near.resolve(None, ""), ("b:1", ""));
    assert_eq!(near.resolve(None, "\u{e9}:1/\u{e9}"), ("\u{e9}:1", "\u{e9}"));
}

#[test]
fn a_loopback_sends_to_the_far_end_it_is_given() {
    let loopback = RedpandaTransport::loopback(secs(5));
    assert_eq!(loopback.broker(), "127.0.0.1:0");
    assert_eq!(loopback.topic(), "probe");
    assert_eq!(loopback.timeout(), Some(secs(5)));
    assert_eq!(loopback.cursor(), 0);
    let delivery = loopback.send_to("127.0.0.1:40000", b"record");
    assert_eq!(delivery.dial.address, "127.0.0.1:40000");
    assert_eq!(delivery.dial.timeout, Some(secs(5)));
    assert_eq!(delivery.topic, "probe");
    assert_eq!(delivery.partition, 0);
    assert_eq!(delivery.key, None);
    assert_eq!(delivery.value, b"record");
    let delivery = loopback.on_partition(3).send_to("h:1", b"");
    assert_eq!(delivery.partition, 3);
}

#[test]
fn a_topic_that_reads_as_a_target_stays_a_topic_for_a_far_end() {
    for topic in ["h:1/t", "redpanda://h:1/t", "redpanda://h:1", ""] {
        let delivery = RedpandaTransport::new("127.0.0.1:0", topic).send_to("127.0.0.1:9092", b"x");
        assert_eq!(delivery.dial.address, "127.0.0.1:9092");
        assert_eq!(delivery.dial.client, "xmip");
        assert_eq!(delivery.dial.timeout, None);
        assert_eq!(delivery.topic, topic);
        assert_eq!(delivery.value, b"x");
    }
}

#[test]
fn a_topic_without_a_leader_is_refused() {
    let mut near = RedpandaTransport::new("b:1", "orders").from_offset(9);
    let fault = near.connect("").expect_err("no leader");
    assert!(matches!(&fault, Fault::Retryable(m) if m == "the topic orders has no leader"));
    let step = near.begin();
    let step = near.receive(step, Heard::Connected).expect("connected");
    let heard = Heard::Located {
        leader: String::new(),
    };
    let Err(fault) = near.receive(step, heard) else {
        panic!("no leader");
    };
    assert_eq!(fault.retryable(), Some(true));
    assert_eq!(near.cursor(), 9);
}

#[test]
fn a_failed_step_is_handed_on() {
    let mut near = RedpandaTransport::new("b:1", "orders").from_offset(9);
    let step = near.begin();
    let failed = Heard::Failed(Fault::Permanent("refused".to_string()));
    let Err(fault) = near.receive(step, failed) else {
        panic!("handed on");
    };
    assert!(matches!(fault, Fault::Permanent(m) if m == "refused"));
    let step = Step::Fetch {
        topic: "orders".to_string(),
        partition: 0,
        offset: 9,
    };
    let failed = Heard::Failed(Fault::Retryable("reset".to_string()));
    let Err(fault) = near.receive(step, failed) else {
        panic!("handed on");
    };
    assert!(matches!(fault, Fault::Retryable(m) if m == "reset"));
    assert_eq!(near.cursor(), 9);
}

#[test]
fn receives_in_a_row_bring_no_record_twice() {
    let mut near = RedpandaTransport::new("b:1", "orders");
    let mut origins = Vec::new();
    for (offsets, cursor) in [(vec![0, 1], 2), (vec![2, 5], 6), (vec![], 6), (vec![6], 7)] {
        let mut records = Vec::new();
        for offset in offsets {
            records.push(Record {
                offset,
                value: None,
            });
        }
        for arrived in near.arrive(records) {
            assert!(!origins.contains(&arrived.origin_uri));
            origins.push(arrived.origin_uri);
        }
        assert_eq!(near.cursor(), cursor);
    }
    assert_eq!(origins.len(), 5);
}

#[test]
fn every_transport_calls_itself_by_the_one_name() {
    let mut near = RedpandaTransport::loopback(secs(1))
        .with_admin("a:1")
        .on_node(3)
        .on_partition(2)
        .from_offset(4);
    near.arrive(Vec::new());
    assert_eq!(near.client(), "xmip");
    assert_eq!(near.dial("x:1").client, "xmip");
}

/// What is sent to a loopback's far end, taken there.
fn round(loopback: &RedpandaTransport, payload: &[u8]) -> Arrived {
    let delivery = loopback.send_to("127.0.0.1:40000", payload);
    let mut far_end = RedpandaTransport::new(&delivery.dial.address, &delivery.topic)
        .on_partition(delivery.partition);
    let mut produced = far_end.arrive(vec![Record {
        offset: 0,
        value: Some(delivery.value),
    }]);
    take_one(produced.pop()).expect("round")
}

#[test]
fn the_loopback_round_returns_the_payload_and_its_origin() {
    let loopback = RedpandaTransport::loopback(secs(5));
    let arrived = round(&loopback, b"record");
    assert_eq!(arrived.bytes, b"record");
    assert!(arrived.origin_uri.ends_with("/probe/0?offset=0"));
}

#[test]
fn the_loopback_returns_the_edge_payloads_whole() {
    let loopback = RedpandaTransport::loopback(secs(5));
    for (name, payload) in edge_payloads() {
        let arrived = round(&loopback, &payload);
        assert!(arrived.bytes == payload, "{name} came back changed");
    }
}

/// The shapes a framing fault changes.
fn edge_payloads() -> Vec<(&'static str, Vec<u8>)> {
    vec![
        ("empty", Vec::new()),
        ("one byte", vec![0x2a]),
        ("every byte", (0..=255).collect()),
        ("nul run", vec![0; 512]),
        ("high bytes", vec![0xff; 512]),
        ("crlf storm", b"\r\n".repeat(400)),
        ("mtu minus one", patterned(1_471)),
        ("mtu", patterned(1_472)),
        ("mtu plus one", patterned(1_473)),
        ("udp maximum", patterned(65_507)),
        ("sixteen bits plus one", patterned(65_537)),
        ("a mebibyte", patterned(1 << 20)),
    ]
}

/// `len` bytes a truncation, a reorder or a duplicate would change.
fn patterned(len: usize) -> Vec<u8> {
    (0..len)
        .map(|at| u8::try_from((at * 31 + at / 251) % 256).unwrap_or(0))
        .collect()
}

#[test]
fn a_far_end_takes_one_record_or_a_fault() {
    let arrived = Arrived {
        origin_uri: "redpanda://b/probe/0?offset=0".to_string(),
        bytes: b"record".to_vec(),
    };
    assert_eq!(take_one(Some(arrived)).expect("one").bytes, b"record");
    let fault = take_one(None).expect_err("none");
    assert!(matches!(fault, Fault::Protocol(m) if m == "the client closed without producing"));
}
