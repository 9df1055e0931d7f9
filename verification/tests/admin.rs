use std::io::ErrorKind;
use std::time::Duration;

use redpanda::admin::{failed, read_brokers, read_statuses};
use redpanda::{Admin, AdminRequest, AdminSession, Broker, Call, ConfigStatus, Fault, Reply};

fn answered(status: u16, body: &str) -> Reply {
    Reply::Answered {
        status,
        body: body.as_bytes().to_vec(),
    }
}

/// The request as it reaches the far end, and the reply as the client gets
/// it back from there.
fn exchange(session: &mut AdminSession, ask: &Call) -> (AdminRequest, Reply) {
    let request = AdminRequest {
        method: ask.method.clone(),
        path: ask.path.clone(),
    };
    let response = session.serve_one(&request);
    let (head, body) = response.split_once("\r\n\r\n").expect("a head");
    let status = head.split(' ').nth(1).expect("a status");
    (request, answered(status.parse().expect("a number"), body))
}

fn message(fault: &Fault) -> &str {
    match fault {
        Fault::Retryable(m) | Fault::Permanent(m) | Fault::Protocol(m) => m,
        Fault::Connection { message, .. } => message,
    }
}

#[test]
fn the_three_calls_are_answered_and_maintenance_sticks() {
    let mut session = AdminSession::new(Some(Duration::from_secs(2)));
    let mut asked = Vec::new();
    let (request, reply) = exchange(&mut session, &Admin::ask_brokers());
    asked.push(request);
    let before = Admin::brokers(reply).expect("calls");
    let (request, reply) = exchange(&mut session, &Admin::ask_maintenance(0, true));
    asked.push(request);
    Admin::maintenance(0, true, reply).expect("calls");
    let (request, reply) = exchange(&mut session, &Admin::ask_brokers());
    asked.push(request);
    let during = Admin::brokers(reply).expect("calls");
    let (request, reply) = exchange(&mut session, &Admin::ask_maintenance(0, false));
    asked.push(request);
    Admin::maintenance(0, false, reply).expect("calls");
    let (request, reply) = exchange(&mut session, &Admin::ask_cluster_config_status());
    asked.push(request);
    let status = Admin::cluster_config_status(reply).expect("calls");
    let (request, reply) = exchange(&mut session, &Admin::ask_maintenance(9, true));
    asked.push(request);
    let missing = Admin::maintenance(9, true, reply);
    assert_eq!(asked.len(), 6);
    assert_eq!(asked[1].method, "PUT");
    assert_eq!(asked[1].path, "/v1/brokers/0/maintenance");
    assert_eq!(asked[3].method, "DELETE");
    assert!(!session.brokers()[0].draining);
    assert_eq!(before.len(), 1);
    assert!(before[0].is_alive && !before[0].draining);
    assert_eq!(before[0].membership_status, "active");
    assert!(during[0].draining);
    assert_eq!(status[0].config_version, 1);
    assert!(status[0].invalid.is_empty());
    assert_eq!(missing.expect_err("node 9").retryable(), Some(false));
}

#[test]
fn what_is_not_the_admin_api_is_refused() {
    let not_json = Admin::brokers(answered(200, "not")).expect_err("not json");
    assert_eq!(not_json.retryable(), Some(false));
    assert!(message(&not_json).starts_with("an answer that is not JSON: expected"));
    let unavailable = Admin::brokers(answered(503, "")).expect_err("503");
    assert_eq!(unavailable.retryable(), Some(true));
    let not_http = Admin::brokers(Reply::Failed {
        io: None,
        message: "220 mail.example ESMTP".to_string(),
    })
    .expect_err("not http");
    assert_eq!(not_http.retryable(), Some(false));
    let lines = vec![String::new()];
    let refused = redpanda::session::accept(&lines, None, 64).expect_err("no request line");
    assert_eq!(refused.retryable(), Some(false));
}

#[test]
fn the_calls_ask_what_the_api_serves() {
    let brokers = Admin::ask_brokers();
    assert_eq!((brokers.method.as_str(), brokers.path.as_str()), ("GET", "/v1/brokers"));
    assert_eq!(brokers.accept, "application/json");
    let status = Admin::ask_cluster_config_status();
    assert_eq!(status.method, "GET");
    assert_eq!(status.path, "/v1/cluster_config/status");
    let out = Admin::ask_maintenance(i64::MIN, false);
    assert_eq!(out.method, "DELETE");
    assert_eq!(out.path, "/v1/brokers/-9223372036854775808/maintenance");
    assert_eq!(Admin::ask_maintenance(1203, true).path, "/v1/brokers/1203/maintenance");
}

#[test]
fn a_client_keeps_its_address_and_its_patience() {
    let admin = Admin::new("host:9644", Some(Duration::from_secs(3)));
    assert_eq!(admin.address(), "host:9644");
    assert_eq!(admin.timeout(), Some(Duration::from_secs(3)));
    assert_eq!(Admin::new("host:9644", None).timeout(), None);
}

#[test]
fn a_refusal_names_the_request_and_the_status() {
    for (status, retryable) in [(199, false), (300, false), (404, false), (499, false), (500, true), (599, true)] {
        let fault = Admin::brokers(answered(status, "[]")).expect_err("refused");
        assert_eq!(fault.retryable(), Some(retryable));
        assert_eq!(
            message(&fault),
            format!("the Admin API answered GET /v1/brokers with {status}")
        );
    }
    let fault = Admin::maintenance(7, true, answered(418, "")).expect_err("refused");
    assert_eq!(
        message(&fault),
        "the Admin API answered PUT /v1/brokers/7/maintenance with 418"
    );
    assert!(Admin::brokers(answered(200, "[]")).expect("ok").is_empty());
    assert!(Admin::brokers(answered(299, "[]")).expect("ok").is_empty());
}

#[test]
fn a_success_without_a_body_is_null() {
    Admin::maintenance(0, true, answered(204, "")).expect("any success will do");
    let fault = Admin::brokers(answered(204, "")).expect_err("null is no list");
    assert!(matches!(fault, Fault::Protocol(_)));
    assert_eq!(message(&fault), "brokers that are not a list");
    let fault = Admin::cluster_config_status(answered(200, "{}")).expect_err("no list");
    assert_eq!(message(&fault), "a status that is not a list");
    let fault = Admin::maintenance(0, true, answered(200, "{")).expect_err("not JSON");
    assert!(matches!(fault, Fault::Protocol(_)));
}

#[test]
fn what_a_broker_leaves_out_has_a_default() {
    let body = r#"[{}, 7, {"node_id": 3, "is_alive": true, "membership_status": "draining",
        "maintenance_status": {"draining": true}},
        {"node_id": "3", "is_alive": 1, "membership_status": null, "maintenance_status": true},
        {"node_id": 1.0}, {"node_id": 9223372036854775808}, {"node_id": -5}]"#;
    let nothing = Broker {
        node_id: -1,
        is_alive: false,
        membership_status: String::new(),
        draining: false,
    };
    let brokers = Admin::brokers(answered(200, body)).expect("a list");
    assert_eq!(brokers.len(), 7);
    assert_eq!(brokers[0], nothing);
    assert_eq!(brokers[1], nothing);
    assert_eq!(
        brokers[2],
        Broker {
            node_id: 3,
            is_alive: true,
            membership_status: "draining".to_string(),
            draining: true,
        }
    );
    assert_eq!(brokers[3], nothing);
    assert_eq!(brokers[4], nothing);
    assert_eq!(brokers[5], nothing);
    assert_eq!(brokers[6].node_id, -5);
}

#[test]
fn what_a_status_leaves_out_has_a_default() {
    let body = r#"[{}, {"node_id": 2, "restart": true, "config_version": 9,
        "invalid": ["a", 1, null, "bé"]}, {"invalid": "a"}]"#;
    let statuses = Admin::cluster_config_status(answered(200, body)).expect("a list");
    let nothing = ConfigStatus {
        node_id: -1,
        restart: false,
        config_version: 0,
        invalid: Vec::new(),
    };
    assert_eq!(statuses[0], nothing);
    assert_eq!(
        statuses[1],
        ConfigStatus {
            node_id: 2,
            restart: true,
            config_version: 9,
            invalid: vec!["a".to_string(), "b\u{e9}".to_string()],
        }
    );
    assert_eq!(statuses[2], nothing);
}

#[test]
fn documents_are_read_as_they_are_given() {
    let list: serde_json::Value = serde_json::from_str(r#"[{"node_id": 4}]"#).expect("json");
    assert_eq!(read_brokers(&list).expect("a list")[0].node_id, 4);
    assert_eq!(read_statuses(&list).expect("a list")[0].node_id, 4);
    let text = serde_json::Value::from("x");
    assert!(matches!(read_brokers(&text), Err(Fault::Protocol(_))));
    assert!(matches!(read_statuses(&text), Err(Fault::Protocol(_))));
}

#[test]
fn a_failed_connection_keeps_its_kind() {
    match failed(Some(ErrorKind::TimedOut), "late".to_string()) {
        Fault::Connection { doing, kind, message } => {
            assert_eq!(doing, "asking the Admin API");
            assert_eq!(kind, ErrorKind::TimedOut);
            assert_eq!(message, "late");
        }
        other => panic!("{other:?}"),
    }
    let reply = Reply::Failed {
        io: Some(ErrorKind::ConnectionReset),
        message: "gone".to_string(),
    };
    let fault = Admin::brokers(reply).expect_err("no answer");
    assert_eq!(fault.retryable(), None);
    assert!(matches!(failed(None, "x".to_string()), Fault::Protocol(m) if m == "x"));
}
