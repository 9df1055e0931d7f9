use redpanda::session::{accept, body_length, read_request, write_response};
use redpanda::{Admin, AdminRequest, AdminSession, Broker, Fault, Reply};

fn asking(method: &str, path: &str) -> AdminRequest {
    AdminRequest {
        method: method.to_string(),
        path: path.to_string(),
    }
}

fn broker(node_id: i64, draining: bool) -> Broker {
    Broker {
        node_id,
        is_alive: node_id % 2 == 0,
        membership_status: format!("status \"{node_id}\" \u{e9}\n"),
        draining,
    }
}

fn body_of(response: &str) -> &str {
    response.split_once("\r\n\r\n").expect("a head").1
}

#[test]
fn the_brokers_are_listed_in_full() {
    let mut session = AdminSession::new(None);
    let response = session.serve_one(&asking("GET", "/v1/brokers"));
    let body = "[{\"is_alive\":true,\"maintenance_status\":{\"draining\":false,\"finished\":false},\
                \"membership_status\":\"active\",\"node_id\":0,\"num_cores\":1}]";
    assert_eq!(
        response,
        format!(
            "HTTP/1.1 200 OK\r\nContent-Type: application/json\r\nContent-Length: {}\r\n\
             Connection: close\r\n\r\n{body}",
            body.len()
        )
    );
}

#[test]
fn the_configuration_status_is_listed_in_full() {
    let mut session = AdminSession::new(None).with_brokers(vec![broker(4, false), broker(5, true)]);
    let response = session.serve_one(&asking("GET", "/v1/cluster_config/status"));
    let one = "\"config_version\":1,\"invalid\":[]";
    assert_eq!(
        body_of(&response),
        format!(
            "[{{{one},\"node_id\":4,\"restart\":false,\"unknown\":[]}},\
             {{{one},\"node_id\":5,\"restart\":false,\"unknown\":[]}}]"
        )
    );
}

#[test]
fn the_length_counts_bytes() {
    let mut session = AdminSession::new(None).with_brokers(vec![Broker {
        node_id: 1,
        is_alive: true,
        membership_status: "\u{e9}\u{1F600}".to_string(),
        draining: false,
    }]);
    let response = session.serve_one(&asking("GET", "/v1/brokers"));
    let (head, body) = response.split_once("\r\n\r\n").expect("a head");
    assert!(head.contains(&format!("Content-Length: {}", body.len())));
    assert!(body.len() > body.chars().count());
}

#[test]
fn whatever_the_brokers_hold_is_read_back() {
    let brokers = vec![broker(i64::MIN, true), broker(-1, false), broker(i64::MAX, true)];
    let mut session = AdminSession::new(None).with_brokers(brokers.clone());
    let response = session.serve_one(&asking("GET", "/v1/brokers"));
    let reply = Reply::Answered {
        status: 200,
        body: body_of(&response).as_bytes().to_vec(),
    };
    assert_eq!(Admin::brokers(reply).expect("a list"), brokers);
    assert_eq!(session.brokers(), brokers.as_slice());
}

#[test]
fn only_the_first_broker_of_a_node_is_put_into_maintenance() {
    let brokers = vec![broker(1, false), broker(2, false), broker(2, false)];
    let mut session = AdminSession::new(None).with_brokers(brokers);
    let (status, document) = session.answer(&asking("PUT", "/v1/brokers/2/maintenance"));
    assert_eq!(status, 200);
    assert_eq!(document.to_string(), "{}");
    let draining: Vec<bool> = session.brokers().iter().map(|b| b.draining).collect();
    assert_eq!(draining, [false, true, false]);
    assert_eq!(session.brokers()[1], broker(2, true));
    session.answer(&asking("DELETE", "/v1/brokers/2/maintenance"));
    assert_eq!(session.brokers()[1], broker(2, false));
}

#[test]
fn the_last_wish_for_a_node_stands() {
    let mut session = AdminSession::new(None);
    for (method, draining) in [("PUT", true), ("PUT", true), ("DELETE", false), ("DELETE", false), ("PUT", true)] {
        session.answer(&asking(method, "/v1/brokers/0/maintenance"));
        assert_eq!(session.brokers()[0].draining, draining);
    }
}

#[test]
fn any_request_asked_again_is_answered_the_same() {
    for (method, path) in [
        ("GET", "/v1/brokers"),
        ("GET", "/v1/cluster_config/status"),
        ("PUT", "/v1/brokers/1/maintenance"),
        ("DELETE", "/v1/brokers/2/maintenance"),
        ("PUT", "/v1/brokers/9/maintenance"),
        ("POST", "/elsewhere"),
    ] {
        let mut session = AdminSession::new(None).with_brokers(vec![broker(1, false), broker(2, true)]);
        let once = session.serve_one(&asking(method, path));
        let left = session.brokers().to_vec();
        assert_eq!(session.serve_one(&asking(method, path)), once, "{method} {path}");
        assert_eq!(session.brokers(), left.as_slice(), "{method} {path}");
    }
}

#[test]
fn maintenance_sticks_whatever_is_asked_of_other_nodes() {
    let mut session = AdminSession::new(None).with_brokers(vec![broker(1, false), broker(2, false)]);
    session.answer(&asking("PUT", "/v1/brokers/1/maintenance"));
    for (method, path) in [
        ("PUT", "/v1/brokers/2/maintenance"),
        ("DELETE", "/v1/brokers/2/maintenance"),
        ("DELETE", "/v1/brokers/9/maintenance"),
        ("DELETE", "/v1/brokers/1/maintenance/now"),
        ("GET", "/v1/brokers"),
    ] {
        session.answer(&asking(method, path));
        assert_eq!(session.brokers()[0], broker(1, true), "{method} {path}");
    }
}

#[test]
fn a_node_is_written_as_a_number_or_is_none() {
    for (id, known) in [
        ("0", true),
        ("+0", true),
        ("-0", true),
        ("000", true),
        ("", false),
        ("+", false),
        ("-", false),
        ("0x0", false),
        ("1", false),
        (" 0", false),
        ("9223372036854775808", false),
    ] {
        let mut session = AdminSession::new(None);
        let path = format!("/v1/brokers/{id}/maintenance");
        let (status, document) = session.answer(&asking("PUT", &path));
        assert_eq!(status == 200, known, "{id}");
        assert_eq!(session.brokers()[0].draining, known, "{id}");
        if !known {
            assert_eq!(document.to_string(), "{\"message\":\"node not found\"}");
        }
    }
    let mut session = AdminSession::new(None).with_brokers(vec![broker(-1, false)]);
    assert_eq!(session.answer(&asking("PUT", "/v1/brokers/seven/maintenance")).0, 200);
    let low = "-9223372036854775808";
    let mut session = AdminSession::new(None).with_brokers(vec![broker(i64::MIN, false)]);
    let path = format!("/v1/brokers/{low}/maintenance");
    assert_eq!(session.answer(&asking("PUT", &path)).0, 200);
}

#[test]
fn slashes_at_the_ends_of_a_path_do_not_count() {
    for path in ["v1/brokers", "/v1/brokers/", "//v1/brokers///"] {
        assert_eq!(AdminSession::new(None).answer(&asking("GET", path)).0, 200, "{path}");
    }
    for (method, path) in [
        ("GET", "/v1//brokers"),
        ("GET", "/"),
        ("GET", ""),
        ("get", "/v1/brokers"),
        ("POST", "/v1/brokers"),
        ("PUT", "/v1/brokers"),
        ("GET", "/v1/brokers/0/maintenance"),
        ("PUT", "/v2/brokers/0/maintenance"),
        ("PUT", "/v1/brokers/0/maintenance/now"),
        ("DELETE", "/v1/cluster_config/status"),
    ] {
        let mut session = AdminSession::new(None);
        let (status, document) = session.answer(&asking(method, path));
        assert_eq!(status, 404, "{method} {path}");
        assert_eq!(document.to_string(), "{\"message\":\"not served here\"}");
        assert!(!session.brokers()[0].draining);
    }
}

#[test]
fn what_is_not_served_is_not_found() {
    let response = AdminSession::new(None).serve_one(&asking("GET", "/v2"));
    assert!(response.starts_with("HTTP/1.1 404 Not Found\r\n"));
    assert!(response.ends_with("Connection: close\r\n\r\n{\"message\":\"not served here\"}"));
}

#[test]
fn a_session_begins_with_one_broker() {
    let session = AdminSession::new(Some(std::time::Duration::from_secs(2)));
    assert_eq!(session.timeout(), Some(std::time::Duration::from_secs(2)));
    assert_eq!(
        session.brokers(),
        [Broker {
            node_id: 0,
            is_alive: true,
            membership_status: "active".to_string(),
            draining: false,
        }]
    );
}

#[test]
fn a_request_line_begins_with_two_words() {
    let read = |line: &str| read_request(&vec![line.to_string(), "Host: x".to_string()]);
    assert_eq!(read("GET /v1/brokers HTTP/1.1").expect("ok"), asking("GET", "/v1/brokers"));
    assert_eq!(read("  PUT\t/x").expect("ok"), asking("PUT", "/x"));
    assert_eq!(read("a\u{a0}b\u{3000}c").expect("ok"), asking("a", "b"));
    assert_eq!(read("a\u{200b}b c").expect("ok"), asking("a\u{200b}b", "c"));
    for line in ["", " ", "GET", " GET \r"] {
        let fault = read(line).expect_err(line);
        assert!(matches!(fault, Fault::Protocol(m) if m == "a request line that is not HTTP"));
    }
    assert!(read_request(&Vec::new()).is_err());
}

#[test]
fn the_far_end_reports_what_the_client_asked() {
    for ask in [
        Admin::ask_brokers(),
        Admin::ask_cluster_config_status(),
        Admin::ask_maintenance(-7, true),
        Admin::ask_maintenance(0, false),
    ] {
        let lines = vec![
            format!("{} {} HTTP/1.1", ask.method, ask.path),
            format!("Accept: {}", ask.accept),
        ];
        let accepted = accept(&lines, None, 0).expect("a request");
        assert_eq!(accepted.request, asking(&ask.method, &ask.path));
        assert_eq!(accepted.length, 0);
    }
}

#[test]
fn a_response_frames_its_body() {
    assert_eq!(
        write_response(200, "\u{e9}"),
        "HTTP/1.1 200 OK\r\nContent-Type: application/json\r\nContent-Length: 2\r\n\
         Connection: close\r\n\r\n\u{e9}"
    );
    assert_eq!(
        write_response(404, ""),
        "HTTP/1.1 404 Not Found\r\nContent-Type: application/json\r\nContent-Length: 0\r\n\
         Connection: close\r\n\r\n"
    );
}

#[test]
fn a_body_is_as_long_as_declared() {
    assert_eq!(body_length(None, 10).expect("ok"), 0);
    assert_eq!(body_length(Some("0"), 0).expect("ok"), 0);
    assert_eq!(body_length(Some("+10"), 10).expect("ok"), 10);
    assert_eq!(body_length(Some("0000000000000000000000010"), 10).expect("ok"), 10);
    for text in ["", "-1", "-0", "1 ", "ten", "18446744073709551616", "99999999999999999999999999"] {
        let fault = body_length(Some(text), usize::MAX).expect_err(text);
        assert!(matches!(fault, Fault::Protocol(m) if m == "a length that is not a number"), "{text}");
    }
    assert_eq!(
        body_length(Some("18446744073709551615"), usize::MAX).expect("ok"),
        usize::MAX
    );
    let fault = body_length(Some("11"), 10).expect_err("too long");
    assert!(matches!(fault, Fault::Protocol(m) if m == "a body over what Xmip will read"));
}

#[test]
fn the_request_line_is_looked_at_before_the_length() {
    let good = vec!["GET /v1/brokers HTTP/1.1".to_string()];
    let bad = vec!["GET".to_string()];
    let accepted = accept(&good, Some("3"), 8).expect("ok");
    assert_eq!(accepted.request, asking("GET", "/v1/brokers"));
    assert_eq!(accepted.length, 3);
    let fault = accept(&good, Some("9"), 8).expect_err("too long");
    assert!(matches!(fault, Fault::Protocol(m) if m == "a body over what Xmip will read"));
    let fault = accept(&bad, Some("9"), 8).expect_err("both");
    assert!(matches!(fault, Fault::Protocol(m) if m == "a request line that is not HTTP"));
}
