use zeus::config::{get_template_path, port, Config};
use zeus::error::{Upstream, ZeusError};
use zeus::lifecycle::Outcome;
use zeus::response::{health, hello, not_found, root, started, stopped, Body, ZeusResponse};
use zeus::text::chars_of;

fn message(response: &ZeusResponse) -> &str {
    match &response.data {
        Body::Message(text) => text,
        other => panic!("no message: {other:?}"),
    }
}

#[test]
fn client_error_is_a_400() {
    let err = ZeusError::client("no such template");
    assert_eq!(err, ZeusError::ClientError("no such template".to_string()));
    assert_eq!(err.status(), 400);
    assert_eq!(err.to_string(), "Client error: no such template");
    assert_eq!(err.into_response(), (400, "no such template".to_string()));
}

#[test]
fn server_error_is_a_500() {
    let err = ZeusError::ServerError("cluster down".to_string());
    assert_eq!(err.status(), 500);
    assert_eq!(err.to_string(), "Server error: cluster down");
    assert_eq!(err.into_response(), (500, "cluster down".to_string()));
}

#[test]
fn every_upstream_failure_is_a_server_error() {
    for source in [Upstream::Io, Upstream::Cluster, Upstream::Parse] {
        assert_eq!(
            ZeusError::from_upstream(source, "broken".to_string()),
            ZeusError::ServerError("broken".to_string())
        );
    }
}

#[test]
fn error_text_of_an_empty_message() {
    assert_eq!(ZeusError::client("").to_string(), "Client error: ");
    assert_eq!(
        ZeusError::ServerError(String::new()).to_string(),
        "Server error: "
    );
}

#[test]
fn hello_greets() {
    let response = hello();
    assert_eq!(response.status, 200);
    assert_eq!(message(&response), "Hello, World!");
}

#[test]
fn root_lists_the_routes() {
    let response = root();
    assert_eq!(response.status, 200);
    match response.data {
        Body::Routes(routes) => assert_eq!(routes, vec!["/hello", "/pods"]),
        other => panic!("no routes: {other:?}"),
    }
}

#[test]
fn health_says_ok() {
    let response = health();
    assert_eq!(response.status, 200);
    assert!(matches!(response.data, Body::Text(text) if text == "OK"));
}

#[test]
fn not_found_is_a_404() {
    let response = not_found();
    assert_eq!(response.status, 404);
    assert!(matches!(response.data, Body::Error(text) if text == "Not found"));
}

#[test]
fn response_new_keeps_status_and_body() {
    let response = ZeusResponse::new(418, Body::Text("teapot".to_string()));
    assert_eq!(response.status, 418);
    assert!(matches!(response.data, Body::Text(text) if text == "teapot"));
    let response = ZeusResponse::ok(Body::Templates(vec!["a".to_string()]));
    assert_eq!(response.status, 200);
    assert!(matches!(response.data, Body::Templates(names) if names == vec!["a"]));
}

#[test]
fn start_messages() {
    let response = started(Outcome::AlreadyInDesiredState);
    assert_eq!(response.status, 200);
    assert_eq!(message(&response), "Server already running");
    let response = started(Outcome::Transitioned);
    assert_eq!(response.status, 200);
    assert_eq!(message(&response), "Pod created");
}

#[test]
fn stop_messages() {
    let response = stopped(Outcome::AlreadyInDesiredState);
    assert_eq!(response.status, 200);
    assert_eq!(message(&response), "Server already off");
    let response = stopped(Outcome::Transitioned);
    assert_eq!(response.status, 200);
    assert_eq!(message(&response), "Server turned off");
}

#[test]
fn template_path_defaults_to_templates() {
    assert_eq!(get_template_path(None), "templates");
    assert_eq!(get_template_path(Some("/srv/t".to_string())), "/srv/t");
    assert_eq!(get_template_path(Some(String::new())), "");
}

#[test]
fn port_defaults_to_3001() {
    assert_eq!(port(None), Some(3001));
}

#[test]
fn port_reads_decimal_numbers() {
    assert_eq!(port(Some("8080")), Some(8080));
    assert_eq!(port(Some("0")), Some(0));
    assert_eq!(port(Some("65535")), Some(65535));
    assert_eq!(port(Some("+80")), Some(80));
    assert_eq!(port(Some("00080")), Some(80));
    assert_eq!(port(Some("0000000000000000000003001")), Some(3001));
}

#[test]
fn port_refuses_what_is_no_port() {
    for text in [
        "", "+", "-1", "65536", "99999999999999999999", "80a", "a80", " 80", "80 ", "8 0", "+-8",
        "++8", "0x50", "\u{663}",
    ] {
        assert_eq!(port(Some(text)), None, "{text:?}");
    }
}

#[test]
fn port_agrees_with_the_standard_parser() {
    for text in ["3001", "+3001", "", "+", "65535", "65536", "007", "7.0", "seven"] {
        assert_eq!(port(Some(text)), text.parse::<u16>().ok(), "{text:?}");
    }
}

#[test]
fn config_takes_both_settings() {
    assert_eq!(
        Config::new(None, None),
        Some(Config {
            template_path: "templates".to_string(),
            port: 3001
        })
    );
    assert_eq!(
        Config::new(Some("/srv/t".to_string()), Some("80")),
        Some(Config {
            template_path: "/srv/t".to_string(),
            port: 80
        })
    );
    assert_eq!(Config::new(None, Some("eighty")), None);
}

#[test]
fn chars_of_lists_the_characters() {
    assert_eq!(chars_of("a/\u{e9}."), vec!['a', '/', '\u{e9}', '.']);
    assert!(chars_of("").is_empty());
}
