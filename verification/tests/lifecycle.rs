use zeus::error::ZeusError;
use zeus::lifecycle::{
    advance, pod_exists, run, shutdown, Action, Event, Lifecycle, Lookup, Outcome,
};
use zeus::pod_templates::Reading;

const MANIFEST: &str = "{\"metadata\": {\"name\": \"alpha\", \"annotations\": {\"version\": \
                        \"1.0\", \"description\": \"First server\"}}}";

fn missing() -> Event {
    Event::Looked(Lookup::Absent)
}

fn found() -> Event {
    Event::Looked(Lookup::Found)
}

fn failed(reason: &str) -> Event {
    Event::Looked(Lookup::Failed(reason.to_string()))
}

fn text(content: &str) -> Event {
    Event::Read(Reading::Text(content.to_string()))
}

fn done(result: Result<Outcome, ZeusError>) -> (Lifecycle, Action) {
    (Lifecycle::Done, Action::Finish { result })
}

#[test]
fn run_asks_for_the_instance_by_name() {
    assert_eq!(
        run("alpha".to_string()),
        (
            Lifecycle::Checking {
                starting: true,
                name: "alpha".to_string()
            },
            Action::Lookup {
                name: "alpha".to_string()
            }
        )
    );
}

#[test]
fn shutdown_asks_for_the_instance_by_name() {
    assert_eq!(
        shutdown("alpha".to_string()),
        (
            Lifecycle::Checking {
                starting: false,
                name: "alpha".to_string()
            },
            Action::Lookup {
                name: "alpha".to_string()
            }
        )
    );
}

#[test]
fn pod_exists_tells_absence_from_failure() {
    assert_eq!(pod_exists(Lookup::Found), Ok(true));
    assert_eq!(pod_exists(Lookup::Absent), Ok(false));
    assert_eq!(
        pod_exists(Lookup::Failed("connection reset".to_string())),
        Err(ZeusError::ServerError("connection reset".to_string()))
    );
}

#[test]
fn start_fails_when_the_lookup_fails() {
    let (state, _) = run("alpha".to_string());
    assert_eq!(
        advance(state, failed("connection refused"), "templates"),
        done(Err(ZeusError::ServerError("connection refused".to_string())))
    );
}

#[test]
fn stop_fails_when_the_lookup_fails() {
    let (state, _) = shutdown("alpha".to_string());
    assert_eq!(
        advance(state, failed("connection refused"), "templates"),
        done(Err(ZeusError::ServerError("connection refused".to_string())))
    );
}

#[test]
fn start_with_unreadable_template_is_the_servers_fault() {
    let (state, _) = run("alpha".to_string());
    let (state, _) = advance(state, missing(), "templates");
    assert_eq!(
        advance(state, Event::Read(Reading::Unreadable), "templates"),
        done(Err(ZeusError::ServerError(
            "Failed to parse pod template: alpha".to_string()
        )))
    );
}

#[test]
fn start_with_a_manifest_that_is_no_pod_is_the_servers_fault() {
    let service = MANIFEST.replace("{\"metadata\"", "{\"kind\": \"Service\", \"metadata\"");
    assert!(service.contains("Service"));
    let (state, _) = run("alpha".to_string());
    let (state, _) = advance(state, missing(), "templates");
    assert_eq!(
        advance(state, text(&service), "templates"),
        done(Err(ZeusError::ServerError(
            "Failed to parse pod template: alpha".to_string()
        )))
    );
}

#[test]
fn start_of_a_running_instance_does_nothing() {
    let (state, _) = run("alpha".to_string());
    assert_eq!(
        advance(state, found(), "templates"),
        done(Ok(Outcome::AlreadyInDesiredState))
    );
}

#[test]
fn start_reads_the_template_then_creates() {
    let (state, _) = run("alpha".to_string());
    let (state, action) = advance(state, missing(), "templates");
    assert_eq!(
        action,
        Action::ReadTemplate {
            path: "templates/alpha.json".to_string()
        }
    );
    assert_eq!(
        state,
        Lifecycle::Loading {
            name: "alpha".to_string()
        }
    );
    let (state, action) = advance(state, text(MANIFEST), "templates");
    assert_eq!(
        action,
        Action::Create {
            manifest: MANIFEST.to_string()
        }
    );
    assert_eq!(state, Lifecycle::Creating);
    assert_eq!(
        advance(state, Event::Replied(Ok(())), "templates"),
        done(Ok(Outcome::Transitioned))
    );
}

#[test]
fn start_twice_is_already_running_the_second_time() {
    let mut cluster: Vec<String> = Vec::new();
    for round in 0..2 {
        let (mut state, mut action) = run("alpha".to_string());
        let result = loop {
            let event = match action {
                Action::Lookup { name } => {
                    if cluster.contains(&name) {
                        found()
                    } else {
                        missing()
                    }
                }
                Action::ReadTemplate { .. } => text(MANIFEST),
                Action::Create { .. } => {
                    assert!(!cluster.contains(&"alpha".to_string()));
                    cluster.push("alpha".to_string());
                    Event::Replied(Ok(()))
                }
                Action::Delete { .. } => unreachable!(),
                Action::Finish { result } => break result,
            };
            (state, action) = advance(state, event, "templates");
        };
        if round == 0 {
            assert_eq!(result, Ok(Outcome::Transitioned));
        } else {
            assert_eq!(result, Ok(Outcome::AlreadyInDesiredState));
        }
    }
    assert_eq!(cluster, vec!["alpha".to_string()]);
}

#[test]
fn start_sanitizes_the_name_for_the_file_only() {
    let (state, action) = run("../alpha".to_string());
    assert_eq!(
        action,
        Action::Lookup {
            name: "../alpha".to_string()
        }
    );
    let (_, action) = advance(state, missing(), "/srv/templates");
    assert_eq!(
        action,
        Action::ReadTemplate {
            path: "/srv/templates/alpha.json".to_string()
        }
    );
}

#[test]
fn start_of_a_traversing_name_reads_nothing() {
    let (state, _) = run("../../etc/passwd".to_string());
    assert_eq!(
        advance(state, missing(), "templates"),
        done(Err(ZeusError::ClientError(
            "Failed to parse pod template: etc/passwd".to_string()
        )))
    );
}

#[test]
fn start_without_template_is_the_callers_fault() {
    let (state, _) = run("ghost".to_string());
    let (state, _) = advance(state, missing(), "templates");
    assert_eq!(
        advance(state, Event::Read(Reading::Missing), "templates"),
        done(Err(ZeusError::ClientError(
            "Failed to parse pod template: ghost".to_string()
        )))
    );
}

#[test]
fn start_with_broken_template_is_the_servers_fault() {
    let (state, _) = run("alpha".to_string());
    let (state, _) = advance(state, missing(), "templates");
    assert_eq!(
        advance(state, text("{ broken"), "templates"),
        done(Err(ZeusError::ServerError(
            "Failed to parse pod template: alpha".to_string()
        )))
    );
}

#[test]
fn start_passes_a_refused_creation_on() {
    let (state, _) = run("alpha".to_string());
    let (state, _) = advance(state, missing(), "templates");
    let (state, _) = advance(state, text(MANIFEST), "templates");
    assert_eq!(
        advance(
            state,
            Event::Replied(Err("pods \"alpha\" already exists".to_string())),
            "templates"
        ),
        done(Err(ZeusError::ServerError(
            "pods \"alpha\" already exists".to_string()
        )))
    );
}

#[test]
fn stop_of_an_absent_instance_does_nothing() {
    let (state, _) = shutdown("alpha".to_string());
    assert_eq!(
        advance(state, missing(), "templates"),
        done(Ok(Outcome::AlreadyInDesiredState))
    );
}

#[test]
fn stop_deletes_a_running_instance() {
    let (state, _) = shutdown("alpha".to_string());
    let (state, action) = advance(state, found(), "templates");
    assert_eq!(
        action,
        Action::Delete {
            name: "alpha".to_string()
        }
    );
    assert_eq!(state, Lifecycle::Deleting);
    assert_eq!(
        advance(state, Event::Replied(Ok(())), "templates"),
        done(Ok(Outcome::Transitioned))
    );
}

#[test]
fn stop_passes_a_refused_deletion_on() {
    let (state, _) = shutdown("alpha".to_string());
    let (state, _) = advance(state, found(), "templates");
    assert_eq!(
        advance(state, Event::Replied(Err("forbidden".to_string())), "templates"),
        done(Err(ZeusError::ServerError("forbidden".to_string())))
    );
}

#[test]
fn stop_twice_is_already_off_the_second_time() {
    let mut cluster = vec!["alpha".to_string()];
    for round in 0..2 {
        let (mut state, mut action) = shutdown("alpha".to_string());
        let result = loop {
            let event = match action {
                Action::Lookup { name } => {
                    if cluster.contains(&name) {
                        found()
                    } else {
                        missing()
                    }
                }
                Action::Delete { name } => {
                    cluster.retain(|held| *held != name);
                    Event::Replied(Ok(()))
                }
                Action::ReadTemplate { .. } | Action::Create { .. } => unreachable!(),
                Action::Finish { result } => break result,
            };
            (state, action) = advance(state, event, "templates");
        };
        if round == 0 {
            assert_eq!(result, Ok(Outcome::Transitioned));
        } else {
            assert_eq!(result, Ok(Outcome::AlreadyInDesiredState));
        }
    }
    assert!(cluster.is_empty());
}

#[test]
fn an_answer_that_was_not_asked_for_ends_the_request() {
    let unexpected = || done(Err(ZeusError::ServerError("Unexpected event".to_string())));
    let (state, _) = run("alpha".to_string());
    assert_eq!(
        advance(state, Event::Replied(Ok(())), "templates"),
        unexpected()
    );
    let (state, _) = shutdown("alpha".to_string());
    assert_eq!(
        advance(state, Event::Read(Reading::Missing), "templates"),
        unexpected()
    );
    assert_eq!(
        advance(Lifecycle::Creating, found(), "templates"),
        unexpected()
    );
    assert_eq!(
        advance(Lifecycle::Deleting, Event::Read(Reading::Missing), "templates"),
        unexpected()
    );
    assert_eq!(
        advance(Lifecycle::Done, Event::Replied(Ok(())), "templates"),
        unexpected()
    );
    assert_eq!(
        advance(
            Lifecycle::Loading {
                name: "alpha".to_string()
            },
            found(),
            "templates"
        ),
        unexpected()
    );
}
