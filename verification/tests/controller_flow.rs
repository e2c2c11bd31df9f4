use runtime_gateway::controller::{names_unique, Controller, FsPolicy};
use runtime_gateway::dispatcher::eval_url;
use runtime_gateway::errors::UriError;
use runtime_gateway::protocol::{Action, ControlMessage};

fn fresh(names: &[&str]) -> Controller {
    let names: Vec<String> = names.iter().map(|n| n.to_string()).collect();
    assert!(names_unique(&names));
    Controller::new(names, 3, 250, FsPolicy::RestartAll)
}

fn start_all(c: &mut Controller) -> Vec<Action> {
    c.handle(ControlMessage::StartAll)
}

#[test]
fn names_unique_detects_duplicates() {
    let ok: Vec<String> = vec!["r".to_string(), "python".to_string()];
    assert!(names_unique(&ok));
    let dup: Vec<String> = vec!["r".to_string(), "python".to_string(), "r".to_string()];
    assert!(!names_unique(&dup));
}

#[test]
fn start_all_spawns_every_declared_runtime() {
    let mut c = fresh(&["r", "python"]);
    let acts = start_all(&mut c);
    assert_eq!(acts.len(), 2);
    assert!(matches!(&acts[0], Action::Spawn { name, generation: 1 } if name.as_str() == "r"));
    assert!(matches!(&acts[1], Action::Spawn { name, generation: 1 } if name.as_str() == "python"));
}

#[test]
fn get_uri_after_ready_returns_endpoint() {
    // config declares runtime "r"; StartAll runs; once ready, GetUri("r")
    // yields the bound endpoint and the evaluation URL follows from it
    let mut c = fresh(&["r"]);
    start_all(&mut c);
    let acts = c.handle(ControlMessage::ProcessReady {
        name: "r".to_string(),
        generation: 1,
        endpoint: "http://127.0.0.1:8001".to_string(),
    });
    assert!(acts.is_empty());
    let acts = c.handle(ControlMessage::GetUri { req_id: 7, name: "r".to_string() });
    assert_eq!(acts.len(), 1);
    match &acts[0] {
        Action::Reply { req_id: 7, reply: Ok(ep) } => {
            assert_eq!(ep, "http://127.0.0.1:8001");
            assert_eq!(eval_url(ep), "http://127.0.0.1:8001/eval");
        }
        other => panic!("unexpected action {:?}", action_kind(other)),
    }
}

#[test]
fn get_uri_unknown_name_fails_immediately() {
    let mut c = fresh(&["r"]);
    start_all(&mut c);
    let acts = c.handle(ControlMessage::GetUri { req_id: 1, name: "ruby".to_string() });
    assert_eq!(acts.len(), 1);
    assert!(matches!(
        acts[0],
        Action::Reply { req_id: 1, reply: Err(UriError::UnknownRuntime) }
    ));
}

#[test]
fn get_uri_while_starting_parks_until_ready() {
    let mut c = fresh(&["r"]);
    start_all(&mut c);
    // the runtime has not reported ready: the query parks, no reply yet
    let acts = c.handle(ControlMessage::GetUri { req_id: 41, name: "r".to_string() });
    assert!(acts.is_empty());
    // readiness answers the parked query, on its own correlation id
    let acts = c.handle(ControlMessage::ProcessReady {
        name: "r".to_string(),
        generation: 1,
        endpoint: "http://127.0.0.1:8002".to_string(),
    });
    assert_eq!(acts.len(), 1);
    match &acts[0] {
        Action::Reply { req_id: 41, reply: Ok(ep) } => assert_eq!(ep, "http://127.0.0.1:8002"),
        other => panic!("unexpected action {:?}", action_kind(other)),
    }
}

#[test]
fn expired_wait_releases_parked_query() {
    let mut c = fresh(&["r"]);
    start_all(&mut c);
    let acts = c.handle(ControlMessage::GetUri { req_id: 9, name: "r".to_string() });
    assert!(acts.is_empty());
    let acts = c.handle(ControlMessage::WaitExpired { req_id: 9 });
    assert_eq!(acts.len(), 1);
    assert!(matches!(
        acts[0],
        Action::Reply { req_id: 9, reply: Err(UriError::RuntimeUnavailable) }
    ));
    // the query is gone: a second expiry is a no-op
    assert!(c.handle(ControlMessage::WaitExpired { req_id: 9 }).is_empty());
}

#[test]
fn crash_is_restarted_under_fresh_generation() {
    // backend "r" is killed externally: the old endpoint is never served
    // again; after the automatic restart the new endpoint is served
    let mut c = fresh(&["r"]);
    start_all(&mut c);
    c.handle(ControlMessage::ProcessReady {
        name: "r".to_string(),
        generation: 1,
        endpoint: "http://127.0.0.1:8001".to_string(),
    });
    let acts = c.handle(ControlMessage::ProcessExited { name: "r".to_string(), generation: 1 });
    assert_eq!(acts.len(), 1);
    assert!(matches!(
        &acts[0],
        Action::ScheduleRestart { name, generation: 1, delay: 250 } if name.as_str() == "r"
    ));
    // while crashed, a query parks rather than getting the dead endpoint
    let acts = c.handle(ControlMessage::GetUri { req_id: 5, name: "r".to_string() });
    assert!(acts.is_empty());
    // backoff elapses: a fresh spawn under generation 2
    let acts = c.handle(ControlMessage::RestartDue { name: "r".to_string(), generation: 1 });
    assert_eq!(acts.len(), 1);
    assert!(matches!(&acts[0], Action::Spawn { name, generation: 2 } if name.as_str() == "r"));
    // a stale readiness report of the dead process is ignored
    let acts = c.handle(ControlMessage::ProcessReady {
        name: "r".to_string(),
        generation: 1,
        endpoint: "http://127.0.0.1:8001".to_string(),
    });
    assert!(acts.is_empty());
    // the new process reports ready on a new endpoint; the parked query and
    // later queries both get the new endpoint, never the old one
    let acts = c.handle(ControlMessage::ProcessReady {
        name: "r".to_string(),
        generation: 2,
        endpoint: "http://127.0.0.1:8003".to_string(),
    });
    assert_eq!(acts.len(), 1);
    match &acts[0] {
        Action::Reply { req_id: 5, reply: Ok(ep) } => assert_eq!(ep, "http://127.0.0.1:8003"),
        other => panic!("unexpected action {:?}", action_kind(other)),
    }
    let acts = c.handle(ControlMessage::GetUri { req_id: 6, name: "r".to_string() });
    match &acts[0] {
        Action::Reply { req_id: 6, reply: Ok(ep) } => assert_eq!(ep, "http://127.0.0.1:8003"),
        other => panic!("unexpected action {:?}", action_kind(other)),
    }
}

#[test]
fn restart_budget_exhaustion_stops_runtime_for_good() {
    let mut c = fresh(&["r"]);
    start_all(&mut c);
    let mut generation = 1;
    // three crashes are restarted (the configured limit)
    for _ in 0..3 {
        let acts =
            c.handle(ControlMessage::ProcessExited { name: "r".to_string(), generation });
        assert!(matches!(acts[0], Action::ScheduleRestart { .. }));
        c.handle(ControlMessage::RestartDue { name: "r".to_string(), generation });
        generation += 1;
    }
    // the fourth consecutive failure exhausts the budget
    let acts = c.handle(ControlMessage::ProcessExited { name: "r".to_string(), generation });
    assert!(acts.is_empty());
    let acts = c.handle(ControlMessage::GetUri { req_id: 2, name: "r".to_string() });
    assert!(matches!(
        acts[0],
        Action::Reply { req_id: 2, reply: Err(UriError::RuntimeUnavailable) }
    ));
}

#[test]
fn readiness_resets_the_failure_count() {
    let mut c = fresh(&["r"]);
    start_all(&mut c);
    // crash, restart, and recover, more times than the budget allows in a
    // row: recovery resets the count, so every crash is still restarted
    let mut generation = 1;
    for _ in 0..5 {
        c.handle(ControlMessage::ProcessReady {
            name: "r".to_string(),
            generation,
            endpoint: format!("http://127.0.0.1:{}", 8000 + generation),
        });
        let acts =
            c.handle(ControlMessage::ProcessExited { name: "r".to_string(), generation });
        assert!(matches!(acts[0], Action::ScheduleRestart { .. }));
        c.handle(ControlMessage::RestartDue { name: "r".to_string(), generation });
        generation += 1;
    }
}

#[test]
fn heartbeat_timeout_shuts_down_exactly_once() {
    let mut c = fresh(&["r"]);
    start_all(&mut c);
    // one query is parked when the idle timeout arrives
    c.handle(ControlMessage::GetUri { req_id: 11, name: "r".to_string() });
    let acts = c.handle(ControlMessage::HeartbeatTimeout);
    assert_eq!(acts.len(), 3);
    assert!(matches!(
        acts[0],
        Action::Reply { req_id: 11, reply: Err(UriError::RuntimeUnavailable) }
    ));
    assert!(matches!(acts[1], Action::StopAllRuntimes));
    assert!(matches!(acts[2], Action::StopAccepting));
    // a second timeout does not run the sequence again
    assert!(c.handle(ControlMessage::HeartbeatTimeout).is_empty());
    // queries during shutdown fail instead of parking
    let acts = c.handle(ControlMessage::GetUri { req_id: 12, name: "r".to_string() });
    assert!(matches!(
        acts[0],
        Action::Reply { req_id: 12, reply: Err(UriError::RuntimeUnavailable) }
    ));
}

#[test]
fn fs_change_applies_the_configured_policy() {
    // reload policy: every runtime is respawned under a fresh generation
    let mut c = fresh(&["r", "python"]);
    start_all(&mut c);
    let acts = c.handle(ControlMessage::FsChanged);
    assert_eq!(acts.len(), 2);
    assert!(matches!(&acts[0], Action::Spawn { name, generation: 2 } if name.as_str() == "r"));
    assert!(matches!(&acts[1], Action::Spawn { name, generation: 2 } if name.as_str() == "python"));

    // ignore policy: nothing happens
    let names: Vec<String> = vec!["r".to_string()];
    let mut quiet = Controller::new(names, 3, 250, FsPolicy::Ignore);
    quiet.handle(ControlMessage::StartAll);
    assert!(quiet.handle(ControlMessage::FsChanged).is_empty());

    // shutdown policy: the orderly shutdown sequence runs
    let names: Vec<String> = vec!["r".to_string()];
    let mut strict = Controller::new(names, 3, 250, FsPolicy::Shutdown);
    strict.handle(ControlMessage::StartAll);
    let acts = strict.handle(ControlMessage::FsChanged);
    assert_eq!(acts.len(), 2);
    assert!(matches!(acts[0], Action::StopAllRuntimes));
    assert!(matches!(acts[1], Action::StopAccepting));
}

#[test]
fn ready_report_with_empty_endpoint_is_ignored() {
    let mut c = fresh(&["r"]);
    start_all(&mut c);
    let acts = c.handle(ControlMessage::ProcessReady {
        name: "r".to_string(),
        generation: 1,
        endpoint: String::new(),
    });
    assert!(acts.is_empty());
    // the runtime is still starting: a query parks rather than getting a
    // fabricated endpoint
    let acts = c.handle(ControlMessage::GetUri { req_id: 3, name: "r".to_string() });
    assert!(acts.is_empty());
}

#[test]
fn endpoint_reuse_across_restarts_is_rejected() {
    let mut c = fresh(&["r"]);
    start_all(&mut c);
    c.handle(ControlMessage::ProcessReady {
        name: "r".to_string(),
        generation: 1,
        endpoint: "http://127.0.0.1:8001".to_string(),
    });
    c.handle(ControlMessage::ProcessExited { name: "r".to_string(), generation: 1 });
    c.handle(ControlMessage::RestartDue { name: "r".to_string(), generation: 1 });
    // the fresh spawn claims the endpoint the dead process had served:
    // rejected as stale, the runtime stays starting
    let acts = c.handle(ControlMessage::ProcessReady {
        name: "r".to_string(),
        generation: 2,
        endpoint: "http://127.0.0.1:8001".to_string(),
    });
    assert!(acts.is_empty());
    let acts = c.handle(ControlMessage::GetUri { req_id: 1, name: "r".to_string() });
    assert!(acts.is_empty());
    // a genuinely fresh endpoint is accepted and answers the parked query
    let acts = c.handle(ControlMessage::ProcessReady {
        name: "r".to_string(),
        generation: 2,
        endpoint: "http://127.0.0.1:8002".to_string(),
    });
    assert_eq!(acts.len(), 1);
    match &acts[0] {
        Action::Reply { req_id: 1, reply: Ok(ep) } => assert_eq!(ep, "http://127.0.0.1:8002"),
        other => panic!("unexpected action {:?}", action_kind(other)),
    }
}

fn action_kind(a: &Action) -> &'static str {
    match a {
        Action::Spawn { .. } => "spawn",
        Action::Reply { .. } => "reply",
        Action::ScheduleRestart { .. } => "schedule-restart",
        Action::StopAllRuntimes => "stop-all-runtimes",
        Action::StopAccepting => "stop-accepting",
    }
}
