use runtime_gateway::dispatcher::{
    eval_target, eval_url, plan_eval, relay_reply, render_page, substitute, Manifest,
};
use runtime_gateway::errors::{GatewayError, UriError};
use runtime_gateway::pipeline::PipelineStore;

#[test]
fn render_page_substitutes_run_mode() {
    let out = render_page("<html><script>var o = __options__;</script></html>", true);
    assert_eq!(out, "<html><script>var o = {\"mode\": \"run\"};</script></html>");
}

#[test]
fn render_page_substitutes_design_mode() {
    let out = render_page("a __options__ b", false);
    assert_eq!(out, "a {\"mode\": \"design\"} b");
}

#[test]
fn substitute_without_token_leaves_template_alone() {
    let out = substitute("no placeholder here", "__options__", "x");
    assert_eq!(out, "no placeholder here");
}

#[test]
fn substitute_replaces_every_occurrence() {
    let out = substitute("a^b^c", "^", "-");
    assert_eq!(out, "a-b-c");
}

#[test]
fn substitute_scans_left_to_right_without_overlap() {
    let out = substitute("aaa", "aa", "b");
    assert_eq!(out, "ba");
    let out = substitute("xx", "x", "xx");
    assert_eq!(out, "xxxx");
}

#[test]
fn render_page_substitutes_every_token_occurrence() {
    let out = render_page("__options__ and __options__", true);
    assert_eq!(out, "{\"mode\": \"run\"} and {\"mode\": \"run\"}");
}

#[test]
fn plan_eval_takes_first_manifest() {
    let manifests = vec![
        Manifest { runtime: String::from("r"), calls: b"[{\"op\":\"add\"}]".to_vec() },
        Manifest { runtime: String::from("python"), calls: b"[]".to_vec() },
    ];
    let plan = plan_eval(manifests).unwrap();
    assert_eq!(plan.runtime, "r");
    assert_eq!(plan.body, b"[{\"op\":\"add\"}]".to_vec());
}

#[test]
fn plan_eval_rejects_empty_request() {
    let r = plan_eval(Vec::new());
    assert!(matches!(r, Err(GatewayError::InvalidRequest)));
}

#[test]
fn eval_url_appends_eval_path() {
    assert_eq!(eval_url("http://127.0.0.1:8001"), "http://127.0.0.1:8001/eval");
}

#[test]
fn eval_target_builds_url_from_resolved_endpoint() {
    let t = eval_target(Ok(String::from("http://127.0.0.1:9000"))).unwrap();
    assert_eq!(t, "http://127.0.0.1:9000/eval");
}

#[test]
fn eval_target_reports_unknown_runtime() {
    let t = eval_target(Err(UriError::UnknownRuntime));
    assert!(matches!(t, Err(GatewayError::UnknownRuntime)));
}

#[test]
fn eval_target_reports_unavailable_runtime() {
    let t = eval_target(Err(UriError::RuntimeUnavailable));
    assert!(matches!(t, Err(GatewayError::RuntimeUnavailable)));
}

#[test]
fn relay_reply_passes_well_formed_json_verbatim() {
    let body = b"{\"result\": [3], \"log\": \"ok\"}".to_vec();
    let relayed = relay_reply(body.clone()).unwrap();
    assert_eq!(relayed, body);
}

#[test]
fn relay_reply_rejects_malformed_json() {
    let r = relay_reply(b"{\"result\": ".to_vec());
    assert!(matches!(r, Err(GatewayError::BadBackendReply)));
}

#[test]
fn eval_scenario_posts_calls_and_relays_reply_verbatim() {
    // an evaluation request names runtime "r" with one call; the gateway
    // resolves the endpoint, posts exactly the calls payload to its
    // evaluation path, and relays whatever JSON comes back, byte-identical
    let manifests = vec![Manifest {
        runtime: String::from("r"),
        calls: b"[{\"op\":\"add\",\"a\":1,\"b\":2}]".to_vec(),
    }];
    let plan = plan_eval(manifests).unwrap();
    assert_eq!(plan.runtime, "r");
    let target = eval_target(Ok(String::from("http://127.0.0.1:8001"))).unwrap();
    assert_eq!(target, "http://127.0.0.1:8001/eval");
    assert_eq!(plan.body, b"[{\"op\":\"add\",\"a\":1,\"b\":2}]".to_vec());
    let backend_reply = b"{\"result\": 3}".to_vec();
    assert_eq!(relay_reply(backend_reply.clone()).unwrap(), backend_reply);
}

#[test]
fn pipeline_round_trips_byte_identical() {
    let mut store = PipelineStore::new();
    assert!(matches!(store.get(), Err(GatewayError::PipelineMissing)));
    let doc = b"{\"manifests\": [1, 2, 3]}".to_vec();
    store.put(doc.clone());
    assert_eq!(store.get().unwrap(), &doc);
    // an overwrite replaces the document whole
    store.put(b"{}".to_vec());
    assert_eq!(store.get().unwrap(), &b"{}".to_vec());
}

#[test]
fn error_statuses_are_client_or_server_errors() {
    assert_eq!(GatewayError::UnknownRuntime.http_status(), 400);
    assert_eq!(GatewayError::RuntimeUnavailable.http_status(), 503);
    assert_eq!(GatewayError::NetworkError.http_status(), 502);
    assert_eq!(GatewayError::InvalidRequest.http_status(), 400);
    assert_eq!(GatewayError::BadBackendReply.http_status(), 502);
    assert_eq!(GatewayError::PipelineMissing.http_status(), 404);
    assert_eq!(GatewayError::IoError.http_status(), 500);
}

#[test]
fn error_descriptions_are_distinct() {
    let texts = [
        GatewayError::UnknownRuntime.describe(),
        GatewayError::RuntimeUnavailable.describe(),
        GatewayError::NetworkError.describe(),
        GatewayError::InvalidRequest.describe(),
        GatewayError::BadBackendReply.describe(),
        GatewayError::PipelineMissing.describe(),
        GatewayError::IoError.describe(),
    ];
    for a in 0..texts.len() {
        for b in 0..texts.len() {
            if a != b {
                assert_ne!(texts[a], texts[b]);
            }
        }
    }
    assert_eq!(GatewayError::UnknownRuntime.describe(), "unknown runtime");
}
