use tailcall::data_loader::LoadAction;
use tailcall::data_loader::LoadEntry;
use tailcall::data_loader::LoadResult;
use tailcall::data_loader::RequestContext;
use tailcall::http::descriptor_eq;
use tailcall::http::Method;
use tailcall::http::RequestDescriptor;
use tailcall::http::Response;
use tailcall::value::Value;

fn descriptor(url: &str, headers: Vec<(String, String)>, body: Option<String>) -> RequestDescriptor {
    RequestDescriptor { method: Method::Get, url: url.to_string(), headers, body }
}

fn ok_response(body: Value) -> LoadResult {
    LoadResult::Success(Response { status: 200, headers: Vec::new(), body })
}

#[test]
fn equal_descriptors_compare_equal() {
    let a = descriptor("http://u/x", vec![("accept".to_string(), "json".to_string())], None);
    let b = descriptor("http://u/x", vec![("accept".to_string(), "json".to_string())], None);
    assert!(descriptor_eq(&a, &b));
}

#[test]
fn descriptors_differing_in_one_header_compare_distinct() {
    let a = descriptor("http://u/x", vec![("accept".to_string(), "json".to_string())], None);
    let b = descriptor("http://u/x", vec![("accept".to_string(), "xml".to_string())], None);
    assert!(!descriptor_eq(&a, &b));
}

#[test]
fn descriptors_differing_in_body_compare_distinct() {
    let a = descriptor("http://u/x", Vec::new(), Some("{}".to_string()));
    let b = descriptor("http://u/x", Vec::new(), Some("{\"q\":1}".to_string()));
    assert!(!descriptor_eq(&a, &b));
    let c = descriptor("http://u/x", Vec::new(), None);
    assert!(!descriptor_eq(&a, &c));
}

#[test]
fn duplicate_loads_make_one_outbound_call() {
    let mut ctx = RequestContext::new(Vec::new());
    let d = descriptor("http://u/users/1", Vec::new(), None);
    let mut outbound_calls = 0;
    for _ in 0..4 {
        if matches!(ctx.begin_load(&d), LoadAction::Dispatch) {
            outbound_calls += 1;
        }
    }
    assert_eq!(outbound_calls, 1);
    ctx.complete_load(&d, ok_response(Value::Number(7)));
    // Every coalesced caller observes the one recorded outcome.
    for _ in 0..4 {
        match ctx.poll(&d) {
            Some(LoadEntry::Done(LoadResult::Success(resp))) => {
                assert_eq!(resp.status, 200);
                assert_eq!(resp.body, Value::Number(7));
            }
            other => panic!("expected the shared outcome, got {:?}", other),
        }
    }
}

#[test]
fn distinct_descriptors_each_dispatch() {
    let mut ctx = RequestContext::new(Vec::new());
    let a = descriptor("http://u/x", vec![("accept".to_string(), "json".to_string())], None);
    let b = descriptor("http://u/x", vec![("accept".to_string(), "xml".to_string())], None);
    assert!(matches!(ctx.begin_load(&a), LoadAction::Dispatch));
    assert!(matches!(ctx.begin_load(&b), LoadAction::Dispatch));
}

#[test]
fn faults_are_shared_like_successes() {
    let mut ctx = RequestContext::new(Vec::new());
    let d = descriptor("http://u/broken", Vec::new(), None);
    assert!(matches!(ctx.begin_load(&d), LoadAction::Dispatch));
    assert!(matches!(ctx.begin_load(&d), LoadAction::Coalesced));
    ctx.complete_load(&d, LoadResult::Fault("connection reset".to_string()));
    match ctx.poll(&d) {
        Some(LoadEntry::Done(LoadResult::Fault(m))) => assert_eq!(m, "connection reset"),
        other => panic!("expected the shared fault, got {:?}", other),
    }
}

#[test]
fn a_fresh_context_observes_no_entries_of_another() {
    let mut first = RequestContext::new(Vec::new());
    let d = descriptor("http://u/users/1", Vec::new(), None);
    assert!(matches!(first.begin_load(&d), LoadAction::Dispatch));
    first.complete_load(&d, ok_response(Value::Null));
    // A different request gets a fresh context: the same descriptor
    // dispatches again and nothing is visible from the first request.
    let mut second = RequestContext::new(Vec::new());
    assert!(second.poll(&d).is_none());
    assert!(matches!(second.begin_load(&d), LoadAction::Dispatch));
}

#[test]
fn descriptors_differing_in_method_or_url_compare_distinct() {
    let a = descriptor("http://u/x", Vec::new(), None);
    let b = RequestDescriptor {
        method: tailcall::http::Method::Post,
        url: "http://u/x".to_string(),
        headers: Vec::new(),
        body: None,
    };
    assert!(!descriptor_eq(&a, &b));
    let c = descriptor("http://u/y", Vec::new(), None);
    assert!(!descriptor_eq(&a, &c));
}

#[test]
fn the_batching_window_collects_distinct_in_flight_calls() {
    let mut ctx = RequestContext::new(Vec::new());
    let a = descriptor("http://u/a", Vec::new(), None);
    let b = descriptor("http://u/b", Vec::new(), None);
    ctx.begin_load(&a);
    ctx.begin_load(&b);
    ctx.begin_load(&a); // a duplicate never enters the window twice
    let pending = ctx.pending_descriptors();
    assert_eq!(pending.len(), 2);
    assert_eq!(pending[0].url, "http://u/a");
    assert_eq!(pending[1].url, "http://u/b");
    // A completed call leaves the window.
    ctx.complete_load(&a, ok_response(Value::Null));
    let pending = ctx.pending_descriptors();
    assert_eq!(pending.len(), 1);
    assert_eq!(pending[0].url, "http://u/b");
}
