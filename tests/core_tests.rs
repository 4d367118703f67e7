use tracecore::codec::{decode, encode, TraceContext};
use tracecore::exporter::{
    ConfigurationError, Diagnostic, ExportAction, ExportConfig, Exporter, Phase,
};
use tracecore::interceptor::{
    begin_call, begin_call_with_ids, begin_request, begin_request_with_ids, end_call,
    finish_request,
};
use tracecore::recorder::{Recorder, SpanHandle};
use tracecore::sampler::Sampler;
use tracecore::span::{ActiveContexts, AttrValue, Span, SpanStateError, SpanStatus};

fn cfg(batch_size: usize, interval: u64) -> ExportConfig {
    ExportConfig { batch_size, interval, max_attempts: 3, base_backoff: 100, warn_at: 20 }
}

fn exporter(c: ExportConfig) -> Exporter {
    Exporter::new(c, 0).unwrap()
}

fn recorder(service: &str) -> Recorder {
    Recorder::new(service.to_string(), Sampler::parent_based_always_on())
}

fn remote(sampled: bool) -> TraceContext {
    TraceContext { trace_id: 0xabc, span_id: 0x11, parent_span_id: None, sampled }
}

/// Opens and closes `n` sampled root spans into `ex`.
fn fill(ex: &mut Exporter, n: u64, now: u64) {
    let mut rec = recorder("svc");
    for i in 0..n {
        let (h, _) = rec.start_with_ids(format!("op{}", i), None, 1 + i as u128, 100 + i, now);
        rec.end(h, now, ex).unwrap();
    }
}

fn names(spans: &[Span]) -> Vec<String> {
    spans.iter().map(|s| s.name.clone()).collect()
}

#[test]
fn sampler_parent_based_keeps_parent_decision() {
    let s = Sampler::parent_based_always_on();
    assert!(s.should_sample(Some(&remote(true))));
    assert!(!s.should_sample(Some(&remote(false))));
    assert!(s.should_sample(None));
    let off = Sampler::ParentBased(Box::new(Sampler::AlwaysOff));
    assert!(!off.should_sample(None));
    assert!(off.should_sample(Some(&remote(true))));
    assert!(Sampler::AlwaysOn.should_sample(Some(&remote(false))));
    assert!(!Sampler::AlwaysOff.should_sample(Some(&remote(true))));
}

#[test]
fn child_contexts_inherit_sampling() {
    for sampled in [true, false] {
        let mut rec = recorder("svc");
        let parent = remote(sampled);
        let (h1, c1) = rec.start_with_ids("a".to_string(), Some(&parent), 9, 1, 0);
        let (_h2, c2) = rec.start_with_ids("b".to_string(), Some(&c1), 9, 2, 0);
        assert_eq!(c1.sampled, sampled);
        assert_eq!(c2.sampled, sampled);
        assert_eq!(c2.trace_id, parent.trace_id);
        assert_eq!(c2.parent_span_id, Some(1));
        assert!(rec.is_open(h1));
    }
}

#[test]
fn registry_unwinds_lifo() {
    let mut ctxs = ActiveContexts::new();
    assert_eq!(ctxs.current(), None);
    let a = remote(true);
    let b = TraceContext { span_id: 0x22, ..a };
    let ga = ctxs.enter(a);
    let gb = ctxs.enter(b);
    assert_eq!(ctxs.current(), Some(b));
    let ga_copy = tracecore::span::ContextGuard { depth: ga.depth };
    assert_eq!(ctxs.exit(ga_copy), Err(SpanStateError::NotInnermost));
    assert_eq!(ctxs.current(), Some(b));
    let gb_again = tracecore::span::ContextGuard { depth: gb.depth };
    assert_eq!(ctxs.exit(gb), Ok(()));
    assert_eq!(ctxs.current(), Some(a));
    assert_eq!(ctxs.exit(gb_again), Err(SpanStateError::NotInnermost));
    assert_eq!(ctxs.exit(ga), Ok(()));
    assert_eq!(ctxs.current(), None);
    assert_eq!(ctxs.depth(), 0);
}

#[test]
fn span_is_closed_exactly_once() {
    let mut rec = recorder("svc");
    let mut ex = exporter(cfg(10, 5000));
    let (h, c) = rec.start_with_ids("get_from_db".to_string(), None, 5, 6, 10);
    assert_eq!(c, TraceContext { trace_id: 5, span_id: 6, parent_span_id: None, sampled: true });
    rec.set_status(h, SpanStatus::Success).unwrap();
    rec.set_attribute(h, "db.name".to_string(), AttrValue::Str("foo-db".to_string())).unwrap();
    rec.set_attribute(h, "db.operation".to_string(), AttrValue::Str("SELECT".to_string())).unwrap();
    rec.set_attribute(h, "db.name".to_string(), AttrValue::Str("bar-db".to_string())).unwrap();
    assert_eq!(rec.end(h, 260, &mut ex), Ok(()));
    assert_eq!(rec.open_count(), 0);
    assert_eq!(rec.end(h, 270, &mut ex), Err(SpanStateError::NotOpen));
    assert_eq!(rec.set_status(h, SpanStatus::Unset), Err(SpanStateError::NotOpen));
    assert_eq!(
        rec.set_attribute(h, "k".to_string(), AttrValue::Int(1)),
        Err(SpanStateError::NotOpen)
    );
    assert_eq!(ex.queued_len(), 1);
    let s = &ex.queue()[0];
    assert_eq!(s.name, "get_from_db");
    assert_eq!(s.service_name, "svc");
    assert_eq!(s.start_time, 10);
    assert_eq!(s.end_time, Some(260));
    assert_eq!(s.status, SpanStatus::Success);
    assert_eq!(
        s.attributes,
        vec![
            ("db.name".to_string(), AttrValue::Str("bar-db".to_string())),
            ("db.operation".to_string(), AttrValue::Str("SELECT".to_string())),
        ]
    );
}

#[test]
fn unknown_handle_is_refused() {
    let mut rec = recorder("svc");
    let mut ex = exporter(cfg(10, 5000));
    assert_eq!(rec.end(SpanHandle { id: 3 }, 0, &mut ex), Err(SpanStateError::NotOpen));
    assert_eq!(ex.queued_len(), 0);
}

#[test]
fn unsampled_span_is_not_exported() {
    let mut rec = recorder("svc");
    let mut ex = exporter(cfg(10, 5000));
    let (h, c) = rec.start_with_ids("x".to_string(), Some(&remote(false)), 0, 1, 0);
    assert!(!c.sampled);
    rec.set_status(h, SpanStatus::Error("local".to_string())).unwrap();
    assert_eq!(rec.end(h, 1, &mut ex), Ok(()));
    assert_eq!(ex.queued_len(), 0);
    assert_eq!(rec.open_count(), 0);
}

#[test]
fn spans_close_in_any_order() {
    let mut rec = recorder("svc");
    let mut ex = exporter(cfg(10, 5000));
    let (a, _) = rec.start_with_ids("a".to_string(), None, 1, 1, 0);
    let (b, _) = rec.start_with_ids("b".to_string(), None, 2, 2, 0);
    let (c, _) = rec.start_with_ids("c".to_string(), None, 3, 3, 0);
    rec.end(b, 1, &mut ex).unwrap();
    assert!(rec.is_open(a) && rec.is_open(c) && !rec.is_open(b));
    rec.end(a, 2, &mut ex).unwrap();
    rec.end(c, 3, &mut ex).unwrap();
    assert_eq!(names(ex.queue()), vec!["b", "a", "c"]);
}

#[test]
fn exporter_flushes_full_batch_at_once() {
    let mut ex = exporter(cfg(10, 5000));
    fill(&mut ex, 12, 500);
    assert_eq!(ex.poll(1000), ExportAction::Send);
    assert_eq!(ex.batch().len(), 10);
    assert_eq!(names(ex.batch())[0], "op0");
    assert_eq!(names(ex.batch())[9], "op9");
    assert_eq!(ex.queued_len(), 2);
    assert_eq!(ex.phase(), Phase::Delivering);
    ex.report(true, 1100);
    assert_eq!(ex.batch().len(), 0);
    assert_eq!(ex.phase(), Phase::Ready);
}

#[test]
fn exporter_flushes_exactly_ten_within_a_second() {
    let mut ex = exporter(cfg(10, 5000));
    fill(&mut ex, 9, 100);
    assert_eq!(ex.poll(900), ExportAction::Idle);
    fill(&mut ex, 1, 950);
    assert_eq!(ex.poll(1000), ExportAction::Send);
    assert_eq!(ex.batch().len(), 10);
    assert_eq!(ex.queued_len(), 0);
}

#[test]
fn exporter_flushes_partial_batch_on_interval() {
    let mut ex = exporter(cfg(10, 5000));
    fill(&mut ex, 3, 0);
    assert_eq!(ex.poll(4999), ExportAction::Idle);
    assert_eq!(ex.queued_len(), 3);
    assert_eq!(ex.poll(5000), ExportAction::Send);
    assert_eq!(ex.batch().len(), 3);
    assert_eq!(ex.queued_len(), 0);
}

#[test]
fn exporter_idle_when_empty() {
    let mut ex = exporter(cfg(10, 5000));
    assert_eq!(ex.poll(100000), ExportAction::Idle);
    assert_eq!(ex.flush_now(100000), ExportAction::Idle);
}

#[test]
fn exporter_flush_now_drains() {
    let mut ex = exporter(cfg(10, 5000));
    fill(&mut ex, 4, 0);
    assert_eq!(ex.flush_now(1), ExportAction::Send);
    assert_eq!(ex.batch().len(), 4);
    assert_eq!(ex.queued_len(), 0);
}

#[test]
fn exporter_retries_with_backoff_then_drops() {
    let mut ex = exporter(cfg(2, 5000));
    fill(&mut ex, 2, 0);
    assert_eq!(ex.poll(10), ExportAction::Send);
    ex.report(false, 20);
    assert_eq!(ex.phase(), Phase::Backoff(120));
    assert_eq!(ex.poll(119), ExportAction::Idle);
    assert_eq!(ex.poll(120), ExportAction::Send);
    ex.report(false, 130);
    assert_eq!(ex.phase(), Phase::Backoff(330));
    assert_eq!(ex.poll(330), ExportAction::Send);
    assert_eq!(ex.batch().len(), 2);
    ex.report(false, 340);
    assert_eq!(ex.phase(), Phase::Ready);
    assert_eq!(ex.batch().len(), 0);
    assert_eq!(ex.diagnostics(), &vec![Diagnostic { dropped: 2, attempts: 3, at: 340 }]);
}

#[test]
fn exporter_backoff_saturates() {
    let c = ExportConfig { batch_size: 1, interval: 1, max_attempts: 5, base_backoff: u64::MAX / 2, warn_at: 20 };
    let mut ex = exporter(c);
    fill(&mut ex, 1, 0);
    assert_eq!(ex.poll(1), ExportAction::Send);
    ex.report(false, 1);
    assert_eq!(ex.phase(), Phase::Backoff(u64::MAX / 2 + 1));
    assert_eq!(ex.poll(u64::MAX), ExportAction::Send);
    ex.report(false, 10);
    assert_eq!(ex.phase(), Phase::Backoff(u64::MAX));
}

#[test]
fn exporter_report_outside_delivery_is_ignored() {
    let mut ex = exporter(cfg(10, 5000));
    ex.report(false, 5);
    assert_eq!(ex.phase(), Phase::Ready);
    assert!(ex.diagnostics().is_empty());
}

#[test]
fn exporter_rejects_bad_config() {
    assert_eq!(Exporter::new(cfg(0, 1), 0).err(), Some(ConfigurationError::ZeroBatchSize));
    let c = ExportConfig { batch_size: 1, interval: 1, max_attempts: 0, base_backoff: 1, warn_at: 20 };
    assert_eq!(Exporter::new(c, 0).err(), Some(ConfigurationError::ZeroAttempts));
}

#[test]
fn inbound_valid_header_keeps_trace() {
    let mut rec = recorder("microservice");
    let mut ctxs = ActiveContexts::new();
    let header = encode(&remote(true));
    let req = begin_request_with_ids(&mut rec, &mut ctxs, Some(&header), "POST /microservice".to_string(), 77, 5, 0);
    assert_eq!(req.context.trace_id, 0xabc);
    assert_eq!(req.context.parent_span_id, Some(0x11));
    assert_eq!(req.context.span_id, 5);
    assert!(req.context.sampled);
    assert_eq!(ctxs.current(), Some(req.context));
}

#[test]
fn inbound_malformed_header_gives_fresh_root() {
    let mut rec = recorder("svc");
    let mut ctxs = ActiveContexts::new();
    let bad = b"00-zz".to_vec();
    let req = begin_request_with_ids(&mut rec, &mut ctxs, Some(&bad), "GET /".to_string(), 77, 5, 0);
    assert_eq!(req.context, TraceContext { trace_id: 77, span_id: 5, parent_span_id: None, sampled: true });
    let req2 = begin_request_with_ids(&mut rec, &mut ctxs, None, "GET /".to_string(), 78, 6, 0);
    assert_eq!(req2.context.trace_id, 78);
    assert_eq!(req2.context.parent_span_id, None);
}

#[test]
fn fresh_roots_get_distinct_ids() {
    let mut rec = recorder("svc");
    let mut ctxs = ActiveContexts::new();
    let mut seen = std::collections::HashSet::new();
    for _ in 0..50 {
        let req = begin_request(&mut rec, &mut ctxs, None, "GET /".to_string(), 0);
        assert!(seen.insert(req.context.trace_id));
        assert_eq!(req.context.parent_span_id, None);
    }
    let call = begin_call(&mut rec, &ctxs, "POST".to_string(), 0);
    assert_ne!(call.context.span_id, ctxs.current().unwrap().span_id);
}

#[test]
fn failed_handler_still_closes_span() {
    let mut rec = recorder("svc");
    let mut ctxs = ActiveContexts::new();
    let mut ex = exporter(cfg(10, 5000));
    let req = begin_request_with_ids(&mut rec, &mut ctxs, None, "GET /".to_string(), 1, 2, 0);
    let h = req.handle;
    let r = finish_request(&mut rec, &mut ctxs, req, Some("caching service offline".to_string()), 75, &mut ex);
    assert_eq!(r, Ok(()));
    assert_eq!(rec.open_count(), 0);
    assert_eq!(ctxs.depth(), 0);
    assert_eq!(ex.queue()[0].status, SpanStatus::Error("caching service offline".to_string()));
    assert_eq!(ex.queue()[0].end_time, Some(75));
    assert_eq!(rec.end(h, 80, &mut ex), Err(SpanStateError::NotOpen));
    assert_eq!(ex.queued_len(), 1);
}

#[test]
fn outbound_call_propagates_to_downstream_service() {
    let mut ex = exporter(cfg(10, 5000));
    // service A handles a request and calls B
    let mut rec_a = recorder("mainservice");
    let mut ctxs_a = ActiveContexts::new();
    let req_a = begin_request_with_ids(&mut rec_a, &mut ctxs_a, None, "GET /".to_string(), 42, 1, 0);
    let call = begin_call_with_ids(&mut rec_a, &ctxs_a, "POST /microservice".to_string(), 0, 2, 1);
    assert_eq!(call.context.parent_span_id, Some(1));
    assert_eq!(call.header, encode(&call.context));
    // service B handles it
    let mut rec_b = recorder("microservice");
    let mut ctxs_b = ActiveContexts::new();
    let req_b = begin_request_with_ids(&mut rec_b, &mut ctxs_b, Some(&call.header), "POST /microservice".to_string(), 99, 3, 2);
    finish_request(&mut rec_b, &mut ctxs_b, req_b, None, 3, &mut ex).unwrap();
    end_call(&mut rec_a, &call, None, 4, &mut ex).unwrap();
    finish_request(&mut rec_a, &mut ctxs_a, req_a, None, 5, &mut ex).unwrap();
    let spans = ex.queue();
    assert_eq!(names(spans), vec!["POST /microservice", "POST /microservice", "GET /"]);
    let b = &spans[0];
    let a_out = &spans[1];
    assert_eq!(b.service_name, "microservice");
    assert_eq!(b.parent_span_id, Some(a_out.span_id));
    assert_eq!(b.trace_id, a_out.trace_id);
    assert_eq!(b.trace_id, 42);
    assert_eq!(a_out.status, SpanStatus::Success);
    assert_eq!(decode(&call.header).unwrap().span_id, 2);
}

#[test]
fn failed_outbound_call_marks_span_error() {
    let mut ex = exporter(cfg(10, 5000));
    let mut rec = recorder("svc");
    let ctxs = ActiveContexts::new();
    let call = begin_call_with_ids(&mut rec, &ctxs, "POST".to_string(), 8, 9, 0);
    assert_eq!(call.context.parent_span_id, None);
    assert_eq!(call.context.trace_id, 8);
    end_call(&mut rec, &call, Some("connection refused".to_string()), 1, &mut ex).unwrap();
    assert_eq!(end_call(&mut rec, &call, None, 2, &mut ex), Err(SpanStateError::NotOpen));
    assert_eq!(ex.queue()[0].status, SpanStatus::Error("connection refused".to_string()));
}

#[test]
fn exporter_warns_over_capacity_without_dropping() {
    let mut ex = exporter(cfg(100, 5000));
    fill(&mut ex, 20, 0);
    assert!(!ex.over_capacity());
    fill(&mut ex, 1, 0);
    assert!(ex.over_capacity());
    assert_eq!(ex.queued_len(), 21);
}
