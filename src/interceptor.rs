//! Hook points for the transport layer: an inbound request resolves its
//! context from the header and runs inside a span; an outbound call runs
//! inside a child span whose context travels in the header.

use vstd::prelude::*;
use crate::codec::{decode, decoded, encode, header_of, lemma_round_trip, TraceContext};
use crate::exporter::Exporter;
use crate::ids::{draw_span_id, draw_trace_id};
use crate::recorder::{child_context, closed, fresh_span, is_open, opt_ref, Recorder, SpanHandle};
use crate::sampler::decision;
use crate::span::{current_of, released, ActiveContexts, ContextGuard, Span, SpanStateError, SpanStatus};

verus! {

/// A request being handled: its span and the guard of its context.
#[derive(Debug)]
pub struct InboundRequest {
    pub handle: SpanHandle,
    pub guard: ContextGuard,
    pub context: TraceContext,
}

/// An outbound call in progress: its span and the header to attach.
#[derive(Debug)]
pub struct OutboundCall {
    pub handle: SpanHandle,
    pub context: TraceContext,
    pub header: Vec<u8>,
}

/// The remote parent named by an inbound header: none when there is no
/// header or it does not decode.
pub open spec fn remote_parent(header: Option<Seq<u8>>) -> Option<TraceContext> {
    match header {
        Some(h) => decoded(h),
        None => None,
    }
}

pub open spec fn bytes_of(header: Option<&[u8]>) -> Option<Seq<u8>> {
    match header {
        Some(h) => Some(h@),
        None => None,
    }
}

/// The context an inbound request runs in.
pub open spec fn inbound_context(
    header: Option<Seq<u8>>,
    sampler: crate::sampler::Sampler,
    trace_id: u128,
    span_id: u64,
) -> TraceContext {
    child_context(remote_parent(header), trace_id, span_id, decision(sampler, remote_parent(header)))
}

/// The status a finished operation leaves on its span.
pub open spec fn status_after(failure: Option<String>, on_success: SpanStatus) -> SpanStatus {
    match failure {
        Some(reason) => SpanStatus::Error(reason),
        None => on_success,
    }
}

fn remote_parent_of(header: Option<&[u8]>) -> (r: Option<TraceContext>)
    ensures
        r == remote_parent(bytes_of(header)),
{
    match header {
        Some(h) => match decode(h) {
            Ok(c) => Some(c),
            Err(_) => None,
        },
        None => None,
    }
}

/// Starts handling a request: resolves the context from `header` (a fresh
/// root, with `trace_id`, when it is absent or malformed), opens its span with
/// `span_id` and makes its context current.
pub fn begin_request_with_ids(
    rec: &mut Recorder,
    ctxs: &mut ActiveContexts,
    header: Option<&[u8]>,
    name: String,
    trace_id: u128,
    span_id: u64,
    now: u64,
) -> (r: InboundRequest)
    requires
        old(rec).wf(),
        old(rec).next_of() < u64::MAX,
        old(ctxs)@.len() < usize::MAX,
    ensures
        final(rec).wf(),
        r.context == inbound_context(bytes_of(header), old(rec).sampler_of(), trace_id, span_id),
        r.handle.id == old(rec).next_of(),
        final(rec).next_of() == old(rec).next_of() + 1,
        final(rec).open_spans().drop_last() == old(rec).open_spans(),
        final(rec).open_spans().last().handle == r.handle.id,
        is_open(final(rec).open_spans(), r.handle.id),
        fresh_span(final(rec).open_spans().last().span, r.context, name@, old(rec).service_of(), now),
        final(rec).sampler_of() == old(rec).sampler_of(),
        final(rec).service_of() == old(rec).service_of(),
        final(ctxs)@ == old(ctxs)@.push(r.context),
        r.guard.depth == final(ctxs)@.len(),
{
    let parent = remote_parent_of(header);
    let (handle, context) = rec.start_with_ids(name, parent.as_ref(), trace_id, span_id, now);
    let guard = ctxs.enter(context);
    InboundRequest { handle, guard, context }
}

/// `begin_request_with_ids` with a span id, and a root trace id, drawn at
/// random.
pub fn begin_request(
    rec: &mut Recorder,
    ctxs: &mut ActiveContexts,
    header: Option<&[u8]>,
    name: String,
    now: u64,
) -> (r: InboundRequest)
    requires
        old(rec).wf(),
        old(rec).next_of() < u64::MAX,
        old(ctxs)@.len() < usize::MAX,
    ensures
        final(rec).wf(),
        exists|t: u128|
            r.context == inbound_context(bytes_of(header), old(rec).sampler_of(), t, r.context.span_id),
        r.handle.id == old(rec).next_of(),
        final(rec).next_of() == old(rec).next_of() + 1,
        final(rec).open_spans().drop_last() == old(rec).open_spans(),
        final(rec).open_spans().last().handle == r.handle.id,
        is_open(final(rec).open_spans(), r.handle.id),
        fresh_span(final(rec).open_spans().last().span, r.context, name@, old(rec).service_of(), now),
        final(rec).sampler_of() == old(rec).sampler_of(),
        final(ctxs)@ == old(ctxs)@.push(r.context),
        r.guard.depth == final(ctxs)@.len(),
{
    let trace_id = draw_trace_id();
    let span_id = draw_span_id();
    begin_request_with_ids(rec, ctxs, header, name, trace_id, span_id, now)
}

/// Closes an operation's span at `now`, after setting its status from
/// `failure` (or to `on_success` when there was none).
fn close_span(
    rec: &mut Recorder,
    handle: SpanHandle,
    failure: Option<String>,
    on_success: SpanStatus,
    now: u64,
    exporter: &mut Exporter,
) -> (r: Result<(), SpanStateError>)
    requires
        old(rec).wf(),
    ensures
        final(rec).wf(),
        final(rec).next_of() == old(rec).next_of(),
        final(rec).sampler_of() == old(rec).sampler_of(),
        old(exporter).wf() ==> final(exporter).wf(),
        Exporter::same_but_queue(*old(exporter), *final(exporter)),
        !is_open(final(rec).open_spans(), handle.id),
        is_open(old(rec).open_spans(), handle.id) ==> r is Ok && exists|i: int|
            0 <= i < old(rec).open_spans().len() && (#[trigger] old(rec).open_spans()[i]).handle
                == handle.id && final(rec).open_spans() == old(rec).open_spans().remove(i)
                && final(exporter).queued() == if old(rec).open_spans()[i].span.sampled {
                old(exporter).queued().push(
                    closed(
                        Span {
                            status: status_after(failure, on_success),
                            ..old(rec).open_spans()[i].span
                        },
                        now,
                    ),
                )
            } else {
                old(exporter).queued()
            },
        !is_open(old(rec).open_spans(), handle.id) ==> r == Err::<(), SpanStateError>(
            SpanStateError::NotOpen,
        ) && final(rec).open_spans() == old(rec).open_spans() && *final(exporter)
            == *old(exporter),
{
    let status = match failure {
        Some(reason) => SpanStatus::Error(reason),
        None => on_success,
    };
    let ghost st = status;
    let ghost r0 = *rec;
    match rec.set_status(handle, status) {
        Err(e) => Err(e),
        Ok(()) => {
            let ghost r1 = *rec;
            let r = rec.end(handle, now, exporter);
            proof {
                let i = choose|i: int|
                    0 <= i < r0.open_spans().len() && (#[trigger] r0.open_spans()[i]).handle
                        == handle.id && r1.open_spans() == r0.open_spans().update(
                        i,
                        crate::recorder::OpenSpan {
                            handle: handle.id,
                            span: Span { status: st, ..r0.open_spans()[i].span },
                        },
                    );
                assert(r1.open_spans()[i].handle == handle.id);
                assert(is_open(r1.open_spans(), handle.id));
                let j = choose|j: int|
                    0 <= j < r1.open_spans().len() && (#[trigger] r1.open_spans()[j]).handle
                        == handle.id && rec.open_spans() == r1.open_spans().remove(j)
                        && exporter.queued() == if r1.open_spans()[j].span.sampled {
                        old(exporter).queued().push(closed(r1.open_spans()[j].span, now))
                    } else {
                        old(exporter).queued()
                    };
                r1.lemma_handle_unique(i, j);
                assert(rec.open_spans() =~= r0.open_spans().remove(i));
            }
            r
        },
    }
}

/// Finishes handling a request: closes its span (status `Error` when the
/// handler reported `failure`) and releases its context. The span is closed
/// whatever the handler's outcome.
pub fn finish_request(
    rec: &mut Recorder,
    ctxs: &mut ActiveContexts,
    req: InboundRequest,
    failure: Option<String>,
    now: u64,
    exporter: &mut Exporter,
) -> (r: Result<(), SpanStateError>)
    requires
        old(rec).wf(),
    ensures
        final(rec).wf(),
        final(rec).next_of() == old(rec).next_of(),
        old(exporter).wf() ==> final(exporter).wf(),
        Exporter::same_but_queue(*old(exporter), *final(exporter)),
        !is_open(final(rec).open_spans(), req.handle.id),
        is_open(old(rec).open_spans(), req.handle.id) ==> exists|i: int|
            0 <= i < old(rec).open_spans().len() && (#[trigger] old(rec).open_spans()[i]).handle
                == req.handle.id && final(rec).open_spans() == old(rec).open_spans().remove(i)
                && final(exporter).queued() == if old(rec).open_spans()[i].span.sampled {
                old(exporter).queued().push(
                    closed(
                        Span {
                            status: status_after(failure, SpanStatus::Unset),
                            ..old(rec).open_spans()[i].span
                        },
                        now,
                    ),
                )
            } else {
                old(exporter).queued()
            },
        match released(old(ctxs)@, req.guard.depth as int) {
            Some(s) => final(ctxs)@ == s,
            None => final(ctxs)@ == old(ctxs)@,
        },
        r is Ok <==> is_open(old(rec).open_spans(), req.handle.id) && released(
            old(ctxs)@,
            req.guard.depth as int,
        ) is Some,
        !is_open(old(rec).open_spans(), req.handle.id) ==> r == Err::<(), SpanStateError>(
            SpanStateError::NotOpen,
        ) && final(rec).open_spans() == old(rec).open_spans() && *final(exporter)
            == *old(exporter),
{
    let closed_ok = close_span(rec, req.handle, failure, SpanStatus::Unset, now, exporter);
    let exited = ctxs.exit(req.guard);
    match closed_ok {
        Err(e) => Err(e),
        Ok(()) => exited,
    }
}

/// Starts an outbound call: opens a child span of the current context (a
/// root with `trace_id` when none is current) and encodes the child's
/// context as the header to attach.
pub fn begin_call_with_ids(
    rec: &mut Recorder,
    ctxs: &ActiveContexts,
    name: String,
    trace_id: u128,
    span_id: u64,
    now: u64,
) -> (r: OutboundCall)
    requires
        old(rec).wf(),
        old(rec).next_of() < u64::MAX,
    ensures
        final(rec).wf(),
        r.context == child_context(
            current_of(ctxs@),
            trace_id,
            span_id,
            decision(old(rec).sampler_of(), current_of(ctxs@)),
        ),
        r.header@ == header_of(r.context),
        r.handle.id == old(rec).next_of(),
        final(rec).next_of() == old(rec).next_of() + 1,
        final(rec).open_spans().drop_last() == old(rec).open_spans(),
        final(rec).open_spans().last().handle == r.handle.id,
        is_open(final(rec).open_spans(), r.handle.id),
        fresh_span(final(rec).open_spans().last().span, r.context, name@, old(rec).service_of(), now),
        final(rec).sampler_of() == old(rec).sampler_of(),
        final(rec).service_of() == old(rec).service_of(),
{
    let parent = ctxs.current();
    let (handle, context) = rec.start_with_ids(name, parent.as_ref(), trace_id, span_id, now);
    let header = encode(&context);
    OutboundCall { handle, context, header }
}

/// `begin_call_with_ids` with a span id, and a root trace id, drawn at random.
pub fn begin_call(rec: &mut Recorder, ctxs: &ActiveContexts, name: String, now: u64) -> (r:
    OutboundCall)
    requires
        old(rec).wf(),
        old(rec).next_of() < u64::MAX,
    ensures
        final(rec).wf(),
        exists|t: u128|
            r.context == child_context(
                current_of(ctxs@),
                t,
                r.context.span_id,
                decision(old(rec).sampler_of(), current_of(ctxs@)),
            ),
        r.header@ == header_of(r.context),
        r.handle.id == old(rec).next_of(),
        final(rec).next_of() == old(rec).next_of() + 1,
        final(rec).open_spans().drop_last() == old(rec).open_spans(),
        final(rec).open_spans().last().handle == r.handle.id,
        is_open(final(rec).open_spans(), r.handle.id),
        fresh_span(final(rec).open_spans().last().span, r.context, name@, old(rec).service_of(), now),
        final(rec).sampler_of() == old(rec).sampler_of(),
{
    let trace_id = draw_trace_id();
    let span_id = draw_span_id();
    begin_call_with_ids(rec, ctxs, name, trace_id, span_id, now)
}

/// Finishes an outbound call: closes its span with `Success`, or `Error`
/// when the call failed. What the call returned is the caller's and is not
/// touched.
pub fn end_call(
    rec: &mut Recorder,
    call: &OutboundCall,
    failure: Option<String>,
    now: u64,
    exporter: &mut Exporter,
) -> (r: Result<(), SpanStateError>)
    requires
        old(rec).wf(),
    ensures
        final(rec).wf(),
        final(rec).next_of() == old(rec).next_of(),
        old(exporter).wf() ==> final(exporter).wf(),
        Exporter::same_but_queue(*old(exporter), *final(exporter)),
        !is_open(final(rec).open_spans(), call.handle.id),
        is_open(old(rec).open_spans(), call.handle.id) ==> r is Ok && exists|i: int|
            0 <= i < old(rec).open_spans().len() && (#[trigger] old(rec).open_spans()[i]).handle
                == call.handle.id && final(rec).open_spans() == old(rec).open_spans().remove(i)
                && final(exporter).queued() == if old(rec).open_spans()[i].span.sampled {
                old(exporter).queued().push(
                    closed(
                        Span {
                            status: status_after(failure, SpanStatus::Success),
                            ..old(rec).open_spans()[i].span
                        },
                        now,
                    ),
                )
            } else {
                old(exporter).queued()
            },
        !is_open(old(rec).open_spans(), call.handle.id) ==> r == Err::<(), SpanStateError>(
            SpanStateError::NotOpen,
        ) && final(rec).open_spans() == old(rec).open_spans() && *final(exporter)
            == *old(exporter),
{
    close_span(rec, call.handle, failure, SpanStatus::Success, now, exporter)
}

/// Propagation from a service A to a service B: B, handling a request that
/// carries the header of A's outbound child span `a`, runs in a span whose
/// parent is `a` and which shares `a`'s trace.
pub proof fn lemma_propagation(
    a: TraceContext,
    b_sampler: crate::sampler::Sampler,
    fresh_trace: u128,
    b_span_id: u64,
)
    ensures
        ({
            let b = inbound_context(Some(header_of(a)), b_sampler, fresh_trace, b_span_id);
            &&& b.parent_span_id == Some(a.span_id)
            &&& b.trace_id == a.trace_id
            &&& b.span_id == b_span_id
        }),
{
    lemma_round_trip(a);
}

/// An inbound request with a header that decodes runs in the trace the header
/// names, as a child of the remote span.
pub proof fn lemma_inbound_keeps_trace(
    h: Seq<u8>,
    sampler: crate::sampler::Sampler,
    fresh_trace: u128,
    span_id: u64,
)
    requires
        decoded(h) is Some,
    ensures
        inbound_context(Some(h), sampler, fresh_trace, span_id).trace_id == decoded(h)->0.trace_id,
        inbound_context(Some(h), sampler, fresh_trace, span_id).parent_span_id == Some(
            decoded(h)->0.span_id,
        ),
{
}

/// An inbound request without a header, or with one that does not decode,
/// runs as a fresh root in the trace it was given.
pub proof fn lemma_inbound_fresh_root(
    h: Option<Seq<u8>>,
    sampler: crate::sampler::Sampler,
    fresh_trace: u128,
    span_id: u64,
)
    requires
        h is None || decoded(h->0) is None,
    ensures
        inbound_context(h, sampler, fresh_trace, span_id).trace_id == fresh_trace,
        inbound_context(h, sampler, fresh_trace, span_id).parent_span_id is None,
{
}

} // verus!
