//! Span lifecycle: start, mutate while open, close exactly once.

use vstd::prelude::*;
use crate::codec::TraceContext;
use crate::exporter::Exporter;
use crate::ids::{draw_span_id, draw_trace_id};
use crate::sampler::{decision, Sampler};
use crate::span::{AttrValue, Span, SpanStateError, SpanStatus};

verus! {

/// Exclusive access to an open span, given out by `start`.
#[derive(Clone, Copy, Debug, PartialEq, Eq, Structural)]
pub struct SpanHandle {
    pub id: u64,
}

/// A span not yet closed, with the handle that owns it.
#[derive(Debug)]
pub struct OpenSpan {
    pub handle: u64,
    pub span: Span,
}

/// Creates spans and holds them while they are open.
#[derive(Debug)]
pub struct Recorder {
    service_name: String,
    sampler: Sampler,
    open: Vec<OpenSpan>,
    next_handle: u64,
}

/// The context of a span started under `parent` with the given fresh ids and
/// sampling decision: a child inherits the trace, a root takes the fresh one.
pub open spec fn child_context(
    parent: Option<TraceContext>,
    trace_id: u128,
    span_id: u64,
    sampled: bool,
) -> TraceContext {
    match parent {
        Some(p) => TraceContext {
            trace_id: p.trace_id,
            span_id,
            parent_span_id: Some(p.span_id),
            sampled,
        },
        None => TraceContext { trace_id, span_id, parent_span_id: None, sampled },
    }
}

/// Under a parent-based strategy every child of `p` keeps `p`'s trace and
/// sampling decision, whatever the delegate and the fresh ids.
pub proof fn lemma_child_inherits_sampling(d: Sampler, p: TraceContext, trace_id: u128, span_id: u64)
    ensures
        ({
            let c = child_context(
                Some(p),
                trace_id,
                span_id,
                decision(Sampler::ParentBased(Box::new(d)), Some(p)),
            );
            c.sampled == p.sampled && c.trace_id == p.trace_id && c.parent_span_id == Some(p.span_id)
        }),
{
}

pub open spec fn opt_ref(p: Option<&TraceContext>) -> Option<TraceContext> {
    match p {
        Some(c) => Some(*c),
        None => None,
    }
}

/// `sp` is the span just opened for `ctx`.
pub open spec fn fresh_span(
    sp: Span,
    ctx: TraceContext,
    name: Seq<char>,
    service: Seq<char>,
    now: u64,
) -> bool {
    &&& sp.span_id == ctx.span_id
    &&& sp.trace_id == ctx.trace_id
    &&& sp.parent_span_id == ctx.parent_span_id
    &&& sp.sampled == ctx.sampled
    &&& sp.name@ == name
    &&& sp.service_name@ == service
    &&& sp.start_time == now
    &&& sp.end_time is None
    &&& sp.status == SpanStatus::Unset
    &&& sp.attributes@.len() == 0
}

pub open spec fn is_open(s: Seq<OpenSpan>, h: u64) -> bool {
    exists|i: int| 0 <= i < s.len() && (#[trigger] s[i]).handle == h
}

/// `sp` closed at `now`.
pub open spec fn closed(sp: Span, now: u64) -> Span {
    Span { end_time: Some(now), ..sp }
}

/// The attributes after setting `key` to `v`: the first entry with that key
/// is replaced in place, or the pair is appended.
pub open spec fn attrs_with(a: Seq<(String, AttrValue)>, key: String, v: AttrValue) -> Seq<
    (String, AttrValue),
>
    decreases a.len(),
{
    if a.len() == 0 {
        seq![(key, v)]
    } else if a[0].0@ == key@ {
        a.update(0, (key, v))
    } else {
        seq![a[0]] + attrs_with(a.drop_first(), key, v)
    }
}

proof fn lemma_attrs_with_at(a: Seq<(String, AttrValue)>, key: String, v: AttrValue, i: int)
    requires
        0 <= i <= a.len(),
        forall|j: int| 0 <= j < i ==> (#[trigger] a[j]).0@ != key@,
        i < a.len() ==> a[i].0@ == key@,
    ensures
        attrs_with(a, key, v) == if i < a.len() {
            a.update(i, (key, v))
        } else {
            a.push((key, v))
        },
    decreases i,
{
    if i == 0 {
        if a.len() == 0 {
            assert(seq![(key, v)] =~= a.push((key, v)));
        }
    } else {
        let t = a.drop_first();
        assert forall|j: int| 0 <= j < i - 1 implies (#[trigger] t[j]).0@ != key@ by {
            assert(t[j] == a[j + 1]);
        }
        lemma_attrs_with_at(t, key, v, i - 1);
        if i < a.len() {
            assert(seq![a[0]] + t.update(i - 1, (key, v)) =~= a.update(i, (key, v)));
        } else {
            assert(seq![a[0]] + t.push((key, v)) =~= a.push((key, v)));
        }
    }
}

fn put_attr(attrs: &mut Vec<(String, AttrValue)>, key: String, v: AttrValue)
    ensures
        final(attrs)@ == attrs_with(old(attrs)@, key, v),
{
    let mut i: usize = 0;
    while i < attrs.len()
        invariant
            i <= attrs@.len(),
            *attrs == *old(attrs),
            forall|j: int| 0 <= j < i ==> (#[trigger] attrs@[j]).0@ != key@,
        decreases attrs@.len() - i,
    {
        if attrs[i].0 == key {
            proof {
                lemma_attrs_with_at(attrs@, key, v, i as int);
            }
            attrs.set(i, (key, v));
            return;
        }
        i = i + 1;
    }
    proof {
        lemma_attrs_with_at(attrs@, key, v, i as int);
    }
    attrs.push((key, v));
}

impl Recorder {
    pub closed spec fn open_spans(&self) -> Seq<OpenSpan> {
        self.open@
    }

    pub closed spec fn next_of(&self) -> u64 {
        self.next_handle
    }

    pub closed spec fn sampler_of(&self) -> Sampler {
        self.sampler
    }

    pub closed spec fn service_of(&self) -> Seq<char> {
        self.service_name@
    }

    /// Handles of open spans are increasing and below the next one to give out.
    pub closed spec fn wf(&self) -> bool {
        &&& forall|i: int, j: int|
            0 <= i < j < self.open@.len() ==> (#[trigger] self.open@[i]).handle
                < (#[trigger] self.open@[j]).handle
        &&& forall|i: int| 0 <= i < self.open@.len() ==> (#[trigger] self.open@[i]).handle < self.next_handle
    }

    /// No two open spans share a handle.
    pub proof fn lemma_handle_unique(&self, i: int, j: int)
        requires
            self.wf(),
            0 <= i < self.open_spans().len(),
            0 <= j < self.open_spans().len(),
            self.open_spans()[i].handle == self.open_spans()[j].handle,
        ensures
            i == j,
    {
        if i < j {
            assert(self.open@[i].handle < self.open@[j].handle);
        } else if j < i {
            assert(self.open@[j].handle < self.open@[i].handle);
        }
    }

    /// A span closes exactly once: after its close it is no longer open, so a
    /// second close of its handle is refused, and every other open span is
    /// still open.
    pub proof fn lemma_close_once(&self, i: int)
        requires
            self.wf(),
            0 <= i < self.open_spans().len(),
        ensures
            !is_open(self.open_spans().remove(i), self.open_spans()[i].handle),
            forall|k: int|
                0 <= k < self.open_spans().len() && k != i ==> is_open(
                    self.open_spans().remove(i),
                    (#[trigger] self.open_spans()[k]).handle,
                ),
    {
        lemma_remove_keeps_wf(self.open@, i, self.next_handle);
        let t = self.open@.remove(i);
        assert forall|k: int| 0 <= k < self.open@.len() && k != i implies is_open(
            t,
            (#[trigger] self.open@[k]).handle,
        ) by {
            let k2 = if k < i { k } else { k - 1 };
            assert(t[k2] == self.open@[k]);
        }
    }

    /// Starting a span and then closing it leaves the open spans as they were
    /// before the start: nothing leaks.
    pub proof fn lemma_start_end_restores(&self, before: Seq<OpenSpan>, i: int)
        requires
            self.wf(),
            self.open_spans().len() > 0,
            self.open_spans().drop_last() == before,
            0 <= i < self.open_spans().len(),
            self.open_spans()[i].handle == self.open_spans().last().handle,
        ensures
            self.open_spans().remove(i) == before,
    {
        self.lemma_handle_unique(i, self.open_spans().len() - 1);
        assert(self.open_spans().remove(i) =~= before);
    }

    /// A recorder for `service_name` with no span open.
    pub fn new(service_name: String, sampler: Sampler) -> (r: Recorder)
        ensures
            r.wf(),
            r.open_spans().len() == 0,
            r.next_of() == 0,
            r.sampler_of() == sampler,
            r.service_of() == service_name@,
    {
        Recorder { service_name, sampler, open: Vec::new(), next_handle: 0 }
    }

    /// Number of spans open.
    pub fn open_count(&self) -> (r: usize)
        ensures
            r == self.open_spans().len(),
    {
        self.open.len()
    }

    /// Whether another span can be started (handles are not reused).
    pub fn can_start(&self) -> (r: bool)
        ensures
            r == (self.next_of() < u64::MAX),
    {
        self.next_handle < u64::MAX
    }

    /// Whether `h` names an open span.
    pub fn is_open(&self, h: SpanHandle) -> (r: bool)
        requires
            self.wf(),
        ensures
            r == is_open(self.open_spans(), h.id),
    {
        match self.find(h.id) {
            Some(_) => true,
            None => false,
        }
    }

    fn find(&self, h: u64) -> (r: Option<usize>)
        ensures
            match r {
                Some(i) => i < self.open@.len() && self.open@[i as int].handle == h,
                None => !is_open(self.open@, h),
            },
    {
        let mut i: usize = 0;
        while i < self.open.len()
            invariant
                i <= self.open@.len(),
                forall|j: int| 0 <= j < i ==> (#[trigger] self.open@[j]).handle != h,
            decreases self.open@.len() - i,
        {
            if self.open[i].handle == h {
                return Some(i);
            }
            i = i + 1;
        }
        None
    }

    /// Opens a span named `name` under `parent` (a root when none), using the
    /// given ids: `trace_id` is used for a root only. The sampling decision
    /// comes from the sampler.
    pub fn start_with_ids(
        &mut self,
        name: String,
        parent: Option<&TraceContext>,
        trace_id: u128,
        span_id: u64,
        now: u64,
    ) -> (r: (SpanHandle, TraceContext))
        requires
            old(self).wf(),
            old(self).next_of() < u64::MAX,
        ensures
            final(self).wf(),
            r.0.id == old(self).next_of(),
            final(self).next_of() == old(self).next_of() + 1,
            r.1 == child_context(
                opt_ref(parent),
                trace_id,
                span_id,
                decision(old(self).sampler_of(), opt_ref(parent)),
            ),
            final(self).open_spans().len() == old(self).open_spans().len() + 1,
            final(self).open_spans().drop_last() == old(self).open_spans(),
            final(self).open_spans().last().handle == r.0.id,
            is_open(final(self).open_spans(), r.0.id),
            fresh_span(final(self).open_spans().last().span, r.1, name@, old(self).service_of(), now),
            final(self).sampler_of() == old(self).sampler_of(),
            final(self).service_of() == old(self).service_of(),
    {
        let sampled = self.sampler.should_sample(parent);
        let ctx = match parent {
            Some(p) => TraceContext {
                trace_id: p.trace_id,
                span_id,
                parent_span_id: Some(p.span_id),
                sampled,
            },
            None => TraceContext { trace_id, span_id, parent_span_id: None, sampled },
        };
        let span = Span {
            span_id,
            trace_id: ctx.trace_id,
            parent_span_id: ctx.parent_span_id,
            name,
            start_time: now,
            end_time: None,
            status: SpanStatus::Unset,
            attributes: Vec::new(),
            service_name: self.service_name.clone(),
            sampled,
        };
        let h = self.next_handle;
        self.open.push(OpenSpan { handle: h, span });
        self.next_handle = h + 1;
        assert(self.open@.drop_last() =~= old(self).open@);
        (SpanHandle { id: h }, ctx)
    }

    /// Opens a span named `name` under `parent` (a root when none), drawing a
    /// fresh span id, and a fresh trace id for a root.
    pub fn start(&mut self, name: String, parent: Option<&TraceContext>, now: u64) -> (r: (
        SpanHandle,
        TraceContext,
    ))
        requires
            old(self).wf(),
            old(self).next_of() < u64::MAX,
        ensures
            final(self).wf(),
            r.0.id == old(self).next_of(),
            final(self).next_of() == old(self).next_of() + 1,
            exists|t: u128|
                r.1 == child_context(
                    opt_ref(parent),
                    t,
                    r.1.span_id,
                    decision(old(self).sampler_of(), opt_ref(parent)),
                ),
            final(self).open_spans().len() == old(self).open_spans().len() + 1,
            final(self).open_spans().drop_last() == old(self).open_spans(),
            final(self).open_spans().last().handle == r.0.id,
            is_open(final(self).open_spans(), r.0.id),
            fresh_span(final(self).open_spans().last().span, r.1, name@, old(self).service_of(), now),
            final(self).sampler_of() == old(self).sampler_of(),
            final(self).service_of() == old(self).service_of(),
    {
        let trace_id = match parent {
            Some(p) => p.trace_id,
            None => draw_trace_id(),
        };
        let span_id = draw_span_id();
        self.start_with_ids(name, parent, trace_id, span_id, now)
    }

    /// Sets the status of the open span `h`; refused when it is not open.
    pub fn set_status(&mut self, h: SpanHandle, status: SpanStatus) -> (r: Result<(), SpanStateError>)
        requires
            old(self).wf(),
        ensures
            final(self).wf(),
            final(self).next_of() == old(self).next_of(),
            final(self).sampler_of() == old(self).sampler_of(),
            final(self).service_of() == old(self).service_of(),
            is_open(old(self).open_spans(), h.id) ==> r is Ok && exists|i: int|
                0 <= i < old(self).open_spans().len() && (#[trigger] old(self).open_spans()[i]).handle == h.id
                    && final(self).open_spans() == old(self).open_spans().update(
                    i,
                    OpenSpan { handle: h.id, span: Span { status, ..old(self).open_spans()[i].span } },
                ),
            !is_open(old(self).open_spans(), h.id) ==> r == Err::<(), SpanStateError>(
                SpanStateError::NotOpen,
            ) && final(self).open_spans() == old(self).open_spans(),
    {
        match self.find(h.id) {
            None => Err(SpanStateError::NotOpen),
            Some(i) => {
                let mut os = self.open.remove(i);
                os.span.status = status;
                self.open.insert(i, os);
                assert(self.open@ =~= old(self).open@.update(
                    i as int,
                    OpenSpan { handle: h.id, span: Span { status, ..old(self).open@[i as int].span } },
                ));
                Ok(())
            },
        }
    }

    /// Sets attribute `key` of the open span `h` (see `attrs_with`); refused
    /// when it is not open.
    pub fn set_attribute(&mut self, h: SpanHandle, key: String, value: AttrValue) -> (r: Result<
        (),
        SpanStateError,
    >)
        requires
            old(self).wf(),
        ensures
            final(self).wf(),
            final(self).next_of() == old(self).next_of(),
            final(self).sampler_of() == old(self).sampler_of(),
            final(self).service_of() == old(self).service_of(),
            is_open(old(self).open_spans(), h.id) ==> r is Ok && exists|i: int|
                0 <= i < old(self).open_spans().len() && (#[trigger] old(self).open_spans()[i]).handle == h.id
                    && final(self).open_spans().len() == old(self).open_spans().len()
                    && final(self).open_spans()[i].span.attributes@ == attrs_with(
                    old(self).open_spans()[i].span.attributes@,
                    key,
                    value,
                ) && final(self).open_spans() == old(self).open_spans().update(
                    i,
                    OpenSpan {
                        handle: h.id,
                        span: Span {
                            attributes: final(self).open_spans()[i].span.attributes,
                            ..old(self).open_spans()[i].span
                        },
                    },
                ),
            !is_open(old(self).open_spans(), h.id) ==> r == Err::<(), SpanStateError>(
                SpanStateError::NotOpen,
            ) && final(self).open_spans() == old(self).open_spans(),
    {
        match self.find(h.id) {
            None => Err(SpanStateError::NotOpen),
            Some(i) => {
                let mut os = self.open.remove(i);
                put_attr(&mut os.span.attributes, key, value);
                self.open.insert(i, os);
                assert(self.open@ =~= old(self).open@.update(
                    i as int,
                    OpenSpan {
                        handle: h.id,
                        span: Span { attributes: self.open@[i as int].span.attributes, ..old(self).open@[i as int].span },
                    },
                ));
                Ok(())
            },
        }
    }

    /// Closes the open span `h` at `now` and, when it is sampled, hands the
    /// closed record to `exporter`. Refused, changing nothing, when `h` is not
    /// open: a span closes exactly once.
    pub fn end(&mut self, h: SpanHandle, now: u64, exporter: &mut Exporter) -> (r: Result<(), SpanStateError>)
        requires
            old(self).wf(),
        ensures
            final(self).wf(),
            final(self).next_of() == old(self).next_of(),
            final(self).sampler_of() == old(self).sampler_of(),
            final(self).service_of() == old(self).service_of(),
            old(exporter).wf() ==> final(exporter).wf(),
            Exporter::same_but_queue(*old(exporter), *final(exporter)),
            !is_open(final(self).open_spans(), h.id),
            is_open(old(self).open_spans(), h.id) ==> r is Ok && exists|i: int|
                0 <= i < old(self).open_spans().len() && (#[trigger] old(self).open_spans()[i]).handle == h.id
                    && final(self).open_spans() == old(self).open_spans().remove(i)
                    && final(exporter).queued() == if old(self).open_spans()[i].span.sampled {
                    old(exporter).queued().push(closed(old(self).open_spans()[i].span, now))
                } else {
                    old(exporter).queued()
                },
            !is_open(old(self).open_spans(), h.id) ==> r == Err::<(), SpanStateError>(
                SpanStateError::NotOpen,
            ) && final(self).open_spans() == old(self).open_spans() && *final(exporter)
                == *old(exporter),
    {
        match self.find(h.id) {
            None => Err(SpanStateError::NotOpen),
            Some(i) => {
                let os = self.open.remove(i);
                proof {
                    lemma_remove_keeps_wf(old(self).open@, i as int, self.next_handle);
                }
                let mut span = os.span;
                span.end_time = Some(now);
                if span.sampled {
                    exporter.enqueue(span);
                }
                Ok(())
            },
        }
    }
}

proof fn lemma_remove_keeps_wf(s: Seq<OpenSpan>, i: int, next: u64)
    requires
        0 <= i < s.len(),
        forall|a: int, b: int| 0 <= a < b < s.len() ==> (#[trigger] s[a]).handle < (#[trigger] s[b]).handle,
        forall|a: int| 0 <= a < s.len() ==> (#[trigger] s[a]).handle < next,
    ensures
        ({
            let t = s.remove(i);
            &&& forall|a: int, b: int| 0 <= a < b < t.len() ==> (#[trigger] t[a]).handle < (#[trigger] t[b]).handle
            &&& forall|a: int| 0 <= a < t.len() ==> (#[trigger] t[a]).handle < next
            &&& !is_open(t, s[i].handle)
        }),
{
    let t = s.remove(i);
    assert forall|a: int, b: int| 0 <= a < b < t.len() implies (#[trigger] t[a]).handle < (#[trigger] t[b]).handle by {
        let a2 = if a < i { a } else { a + 1 };
        let b2 = if b < i { b } else { b + 1 };
        assert(t[a] == s[a2]);
        assert(t[b] == s[b2]);
    }
    assert forall|a: int| 0 <= a < t.len() implies (#[trigger] t[a]).handle < next by {
        let a2 = if a < i { a } else { a + 1 };
        assert(t[a] == s[a2]);
    }
    if is_open(t, s[i].handle) {
        let a = choose|a: int| 0 <= a < t.len() && (#[trigger] t[a]).handle == s[i].handle;
        let a2 = if a < i { a } else { a + 1 };
        assert(t[a] == s[a2]);
    }
}

} // verus!
