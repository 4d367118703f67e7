//! Span records and the per-execution stack of active contexts.

use vstd::prelude::*;
use crate::codec::TraceContext;

verus! {

/// Outcome recorded on a span.
#[derive(Clone, Debug, PartialEq, Eq)]
pub enum SpanStatus {
    Unset,
    Success,
    Error(String),
}

/// A scalar attribute value.
#[derive(Clone, Debug, PartialEq, Eq)]
pub enum AttrValue {
    Str(String),
    Int(i64),
    Bool(bool),
}

/// A unit of timed work; closed once `end_time` is set.
#[derive(Clone, Debug)]
pub struct Span {
    pub span_id: u64,
    pub trace_id: u128,
    pub parent_span_id: Option<u64>,
    pub name: String,
    pub start_time: u64,
    pub end_time: Option<u64>,
    pub status: SpanStatus,
    pub attributes: Vec<(String, AttrValue)>,
    pub service_name: String,
    pub sampled: bool,
}

/// Misuse of a span or a context guard.
#[derive(Clone, Copy, Debug, PartialEq, Eq, Structural)]
pub enum SpanStateError {
    /// The span is not open: it was never started here or is already closed.
    NotOpen,
    /// The guard is not the innermost one, or was already released.
    NotInnermost,
}

/// Proof of having entered a context; released in LIFO order.
#[derive(Debug, PartialEq, Eq, Structural)]
pub struct ContextGuard {
    pub depth: usize,
}

/// The contexts entered by one logical execution, innermost last.
#[derive(Debug)]
pub struct ActiveContexts {
    stack: Vec<TraceContext>,
}

/// The stack after a release of the guard at `depth`, or `None` when that
/// guard is not the innermost.
pub open spec fn released(s: Seq<TraceContext>, depth: int) -> Option<Seq<TraceContext>> {
    if depth == s.len() && s.len() > 0 {
        Some(s.drop_last())
    } else {
        None
    }
}

pub open spec fn current_of(s: Seq<TraceContext>) -> Option<TraceContext> {
    if s.len() == 0 {
        None
    } else {
        Some(s.last())
    }
}

impl View for ActiveContexts {
    type V = Seq<TraceContext>;

    closed spec fn view(&self) -> Seq<TraceContext> {
        self.stack@
    }
}

impl ActiveContexts {
    /// An execution with no context entered.
    pub fn new() -> (r: ActiveContexts)
        ensures
            r@ == Seq::<TraceContext>::empty(),
    {
        ActiveContexts { stack: Vec::new() }
    }

    /// Makes `ctx` current until the returned guard is released.
    pub fn enter(&mut self, ctx: TraceContext) -> (g: ContextGuard)
        requires
            old(self)@.len() < usize::MAX,
        ensures
            final(self)@ == old(self)@.push(ctx),
            g.depth == final(self)@.len(),
    {
        self.stack.push(ctx);
        ContextGuard { depth: self.stack.len() }
    }

    /// The innermost entered context.
    pub fn current(&self) -> (r: Option<TraceContext>)
        ensures
            r == current_of(self@),
    {
        if self.stack.len() == 0 {
            None
        } else {
            Some(self.stack[self.stack.len() - 1])
        }
    }

    /// Number of contexts entered and not yet released.
    pub fn depth(&self) -> (r: usize)
        ensures
            r == self@.len(),
    {
        self.stack.len()
    }

    /// Releases `g`, restoring the context that was current when it was
    /// entered; refused unless `g` is the innermost guard.
    pub fn exit(&mut self, g: ContextGuard) -> (r: Result<(), SpanStateError>)
        ensures
            match released(old(self)@, g.depth as int) {
                Some(s) => r is Ok && final(self)@ == s,
                None => r == Err::<(), SpanStateError>(SpanStateError::NotInnermost)
                    && final(self)@ == old(self)@,
            },
    {
        if g.depth == self.stack.len() && self.stack.len() > 0 {
            self.stack.pop();
            Ok(())
        } else {
            Err(SpanStateError::NotInnermost)
        }
    }
}

/// Entering a context and releasing its guard restores what was current
/// before; a second release of the same guard is refused.
pub proof fn lemma_enter_exit_restores(s: Seq<TraceContext>, ctx: TraceContext)
    ensures
        released(s.push(ctx), (s.len() + 1) as int) == Some(s),
        current_of(s.push(ctx)) == Some(ctx),
        released(s, (s.len() + 1) as int) is None,
{
    assert(s.push(ctx).drop_last() =~= s);
}

/// Nested contexts unwind in LIFO order: with B entered inside A, releasing
/// B makes A current again, and A's guard cannot be released before B's.
pub proof fn lemma_nested_unwind(s: Seq<TraceContext>, a: TraceContext, b: TraceContext)
    ensures
        released(s.push(a), (s.len() + 1) as int) == Some(s),
        released(s.push(a).push(b), (s.len() + 2) as int) == Some(s.push(a)),
        current_of(s.push(a)) == Some(a),
        released(s.push(a).push(b), (s.len() + 1) as int) is None,
{
    assert(s.push(a).drop_last() =~= s);
    assert(s.push(a).push(b).drop_last() =~= s.push(a));
}

} // verus!
