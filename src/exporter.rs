//! Batched export of closed spans: size and interval triggers, bounded retry
//! with exponential backoff, and a diagnostic for each dropped batch.
//!
//! The exporter decides; the task that owns it performs the delivery of
//! `batch()` after `poll` answers `Send`, and reports the outcome.

use vstd::prelude::*;
use crate::span::Span;

verus! {

/// Export settings.
#[derive(Clone, Copy, Debug, PartialEq, Eq, Structural)]
pub struct ExportConfig {
    /// Queued spans that trigger a flush at once.
    pub batch_size: usize,
    /// Time after the last flush at which a partial batch is flushed.
    pub interval: u64,
    /// Delivery attempts per batch before it is dropped.
    pub max_attempts: u32,
    /// Delay before the first retry; each later retry doubles it.
    pub base_backoff: u64,
    /// Queue length above which the queue counts as over capacity. The queue
    /// is not bounded: this only raises a warning.
    pub warn_at: usize,
}

/// A configuration the exporter cannot run with.
#[derive(Clone, Copy, Debug, PartialEq, Eq, Structural)]
pub enum ConfigurationError {
    ZeroBatchSize,
    ZeroAttempts,
}

/// Where the batch being exported stands.
#[derive(Clone, Copy, Debug, PartialEq, Eq, Structural)]
pub enum Phase {
    /// No batch is out.
    Ready,
    /// The batch has been handed out for delivery.
    Delivering,
    /// The last delivery failed; the next is due at the given time.
    Backoff(u64),
}

/// What the owner of the exporter does next.
#[derive(Clone, Copy, Debug, PartialEq, Eq, Structural)]
pub enum ExportAction {
    Idle,
    /// Deliver `batch()` and report the outcome.
    Send,
}

/// Record of a batch given up on.
#[derive(Clone, Copy, Debug, PartialEq, Eq, Structural)]
pub struct Diagnostic {
    pub dropped: usize,
    pub attempts: u32,
    pub at: u64,
}

#[derive(Debug)]
pub struct Exporter {
    config: ExportConfig,
    queue: Vec<Span>,
    batch: Vec<Span>,
    phase: Phase,
    attempts: u32,
    last_flush: u64,
    diagnostics: Vec<Diagnostic>,
}

/// The delay before retry `k + 1` (in unbounded arithmetic).
pub open spec fn backoff(base: int, k: nat) -> int
    decreases k,
{
    if k == 0 {
        base
    } else {
        2 * backoff(base, (k - 1) as nat)
    }
}

pub open spec fn cap(x: int) -> u64 {
    if x > u64::MAX {
        u64::MAX
    } else {
        x as u64
    }
}

/// How many queued spans a flush takes when polled at `now` with no batch
/// out: a full batch once the size is reached, everything once the interval
/// has passed, none otherwise.
pub open spec fn flush_count(len: nat, cfg: ExportConfig, last_flush: u64, now: u64) -> nat {
    if len >= cfg.batch_size {
        cfg.batch_size as nat
    } else if len > 0 && now >= last_flush + cfg.interval {
        len
    } else {
        0
    }
}

/// A full batch flushes whatever the time, taking exactly the batch size; a
/// partial batch flushes whole once the interval since the last flush has
/// passed, and not before.
pub proof fn lemma_flush_triggers(len: nat, cfg: ExportConfig, last_flush: u64, now: u64)
    requires
        cfg.batch_size > 0,
    ensures
        len >= cfg.batch_size ==> flush_count(len, cfg, last_flush, now) == cfg.batch_size,
        0 < len < cfg.batch_size && now >= last_flush + cfg.interval ==> flush_count(
            len,
            cfg,
            last_flush,
            now,
        ) == len,
        len < cfg.batch_size && now < last_flush + cfg.interval ==> flush_count(
            len,
            cfg,
            last_flush,
            now,
        ) == 0,
        len == 0 ==> flush_count(len, cfg, last_flush, now) == 0,
{
}

impl Exporter {
    /// `b` differs from `a` at most in its queue.
    pub open spec fn same_but_queue(a: Exporter, b: Exporter) -> bool {
        &&& a.cfg() == b.cfg()
        &&& a.out() == b.out()
        &&& a.phase_of() == b.phase_of()
        &&& a.attempts_of() == b.attempts_of()
        &&& a.last_flush_of() == b.last_flush_of()
        &&& a.diagnostics_of() == b.diagnostics_of()
    }

    pub closed spec fn cfg(&self) -> ExportConfig {
        self.config
    }

    pub closed spec fn queued(&self) -> Seq<Span> {
        self.queue@
    }

    pub closed spec fn out(&self) -> Seq<Span> {
        self.batch@
    }

    pub closed spec fn phase_of(&self) -> Phase {
        self.phase
    }

    pub closed spec fn attempts_of(&self) -> u32 {
        self.attempts
    }

    pub closed spec fn last_flush_of(&self) -> u64 {
        self.last_flush
    }

    pub closed spec fn diagnostics_of(&self) -> Seq<Diagnostic> {
        self.diagnostics@
    }

    pub closed spec fn wf(&self) -> bool {
        &&& self.config.batch_size > 0
        &&& self.config.max_attempts > 0
        &&& self.attempts < self.config.max_attempts
        &&& (self.phase == Phase::Ready <==> self.batch@.len() == 0)
        &&& (self.phase == Phase::Ready ==> self.attempts == 0)
    }

    /// An exporter with nothing queued, whose interval starts at `now`;
    /// refused when the batch size or the attempt count is zero.
    pub fn new(config: ExportConfig, now: u64) -> (r: Result<Exporter, ConfigurationError>)
        ensures
            config.batch_size == 0 ==> r == Err::<Exporter, ConfigurationError>(
                ConfigurationError::ZeroBatchSize,
            ),
            config.batch_size > 0 && config.max_attempts == 0 ==> r == Err::<
                Exporter,
                ConfigurationError,
            >(ConfigurationError::ZeroAttempts),
            config.batch_size > 0 && config.max_attempts > 0 ==> (r matches Ok(e) && e.wf()
                && e.cfg() == config && e.queued().len() == 0 && e.out().len() == 0
                && e.phase_of() == Phase::Ready && e.last_flush_of() == now
                && e.diagnostics_of().len() == 0),
    {
        if config.batch_size == 0 {
            return Err(ConfigurationError::ZeroBatchSize);
        }
        if config.max_attempts == 0 {
            return Err(ConfigurationError::ZeroAttempts);
        }
        Ok(
            Exporter {
                config,
                queue: Vec::new(),
                batch: Vec::new(),
                phase: Phase::Ready,
                attempts: 0,
                last_flush: now,
                diagnostics: Vec::new(),
            },
        )
    }

    /// Adds a closed span to the queue; never waits.
    pub fn enqueue(&mut self, span: Span)
        ensures
            final(self).queued() == old(self).queued().push(span),
            final(self).out() == old(self).out(),
            final(self).phase_of() == old(self).phase_of(),
            final(self).attempts_of() == old(self).attempts_of(),
            final(self).last_flush_of() == old(self).last_flush_of(),
            final(self).diagnostics_of() == old(self).diagnostics_of(),
            final(self).cfg() == old(self).cfg(),
            old(self).wf() ==> final(self).wf(),
    {
        self.queue.push(span);
    }

    /// Whether more spans are queued than the configured warning level.
    pub fn over_capacity(&self) -> (r: bool)
        ensures
            r == (self.queued().len() > self.cfg().warn_at),
    {
        self.queue.len() > self.config.warn_at
    }

    /// Spans waiting for a flush.
    pub fn queued_len(&self) -> (r: usize)
        ensures
            r == self.queued().len(),
    {
        self.queue.len()
    }

    /// Spans waiting for a flush, oldest first.
    pub fn queue(&self) -> (r: &Vec<Span>)
        ensures
            r@ == self.queued(),
    {
        &self.queue
    }

    /// The batch handed out for delivery (empty when none is out).
    pub fn batch(&self) -> (r: &Vec<Span>)
        ensures
            r@ == self.out(),
    {
        &self.batch
    }

    pub fn phase(&self) -> (r: Phase)
        ensures
            r == self.phase_of(),
    {
        self.phase
    }

    /// Batches given up on, oldest first.
    pub fn diagnostics(&self) -> (r: &Vec<Diagnostic>)
        ensures
            r@ == self.diagnostics_of(),
    {
        &self.diagnostics
    }

    /// Moves the first `k` queued spans out as the batch.
    fn take_batch(&mut self, k: usize, now: u64)
        requires
            old(self).wf(),
            old(self).phase == Phase::Ready,
            0 < k <= old(self).queue@.len(),
        ensures
            final(self).wf(),
            final(self).batch@ == old(self).queue@.subrange(0, k as int),
            final(self).queue@ == old(self).queue@.subrange(k as int, old(self).queue@.len() as int),
            final(self).phase == Phase::Delivering,
            final(self).attempts == 0,
            final(self).last_flush == now,
            final(self).diagnostics == old(self).diagnostics,
            final(self).config == old(self).config,
    {
        let mut rest = self.queue.split_off(k);
        std::mem::swap(&mut self.queue, &mut rest);
        self.batch = rest;
        self.phase = Phase::Delivering;
        self.attempts = 0;
        self.last_flush = now;
    }

    /// Decides, at time `now`, whether a batch goes out. With no batch out,
    /// a flush takes `flush_count` spans from the front of the queue. A batch
    /// in backoff goes out again once its retry time has come.
    pub fn poll(&mut self, now: u64) -> (r: ExportAction)
        requires
            old(self).wf(),
        ensures
            final(self).wf(),
            final(self).cfg() == old(self).cfg(),
            final(self).diagnostics_of() == old(self).diagnostics_of(),
            ({
                let n = flush_count(
                    old(self).queued().len(),
                    old(self).cfg(),
                    old(self).last_flush_of(),
                    now,
                );
                old(self).phase_of() == Phase::Ready ==> if n > 0 {
                    &&& r == ExportAction::Send
                    &&& final(self).out() == old(self).queued().subrange(0, n as int)
                    &&& final(self).queued() == old(self).queued().subrange(
                        n as int,
                        old(self).queued().len() as int,
                    )
                    &&& final(self).phase_of() == Phase::Delivering
                    &&& final(self).last_flush_of() == now
                } else {
                    r == ExportAction::Idle && final(self).queued() == old(self).queued()
                        && final(self).out() == old(self).out() && final(self).phase_of()
                        == old(self).phase_of() && final(self).last_flush_of()
                        == old(self).last_flush_of()
                }
            }),
            old(self).phase_of() != Phase::Ready ==> {
                &&& final(self).queued() == old(self).queued()
                &&& final(self).out() == old(self).out()
                &&& final(self).attempts_of() == old(self).attempts_of()
                &&& final(self).last_flush_of() == old(self).last_flush_of()
                &&& match old(self).phase_of() {
                    Phase::Backoff(t) => if now >= t {
                        r == ExportAction::Send && final(self).phase_of() == Phase::Delivering
                    } else {
                        r == ExportAction::Idle && final(self).phase_of() == old(self).phase_of()
                    },
                    _ => r == ExportAction::Idle && final(self).phase_of() == old(self).phase_of(),
                }
            },
    {
        match self.phase {
            Phase::Ready => {
                let len = self.queue.len();
                if len >= self.config.batch_size {
                    let k = self.config.batch_size;
                    self.take_batch(k, now);
                    ExportAction::Send
                } else if len > 0 && now >= self.last_flush && now - self.last_flush
                    >= self.config.interval {
                    self.take_batch(len, now);
                    assert(self.queue@.len() == 0);
                    ExportAction::Send
                } else {
                    ExportAction::Idle
                }
            },
            Phase::Delivering => ExportAction::Idle,
            Phase::Backoff(t) => {
                if now >= t {
                    self.phase = Phase::Delivering;
                    ExportAction::Send
                } else {
                    ExportAction::Idle
                }
            },
        }
    }

    /// Takes every queued span out as the batch, whatever the triggers, so
    /// that a shutting-down owner can attempt one last delivery.
    pub fn flush_now(&mut self, now: u64) -> (r: ExportAction)
        requires
            old(self).wf(),
        ensures
            final(self).wf(),
            final(self).cfg() == old(self).cfg(),
            final(self).diagnostics_of() == old(self).diagnostics_of(),
            old(self).phase_of() == Phase::Ready && old(self).queued().len() > 0 ==> {
                &&& r == ExportAction::Send
                &&& final(self).out() == old(self).queued()
                &&& final(self).queued().len() == 0
                &&& final(self).phase_of() == Phase::Delivering
            },
            !(old(self).phase_of() == Phase::Ready && old(self).queued().len() > 0) ==> r
                == ExportAction::Idle && *final(self) == *old(self),
    {
        if self.phase == Phase::Ready && self.queue.len() > 0 {
            let len = self.queue.len();
            self.take_batch(len, now);
            assert(self.batch@ =~= old(self).queue@);
            ExportAction::Send
        } else {
            ExportAction::Idle
        }
    }

    /// Records the outcome of delivering the batch. Success clears it. A
    /// failure schedules a retry after an exponentially growing delay; the
    /// failure of the last allowed attempt drops the batch and records a
    /// diagnostic. Outside a delivery nothing changes.
    pub fn report(&mut self, delivered: bool, now: u64)
        requires
            old(self).wf(),
        ensures
            final(self).wf(),
            final(self).cfg() == old(self).cfg(),
            final(self).queued() == old(self).queued(),
            old(self).phase_of() != Phase::Delivering ==> *final(self) == *old(self),
            old(self).phase_of() == Phase::Delivering && delivered ==> {
                &&& final(self).out().len() == 0
                &&& final(self).phase_of() == Phase::Ready
                &&& final(self).last_flush_of() == now
                &&& final(self).diagnostics_of() == old(self).diagnostics_of()
            },
            old(self).phase_of() == Phase::Delivering && !delivered && old(self).attempts_of() + 1
                >= old(self).cfg().max_attempts ==> {
                &&& final(self).out().len() == 0
                &&& final(self).phase_of() == Phase::Ready
                &&& final(self).last_flush_of() == now
                &&& final(self).diagnostics_of() == old(self).diagnostics_of().push(
                    Diagnostic {
                        dropped: old(self).out().len() as usize,
                        attempts: old(self).cfg().max_attempts,
                        at: now,
                    },
                )
            },
            old(self).phase_of() == Phase::Delivering && !delivered && old(self).attempts_of() + 1
                < old(self).cfg().max_attempts ==> {
                &&& final(self).out() == old(self).out()
                &&& final(self).attempts_of() == old(self).attempts_of() + 1
                &&& final(self).phase_of() == Phase::Backoff(
                    cap(now + backoff(old(self).cfg().base_backoff as int, old(self).attempts_of() as nat)),
                )
                &&& final(self).diagnostics_of() == old(self).diagnostics_of()
                &&& final(self).last_flush_of() == old(self).last_flush_of()
            },
    {
        if self.phase != Phase::Delivering {
            return;
        }
        if delivered {
            self.batch = Vec::new();
            self.phase = Phase::Ready;
            self.attempts = 0;
            self.last_flush = now;
        } else if self.attempts + 1 >= self.config.max_attempts {
            let dropped = self.batch.len();
            self.diagnostics.push(
                Diagnostic { dropped, attempts: self.config.max_attempts, at: now },
            );
            self.batch = Vec::new();
            self.phase = Phase::Ready;
            self.attempts = 0;
            self.last_flush = now;
        } else {
            let d = backoff_delay(self.config.base_backoff, self.attempts);
            let at = if d > u64::MAX - now {
                u64::MAX
            } else {
                now + d
            };
            proof {
                lemma_backoff(self.config.base_backoff as int, self.attempts as nat);
                lemma_cap_add(now as int, backoff(self.config.base_backoff as int, self.attempts as nat));
            }
            self.attempts = self.attempts + 1;
            self.phase = Phase::Backoff(at);
        }
    }
}

proof fn lemma_cap_add(a: int, b: int)
    requires
        0 <= a <= u64::MAX,
        b >= 0,
    ensures
        cap(a + b) == (if cap(b) > u64::MAX - a {
            u64::MAX as int
        } else {
            a + cap(b)
        }),
{
}

proof fn lemma_backoff(base: int, k: nat)
    requires
        base >= 0,
    ensures
        backoff(base, k) >= base,
        backoff(base, k + 1) == 2 * backoff(base, k),
    decreases k,
{
    if k > 0 {
        lemma_backoff(base, (k - 1) as nat);
    }
}

/// `backoff(base, k)`, saturated at `u64::MAX`.
fn backoff_delay(base: u64, k: u32) -> (r: u64)
    ensures
        r == cap(backoff(base as int, k as nat)),
{
    let mut d: u64 = base;
    let mut i: u32 = 0;
    while i < k
        invariant
            i <= k,
            d == cap(backoff(base as int, i as nat)),
        decreases k - i,
    {
        proof {
            lemma_backoff(base as int, i as nat);
        }
        if d > u64::MAX / 2 {
            d = u64::MAX;
        } else {
            d = d * 2;
        }
        i = i + 1;
    }
    d
}

} // verus!
