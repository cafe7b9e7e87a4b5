//! The decisions of a run: which batches go out, and when the clock stops it.
use vstd::prelude::*;
use crate::config::TestType;

verus! {

/// `requests / concurrency` batches of `concurrency` requests, then one of the
/// remainder if there is one.
pub open spec fn batch_plan(requests: usize, concurrency: usize) -> Seq<usize> {
    let full = Seq::new((requests / concurrency) as nat, |i: int| concurrency);
    if requests % concurrency > 0 {
        full.push((requests % concurrency) as usize)
    } else {
        full
    }
}

pub open spec fn size_sum(s: Seq<usize>) -> nat
    decreases s.len(),
{
    if s.len() == 0 {
        0
    } else {
        size_sum(s.drop_last()) + (s.last() as nat)
    }
}

/// The sizes of the batches of a run bounded by a request count.
pub fn batch_sizes(requests: usize, concurrency: usize) -> (r: Vec<usize>)
    requires
        concurrency > 0,
    ensures
        r@ == batch_plan(requests, concurrency),
{
    let full = requests / concurrency;
    let mut sizes: Vec<usize> = Vec::new();
    let mut i: usize = 0;
    while i < full
        invariant
            i <= full,
            full == requests / concurrency,
            sizes@ == Seq::new(i as nat, |k: int| concurrency),
        decreases full - i,
    {
        sizes.push(concurrency);
        i = i + 1;
        assert(sizes@ =~= Seq::new(i as nat, |k: int| concurrency));
    }
    let remainder = requests % concurrency;
    if remainder > 0 {
        sizes.push(remainder);
    }
    sizes
}

proof fn lemma_constant_sum(n: nat, c: usize)
    ensures
        size_sum(Seq::new(n, |i: int| c)) == n * c,
    decreases n,
{
    if n > 0 {
        assert(Seq::new(n, |i: int| c).drop_last() =~= Seq::new((n - 1) as nat, |i: int| c));
        lemma_constant_sum((n - 1) as nat, c);
        assert(((n - 1) as nat) * c + c == n * c) by (nonlinear_arith)
            requires
                n > 0,
        ;
    } else {
        assert(n * c == 0) by (nonlinear_arith)
            requires
                n == 0,
        ;
    }
}

/// A run bounded by a request count issues exactly that many requests over
/// its batches, and no batch is larger than the concurrency.
pub proof fn lemma_plan_covers_requests(requests: usize, concurrency: usize)
    requires
        concurrency > 0,
    ensures
        size_sum(batch_plan(requests, concurrency)) == requests,
        forall|i: int|
            0 <= i < batch_plan(requests, concurrency).len() ==> 0 < #[trigger] batch_plan(
                requests,
                concurrency,
            )[i] <= concurrency,
{
    let q = (requests / concurrency) as nat;
    let full = Seq::new(q, |i: int| concurrency);
    lemma_constant_sum(q, concurrency);
    assert(q * concurrency + requests % concurrency == requests) by (nonlinear_arith)
        requires
            concurrency > 0,
            q == requests / concurrency,
    ;
    if requests % concurrency > 0 {
        assert(full.push((requests % concurrency) as usize).drop_last() =~= full);
    }
}

/// Hands out the batches of one run, one at a time.
pub struct Dispatcher {
    pub test_type: TestType,
    pub concurrency: usize,
    /// The batch sizes of a run bounded by a request count.
    pub plan: Vec<usize>,
    /// Batches handed out so far from `plan`.
    pub issued: usize,
    /// No further batch will be handed out.
    pub stopped: bool,
    /// The request count ran out before the clock did.
    pub count_exhausted: bool,
}

impl Dispatcher {
    pub open spec fn wf(&self) -> bool {
        &&& self.issued <= self.plan@.len()
        &&& self.concurrency > 0
        &&& self.count_exhausted ==> self.stopped && self.issued == self.plan@.len()
    }

    /// A dispatcher at the start of a run.
    pub fn new(test_type: TestType, requests: usize, concurrency: usize) -> (r: Dispatcher)
        requires
            concurrency > 0,
        ensures
            r.wf(),
            r.test_type == test_type,
            r.concurrency == concurrency,
            r.plan@ == batch_plan(requests, concurrency),
            r.issued == 0,
            !r.stopped,
            !r.count_exhausted,
    {
        Dispatcher {
            test_type,
            concurrency,
            plan: batch_sizes(requests, concurrency),
            issued: 0,
            stopped: false,
            count_exhausted: false,
        }
    }

    /// The size of the next batch to launch, or `None` when the run is over.
    /// `signal_fired` says whether the run's duration has elapsed; a run
    /// bounded by the request count alone does not heed it.
    pub fn next_batch(&mut self, signal_fired: bool) -> (r: Option<usize>)
        requires
            old(self).wf(),
        ensures
            final(self).wf(),
            final(self).test_type == old(self).test_type,
            final(self).concurrency == old(self).concurrency,
            final(self).plan == old(self).plan,
            old(self).stopped ==> r is None && *final(self) == *old(self),
            !old(self).stopped ==> match old(self).test_type {
                TestType::Duration => if signal_fired {
                    r is None && final(self).stopped && !final(self).count_exhausted
                } else {
                    r == Some(old(self).concurrency) && *final(self) == *old(self)
                },
                _ => if signal_fired && old(self).test_type == TestType::Both {
                    r is None && final(self).stopped && !final(self).count_exhausted
                        && final(self).issued == old(self).issued
                } else if old(self).issued < old(self).plan@.len() {
                    r == Some(old(self).plan@[old(self).issued as int]) && final(self).issued
                        == old(self).issued + 1 && !final(self).stopped
                } else {
                    r is None && final(self).stopped && final(self).count_exhausted
                        && final(self).issued == old(self).issued
                },
            },
    {
        if self.stopped {
            return None;
        }
        match self.test_type {
            TestType::Duration => {
                if signal_fired {
                    self.stopped = true;
                    None
                } else {
                    Some(self.concurrency)
                }
            },
            _ => {
                if signal_fired && self.test_type == TestType::Both {
                    self.stopped = true;
                    None
                } else if self.issued < self.plan.len() {
                    let size = self.plan[self.issued];
                    self.issued = self.issued + 1;
                    Some(size)
                } else {
                    self.stopped = true;
                    self.count_exhausted = true;
                    None
                }
            },
        }
    }

    /// Requests handed out so far in batches of the plan.
    pub open spec fn issued_requests(&self) -> nat {
        size_sum(self.plan@.take(self.issued as int))
    }
}

/// A run that ends because its request count ran out, not by the clock, has
/// handed out exactly `requests` requests.
pub proof fn lemma_normal_completion_issues_all(d: Dispatcher, requests: usize)
    requires
        d.wf(),
        d.plan@ == batch_plan(requests, d.concurrency),
        d.count_exhausted,
    ensures
        d.issued_requests() == requests,
{
    assert(d.plan@.take(d.issued as int) =~= d.plan@);
    lemma_plan_covers_requests(requests, d.concurrency);
}

/// What the clock watcher does on one tick.
#[derive(PartialEq, Eq, Structural, Clone, Copy, Debug)]
pub enum WatchStep {
    /// Record the elapsed time and keep watching; report the whole second
    /// given, if any, as progress.
    Continue { progress_second: Option<u64> },
    /// The duration has run out: wake the dispatching loop and stop watching.
    Signal,
    /// Stop watching without raising the signal.
    Exit,
}

pub const MICROS_PER_SECOND: u64 = 1_000_000;

/// One tick of the clock watcher of a run, given the time elapsed since it
/// started, whether the dispatching loop has finished, and the last second
/// reported as progress.
pub fn watch_tick(
    test_type: TestType,
    duration_secs: u64,
    elapsed_us: u64,
    stop_flag: bool,
    last_second: u64,
) -> (r: WatchStep)
    ensures
        r == match test_type {
            TestType::RequestCount => if stop_flag {
                WatchStep::Exit
            } else {
                WatchStep::Continue { progress_second: None }
            },
            _ => if test_type == TestType::Both && stop_flag {
                WatchStep::Exit
            } else if elapsed_us > duration_secs * MICROS_PER_SECOND {
                WatchStep::Signal
            } else if elapsed_us < duration_secs * MICROS_PER_SECOND && elapsed_us
                / MICROS_PER_SECOND > last_second {
                WatchStep::Continue {
                    progress_second: Some((elapsed_us / MICROS_PER_SECOND) as u64),
                }
            } else {
                WatchStep::Continue { progress_second: None }
            },
        },
{
    match test_type {
        TestType::RequestCount => {
            if stop_flag {
                WatchStep::Exit
            } else {
                WatchStep::Continue { progress_second: None }
            }
        },
        _ => {
            let limit: u128 = (duration_secs as u128) * (MICROS_PER_SECOND as u128);
            let seconds = elapsed_us / MICROS_PER_SECOND;
            if test_type == TestType::Both && stop_flag {
                WatchStep::Exit
            } else if (elapsed_us as u128) > limit {
                WatchStep::Signal
            } else if (elapsed_us as u128) < limit && seconds > last_second {
                WatchStep::Continue { progress_second: Some(seconds) }
            } else {
                WatchStep::Continue { progress_second: None }
            }
        },
    }
}

} // verus!
