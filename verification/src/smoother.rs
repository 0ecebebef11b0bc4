//! A trailing window over the most recent temperature samples.
//!
//! Samples are fixed-point temperatures counted in thousandths of a degree.

use vstd::prelude::*;
use vstd::arithmetic::div_mod::{lemma_fundamental_div_mod, lemma_fundamental_div_mod_converse};

verus! {

/// The number of samples the window keeps.
pub const WINDOW: usize = 5;

/// The sum of a sequence of samples.
pub open spec fn sum(s: Seq<i32>) -> int
    decreases s.len(),
{
    if s.len() == 0 {
        0
    } else {
        sum(s.drop_last()) + s.last()
    }
}

/// The arithmetic mean of `s`, rounded down to a whole thousandth.
pub open spec fn mean_of(s: Seq<i32>) -> int {
    sum(s) / (s.len() as int)
}

/// The most recent `WINDOW` samples of `s`, oldest first.
pub open spec fn trailing(s: Seq<i32>) -> Seq<i32> {
    if s.len() > WINDOW {
        s.skip(s.len() - WINDOW)
    } else {
        s
    }
}

/// The window that results from pushing every sample of `history`, in
/// order, into an empty smoother.
pub open spec fn window_after(history: Seq<i32>) -> Seq<i32>
    decreases history.len(),
{
    if history.len() == 0 {
        history
    } else {
        trailing(window_after(history.drop_last()).push(history.last()))
    }
}

/// Every sample lies within the `i32` range, so a sum of `n` samples lies
/// within `n` times that range.
pub proof fn lemma_sum_bounds(s: Seq<i32>)
    ensures
        s.len() * i32::MIN <= sum(s) <= s.len() * i32::MAX,
    decreases s.len(),
{
    if s.len() > 0 {
        lemma_sum_bounds(s.drop_last());
    }
}

/// The mean of a non-empty window is the arithmetic mean of its samples
/// rounded down to a whole thousandth: the one integer `m` with
/// `m * n <= sum < (m + 1) * n`. It is the arithmetic mean itself wherever
/// that is a whole number of thousandths, and it is a representable sample.
pub proof fn lemma_mean_rounds_down(s: Seq<i32>)
    requires
        s.len() > 0,
    ensures
        mean_of(s) * s.len() <= sum(s) < (mean_of(s) + 1) * s.len(),
        sum(s) % (s.len() as int) == 0 ==> mean_of(s) * s.len() == sum(s),
        i32::MIN <= mean_of(s) <= i32::MAX,
{
    let n: int = s.len() as int;
    let t: int = sum(s);
    lemma_sum_bounds(s);
    assert(t == n * (t / n) + t % n && 0 <= t % n < n) by (nonlinear_arith)
        requires
            n > 0,
    ;
    assert((t / n) * n <= t < (t / n + 1) * n) by (nonlinear_arith)
        requires
            t == n * (t / n) + t % n,
            0 <= t % n < n,
    ;
    assert(i32::MIN <= t / n <= i32::MAX) by (nonlinear_arith)
        requires
            n > 0,
            n * i32::MIN <= t <= n * i32::MAX,
            (t / n) * n <= t < (t / n + 1) * n,
    ;
}

/// However many samples were pushed, the window holds exactly the last
/// `min(WINDOW, count)` of them, in the order they arrived.
pub proof fn lemma_window_is_recent_history(history: Seq<i32>)
    ensures
        window_after(history) == trailing(history),
        window_after(history).len() <= WINDOW,
        window_after(history).len() == if history.len() < WINDOW {
            history.len()
        } else {
            WINDOW as nat
        },
    decreases history.len(),
{
    if history.len() > 0 {
        lemma_window_is_recent_history(history.drop_last());
    }
}

/// Floor division of a bounded total by a small positive count.
fn floor_div(total: i64, count: i64) -> (q: i64)
    requires
        count > 0,
        i64::MIN < total,
    ensures
        q == total / count,
{
    if total >= 0 {
        total / count
    } else {
        let positive: i64 = -total;
        let whole: i64 = positive / count;
        let rest: i64 = positive % count;
        proof {
            lemma_fundamental_div_mod(positive as int, count as int);
        }
        if rest == 0 {
            proof {
                assert(total == (-whole) * count) by (nonlinear_arith)
                    requires
                        -total == count * whole,
                ;
                lemma_fundamental_div_mod_converse(total as int, count as int, -whole, 0);
            }
            -whole
        } else {
            proof {
                assert(total == (-whole - 1) * count + (count - rest)) by (nonlinear_arith)
                    requires
                        -total == count * whole + rest,
                ;
                lemma_fundamental_div_mod_converse(
                    total as int,
                    count as int,
                    -whole - 1,
                    count - rest,
                );
            }
            -whole - 1
        }
    }
}

/// The smoothing window: a first-in-first-out buffer of at most `WINDOW`
/// samples, whose mean is computed from its contents on demand.
pub struct Smoother {
    window: Vec<i32>,
}

impl Smoother {
    #[verifier::type_invariant]
    spec fn bounded(self) -> bool {
        self.window@.len() <= WINDOW
    }

    /// The samples currently held, oldest first.
    pub closed spec fn view(&self) -> Seq<i32> {
        self.window@
    }

    /// An empty window.
    pub fn new() -> (s: Smoother)
        ensures
            s@ == Seq::<i32>::empty(),
    {
        Smoother { window: Vec::new() }
    }

    /// The number of samples currently held.
    pub fn len(&self) -> (n: usize)
        ensures
            n == self@.len(),
            n <= WINDOW,
    {
        proof {
            use_type_invariant(self);
        }
        self.window.len()
    }

    /// The samples currently held, oldest first.
    pub fn samples(&self) -> (v: Vec<i32>)
        ensures
            v@ == self@,
    {
        self.window.clone()
    }

    /// Appends `value`, evicting the oldest sample once more than `WINDOW`
    /// are held, and returns the mean of the window as it then stands.
    pub fn push(&mut self, value: i32) -> (mean: i32)
        ensures
            final(self)@ == trailing(old(self)@.push(value)),
            mean == mean_of(final(self)@),
            mean * final(self)@.len() <= sum(final(self)@) < (mean + 1) * final(self)@.len(),
    {
        proof {
            use_type_invariant(&*self);
        }
        let mut next: Vec<i32> = self.window.clone();
        if next.len() == WINDOW {
            next.remove(0);
        }
        next.push(value);
        self.window = next;
        proof {
            lemma_mean_rounds_down(self.window@);
        }
        self.mean_of_held()
    }

    /// The mean of the samples currently held; none while the window is
    /// empty.
    pub fn mean(&self) -> (mean: Option<i32>)
        ensures
            self@.len() == 0 ==> mean.is_none(),
            self@.len() > 0 ==> mean == Some(mean_of(self@) as i32),
            self@.len() > 0 ==> i32::MIN <= mean_of(self@) <= i32::MAX,
    {
        if self.window.len() == 0 {
            None
        } else {
            Some(self.mean_of_held())
        }
    }

    fn mean_of_held(&self) -> (mean: i32)
        requires
            self@.len() > 0,
        ensures
            mean == mean_of(self@),
    {
        proof {
            use_type_invariant(self);
        }
        let count: usize = self.window.len();
        let mut total: i64 = 0;
        let mut i: usize = 0;
        while i < count
            invariant
                i <= count,
                count == self.window@.len(),
                count <= WINDOW,
                total == sum(self.window@.take(i as int)),
            decreases count - i,
        {
            proof {
                lemma_sum_bounds(self.window@.take(i as int));
                assert(self.window@.take(i + 1).drop_last() =~= self.window@.take(i as int));
            }
            total = total + self.window[i] as i64;
            i += 1;
        }
        proof {
            assert(self.window@.take(count as int) =~= self.window@);
            lemma_sum_bounds(self.window@);
            lemma_mean_rounds_down(self.window@);
        }
        let q: i64 = floor_div(total, count as i64);
        q as i32
    }
}

} // verus!
