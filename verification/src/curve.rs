//! The fan curve: breakpoints that map a temperature to a fan speed.
//!
//! A breakpoint is a pair `(threshold, speed)`, both counted in thousandths:
//! a temperature in degrees and a speed in percent. A curve is a sequence of
//! breakpoints, used in ascending order of threshold.

use vstd::prelude::*;

verus! {

/// The breakpoints used when none are configured.
pub open spec fn default_curve() -> Seq<(i32, i32)> {
    seq![
        (1_000i32, 10_000i32),
        (50_000i32, 20_000i32),
        (60_000i32, 50_000i32),
        (70_000i32, 80_000i32),
        (80_000i32, 100_000i32),
    ]
}

/// The curve is in ascending order of threshold.
pub open spec fn sorted(curve: Seq<(i32, i32)>) -> bool {
    forall|i: int, j: int| 0 <= i <= j < curve.len() ==> curve[i].0 <= curve[j].0
}

/// The number of breakpoints at the start of `curve` whose threshold is at
/// most `t`: the walk over the curve stops at the first threshold above `t`.
pub open spec fn satisfied(curve: Seq<(i32, i32)>, t: int) -> nat
    decreases curve.len(),
{
    if curve.len() == 0 || curve[0].0 > t {
        0
    } else {
        1 + satisfied(curve.skip(1), t)
    }
}

/// The speed for temperature `t`: that of the last breakpoint the walk
/// reaches, or zero where the first threshold is already above `t`.
pub open spec fn decided_speed(t: int, curve: Seq<(i32, i32)>) -> int {
    let n = satisfied(curve, t);
    if n == 0 {
        0
    } else {
        curve[n - 1].1 as int
    }
}

/// `curve` with `point` put behind every breakpoint whose threshold is at
/// most its own.
pub open spec fn inserted(curve: Seq<(i32, i32)>, point: (i32, i32)) -> Seq<(i32, i32)>
    decreases curve.len(),
{
    if curve.len() == 0 || curve.last().0 <= point.0 {
        curve.push(point)
    } else {
        inserted(curve.drop_last(), point).push(curve.last())
    }
}

/// `curve` in ascending order of threshold, breakpoints of one threshold in
/// the order in which they were given.
pub open spec fn ascending(curve: Seq<(i32, i32)>) -> Seq<(i32, i32)>
    decreases curve.len(),
{
    if curve.len() == 0 {
        curve
    } else {
        inserted(ascending(curve.drop_last()), curve.last())
    }
}

/// The built-in curve.
pub fn get_default_curve() -> (curve: Vec<(i32, i32)>)
    ensures
        curve@ == default_curve(),
{
    let mut curve: Vec<(i32, i32)> = Vec::new();
    curve.push((1_000, 10_000));
    curve.push((50_000, 20_000));
    curve.push((60_000, 50_000));
    curve.push((70_000, 80_000));
    curve.push((80_000, 100_000));
    curve
}

/// A prefix of breakpoints at or below `t` that ends at the end of the curve
/// or before a threshold above `t` is the whole walk.
pub proof fn lemma_satisfied(curve: Seq<(i32, i32)>, t: int, k: int)
    requires
        0 <= k <= curve.len(),
        forall|i: int| 0 <= i < k ==> (#[trigger] curve[i]).0 <= t,
        k == curve.len() || curve[k].0 > t,
    ensures
        satisfied(curve, t) == k,
    decreases k,
{
    if k > 0 {
        lemma_satisfied(curve.skip(1), t, k - 1);
    }
}

/// The walk covers a prefix of the curve: every breakpoint in it is at or
/// below `t`, and the one behind it, if any, is above.
pub proof fn lemma_satisfied_prefix(curve: Seq<(i32, i32)>, t: int)
    ensures
        satisfied(curve, t) <= curve.len(),
        forall|i: int| 0 <= i < satisfied(curve, t) ==> (#[trigger] curve[i]).0 <= t,
        satisfied(curve, t) < curve.len() ==> curve[satisfied(curve, t) as int].0 > t,
    decreases curve.len(),
{
    if curve.len() > 0 && curve[0].0 <= t {
        let rest = curve.skip(1);
        lemma_satisfied_prefix(rest, t);
        assert forall|i: int| 0 <= i < satisfied(curve, t) implies (#[trigger] curve[i]).0
            <= t by {
            if i > 0 {
                assert(rest[i - 1].0 <= t);
            }
        }
    }
}

/// On a curve in ascending order the decided speed is that of the last
/// breakpoint whose threshold is at most `t`, and no breakpoint at or below
/// `t` has a higher threshold; where no threshold is at most `t`, the speed
/// is zero.
pub proof fn lemma_decide_picks_highest(t: int, curve: Seq<(i32, i32)>)
    requires
        sorted(curve),
    ensures
        forall|i: int|
            0 <= i < curve.len() ==> ((#[trigger] curve[i]).0 <= t <==> i < satisfied(curve, t)),
        satisfied(curve, t) == 0 ==> decided_speed(t, curve) == 0,
        satisfied(curve, t) > 0 ==> {
            let last = satisfied(curve, t) - 1;
            &&& 0 <= last < curve.len()
            &&& curve[last].0 <= t
            &&& decided_speed(t, curve) == curve[last].1
            &&& forall|i: int|
                0 <= i < curve.len() && (#[trigger] curve[i]).0 <= t ==> i <= last && curve[i].0
                    <= curve[last].0
        },
{
    lemma_satisfied_prefix(curve, t);
}

/// Decides the fan speed for the smoothed temperature `mean_temp`: walks the
/// curve in order, takes the speed of each breakpoint whose threshold is at
/// most `mean_temp`, and stops at the first threshold above it. Zero where
/// the first threshold is already above.
pub fn decide(mean_temp: i32, curve: &Vec<(i32, i32)>) -> (speed: i32)
    ensures
        speed == decided_speed(mean_temp as int, curve@),
{
    let mut speed: i32 = 0;
    let mut i: usize = 0;
    while i < curve.len()
        invariant
            i <= curve.len(),
            forall|j: int| 0 <= j < i ==> (#[trigger] curve@[j]).0 <= mean_temp,
            speed == if i == 0 {
                0
            } else {
                curve@[i - 1].1
            },
        ensures
            i <= curve.len(),
            forall|j: int| 0 <= j < i ==> (#[trigger] curve@[j]).0 <= mean_temp,
            i == curve.len() || curve@[i as int].0 > mean_temp,
            speed == if i == 0 {
                0
            } else {
                curve@[i - 1].1
            },
        decreases curve.len() - i,
    {
        if curve[i].0 > mean_temp {
            break;
        }
        speed = curve[i].1;
        i += 1;
    }
    proof {
        lemma_satisfied(curve@, mean_temp as int, i as int);
    }
    speed
}

/// Inserting into a curve in ascending order gives a curve in ascending
/// order that holds the point and every breakpoint of the curve, each as
/// often as before.
pub proof fn lemma_inserted(curve: Seq<(i32, i32)>, point: (i32, i32))
    requires
        sorted(curve),
    ensures
        sorted(inserted(curve, point)),
        inserted(curve, point).len() == curve.len() + 1,
        inserted(curve, point).to_multiset() == curve.to_multiset().insert(point),
    decreases curve.len(),
{
    broadcast use vstd::seq_lib::group_to_multiset_ensures;

    let r = inserted(curve, point);
    if curve.len() > 0 && curve.last().0 > point.0 {
        let front = curve.drop_last();
        lemma_inserted(front, point);
        let inner = inserted(front, point);
        assert(curve =~= front.push(curve.last()));
        assert forall|i: int, j: int| 0 <= i <= j < r.len() implies r[i].0 <= r[j].0 by {
            if j == inner.len() && i < j {
                // every breakpoint of `inner` is `point` or lies in `front`
                assert(inner.contains(inner[i]));
                assert(inner.to_multiset().count(inner[i]) > 0);
                if inner[i] != point {
                    assert(front.to_multiset().count(inner[i]) > 0);
                    assert(front.contains(inner[i]));
                    let k = choose|k: int| 0 <= k < front.len() && front[k] == inner[i];
                    assert(curve[k].0 <= curve[curve.len() - 1].0);
                }
            }
        }
    }
}

/// Ordering a curve keeps every breakpoint, as often as it was given, and
/// puts them in ascending order of threshold.
pub proof fn lemma_ascending(curve: Seq<(i32, i32)>)
    ensures
        sorted(ascending(curve)),
        ascending(curve).len() == curve.len(),
        ascending(curve).to_multiset() == curve.to_multiset(),
    decreases curve.len(),
{
    broadcast use vstd::seq_lib::group_to_multiset_ensures;

    if curve.len() > 0 {
        lemma_ascending(curve.drop_last());
        lemma_inserted(ascending(curve.drop_last()), curve.last());
        assert(curve =~= curve.drop_last().push(curve.last()));
    }
}

/// The breakpoints of `curve` whose threshold is `t`, in their order.
pub open spec fn at_threshold(curve: Seq<(i32, i32)>, t: int) -> Seq<(i32, i32)>
    decreases curve.len(),
{
    if curve.len() == 0 {
        curve
    } else if curve.last().0 == t {
        at_threshold(curve.drop_last(), t).push(curve.last())
    } else {
        at_threshold(curve.drop_last(), t)
    }
}

/// Among the breakpoints of one threshold, inserting a point is the same as
/// appending it.
pub proof fn lemma_inserted_keeps_order(curve: Seq<(i32, i32)>, point: (i32, i32), t: int)
    ensures
        at_threshold(inserted(curve, point), t) == at_threshold(curve.push(point), t),
    decreases curve.len(),
{
    if curve.len() > 0 && curve.last().0 > point.0 {
        let front = curve.drop_last();
        let last = curve.last();
        let inner = inserted(front, point);
        lemma_inserted_keeps_order(front, point, t);
        // the two points differ in threshold, so at most one of them is at `t`
        assert(inner.push(last).drop_last() =~= inner);
        assert(front.push(point).drop_last() =~= front);
        assert(curve.push(point).drop_last() =~= curve);
        assert(at_threshold(curve.push(point), t) == if point.0 == t {
            at_threshold(curve, t).push(point)
        } else {
            at_threshold(curve, t)
        });
    }
}

/// Ordering is stable: for every threshold, the breakpoints of that
/// threshold come out in the order in which they were given. Together with
/// the ascending order this fixes the place of every breakpoint.
pub proof fn lemma_ascending_is_stable(curve: Seq<(i32, i32)>, t: int)
    ensures
        at_threshold(ascending(curve), t) == at_threshold(curve, t),
    decreases curve.len(),
{
    if curve.len() > 0 {
        let front = curve.drop_last();
        lemma_ascending_is_stable(front, t);
        lemma_inserted_keeps_order(ascending(front), curve.last(), t);
        assert(ascending(front).push(curve.last()).drop_last() =~= ascending(front));
    }
}

/// Deciding has no hidden state: the speed depends on the temperature and
/// on the breakpoints alone, so the same inputs give the same speed again.
pub proof fn lemma_decide_is_repeatable(
    t: int,
    curve: Seq<(i32, i32)>,
    again_t: int,
    again_curve: Seq<(i32, i32)>,
)
    requires
        again_t == t,
        again_curve.len() == curve.len(),
        forall|i: int| 0 <= i < curve.len() ==> again_curve[i] == curve[i],
    ensures
        decided_speed(again_t, again_curve) == decided_speed(t, curve),
{
    assert(again_curve =~= curve);
}

/// Puts `point` behind every breakpoint of `curve` whose threshold is at
/// most its own.
fn insert_point(curve: &mut Vec<(i32, i32)>, point: (i32, i32))
    ensures
        final(curve)@ == inserted(old(curve)@, point),
{
    let mut k: usize = curve.len();
    proof {
        assert(curve@.take(k as int) =~= curve@);
    }
    while k > 0 && curve[k - 1].0 > point.0
        invariant
            k <= curve.len(),
            curve@ == old(curve)@,
            inserted(curve@, point) == inserted(curve@.take(k as int), point) + curve@.skip(
                k as int,
            ),
        decreases k,
    {
        proof {
            assert(curve@.take(k as int).drop_last() =~= curve@.take(k - 1));
        }
        k -= 1;
    }
    curve.insert(k, point);
}

/// Orders `curve` by threshold, ascending. Breakpoints of one threshold stay
/// in the order in which they were given.
pub fn sort_by_threshold(curve: Vec<(i32, i32)>) -> (ordered: Vec<(i32, i32)>)
    ensures
        ordered@ == ascending(curve@),
        sorted(ordered@),
        ordered@.len() == curve@.len(),
        ordered@.to_multiset() == curve@.to_multiset(),
{
    let mut ordered: Vec<(i32, i32)> = Vec::new();
    let mut i: usize = 0;
    while i < curve.len()
        invariant
            i <= curve.len(),
            ordered@ == ascending(curve@.take(i as int)),
        decreases curve.len() - i,
    {
        proof {
            assert(curve@.take(i + 1).drop_last() =~= curve@.take(i as int));
        }
        insert_point(&mut ordered, curve[i]);
        i += 1;
    }
    proof {
        assert(curve@.take(curve.len() as int) =~= curve@);
        lemma_ascending(curve@);
    }
    ordered
}

} // verus!
