use vstd::prelude::*;
use crate::hashing::{generate_hash_from_number, hash_of};
use crate::rng::{random_below, random_value};

verus! {

/// One record to insert: the index of the series it belongs to (into the
/// workload's tag vector) and an arbitrary numeric payload.
#[derive(Clone, Copy, Debug, PartialEq, Eq, Structural)]
pub struct Point {
    pub series: usize,
    pub value: usize,
}

/// A generated insert workload: one tag per series, and the full stream of
/// points in emission order. The first point of a series carries the seed
/// its tag was derived from.
pub struct Workload {
    pub tags: Vec<String>,
    pub points: Vec<Point>,
}

/// How many points every series receives in total: `points_per_series`,
/// except that a series always holds at least its creation point.
pub open spec fn quota(points_per_series: usize) -> int {
    if points_per_series == 0 {
        1
    } else {
        points_per_series as int
    }
}

/// Number of points of `s` that belong to series `t`.
pub open spec fn count_series(s: Seq<Point>, t: int) -> int
    decreases s.len(),
{
    if s.len() == 0 {
        0
    } else {
        count_series(s.drop_last(), t) + if s.last().series == t {
            1int
        } else {
            0int
        }
    }
}

pub proof fn lemma_count_series_push(s: Seq<Point>, p: Point, t: int)
    ensures
        count_series(s.push(p), t) == count_series(s, t) + if p.series == t {
            1int
        } else {
            0int
        },
{
    assert(s.push(p).drop_last() =~= s);
}


spec fn sum_usize(s: Seq<usize>) -> int
    decreases s.len(),
{
    if s.len() == 0 {
        0
    } else {
        sum_usize(s.drop_last()) + s.last()
    }
}

proof fn lemma_sum_usize_push(s: Seq<usize>, v: usize)
    ensures
        sum_usize(s.push(v)) == sum_usize(s) + v,
{
    assert(s.push(v).drop_last() =~= s);
}

proof fn lemma_sum_usize_update(s: Seq<usize>, i: int, v: usize)
    requires
        0 <= i < s.len(),
    ensures
        sum_usize(s.update(i, v)) == sum_usize(s) - s[i] + v,
    decreases s.len(),
{
    if i == s.len() - 1 {
        assert(s.update(i, v).drop_last() =~= s.drop_last());
        assert(s.update(i, v).last() == v);
    } else {
        lemma_sum_usize_update(s.drop_last(), i, v);
        assert(s.update(i, v).drop_last() =~= s.drop_last().update(i, v));
        assert(s.update(i, v).last() == s.last());
    }
}

proof fn lemma_sum_usize_elem_le(s: Seq<usize>, i: int)
    requires
        0 <= i < s.len(),
    ensures
        s[i] <= sum_usize(s),
    decreases s.len(),
{
    if i == s.len() - 1 {
        lemma_sum_usize_nonneg(s.drop_last());
    } else {
        lemma_sum_usize_elem_le(s.drop_last(), i);
    }
}

proof fn lemma_sum_usize_nonneg(s: Seq<usize>)
    ensures
        sum_usize(s) >= 0,
    decreases s.len(),
{
    if s.len() > 0 {
        lemma_sum_usize_nonneg(s.drop_last());
    }
}

proof fn lemma_sum_usize_pos(s: Seq<usize>)
    requires
        sum_usize(s) > 0,
    ensures
        exists|i: int| 0 <= i < s.len() && s[i] > 0,
    decreases s.len(),
{
    if s.len() > 0 {
        if s.last() > 0 {
            assert(s[s.len() - 1] > 0);
        } else {
            lemma_sum_usize_pos(s.drop_last());
            let i = choose|i: int| 0 <= i < s.drop_last().len() && s.drop_last()[i] > 0;
            assert(s[i] > 0);
        }
    }
}

/// Whether tag index `t` is still offered by the active pool `a`.
spec fn in_active(a: Seq<usize>, t: int) -> bool {
    exists|j: int| 0 <= j < a.len() && a[j] == t
}

/// Turns a series count and a per-series point count into a concrete insert
/// workload. Each of the `series` tags is created with one point carrying
/// its seed; the remaining points are then distributed one at a time over
/// the tags that still owe points, chosen at random from the active pool
/// only, so that every tag ends up with exactly its quota.
pub fn generate(series: usize, points_per_series: usize) -> (w: Workload)
    requires
        series * quota(points_per_series) <= usize::MAX,
    ensures
        w.tags@.len() == series,
        w.points@.len() == series * quota(points_per_series),
        forall|i: int| 0 <= i < series ==> (#[trigger] w.points@[i]).series == i,
        forall|k: int| 0 <= k < w.points@.len() ==> (#[trigger] w.points@[k]).series < series,
        forall|t: int|
            0 <= t < series ==> #[trigger] count_series(w.points@, t) == quota(points_per_series),
        forall|i: int|
            0 <= i < series ==> (#[trigger] w.tags@[i])@ == hash_of(w.points@[i].value as int),
{
    let mut tags: Vec<String> = Vec::new();
    let mut points: Vec<Point> = Vec::new();
    if series == 0 {
        return Workload { tags, points };
    }
    let mut i: usize = 0;
    while i < series
        invariant
            i <= series,
            tags@.len() == i,
            points@.len() == i,
            forall|j: int| 0 <= j < i ==> (#[trigger] points@[j]).series == j,
            forall|t: int| 0 <= t < i ==> #[trigger] count_series(points@, t) == 1,
            forall|t: int| i <= t ==> #[trigger] count_series(points@, t) == 0,
            forall|j: int| 0 <= j < i ==> (#[trigger] tags@[j])@ == hash_of(points@[j].value as int),
        decreases series - i,
    {
        let seed = random_value();
        let tag = generate_hash_from_number(&seed);
        let p = Point { series: i, value: seed };
        let ghost old_points = points@;
        tags.push(tag);
        points.push(p);
        proof {
            assert forall|t: int|
                #[trigger] count_series(points@, t) == count_series(old_points, t) + if p.series
                    == t {
                    1int
                } else {
                    0int
                } by {
                lemma_count_series_push(old_points, p, t);
            }
        }
        i = i + 1;
    }
    if points_per_series <= 1 {
        proof {
            assert(series * quota(points_per_series) == series * 1int);
            assert(series * 1int == series) by (nonlinear_arith);
        }
        return Workload { tags, points };
    }
    proof {
        assert(series * (points_per_series - 1) + series == series * points_per_series)
            by (nonlinear_arith);
    }
    let points_count: usize = series * (points_per_series - 1);
    let mut active: Vec<usize> = Vec::new();
    let mut remaining: Vec<usize> = Vec::new();
    let mut t: usize = 0;
    while t < series
        invariant
            points_per_series >= 2,
            t <= series,
            active@.len() == t,
            remaining@.len() == t,
            forall|j: int| 0 <= j < t ==> (#[trigger] active@[j]) == j,
            forall|j: int| 0 <= j < t ==> (#[trigger] remaining@[j]) == points_per_series - 1,
            sum_usize(remaining@) == t * (points_per_series - 1),
        decreases series - t,
    {
        proof {
            lemma_sum_usize_push(remaining@, (points_per_series - 1) as usize);
            assert((t + 1) * (points_per_series - 1) == t * (points_per_series - 1) + (
            points_per_series - 1)) by (nonlinear_arith);
        }
        active.push(t);
        remaining.push(points_per_series - 1);
        t = t + 1;
    }
    proof {
        assert forall|t2: int|
            0 <= t2 < series implies ((#[trigger] remaining@[t2]) > 0 <==> in_active(
            active@,
            t2,
        )) by {
            assert(active@[t2] == t2);
        }
    }
    let mut k: usize = 0;
    while k < points_count
        invariant
            points_per_series >= 2,
            1 <= series,
            k <= points_count,
            points_count == series * (points_per_series - 1),
            tags@.len() == series,
            remaining@.len() == series,
            points@.len() == series + k,
            forall|j: int| 0 <= j < series ==> (#[trigger] points@[j]).series == j,
            forall|j: int| 0 <= j < series ==> (#[trigger] tags@[j])@ == hash_of(points@[j].value as int),
            forall|j: int| 0 <= j < points@.len() ==> (#[trigger] points@[j]).series < series,
            forall|t2: int|
                0 <= t2 < series ==> #[trigger] count_series(points@, t2) == points_per_series
                    - remaining@[t2],
            forall|t2: int| 0 <= t2 < series ==> (#[trigger] remaining@[t2]) <= points_per_series - 1,
            forall|j: int| 0 <= j < active@.len() ==> (#[trigger] active@[j]) < series,
            forall|j1: int, j2: int|
                0 <= j1 < j2 < active@.len() ==> active@[j1] != active@[j2],
            forall|t2: int|
                0 <= t2 < series ==> ((#[trigger] remaining@[t2]) > 0 <==> in_active(active@, t2)),
            sum_usize(remaining@) == points_count - k,
        decreases points_count - k,
    {
        proof {
            lemma_sum_usize_pos(remaining@);
            let w = choose|i2: int| 0 <= i2 < remaining@.len() && remaining@[i2] > 0;
            assert(in_active(active@, w));
        }
        let r = random_below(active.len());
        let chosen = active[r];
        let value = random_value();
        let p = Point { series: chosen, value };
        let ghost old_points = points@;
        let ghost old_remaining = remaining@;
        let ghost old_active = active@;
        points.push(p);
        proof {
            assert forall|t2: int|
                #[trigger] count_series(points@, t2) == count_series(old_points, t2) + if p.series
                    == t2 {
                    1int
                } else {
                    0int
                } by {
                lemma_count_series_push(old_points, p, t2);
            }
            assert(in_active(old_active, chosen as int));
        }
        let rem = remaining[chosen];
        assert(rem > 0);
        remaining[chosen] = rem - 1;
        proof {
            lemma_sum_usize_update(old_remaining, chosen as int, (rem - 1) as usize);
        }
        if rem - 1 == 0 {
            active.swap_remove(r);
            proof {
                assert forall|t2: int|
                    0 <= t2 < series implies ((#[trigger] remaining@[t2]) > 0 <==> in_active(
                    active@,
                    t2,
                )) by {
                    if t2 == chosen {
                        // chosen is saturated now and must be gone from the pool
                        if in_active(active@, t2) {
                            let j = choose|j: int|
                                0 <= j < active@.len() && active@[j] == t2;
                            if j == r {
                                assert(old_active[old_active.len() - 1] == t2);
                                assert(old_active[r as int] == t2);
                            } else {
                                assert(old_active[j] == t2);
                                assert(old_active[r as int] == t2);
                            }
                            assert(false);
                        }
                    } else {
                        if remaining@[t2] > 0 {
                            assert(old_remaining[t2] > 0);
                            assert(in_active(old_active, t2));
                            let j = choose|j: int|
                                0 <= j < old_active.len() && old_active[j] == t2;
                            if j < old_active.len() - 1 {
                                if j == r {
                                    assert(false);  // old_active[r] == chosen != t2
                                } else {
                                    assert(active@[j] == t2);
                                }
                            } else {
                                if r < old_active.len() - 1 {
                                    assert(active@[r as int] == t2);
                                } else {
                                    assert(false);  // j == r means chosen == t2
                                }
                            }
                        }
                        if in_active(active@, t2) {
                            let j = choose|j: int|
                                0 <= j < active@.len() && active@[j] == t2;
                            if j == r && r < old_active.len() - 1 {
                                assert(old_active[old_active.len() - 1] == t2);
                            } else {
                                assert(old_active[j] == t2);
                            }
                            assert(old_remaining[t2] > 0);
                        }
                    }
                }
            }
        } else {
            proof {
                assert forall|t2: int|
                    0 <= t2 < series implies ((#[trigger] remaining@[t2]) > 0 <==> in_active(
                    active@,
                    t2,
                )) by {
                    if t2 != chosen {
                        assert(remaining@[t2] == old_remaining[t2]);
                    }
                }
            }
        }
        k = k + 1;
    }
    proof {
        assert forall|t2: int| 0 <= t2 < series implies #[trigger] count_series(points@, t2)
            == quota(points_per_series) by {
            lemma_sum_usize_elem_le(remaining@, t2);
            lemma_sum_usize_nonneg(remaining@);
        }
        assert(series * (points_per_series - 1) + series == series * points_per_series)
            by (nonlinear_arith);
    }
    Workload { tags, points }
}

/// Law: once a tag has reached its total number of appearances within a
/// prefix of the emitted points, it does not appear among the points that
/// follow the prefix.
pub proof fn lemma_saturated_tag_never_reappears(s: Seq<Point>, t: int, k: int, j: int)
    requires
        0 <= k <= j < s.len(),
        count_series(s.take(k), t) == count_series(s, t),
    ensures
        s[j].series != t,
{
    if s[j].series == t {
        lemma_count_series_take_succ(s, t, j);
        lemma_count_series_take_monotonic(s, t, k, j);
        lemma_count_series_take_monotonic(s, t, j + 1, s.len() as int);
        assert(s.take(s.len() as int) =~= s);
    }
}

/// Counting over one more element of the prefix adds the new element's
/// contribution.
pub proof fn lemma_count_series_take_succ(s: Seq<Point>, t: int, i: int)
    requires
        0 <= i < s.len(),
    ensures
        count_series(s.take(i + 1), t) == count_series(s.take(i), t) + if s[i].series == t {
            1int
        } else {
            0int
        },
{
    assert(s.take(i + 1).drop_last() =~= s.take(i));
    assert(s.take(i + 1).last() == s[i]);
}

/// A longer prefix never counts fewer points of a series.
pub proof fn lemma_count_series_take_monotonic(s: Seq<Point>, t: int, k1: int, k2: int)
    requires
        0 <= k1 <= k2 <= s.len(),
    ensures
        count_series(s.take(k1), t) <= count_series(s.take(k2), t),
    decreases k2 - k1,
{
    if k1 < k2 {
        lemma_count_series_take_succ(s, t, k2 - 1);
        lemma_count_series_take_monotonic(s, t, k1, k2 - 1);
    }
}

} // verus!
