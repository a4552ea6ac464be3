//! Choosing what an agent goes for.
//!
//! An agent goes for the nearest candidate that is not of its own side and
//! that it can see. Of several candidates at the same distance it takes the
//! one that comes first in the list it was given.

use vstd::prelude::*;
use crate::geometry::{dist2, Point};
use crate::team::ChickenOrDog;

verus! {

/// Something an agent may go for: a place, and the side that holds it. A
/// candidate without a side, such as a capture point that nobody owns, is
/// open to both sides.
#[derive(Clone, Copy, Debug, PartialEq, Eq, Structural)]
pub struct TargetCandidate {
    pub position: Point,
    pub team: Option<ChickenOrDog>,
}

/// Whether entry `i` of `points` is let through by `mask`. An entry that
/// `mask` does not reach is not let through.
pub open spec fn admitted(points: Seq<Point>, mask: Seq<bool>, i: int) -> bool {
    0 <= i < points.len() && i < mask.len() && mask[i]
}

/// Entry `k` is the first of the admitted points that are nearest to
/// `origin`.
pub open spec fn is_first_nearest(origin: Point, points: Seq<Point>, mask: Seq<bool>, k: int) -> bool {
    &&& admitted(points, mask, k)
    &&& forall|j: int| #[trigger]
        admitted(points, mask, j) ==> dist2(origin, points[k]) <= dist2(origin, points[j])
    &&& forall|j: int| #[trigger]
        admitted(points, mask, j) && j < k ==> dist2(origin, points[k]) < dist2(origin, points[j])
}

/// Entry `k` is the last of the admitted points that are farthest from
/// `origin`.
pub open spec fn is_last_farthest(origin: Point, points: Seq<Point>, mask: Seq<bool>, k: int) -> bool {
    &&& admitted(points, mask, k)
    &&& forall|j: int| #[trigger]
        admitted(points, mask, j) ==> dist2(origin, points[j]) <= dist2(origin, points[k])
    &&& forall|j: int| #[trigger]
        admitted(points, mask, j) && k < j ==> dist2(origin, points[j]) < dist2(origin, points[k])
}

/// A side may go for a candidate that has no side or the other side.
pub open spec fn opposes(own_team: ChickenOrDog, candidate: TargetCandidate) -> bool {
    candidate.team != Some(own_team)
}

/// The places of the candidates, in their order.
pub open spec fn positions(candidates: Seq<TargetCandidate>) -> Seq<Point> {
    Seq::new(candidates.len(), |i: int| candidates[i].position)
}

/// For each candidate, whether `own_team` may go for it and sees it
/// according to `seen`.
pub open spec fn eligible(own_team: ChickenOrDog, candidates: Seq<TargetCandidate>, seen: Seq<bool>) -> Seq<
    bool,
> {
    Seq::new(
        candidates.len(),
        |i: int| opposes(own_team, candidates[i]) && i < seen.len() && seen[i],
    )
}

/// `r` is what an agent of `own_team` at `origin` goes for among
/// `candidates`, of which it sees those marked in `seen`: the place of the
/// first nearest eligible candidate, or nothing where none is eligible.
pub open spec fn is_target(
    origin: Point,
    own_team: ChickenOrDog,
    candidates: Seq<TargetCandidate>,
    seen: Seq<bool>,
    r: Option<Point>,
) -> bool {
    match r {
        Some(p) => exists|k: int|
            #[trigger] is_first_nearest(
                origin,
                positions(candidates),
                eligible(own_team, candidates, seen),
                k,
            ) && p == candidates[k].position,
        None => forall|j: int|
            !#[trigger] admitted(positions(candidates), eligible(own_team, candidates, seen), j),
    }
}

/// What an agent of `own_team` at `origin` goes for among `candidates`, of
/// which it sees those marked in `seen`.
pub open spec fn target(
    origin: Point,
    own_team: ChickenOrDog,
    candidates: Seq<TargetCandidate>,
    seen: Seq<bool>,
) -> Option<Point> {
    choose|r: Option<Point>| is_target(origin, own_team, candidates, seen, r)
}

/// Where an agent heads: for its target, or for `fallback` where it has
/// none.
pub open spec fn heading(
    origin: Point,
    own_team: ChickenOrDog,
    candidates: Seq<TargetCandidate>,
    seen: Seq<bool>,
    fallback: Point,
) -> Point {
    match target(origin, own_team, candidates, seen) {
        Some(p) => p,
        None => fallback,
    }
}

/// The line-of-sight test `visible` may be asked from `origin` about each of
/// `candidates` that `own_team` may go for.
pub open spec fn may_ask<F: Fn(Point, Point) -> bool>(
    visible: F,
    origin: Point,
    own_team: ChickenOrDog,
    candidates: Seq<TargetCandidate>,
) -> bool {
    forall|i: int|
        0 <= i < candidates.len() && opposes(own_team, candidates[i]) ==> call_requires(
            visible,
            (origin, #[trigger] candidates[i].position),
        )
}

/// `seen` holds what the line-of-sight test `visible` answered from `origin`
/// for each candidate that `own_team` may go for, and `false` for each of the
/// others, for which the test is not made.
pub open spec fn sightings<F: Fn(Point, Point) -> bool>(
    visible: F,
    origin: Point,
    own_team: ChickenOrDog,
    candidates: Seq<TargetCandidate>,
    seen: Seq<bool>,
) -> bool {
    &&& seen.len() == candidates.len()
    &&& forall|i: int|
        0 <= i < candidates.len() ==> if opposes(own_team, candidates[i]) {
            call_ensures(visible, (origin, candidates[i].position), #[trigger] seen[i])
        } else {
            !seen[i]
        }
}

/// The first nearest admitted point is unique.
pub proof fn lemma_first_nearest_unique(
    origin: Point,
    points: Seq<Point>,
    mask: Seq<bool>,
    k1: int,
    k2: int,
)
    requires
        is_first_nearest(origin, points, mask, k1),
        is_first_nearest(origin, points, mask, k2),
    ensures
        k1 == k2,
{
}

/// The last farthest admitted point is unique.
pub proof fn lemma_last_farthest_unique(
    origin: Point,
    points: Seq<Point>,
    mask: Seq<bool>,
    k1: int,
    k2: int,
)
    requires
        is_last_farthest(origin, points, mask, k1),
        is_last_farthest(origin, points, mask, k2),
    ensures
        k1 == k2,
{
}

/// Among any points there is a first nearest admitted one, unless none is
/// admitted.
pub proof fn lemma_first_nearest_exists(origin: Point, points: Seq<Point>, mask: Seq<bool>)
    ensures
        (exists|k: int| #[trigger] is_first_nearest(origin, points, mask, k)) || (forall|j: int|
            !#[trigger] admitted(points, mask, j)),
    decreases points.len(),
{
    if points.len() > 0 {
        let rest = points.drop_last();
        let last = points.len() - 1;
        lemma_first_nearest_exists(origin, rest, mask);
        assert forall|j: int| admitted(rest, mask, j) <==> (#[trigger] admitted(points, mask, j)
            && j < last) by {}
        assert forall|j: int| 0 <= j < last implies rest[j] == points[j] by {}
        if exists|k: int| #[trigger] is_first_nearest(origin, rest, mask, k) {
            let k = choose|k: int| #[trigger] is_first_nearest(origin, rest, mask, k);
            assert(admitted(rest, mask, k));
            if admitted(points, mask, last) && dist2(origin, points[last]) < dist2(
                origin,
                points[k],
            ) {
                assert forall|j: int| #[trigger] admitted(points, mask, j) implies dist2(
                    origin,
                    points[last],
                ) <= dist2(origin, points[j]) by {
                    if j < last {
                        assert(admitted(rest, mask, j));
                    }
                }
                assert forall|j: int| #[trigger] admitted(points, mask, j) && j < last implies dist2(
                    origin,
                    points[last],
                ) < dist2(origin, points[j]) by {
                    assert(admitted(rest, mask, j));
                }
                assert(is_first_nearest(origin, points, mask, last));
            } else {
                assert forall|j: int| #[trigger] admitted(points, mask, j) implies dist2(
                    origin,
                    points[k],
                ) <= dist2(origin, points[j]) by {
                    if j < last {
                        assert(admitted(rest, mask, j));
                    }
                }
                assert forall|j: int| #[trigger] admitted(points, mask, j) && j < k implies dist2(
                    origin,
                    points[k],
                ) < dist2(origin, points[j]) by {
                    assert(admitted(rest, mask, j));
                }
                assert(admitted(points, mask, k));
                assert(is_first_nearest(origin, points, mask, k));
            }
        } else {
            if admitted(points, mask, last) {
                assert forall|j: int| #[trigger] admitted(points, mask, j) implies j == last by {
                    if j < last {
                        assert(admitted(rest, mask, j));
                    }
                }
                assert(is_first_nearest(origin, points, mask, last));
            } else {
                assert forall|j: int| !#[trigger] admitted(points, mask, j) by {
                    if admitted(points, mask, j) {
                        assert(admitted(rest, mask, j));
                    }
                }
            }
        }
    }
}

/// Among any points there is a last farthest admitted one, unless none is
/// admitted.
pub proof fn lemma_last_farthest_exists(origin: Point, points: Seq<Point>, mask: Seq<bool>)
    ensures
        (exists|k: int| #[trigger] is_last_farthest(origin, points, mask, k)) || (forall|j: int|
            !#[trigger] admitted(points, mask, j)),
    decreases points.len(),
{
    if points.len() > 0 {
        let rest = points.drop_last();
        let last = points.len() - 1;
        lemma_last_farthest_exists(origin, rest, mask);
        assert forall|j: int| admitted(rest, mask, j) <==> (#[trigger] admitted(points, mask, j)
            && j < last) by {}
        assert forall|j: int| 0 <= j < last implies rest[j] == points[j] by {}
        if admitted(points, mask, last) {
            if exists|k: int| #[trigger] is_last_farthest(origin, rest, mask, k) {
                let k = choose|k: int| #[trigger] is_last_farthest(origin, rest, mask, k);
                assert(admitted(rest, mask, k));
                if dist2(origin, points[last]) >= dist2(origin, points[k]) {
                    assert forall|j: int| #[trigger] admitted(points, mask, j) implies dist2(
                        origin,
                        points[j],
                    ) <= dist2(origin, points[last]) by {
                        if j < last {
                            assert(admitted(rest, mask, j));
                        }
                    }
                    assert(is_last_farthest(origin, points, mask, last));
                } else {
                    assert forall|j: int| #[trigger] admitted(points, mask, j) implies dist2(
                        origin,
                        points[j],
                    ) <= dist2(origin, points[k]) by {
                        if j < last {
                            assert(admitted(rest, mask, j));
                        }
                    }
                    assert forall|j: int| #[trigger] admitted(points, mask, j) && k < j implies dist2(
                        origin,
                        points[j],
                    ) < dist2(origin, points[k]) by {
                        if j < last {
                            assert(admitted(rest, mask, j));
                        }
                    }
                    assert(admitted(points, mask, k));
                    assert(is_last_farthest(origin, points, mask, k));
                }
            } else {
                assert forall|j: int| #[trigger] admitted(points, mask, j) implies j == last by {
                    if j < last {
                        assert(admitted(rest, mask, j));
                    }
                }
                assert(is_last_farthest(origin, points, mask, last));
            }
        } else {
            if exists|k: int| #[trigger] is_last_farthest(origin, rest, mask, k) {
                let k = choose|k: int| #[trigger] is_last_farthest(origin, rest, mask, k);
                assert(admitted(rest, mask, k));
                assert forall|j: int| #[trigger] admitted(points, mask, j) implies dist2(
                    origin,
                    points[j],
                ) <= dist2(origin, points[k]) by {
                    assert(admitted(rest, mask, j));
                }
                assert forall|j: int| #[trigger] admitted(points, mask, j) && k < j implies dist2(
                    origin,
                    points[j],
                ) < dist2(origin, points[k]) by {
                    assert(admitted(rest, mask, j));
                }
                assert(admitted(points, mask, k));
                assert(is_last_farthest(origin, points, mask, k));
            } else {
                assert forall|j: int| !#[trigger] admitted(points, mask, j) by {
                    if admitted(points, mask, j) {
                        assert(admitted(rest, mask, j));
                    }
                }
            }
        }
    }
}

/// Whatever an agent is given and whatever it sees, there is something that
/// meets the description of its target, and `target` is it.
pub proof fn lemma_target_exists(
    origin: Point,
    own_team: ChickenOrDog,
    candidates: Seq<TargetCandidate>,
    seen: Seq<bool>,
)
    ensures
        is_target(origin, own_team, candidates, seen, target(origin, own_team, candidates, seen)),
{
    let points = positions(candidates);
    let mask = eligible(own_team, candidates, seen);
    lemma_first_nearest_exists(origin, points, mask);
    if exists|k: int| #[trigger] is_first_nearest(origin, points, mask, k) {
        let k = choose|k: int| #[trigger] is_first_nearest(origin, points, mask, k);
        assert(admitted(points, mask, k));
        assert(is_target(origin, own_team, candidates, seen, Some(candidates[k].position)));
    } else {
        assert(is_target(origin, own_team, candidates, seen, None));
    }
}

/// What an agent goes for is determined by what it was given and what it
/// saw.
pub proof fn lemma_target_unique(
    origin: Point,
    own_team: ChickenOrDog,
    candidates: Seq<TargetCandidate>,
    seen: Seq<bool>,
    r1: Option<Point>,
    r2: Option<Point>,
)
    requires
        is_target(origin, own_team, candidates, seen, r1),
        is_target(origin, own_team, candidates, seen, r2),
    ensures
        r1 == r2,
{
    let points = positions(candidates);
    let mask = eligible(own_team, candidates, seen);
    if r1 is Some && r2 is Some {
        let k1 = choose|k: int| #[trigger]
            is_first_nearest(origin, points, mask, k) && r1->0 == candidates[k].position;
        let k2 = choose|k: int| #[trigger]
            is_first_nearest(origin, points, mask, k) && r2->0 == candidates[k].position;
        lemma_first_nearest_unique(origin, points, mask, k1, k2);
    } else if r1 is Some {
        let k1 = choose|k: int| #[trigger]
            is_first_nearest(origin, points, mask, k) && r1->0 == candidates[k].position;
        assert(admitted(points, mask, k1));
    } else if r2 is Some {
        let k2 = choose|k: int| #[trigger]
            is_first_nearest(origin, points, mask, k) && r2->0 == candidates[k].position;
        assert(admitted(points, mask, k2));
    }
}

/// Whatever meets the description of the target is the target.
pub proof fn lemma_target_is(
    origin: Point,
    own_team: ChickenOrDog,
    candidates: Seq<TargetCandidate>,
    seen: Seq<bool>,
    r: Option<Point>,
)
    requires
        is_target(origin, own_team, candidates, seen, r),
    ensures
        target(origin, own_team, candidates, seen) == r,
{
    lemma_target_unique(
        origin,
        own_team,
        candidates,
        seen,
        r,
        target(origin, own_team, candidates, seen),
    );
}

/// An agent never goes for a candidate of its own side: whatever it goes for
/// is the place of a candidate that has no side or the other side, and that
/// it saw.
pub proof fn lemma_target_is_rival(
    origin: Point,
    own_team: ChickenOrDog,
    candidates: Seq<TargetCandidate>,
    seen: Seq<bool>,
    p: Point,
)
    requires
        is_target(origin, own_team, candidates, seen, Some(p)),
    ensures
        exists|k: int|
            0 <= k < candidates.len() && #[trigger] candidates[k].position == p
                && candidates[k].team != Some(own_team) && k < seen.len() && seen[k],
{
    let points = positions(candidates);
    let mask = eligible(own_team, candidates, seen);
    let k = choose|k: int| #[trigger]
        is_first_nearest(origin, points, mask, k) && p == candidates[k].position;
    assert(admitted(points, mask, k));
    assert(candidates[k].position == p);
}

/// What an agent goes for is at least as near as every candidate that it may
/// go for and sees.
pub proof fn lemma_target_is_nearest(
    origin: Point,
    own_team: ChickenOrDog,
    candidates: Seq<TargetCandidate>,
    seen: Seq<bool>,
    p: Point,
    j: int,
)
    requires
        is_target(origin, own_team, candidates, seen, Some(p)),
        0 <= j < candidates.len(),
        candidates[j].team != Some(own_team),
        j < seen.len() && seen[j],
    ensures
        dist2(origin, p) <= dist2(origin, candidates[j].position),
{
    let points = positions(candidates);
    let mask = eligible(own_team, candidates, seen);
    let k = choose|k: int| #[trigger]
        is_first_nearest(origin, points, mask, k) && p == candidates[k].position;
    assert(admitted(points, mask, k));
    assert(admitted(points, mask, j));
}

/// The index of the first of the admitted `points` that are nearest to
/// `origin`, or `None` where none is admitted.
pub fn first_nearest(origin: Point, points: &Vec<Point>, mask: &Vec<bool>) -> (r: Option<usize>)
    ensures
        match r {
            Some(k) => is_first_nearest(origin, points@, mask@, k as int),
            None => forall|j: int| !#[trigger] admitted(points@, mask@, j),
        },
{
    let mut best: Option<usize> = None;
    let mut best_d: u128 = 0;
    let mut i: usize = 0;
    while i < points.len()
        invariant
            i <= points.len(),
            match best {
                Some(k) => {
                    &&& k < i
                    &&& admitted(points@, mask@, k as int)
                    &&& best_d == dist2(origin, points[k as int])
                    &&& forall|j: int| #[trigger]
                        admitted(points@, mask@, j) && j < i ==> best_d <= dist2(origin, points[j])
                    &&& forall|j: int| #[trigger]
                        admitted(points@, mask@, j) && j < k ==> best_d < dist2(origin, points[j])
                },
                None => forall|j: int| #[trigger] admitted(points@, mask@, j) ==> j >= i,
            },
        decreases points.len() - i,
    {
        if i < mask.len() && mask[i] {
            let d = origin.distance_squared(points[i]);
            match best {
                Some(k) => {
                    if d < best_d {
                        best = Some(i);
                        best_d = d;
                    }
                },
                None => {
                    best = Some(i);
                    best_d = d;
                },
            }
        }
        i = i + 1;
    }
    best
}

/// The index of the last of the admitted `points` that are farthest from
/// `origin`, or `None` where none is admitted.
pub fn last_farthest(origin: Point, points: &Vec<Point>, mask: &Vec<bool>) -> (r: Option<usize>)
    ensures
        match r {
            Some(k) => is_last_farthest(origin, points@, mask@, k as int),
            None => forall|j: int| !#[trigger] admitted(points@, mask@, j),
        },
{
    let mut best: Option<usize> = None;
    let mut best_d: u128 = 0;
    let mut i: usize = 0;
    while i < points.len()
        invariant
            i <= points.len(),
            match best {
                Some(k) => {
                    &&& k < i
                    &&& admitted(points@, mask@, k as int)
                    &&& best_d == dist2(origin, points[k as int])
                    &&& forall|j: int| #[trigger]
                        admitted(points@, mask@, j) && j < i ==> dist2(origin, points[j]) <= best_d
                    &&& forall|j: int| #[trigger]
                        admitted(points@, mask@, j) && k < j < i ==> dist2(origin, points[j])
                            < best_d
                },
                None => forall|j: int| #[trigger] admitted(points@, mask@, j) ==> j >= i,
            },
        decreases points.len() - i,
    {
        if i < mask.len() && mask[i] {
            let d = origin.distance_squared(points[i]);
            match best {
                Some(k) => {
                    if d >= best_d {
                        best = Some(i);
                        best_d = d;
                    }
                },
                None => {
                    best = Some(i);
                    best_d = d;
                },
            }
        }
        i = i + 1;
    }
    best
}

/// A mask that lets each of `n` entries through.
pub open spec fn everything(n: nat) -> Seq<bool> {
    Seq::new(n, |i: int| true)
}

/// `r` is the first of the points nearest to `origin`, or nothing where
/// there is no point.
pub open spec fn is_closest(origin: Point, points: Seq<Point>, r: Option<Point>) -> bool {
    match r {
        Some(p) => exists|k: int|
            #[trigger] is_first_nearest(origin, points, everything(points.len()), k) && p
                == points[k],
        None => points.len() == 0,
    }
}

/// `r` is the last of the points farthest from `origin`, or nothing where
/// there is no point.
pub open spec fn is_farthest(origin: Point, points: Seq<Point>, r: Option<Point>) -> bool {
    match r {
        Some(p) => exists|k: int|
            #[trigger] is_last_farthest(origin, points, everything(points.len()), k) && p
                == points[k],
        None => points.len() == 0,
    }
}

/// The first of the points nearest to `origin`.
pub open spec fn closest(origin: Point, points: Seq<Point>) -> Option<Point> {
    choose|r: Option<Point>| is_closest(origin, points, r)
}

/// The last of the points farthest from `origin`.
pub open spec fn farthest(origin: Point, points: Seq<Point>) -> Option<Point> {
    choose|r: Option<Point>| is_farthest(origin, points, r)
}

/// Among any points there is one that meets the description of the closest,
/// and `closest` is it.
pub proof fn lemma_closest_exists(origin: Point, points: Seq<Point>)
    ensures
        is_closest(origin, points, closest(origin, points)),
{
    let mask = everything(points.len());
    lemma_first_nearest_exists(origin, points, mask);
    if exists|k: int| #[trigger] is_first_nearest(origin, points, mask, k) {
        let k = choose|k: int| #[trigger] is_first_nearest(origin, points, mask, k);
        assert(is_closest(origin, points, Some(points[k])));
    } else {
        if points.len() > 0 {
            assert(admitted(points, mask, 0));
        }
        assert(is_closest(origin, points, None));
    }
}

/// Among any points there is one that meets the description of the
/// farthest, and `farthest` is it.
pub proof fn lemma_farthest_exists(origin: Point, points: Seq<Point>)
    ensures
        is_farthest(origin, points, farthest(origin, points)),
{
    let mask = everything(points.len());
    lemma_last_farthest_exists(origin, points, mask);
    if exists|k: int| #[trigger] is_last_farthest(origin, points, mask, k) {
        let k = choose|k: int| #[trigger] is_last_farthest(origin, points, mask, k);
        assert(is_farthest(origin, points, Some(points[k])));
    } else {
        if points.len() > 0 {
            assert(admitted(points, mask, 0));
        }
        assert(is_farthest(origin, points, None));
    }
}

/// Whatever meets the description of the closest point is the closest point.
pub proof fn lemma_closest_is(origin: Point, points: Seq<Point>, r: Option<Point>)
    requires
        is_closest(origin, points, r),
    ensures
        closest(origin, points) == r,
{
    let c = closest(origin, points);
    let mask = everything(points.len());
    if r is Some {
        let k1 = choose|k: int| #[trigger]
            is_first_nearest(origin, points, mask, k) && r->0 == points[k];
        assert(admitted(points, mask, k1));
        if c is Some {
            let k2 = choose|k: int| #[trigger]
                is_first_nearest(origin, points, mask, k) && c->0 == points[k];
            lemma_first_nearest_unique(origin, points, mask, k1, k2);
        }
    }
}

/// Whatever meets the description of the farthest point is the farthest
/// point.
pub proof fn lemma_farthest_is(origin: Point, points: Seq<Point>, r: Option<Point>)
    requires
        is_farthest(origin, points, r),
    ensures
        farthest(origin, points) == r,
{
    let c = farthest(origin, points);
    let mask = everything(points.len());
    if r is Some {
        let k1 = choose|k: int| #[trigger]
            is_last_farthest(origin, points, mask, k) && r->0 == points[k];
        assert(admitted(points, mask, k1));
        if c is Some {
            let k2 = choose|k: int| #[trigger]
                is_last_farthest(origin, points, mask, k) && c->0 == points[k];
            lemma_last_farthest_unique(origin, points, mask, k1, k2);
        }
    }
}

/// A mask that lets each of `n` entries through.
fn unmasked(n: usize) -> (mask: Vec<bool>)
    ensures
        mask@ == everything(n as nat),
{
    let mut mask: Vec<bool> = Vec::new();
    let mut i: usize = 0;
    while i < n
        invariant
            i <= n,
            mask.len() == i,
            forall|j: int| 0 <= j < i ==> mask[j],
        decreases n - i,
    {
        mask.push(true);
        i = i + 1;
    }
    assert(mask@ =~= everything(n as nat));
    mask
}

/// The candidate nearest to `position`, or `None` where there is no
/// candidate. Of several at the same distance it is the first.
pub fn find_closest(position: Point, candidates: &Vec<Point>) -> (r: Option<Point>)
    ensures
        is_closest(position, candidates@, r),
        r == closest(position, candidates@),
{
    let mask = unmasked(candidates.len());
    let r = match first_nearest(position, candidates, &mask) {
        Some(k) => Some(candidates[k]),
        None => {
            assert(candidates.len() > 0 ==> admitted(candidates@, mask@, 0));
            None
        },
    };
    proof {
        lemma_closest_is(position, candidates@, r);
    }
    r
}

/// The candidate farthest from `position`, or `None` where there is no
/// candidate. Of several at the same distance it is the last.
pub fn find_farthest(position: Point, candidates: &Vec<Point>) -> (r: Option<Point>)
    ensures
        is_farthest(position, candidates@, r),
        r == farthest(position, candidates@),
{
    let mask = unmasked(candidates.len());
    let r = match last_farthest(position, candidates, &mask) {
        Some(k) => Some(candidates[k]),
        None => {
            assert(candidates.len() > 0 ==> admitted(candidates@, mask@, 0));
            None
        },
    };
    proof {
        lemma_farthest_is(position, candidates@, r);
    }
    r
}

/// Whether an agent of `own_team` may go for `candidate`.
pub fn may_target(own_team: ChickenOrDog, candidate: &TargetCandidate) -> (b: bool)
    ensures
        b == opposes(own_team, *candidate),
{
    match candidate.team {
        None => true,
        Some(team) => team != own_team,
    }
}

/// What an agent of `own_team` at `origin` goes for among `candidates`, of
/// which it sees those marked in `seen`. A candidate that `seen` does not
/// reach is not seen.
pub fn nearest_target(
    origin: Point,
    own_team: ChickenOrDog,
    candidates: &Vec<TargetCandidate>,
    seen: &Vec<bool>,
) -> (r: Option<Point>)
    ensures
        is_target(origin, own_team, candidates@, seen@, r),
        r == target(origin, own_team, candidates@, seen@),
{
    let mut points: Vec<Point> = Vec::new();
    let mut mask: Vec<bool> = Vec::new();
    let mut i: usize = 0;
    while i < candidates.len()
        invariant
            i <= candidates.len(),
            points.len() == i,
            mask.len() == i,
            forall|j: int| 0 <= j < i ==> points[j] == candidates[j].position,
            forall|j: int|
                0 <= j < i ==> mask[j] == (opposes(own_team, candidates[j]) && j < seen.len()
                    && seen[j]),
        decreases candidates.len() - i,
    {
        let candidate = candidates[i];
        points.push(candidate.position);
        mask.push(may_target(own_team, &candidate) && i < seen.len() && seen[i]);
        i = i + 1;
    }
    assert(points@ =~= positions(candidates@));
    assert(mask@ =~= eligible(own_team, candidates@, seen@));
    let r = match first_nearest(origin, &points, &mask) {
        Some(k) => Some(candidates[k].position),
        None => None,
    };
    proof {
        lemma_target_is(origin, own_team, candidates@, seen@, r);
    }
    r
}

/// Asks `visibility_check` about each candidate that `own_team` may go for,
/// once and in the order of the list, whether the candidate's place can be
/// seen from `origin`.
pub fn sight<F: Fn(Point, Point) -> bool>(
    origin: Point,
    own_team: ChickenOrDog,
    candidates: &Vec<TargetCandidate>,
    visibility_check: &F,
) -> (seen: Vec<bool>)
    requires
        may_ask(*visibility_check, origin, own_team, candidates@),
    ensures
        sightings(*visibility_check, origin, own_team, candidates@, seen@),
{
    let mut seen: Vec<bool> = Vec::new();
    let mut i: usize = 0;
    while i < candidates.len()
        invariant
            i <= candidates.len(),
            seen.len() == i,
            may_ask(*visibility_check, origin, own_team, candidates@),
            forall|j: int|
                0 <= j < i ==> if opposes(own_team, candidates[j]) {
                    call_ensures(
                        *visibility_check,
                        (origin, candidates[j].position),
                        #[trigger] seen[j],
                    )
                } else {
                    !seen[j]
                },
        decreases candidates.len() - i,
    {
        let candidate = candidates[i];
        let in_sight = if may_target(own_team, &candidate) {
            visibility_check(origin, candidate.position)
        } else {
            false
        };
        seen.push(in_sight);
        i = i + 1;
    }
    seen
}

/// What an agent of `own_team` at `origin` goes for among `candidates`.
///
/// Candidates of the agent's own side are left out. For each of the others
/// `visibility_check` is asked once, in the order of the list, whether the
/// candidate's place can be seen from `origin`, and those that it cannot be
/// are left out too. The result is the place of the nearest candidate that
/// is left, the first of them where several are equally near, and `None`
/// where none is left. A caller that needs no such test passes one that
/// answers `true`.
pub fn select_target<F: Fn(Point, Point) -> bool>(
    origin: Point,
    own_team: ChickenOrDog,
    candidates: &Vec<TargetCandidate>,
    visibility_check: F,
) -> (r: Option<Point>)
    requires
        may_ask(visibility_check, origin, own_team, candidates@),
    ensures
        exists|seen: Seq<bool>|
            #[trigger] sightings(visibility_check, origin, own_team, candidates@, seen) && r
                == target(origin, own_team, candidates@, seen) && is_target(
                origin,
                own_team,
                candidates@,
                seen,
                r,
            ),
        r matches Some(p) ==> exists|k: int|
            0 <= k < candidates.len() && #[trigger] candidates[k].position == p
                && candidates[k].team != Some(own_team),
{
    let seen = sight(origin, own_team, candidates, &visibility_check);
    let r = nearest_target(origin, own_team, candidates, &seen);
    proof {
        assert(sightings(visibility_check, origin, own_team, candidates@, seen@));
        if r is Some {
            lemma_target_is_rival(origin, own_team, candidates@, seen@, r->0);
        }
    }
    r
}

} // verus!
