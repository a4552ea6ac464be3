//! Capture points: contested ground that breeds minions for its owner.
//!
//! A capture point carries a progress between `-ONE` and `ONE`. Whoever
//! stands on it pushes the progress: chickens upward, dogs downward. The
//! point falls to the chickens when the progress reaches `CAPTURED`, to the
//! dogs when it reaches `-CAPTURED`, and to nobody when it comes within
//! `CONTESTED` of zero. In between it stays with whoever held it.

use vstd::prelude::*;
use crate::fixed::{clamp, div_trunc, lemma_div_trunc_bounds, quotient, ONE};
use crate::geometry::Point;
use crate::assets::{frame_indices, indices, ChickWalkFrames, PuppyWalkFrames, Sprite};
use crate::map::{locations_of, marked, GameMap};
use crate::minion::{chick, puppy, ChickenMinionConfig, DogMinionConfig, MinionBundle};
use crate::prelude::{Animation, DamageFlash};
use crate::team::ChickenOrDog;
use crate::timer::{fresh, restarted, Timer};
use crate::GameState;

verus! {

/// The progress at which a point falls to a side: 0.9.
pub const CAPTURED: i32 = 900_000;

/// The progress within which a point belongs to nobody: 0.15.
pub const CONTESTED: i32 = 150_000;

/// What a living leader on a point adds to its progress in one capture time.
pub const LEADER_WEIGHT: i32 = 1_000_000;

/// What a minion on a point adds to its progress in one capture time.
pub const MINION_WEIGHT: i32 = 200_000;

/// The capture time of a point made by `Default`: five seconds.
pub const DEFAULT_CAPTURE_TIME: u32 = 5_000_000;

/// The time between two minions of a point made by `Default`: five seconds.
pub const DEFAULT_SPAWN_PERIOD: u32 = 5_000_000;

/// Somebody who stands on a capture point.
#[derive(Clone, Copy, Debug, PartialEq, Eq, Structural)]
pub enum Occupant {
    /// The leader of the chickens.
    Player { is_dead: bool },
    /// The leader of the dogs.
    Enemy { is_dead: bool },
    /// A minion of the given side.
    Minion(ChickenOrDog),
}

/// A minion that a capture point asks for.
#[derive(Clone, Copy, Debug, PartialEq, Eq, Structural)]
pub struct SpawnRequest {
    pub team: ChickenOrDog,
    pub location: Point,
}

/// A capture point.
#[derive(Clone, Copy, Debug)]
pub struct Spawner {
    pub(crate) position: Point,
    pub(crate) team: Option<ChickenOrDog>,
    pub(crate) spawn_timer: Timer,
    pub(crate) capture_time: u32,
    pub(crate) capture_progress: i32,
}

/// What a capture point is made of.
pub struct SpawnerView {
    /// Where the point lies.
    pub position: Point,
    /// The side that owns the point, if any.
    pub team: Option<ChickenOrDog>,
    /// The countdown to the next minion.
    pub spawn_timer: Timer,
    /// How long one leader alone takes to move the progress by `ONE`.
    pub capture_time: int,
    /// How far the point has gone to the chickens (above zero) or to the
    /// dogs (below zero).
    pub capture_progress: int,
}

impl View for Spawner {
    type V = SpawnerView;

    closed spec fn view(&self) -> SpawnerView {
        SpawnerView {
            position: self.position,
            team: self.team,
            spawn_timer: self.spawn_timer,
            capture_time: self.capture_time as int,
            capture_progress: self.capture_progress as int,
        }
    }
}

/// The owner of a point whose progress has come to `progress` and which was
/// owned by `held` before.
pub open spec fn ownership(held: Option<ChickenOrDog>, progress: int) -> Option<ChickenOrDog> {
    if progress <= -CAPTURED {
        Some(ChickenOrDog::Dog)
    } else if progress >= CAPTURED {
        Some(ChickenOrDog::Chicken)
    } else if -CONTESTED <= progress <= CONTESTED {
        None
    } else {
        held
    }
}

/// A capture point is well formed: its capture time is positive and fits a
/// machine word, its spawn timer repeats, its progress lies between `-ONE`
/// and `ONE`, and its owner is the one that its progress forces.
pub open spec fn well_formed(s: SpawnerView) -> bool {
    &&& 0 < s.capture_time <= u32::MAX
    &&& s.spawn_timer.repeating
    &&& -ONE <= s.capture_progress <= ONE
    &&& s.capture_progress <= -CAPTURED ==> s.team == Some(ChickenOrDog::Dog)
    &&& s.capture_progress >= CAPTURED ==> s.team == Some(ChickenOrDog::Chicken)
    &&& -CONTESTED <= s.capture_progress <= CONTESTED ==> s.team is None
}

/// What one occupant adds to the progress of a point in one capture time.
pub open spec fn weight(occupant: Occupant) -> int {
    match occupant {
        Occupant::Player { is_dead } => if is_dead {
            0
        } else {
            LEADER_WEIGHT as int
        },
        Occupant::Enemy { is_dead } => if is_dead {
            0
        } else {
            -LEADER_WEIGHT
        },
        Occupant::Minion(ChickenOrDog::Chicken) => MINION_WEIGHT as int,
        Occupant::Minion(ChickenOrDog::Dog) => -MINION_WEIGHT,
    }
}

/// What all the occupants together add to the progress of a point in one
/// capture time: the sum of their weights.
pub open spec fn influence(occupants: Seq<Occupant>) -> int
    decreases occupants.len(),
{
    if occupants.len() == 0 {
        0
    } else {
        influence(occupants.drop_last()) + weight(occupants.last())
    }
}

/// The point `s` after `dt` microseconds under the given influence: its
/// progress moved by `influence * dt / capture_time`, rounded toward zero
/// and held between `-ONE` and `ONE`, and its owner set by the new progress.
pub open spec fn captured(s: SpawnerView, influence: int, dt: int) -> SpawnerView {
    let progress = clamp(
        s.capture_progress + div_trunc(influence * dt, s.capture_time),
        -ONE as int,
        ONE as int,
    );
    SpawnerView { capture_progress: progress, team: ownership(s.team, progress), ..s }
}

/// The point `s` after its spawn timer has run for `dt` microseconds. The
/// timer of a point that nobody owns stands still.
pub open spec fn bred(s: SpawnerView, dt: u32) -> SpawnerView {
    if s.team is None {
        s
    } else {
        SpawnerView { spawn_timer: restarted(s.spawn_timer, dt), ..s }
    }
}

/// The minion that the point `s` asks for when its spawn timer has run for
/// `dt` microseconds: one of its owner's, at its own place, if it has an
/// owner and the timer ran out.
pub open spec fn brood(s: SpawnerView, dt: u32) -> Option<SpawnRequest> {
    match s.team {
        Some(team) => if restarted(s.spawn_timer, dt).just_finished {
            Some(SpawnRequest { team, location: s.position })
        } else {
            None
        },
        None => None,
    }
}

/// A point at `position` that nobody owns, with progress zero and a
/// repeating spawn timer that has its full period ahead.
pub open spec fn unclaimed(position: Point, capture_time: u32, spawn_period: u32) -> SpawnerView {
    SpawnerView {
        position,
        team: None,
        spawn_timer: fresh(spawn_period, true),
        capture_time: capture_time as int,
        capture_progress: 0,
    }
}

/// `team` owns every point of `points`.
pub open spec fn all_owned_by(points: Seq<Option<ChickenOrDog>>, team: ChickenOrDog) -> bool {
    forall|i: int| 0 <= i < points.len() ==> #[trigger] points[i] == Some(team)
}

/// The side that has won: the one that owns every point. Where there is no
/// point at all the chickens have won.
pub open spec fn winner(points: Seq<Option<ChickenOrDog>>) -> Option<ChickenOrDog> {
    if all_owned_by(points, ChickenOrDog::Chicken) {
        Some(ChickenOrDog::Chicken)
    } else if all_owned_by(points, ChickenOrDog::Dog) {
        Some(ChickenOrDog::Dog)
    } else {
        None
    }
}

/// The sum of the weights of all but the last occupant, plus the weight of
/// the last, is the influence of all.
pub proof fn lemma_influence_push(occupants: Seq<Occupant>, occupant: Occupant)
    ensures
        influence(occupants.push(occupant)) == influence(occupants) + weight(occupant),
{
    assert(occupants.push(occupant).drop_last() =~= occupants);
}

/// How many of the occupants are like `occupant`.
pub open spec fn head_count(occupants: Seq<Occupant>, occupant: Occupant) -> int {
    occupants.to_multiset().count(occupant) as int
}

/// The influence of a crowd is what its living leaders and its minions
/// weigh, counted by kind.
pub proof fn lemma_influence_by_kind(occupants: Seq<Occupant>)
    ensures
        influence(occupants) == LEADER_WEIGHT * (head_count(
            occupants,
            Occupant::Player { is_dead: false },
        ) - head_count(occupants, Occupant::Enemy { is_dead: false })) + MINION_WEIGHT * (
        head_count(occupants, Occupant::Minion(ChickenOrDog::Chicken)) - head_count(
            occupants,
            Occupant::Minion(ChickenOrDog::Dog),
        )),
    decreases occupants.len(),
{
    broadcast use vstd::multiset::group_multiset_axioms;

    if occupants.len() == 0 {
        assert(occupants.to_multiset() =~= vstd::multiset::Multiset::<Occupant>::empty()) by {
            occupants.to_multiset_ensures();
        }
    } else {
        let rest = occupants.drop_last();
        let last = occupants.last();
        lemma_influence_by_kind(rest);
        assert(rest.push(last) =~= occupants);
        vstd::seq_lib::to_multiset_build(rest, last);
        assert(occupants.to_multiset() =~= rest.to_multiset().insert(last));
    }
}

/// The influence of a crowd does not depend on the order in which its
/// members are counted.
pub proof fn lemma_influence_any_order(a: Seq<Occupant>, b: Seq<Occupant>)
    requires
        a.to_multiset() == b.to_multiset(),
    ensures
        influence(a) == influence(b),
{
    lemma_influence_by_kind(a);
    lemma_influence_by_kind(b);
}

/// No crowd pushes harder than one leader for each of its members.
pub proof fn lemma_influence_bound(occupants: Seq<Occupant>)
    ensures
        -1_000_000 * occupants.len() <= influence(occupants) <= 1_000_000 * occupants.len(),
    decreases occupants.len(),
{
    if occupants.len() > 0 {
        lemma_influence_bound(occupants.drop_last());
    }
}

/// Capturing keeps a point well formed: in particular its progress stays
/// between `-ONE` and `ONE`, whatever the influence and however long the
/// step.
pub proof fn lemma_capture_keeps_well_formed(s: SpawnerView, influence: int, dt: int)
    requires
        well_formed(s),
    ensures
        well_formed(captured(s, influence, dt)),
        -ONE <= captured(s, influence, dt).capture_progress <= ONE,
{
}

/// The point `s` after one step for each entry of `steps` in turn, each
/// entry holding the influence and the length of its step.
pub open spec fn captured_all(s: SpawnerView, steps: Seq<(int, int)>) -> SpawnerView
    decreases steps.len(),
{
    if steps.len() == 0 {
        s
    } else {
        captured(captured_all(s, steps.drop_last()), steps.last().0, steps.last().1)
    }
}

/// However many steps a point goes through, and whatever they are, its
/// progress stays between `-ONE` and `ONE` and its owner stays the one that
/// its progress forces.
pub proof fn lemma_capture_always_well_formed(s: SpawnerView, steps: Seq<(int, int)>)
    requires
        well_formed(s),
    ensures
        well_formed(captured_all(s, steps)),
        -ONE <= captured_all(s, steps).capture_progress <= ONE,
    decreases steps.len(),
{
    if steps.len() > 0 {
        lemma_capture_always_well_formed(s, steps.drop_last());
        lemma_capture_keeps_well_formed(
            captured_all(s, steps.drop_last()),
            steps.last().0,
            steps.last().1,
        );
    }
}

/// How long the steps `steps` take together.
pub open spec fn span_of(steps: Seq<(int, int)>) -> int
    decreases steps.len(),
{
    if steps.len() == 0 {
        0
    } else {
        span_of(steps.drop_last()) + steps.last().1
    }
}

/// Each of the steps `steps` is one of the player alone on the point, alive,
/// and takes no time back.
pub open spec fn player_alone(steps: Seq<(int, int)>) -> bool {
    forall|i: int| 0 <= i < steps.len() ==> (#[trigger] steps[i]).0 == LEADER_WEIGHT && steps[i].1 >= 0
}

/// While the player stands alone on a point that began at zero, for no
/// longer than the capture time in all, the progress is what the time so far
/// amounts to, less at most one millionth for each step, which is what the
/// rounding of a step can take.
pub proof fn lemma_player_alone_progress(s: SpawnerView, steps: Seq<(int, int)>)
    requires
        well_formed(s),
        s.capture_progress == 0,
        player_alone(steps),
        span_of(steps) <= s.capture_time,
    ensures
        0 <= span_of(steps),
        0 <= captured_all(s, steps).capture_progress <= ONE,
        captured_all(s, steps).capture_progress * s.capture_time <= ONE * span_of(steps),
        ONE * span_of(steps) <= (captured_all(s, steps).capture_progress + steps.len())
            * s.capture_time,
        captured_all(s, steps).capture_time == s.capture_time,
        captured_all(s, steps).position == s.position,
        captured_all(s, steps).spawn_timer == s.spawn_timer,
    decreases steps.len(),
{
    let c = s.capture_time;
    if steps.len() == 0 {
        assert(ONE * 0 == 0 && 0 * c == 0 && (0 + 0) * c == 0) by (nonlinear_arith);
    } else {
        let rest = steps.drop_last();
        let dt = steps.last().1;
        assert(steps.last().0 == LEADER_WEIGHT && dt >= 0);
        assert forall|i: int| 0 <= i < rest.len() implies (#[trigger] rest[i]).0 == LEADER_WEIGHT
            && rest[i].1 >= 0 by {
            assert(rest[i] == steps[i]);
        }
        lemma_span_positive(rest);
        lemma_player_alone_progress(s, rest);
        let before = captured_all(s, rest);
        let p = before.capture_progress;
        let t = span_of(rest);
        let q = div_trunc(LEADER_WEIGHT * dt, c);
        lemma_div_trunc_bounds(LEADER_WEIGHT * dt, c);
        assert(LEADER_WEIGHT * dt >= 0) by (nonlinear_arith)
            requires
                dt >= 0,
        ;
        // What the step adds is what its time amounts to, rounded down.
        assert((p + q) * c <= ONE * (t + dt)) by (nonlinear_arith)
            requires
                p * c <= ONE * t,
                q * c <= LEADER_WEIGHT * dt,
                LEADER_WEIGHT == ONE,
        ;
        assert(ONE * (t + dt) <= (p + q + rest.len() + 1) * c) by (nonlinear_arith)
            requires
                ONE * t <= (p + rest.len()) * c,
                LEADER_WEIGHT * dt < (q + 1) * c,
                LEADER_WEIGHT == ONE,
        ;
        // The time so far is within the capture time, so the progress is
        // within one whole and is not held back.
        assert(p + q <= ONE) by (nonlinear_arith)
            requires
                (p + q) * c <= ONE * (t + dt),
                t + dt <= c,
                c > 0,
                ONE == 1_000_000,
        ;
        assert(captured(before, LEADER_WEIGHT as int, dt).capture_progress == p + q);
    }
}

/// The steps of a player alone take no time back in all.
pub proof fn lemma_span_positive(steps: Seq<(int, int)>)
    requires
        player_alone(steps),
    ensures
        0 <= span_of(steps),
    decreases steps.len(),
{
    if steps.len() > 0 {
        let rest = steps.drop_last();
        assert forall|i: int| 0 <= i < rest.len() implies (#[trigger] rest[i]).0 == LEADER_WEIGHT
            && rest[i].1 >= 0 by {
            assert(rest[i] == steps[i]);
        }
        lemma_span_positive(rest);
        assert(steps.last().1 >= 0);
    }
}

/// A point that begins at zero and on which the player stands alone for its
/// capture time, in however many steps, comes to one whole less at most one
/// millionth for each step. Where the steps are no more than a hundred
/// thousand, it has fallen to the chickens, and a tick of its spawn timer
/// by what the timer has left asks for a chick at the point's place.
pub proof fn lemma_player_alone_captures(s: SpawnerView, steps: Seq<(int, int)>)
    requires
        well_formed(s),
        s.capture_progress == 0,
        player_alone(steps),
        span_of(steps) == s.capture_time,
    ensures
        ONE - steps.len() <= captured_all(s, steps).capture_progress <= ONE,
        steps.len() <= ONE - CAPTURED ==> captured_all(s, steps).team == Some(
            ChickenOrDog::Chicken,
        ),
        steps.len() <= ONE - CAPTURED ==> brood(
            captured_all(s, steps),
            s.spawn_timer.remaining,
        ) == Some(SpawnRequest { team: ChickenOrDog::Chicken, location: s.position }),
{
    lemma_player_alone_progress(s, steps);
    lemma_capture_always_well_formed(s, steps);
    let c = s.capture_time;
    let p = captured_all(s, steps).capture_progress;
    assert(p >= ONE - steps.len()) by (nonlinear_arith)
        requires
            ONE * c <= (p + steps.len()) * c,
            c > 0,
    ;
}

/// A point on which nobody pushes stays exactly as it is.
pub proof fn lemma_capture_without_influence(s: SpawnerView, influence: int, dt: int)
    requires
        well_formed(s),
        influence == 0 || dt == 0,
    ensures
        captured(s, influence, dt) == s,
{
    assert(influence * dt == 0) by (nonlinear_arith)
        requires
            influence == 0 || dt == 0,
    ;
    assert(0int / s.capture_time == 0) by (nonlinear_arith)
        requires
            s.capture_time > 0,
    ;
}

/// A point whose progress stands at a bound does not change while the
/// influence keeps pushing outward.
pub proof fn lemma_saturated_stays(s: SpawnerView, influence: int, dt: int)
    requires
        well_formed(s),
        dt >= 0,
        (s.capture_progress == ONE && influence >= 0) || (s.capture_progress == -ONE && influence
            <= 0),
    ensures
        captured(s, influence, dt) == s,
{
    assert(s.capture_progress == ONE && influence >= 0 ==> influence * dt >= 0) by (nonlinear_arith)
        requires
            dt >= 0,
    ;
    assert(s.capture_progress == -ONE && influence <= 0 ==> influence * dt <= 0) by (nonlinear_arith)
        requires
            dt >= 0,
    ;
    lemma_div_trunc_bounds(influence * dt, s.capture_time);
}

/// A point whose progress stands at a bound comes back inside as soon as the
/// influence pushes inward by at least one millionth.
pub proof fn lemma_saturated_reverses(s: SpawnerView, influence: int, dt: int)
    requires
        well_formed(s),
        dt >= 0,
    ensures
        s.capture_progress == ONE && influence * dt <= -s.capture_time ==> captured(
            s,
            influence,
            dt,
        ).capture_progress < ONE,
        s.capture_progress == -ONE && influence * dt >= s.capture_time ==> captured(
            s,
            influence,
            dt,
        ).capture_progress > -ONE,
{
    let n = influence * dt;
    let d = s.capture_time;
    lemma_div_trunc_bounds(n, d);
    let q = div_trunc(n, d);
    if n <= -d {
        assert(q <= -1) by (nonlinear_arith)
            requires
                (q - 1) * d < n,
                n <= -d,
                d > 0,
                q <= 0,
        ;
    }
    if n >= d {
        assert(q >= 1) by (nonlinear_arith)
            requires
                n < (q + 1) * d,
                n >= d,
                d > 0,
                q >= 0,
        ;
    }
}

/// One living leader alone on a point for one whole capture time moves its
/// progress by `ONE`: a point that nobody owns falls to the leader's side.
pub proof fn lemma_leader_captures(s: SpawnerView, occupant: Occupant)
    requires
        well_formed(s),
        s.capture_progress == 0,
        occupant == (Occupant::Player { is_dead: false }) || occupant == (Occupant::Enemy {
            is_dead: false,
        }),
    ensures
        occupant is Player ==> captured(s, influence(seq![occupant]), s.capture_time)
            == (SpawnerView {
            capture_progress: ONE as int,
            team: Some(ChickenOrDog::Chicken),
            ..s
        }),
        occupant is Enemy ==> captured(s, influence(seq![occupant]), s.capture_time)
            == (SpawnerView { capture_progress: -ONE, team: Some(ChickenOrDog::Dog), ..s }),
{
    let one = seq![occupant];
    assert(one.drop_last() =~= Seq::<Occupant>::empty());
    assert(influence(one) == influence(Seq::<Occupant>::empty()) + weight(occupant));
    let d = s.capture_time;
    assert((LEADER_WEIGHT * d) / d == LEADER_WEIGHT) by (nonlinear_arith)
        requires
            d > 0,
    ;
    assert(-(-LEADER_WEIGHT * d) == LEADER_WEIGHT * d) by (nonlinear_arith);
}

/// Whether the winner is decided does not depend on when it is asked: the
/// winner is determined by who owns the points, and is a side only if that
/// side owns every point and none is left without an owner.
pub proof fn lemma_winner_owns_all(points: Seq<Option<ChickenOrDog>>, team: ChickenOrDog)
    ensures
        winner(points) == Some(team) ==> all_owned_by(points, team),
        winner(points) == Some(team) ==> forall|i: int|
            0 <= i < points.len() ==> (#[trigger] points[i]) is Some,
        all_owned_by(points, team) && points.len() > 0 ==> winner(points) == Some(team),
{
    if all_owned_by(points, team) && points.len() > 0 {
        assert(points[0] == Some(team));
    }
}

impl Spawner {
    #[verifier::type_invariant]
    pub closed spec fn inv(&self) -> bool {
        well_formed(self@)
    }

    /// A point at `position` that nobody owns, with progress zero and a
    /// repeating spawn timer. There is no point with a capture time of zero.
    pub fn new(position: Point, capture_time: u32, spawn_period: u32) -> (r: Option<Spawner>)
        ensures
            capture_time == 0 <==> r is None,
            r matches Some(s) ==> s@ == unclaimed(position, capture_time, spawn_period),
    {
        if capture_time == 0 {
            None
        } else {
            Some(
                Spawner {
                    position,
                    team: None,
                    spawn_timer: Timer::new(spawn_period, true),
                    capture_time,
                    capture_progress: 0,
                },
            )
        }
    }

    /// A point at `position` with the capture time and the spawn period of
    /// `Default`.
    pub fn at(position: Point) -> (s: Spawner)
        ensures
            s@ == unclaimed(position, DEFAULT_CAPTURE_TIME, DEFAULT_SPAWN_PERIOD),
    {
        Spawner {
            position,
            team: None,
            spawn_timer: Timer::new(DEFAULT_SPAWN_PERIOD, true),
            capture_time: DEFAULT_CAPTURE_TIME,
            capture_progress: 0,
        }
    }

    /// Lets those who stand on the point push its progress for `dt`
    /// microseconds, and hands the point to the side that the new progress
    /// gives it to.
    pub fn update(&mut self, occupants: &Vec<Occupant>, dt: u32)
        ensures
            final(self)@ == captured(old(self)@, influence(occupants@), dt as int),
            well_formed(final(self)@),
            -ONE <= final(self)@.capture_progress <= ONE,
    {
        let push = net_influence(occupants);
        self.push(push, dt);
    }

    /// Moves the progress by `influence * dt / capture_time` and hands the
    /// point to the side that the new progress gives it to.
    fn push(&mut self, influence: i128, dt: u32)
        requires
            -0x100_0000_0000_0000_0000_0000 <= influence <= 0x100_0000_0000_0000_0000_0000,
        ensures
            final(self)@ == captured(old(self)@, influence as int, dt as int),
            well_formed(final(self)@),
            -ONE <= final(self)@.capture_progress <= ONE,
    {
        proof {
            use_type_invariant(&*self);
            lemma_capture_keeps_well_formed(self@, influence as int, dt as int);
        }
        assert(-0x100_0000_0000_0000_0000_0000 * 0xffff_ffff <= influence * dt
            <= 0x100_0000_0000_0000_0000_0000 * 0xffff_ffff) by (nonlinear_arith)
            requires
                -0x100_0000_0000_0000_0000_0000 <= influence <= 0x100_0000_0000_0000_0000_0000,
                0 <= dt <= 0xffff_ffff,
        ;
        let n: i128 = influence * (dt as i128);
        let delta: i128 = quotient(n, self.capture_time as u64);
        proof {
            lemma_div_trunc_bounds(n as int, self.capture_time as int);
            let d = self.capture_time as int;
            if n >= 0 {
                assert(delta <= n) by (nonlinear_arith)
                    requires
                        delta * d <= n,
                        d >= 1,
                        delta >= 0,
                ;
            } else {
                assert(delta >= n) by (nonlinear_arith)
                    requires
                        n <= delta * d,
                        d >= 1,
                        delta <= 0,
                ;
            }
        }
        let moved: i128 = self.capture_progress as i128 + delta;
        let progress: i32 = if moved < -(ONE as i128) {
            -ONE
        } else if moved > ONE as i128 {
            ONE
        } else {
            moved as i32
        };
        let team = owner_at(self.team, progress);
        *self = Spawner { capture_progress: progress, team, ..*self };
    }

    /// Runs the spawn timer for `dt` microseconds and asks for a minion of
    /// the owner's, at the point's place, if the timer ran out. A point that
    /// nobody owns breeds nothing, and its timer stands still.
    pub fn tick(&mut self, dt: u32) -> (r: Option<SpawnRequest>)
        ensures
            final(self)@ == bred(old(self)@, dt),
            r == brood(old(self)@, dt),
    {
        proof {
            use_type_invariant(&*self);
        }
        match self.team {
            None => None,
            Some(team) => {
                let mut timer = self.spawn_timer;
                timer.tick_and_restart(dt);
                *self = Spawner { spawn_timer: timer, ..*self };
                if timer.just_finished() {
                    Some(SpawnRequest { team, location: self.position })
                } else {
                    None
                }
            },
        }
    }

    /// Where the point lies.
    pub fn position(&self) -> (r: Point)
        ensures
            r == self@.position,
    {
        self.position
    }

    /// The side that owns the point, if any.
    pub fn team(&self) -> (r: Option<ChickenOrDog>)
        ensures
            r == self@.team,
    {
        self.team
    }

    /// The progress of the capture, between `-ONE` and `ONE`.
    pub fn capture_progress(&self) -> (r: i32)
        ensures
            r == self@.capture_progress,
            -ONE <= r <= ONE,
    {
        proof {
            use_type_invariant(self);
        }
        self.capture_progress
    }

    /// How long one leader alone takes to move the progress by `ONE`.
    pub fn capture_time(&self) -> (r: u32)
        ensures
            r == self@.capture_time,
            r > 0,
    {
        proof {
            use_type_invariant(self);
        }
        self.capture_time
    }

    /// The countdown to the next minion.
    pub fn spawn_timer(&self) -> (r: Timer)
        ensures
            r == self@.spawn_timer,
    {
        self.spawn_timer
    }
}

impl Default for Spawner {
    /// A point at the origin that nobody owns.
    fn default() -> (s: Spawner)
        ensures
            s@ == unclaimed(Point { x: 0, y: 0 }, DEFAULT_CAPTURE_TIME, DEFAULT_SPAWN_PERIOD),
    {
        Spawner::at(Point { x: 0, y: 0 })
    }
}

/// The owner of a point whose progress has come to `progress`.
fn owner_at(held: Option<ChickenOrDog>, progress: i32) -> (r: Option<ChickenOrDog>)
    ensures
        r == ownership(held, progress as int),
{
    if progress <= -CAPTURED {
        Some(ChickenOrDog::Dog)
    } else if progress >= CAPTURED {
        Some(ChickenOrDog::Chicken)
    } else if -CONTESTED <= progress && progress <= CONTESTED {
        None
    } else {
        held
    }
}

/// What one occupant adds to the progress of a point in one capture time.
pub fn weigh(occupant: &Occupant) -> (w: i32)
    ensures
        w == weight(*occupant),
        -1_000_000 <= w <= 1_000_000,
{
    match occupant {
        Occupant::Player { is_dead } => if *is_dead {
            0
        } else {
            LEADER_WEIGHT
        },
        Occupant::Enemy { is_dead } => if *is_dead {
            0
        } else {
            -LEADER_WEIGHT
        },
        Occupant::Minion(ChickenOrDog::Chicken) => MINION_WEIGHT,
        Occupant::Minion(ChickenOrDog::Dog) => -MINION_WEIGHT,
    }
}

/// What all the occupants together add to the progress of a point in one
/// capture time.
pub fn net_influence(occupants: &Vec<Occupant>) -> (sum: i128)
    ensures
        sum == influence(occupants@),
        -1_000_000 * occupants.len() <= sum <= 1_000_000 * occupants.len(),
{
    let mut sum: i128 = 0;
    let mut i: usize = 0;
    while i < occupants.len()
        invariant
            i <= occupants.len(),
            sum == influence(occupants@.take(i as int)),
            -1_000_000 * i <= sum <= 1_000_000 * i,
        decreases occupants.len() - i,
    {
        proof {
            lemma_influence_push(occupants@.take(i as int), occupants[i as int]);
            assert(occupants@.take(i as int).push(occupants[i as int]) =~= occupants@.take(i + 1));
        }
        sum = sum + weigh(&occupants[i]) as i128;
        i = i + 1;
    }
    assert(occupants@.take(occupants.len() as int) =~= occupants@);
    sum
}

/// The side that has won the match, given the owner of each capture point:
/// the side that owns them all.
pub fn evaluate(points: &Vec<Option<ChickenOrDog>>) -> (r: Option<ChickenOrDog>)
    ensures
        r == winner(points@),
{
    let mut chickens = true;
    let mut dogs = true;
    let mut i: usize = 0;
    while i < points.len()
        invariant
            i <= points.len(),
            chickens == all_owned_by(points@.take(i as int), ChickenOrDog::Chicken),
            dogs == all_owned_by(points@.take(i as int), ChickenOrDog::Dog),
        decreases points.len() - i,
    {
        let ghost before = points@.take(i as int);
        let ghost after = points@.take(i + 1);
        assert(forall|j: int| 0 <= j < i ==> before[j] == after[j]);
        assert(after[i as int] == points[i as int]);
        match points[i] {
            Some(ChickenOrDog::Chicken) => {
                dogs = false;
            },
            Some(ChickenOrDog::Dog) => {
                chickens = false;
            },
            None => {
                chickens = false;
                dogs = false;
            },
        }
        i = i + 1;
    }
    assert(points@.take(points.len() as int) =~= points@);
    if chickens {
        Some(ChickenOrDog::Chicken)
    } else if dogs {
        Some(ChickenOrDog::Dog)
    } else {
        None
    }
}

/// Those who stand on point `i`, where `overlaps` lists for each point in
/// turn who stands on it. Nobody stands on a point that the list does not
/// reach.
pub open spec fn standing_on(overlaps: Seq<Vec<Occupant>>, i: int) -> Seq<Occupant> {
    if 0 <= i < overlaps.len() {
        overlaps[i]@
    } else {
        Seq::empty()
    }
}

/// The minions that the points `spawners` ask for when their spawn timers
/// have run for `dt` microseconds, in the order of the points.
pub open spec fn broods(spawners: Seq<SpawnerView>, dt: u32) -> Seq<SpawnRequest>
    decreases spawners.len(),
{
    if spawners.len() == 0 {
        Seq::empty()
    } else {
        match brood(spawners.last(), dt) {
            Some(request) => broods(spawners.drop_last(), dt).push(request),
            None => broods(spawners.drop_last(), dt),
        }
    }
}

/// What the points are made of, in their order.
pub open spec fn views(spawners: Seq<Spawner>) -> Seq<SpawnerView> {
    Seq::new(spawners.len(), |i: int| spawners[i]@)
}

/// The owners of the points, in their order.
pub open spec fn owners(spawners: Seq<Spawner>) -> Seq<Option<ChickenOrDog>> {
    Seq::new(spawners.len(), |i: int| spawners[i]@.team)
}

/// The screen that follows when the match is decided: the player has won
/// where the chickens hold every point, and lost where the dogs do. The
/// match is decided only while it is played.
pub open spec fn verdict(spawners: Seq<Spawner>, state: GameState) -> Option<GameState> {
    if state != GameState::GamePlay {
        None
    } else {
        match winner(owners(spawners)) {
            Some(ChickenOrDog::Chicken) => Some(GameState::GameOver { won: true }),
            Some(ChickenOrDog::Dog) => Some(GameState::GameOver { won: false }),
            None => None,
        }
    }
}

/// Once the match is over it is not decided again.
pub proof fn lemma_verdict_once(spawners: Seq<Spawner>, state: GameState)
    ensures
        verdict(spawners, state) matches Some(over) ==> verdict(spawners, over) is None,
{
}

/// The capture points of a map: one for each marked place, the places marked
/// for the chickens first, then those marked for the dogs, each in the order
/// of the map. Whatever its mark, a point starts with nobody owning it.
pub fn spawn_initial_spawners(map: &GameMap) -> (r: Vec<Spawner>)
    ensures
        r.len() == marked(map.spawn_locations@, ChickenOrDog::Chicken).len() + marked(
            map.spawn_locations@,
            ChickenOrDog::Dog,
        ).len(),
        forall|i: int|
            0 <= i < marked(map.spawn_locations@, ChickenOrDog::Chicken).len() ==> (#[trigger] r[i])@
                == unclaimed(
                marked(map.spawn_locations@, ChickenOrDog::Chicken)[i],
                DEFAULT_CAPTURE_TIME,
                DEFAULT_SPAWN_PERIOD,
            ),
        forall|i: int|
            0 <= i < marked(map.spawn_locations@, ChickenOrDog::Dog).len() ==> (#[trigger] r[marked(
                map.spawn_locations@,
                ChickenOrDog::Chicken,
            ).len() + i])@ == unclaimed(
                marked(map.spawn_locations@, ChickenOrDog::Dog)[i],
                DEFAULT_CAPTURE_TIME,
                DEFAULT_SPAWN_PERIOD,
            ),
{
    let chicken_spawner_locations = locations_of(&map.spawn_locations, ChickenOrDog::Chicken);
    let dog_spawner_locations = locations_of(&map.spawn_locations, ChickenOrDog::Dog);
    let mut spawners: Vec<Spawner> = Vec::new();
    spawn_minion_spawners(&mut spawners, &chicken_spawner_locations);
    let ghost first = spawners@;
    assert forall|i: int| 0 <= i < chicken_spawner_locations.len() implies (#[trigger] first[i])@
        == unclaimed(chicken_spawner_locations[i], DEFAULT_CAPTURE_TIME, DEFAULT_SPAWN_PERIOD) by {
        assert(first[0 + i] == first[i]);
    }
    spawn_minion_spawners(&mut spawners, &dog_spawner_locations);
    assert forall|i: int| 0 <= i < chicken_spawner_locations.len() implies (#[trigger] spawners[i])@
        == unclaimed(chicken_spawner_locations[i], DEFAULT_CAPTURE_TIME, DEFAULT_SPAWN_PERIOD) by {
        assert(spawners[i] == first[i]);
    }
    spawners
}

/// Adds a capture point that nobody owns for each of `spawn_locations`.
fn spawn_minion_spawners(spawners: &mut Vec<Spawner>, spawn_locations: &Vec<Point>)
    ensures
        final(spawners).len() == old(spawners).len() + spawn_locations.len(),
        forall|i: int| 0 <= i < old(spawners).len() ==> final(spawners)[i] == old(spawners)[i],
        forall|i: int|
            0 <= i < spawn_locations.len() ==> (#[trigger] final(spawners)[old(spawners).len() + i])@
                == unclaimed(spawn_locations[i], DEFAULT_CAPTURE_TIME, DEFAULT_SPAWN_PERIOD),
{
    let mut i: usize = 0;
    while i < spawn_locations.len()
        invariant
            i <= spawn_locations.len(),
            spawners.len() == old(spawners).len() + i,
            forall|j: int| 0 <= j < old(spawners).len() ==> spawners[j] == old(spawners)[j],
            forall|j: int|
                0 <= j < i ==> (#[trigger] spawners[old(spawners).len() + j])@ == unclaimed(
                    spawn_locations[j],
                    DEFAULT_CAPTURE_TIME,
                    DEFAULT_SPAWN_PERIOD,
                ),
        decreases spawn_locations.len() - i,
    {
        spawners.push(Spawner::at(spawn_locations[i]));
        i = i + 1;
    }
}

/// Lets those who stand on each capture point push its progress for `dt`
/// microseconds. `overlaps` lists for each point in turn who stands on it.
pub fn spawner_capture_ai(spawners: &mut Vec<Spawner>, overlaps: &Vec<Vec<Occupant>>, dt: u32)
    ensures
        final(spawners).len() == old(spawners).len(),
        forall|i: int|
            0 <= i < old(spawners).len() ==> (#[trigger] final(spawners)[i])@ == captured(
                old(spawners)[i]@,
                influence(standing_on(overlaps@, i)),
                dt as int,
            ),
{
    let mut i: usize = 0;
    while i < spawners.len()
        invariant
            i <= spawners.len(),
            spawners.len() == old(spawners).len(),
            forall|j: int|
                0 <= j < i ==> (#[trigger] spawners[j])@ == captured(
                    old(spawners)[j]@,
                    influence(standing_on(overlaps@, j)),
                    dt as int,
                ),
            forall|j: int| i <= j < spawners.len() ==> spawners[j] == old(spawners)[j],
        decreases spawners.len() - i,
    {
        if i < overlaps.len() {
            let mut spawner = spawners[i];
            spawner.update(&overlaps[i], dt);
            spawners.set(i, spawner);
        } else {
            let spawner = spawners[i];
            proof {
                use_type_invariant(&spawner);
                lemma_capture_without_influence(spawner@, 0, dt as int);
            }
        }
        i = i + 1;
    }
}

/// Runs the spawn timer of each capture point for `dt` microseconds and
/// gathers the minions that the points ask for, in the order of the points.
pub fn tick_spawners(spawners: &mut Vec<Spawner>, dt: u32) -> (requests: Vec<SpawnRequest>)
    ensures
        final(spawners).len() == old(spawners).len(),
        forall|i: int|
            0 <= i < old(spawners).len() ==> (#[trigger] final(spawners)[i])@ == bred(
                old(spawners)[i]@,
                dt,
            ),
        requests@ == broods(views(old(spawners)@), dt),
{
    let mut requests: Vec<SpawnRequest> = Vec::new();
    let mut i: usize = 0;
    while i < spawners.len()
        invariant
            i <= spawners.len(),
            spawners.len() == old(spawners).len(),
            forall|j: int| 0 <= j < i ==> (#[trigger] spawners[j])@ == bred(old(spawners)[j]@, dt),
            forall|j: int| i <= j < spawners.len() ==> spawners[j] == old(spawners)[j],
            requests@ == broods(views(old(spawners)@).take(i as int), dt),
        decreases spawners.len() - i,
    {
        assert(views(old(spawners)@).take(i + 1).drop_last() =~= views(old(spawners)@).take(
            i as int,
        ));
        let mut spawner = spawners[i];
        match spawner.tick(dt) {
            Some(request) => {
                requests.push(request);
            },
            None => {},
        }
        spawners.set(i, spawner);
        i = i + 1;
    }
    assert(views(old(spawners)@).take(spawners.len() as int) =~= views(old(spawners)@));
    requests
}

/// The owners of the points, in their order.
pub fn owners_of(spawners: &Vec<Spawner>) -> (r: Vec<Option<ChickenOrDog>>)
    ensures
        r@ == owners(spawners@),
{
    let mut r: Vec<Option<ChickenOrDog>> = Vec::new();
    let mut i: usize = 0;
    while i < spawners.len()
        invariant
            i <= spawners.len(),
            r.len() == i,
            forall|j: int| 0 <= j < i ==> r[j] == spawners[j]@.team,
        decreases spawners.len() - i,
    {
        r.push(spawners[i].team());
        i = i + 1;
    }
    assert(r@ =~= owners(spawners@));
    r
}

/// Decides the match: the screen that follows when one side holds every
/// capture point, and nothing while the match goes on or is not played.
pub fn spawner_win_con(spawners: &Vec<Spawner>, state: &GameState) -> (r: Option<GameState>)
    ensures
        r == verdict(spawners@, *state),
{
    match state {
        GameState::GamePlay => {
            let held = owners_of(spawners);
            match evaluate(&held) {
                Some(ChickenOrDog::Chicken) => Some(GameState::GameOver { won: true }),
                Some(ChickenOrDog::Dog) => Some(GameState::GameOver { won: false }),
                None => None,
            }
        },
        _ => None,
    }
}

/// How long each picture of a walking minion stays: a tenth of a second.
pub const MINION_FRAME_TIME: u32 = 100_000;

/// A minion that a capture point has bred, with all that it enters the
/// arena with.
#[derive(Debug)]
pub struct Hatchling {
    pub bundle: MinionBundle,
    pub sprite: Sprite,
    pub animation: Animation,
    pub flash: DamageFlash,
}

/// `h` is the minion that answers the request `request`: a chick or a puppy
/// at the place that was asked for, shown with the first picture of its
/// strip, walking, and not flashing.
pub open spec fn hatched(
    h: Hatchling,
    request: SpawnRequest,
    chick_walk: ChickWalkFrames,
    puppy_walk: PuppyWalkFrames,
    chicken_config: ChickenMinionConfig,
    dog_config: DogMinionConfig,
) -> bool {
    &&& h.flash == (DamageFlash { timer: fresh(0, false) })
    &&& h.animation.current_frame == 0
    &&& !h.animation.playing_alt
    &&& h.animation.playing
    &&& !h.animation.flip_x
    &&& !h.animation.flip_y
    &&& h.animation.timer == fresh(MINION_FRAME_TIME, true)
    &&& h.animation.alt_frames is Some
    &&& match request.team {
        ChickenOrDog::Chicken => {
            &&& h.bundle == chick(chicken_config, request.location)
            &&& h.sprite == chick_walk.frames[0]
            &&& h.animation.frames@ == indices(chick_walk.frames@)
            &&& h.animation.alt_frames->0@ == indices(chick_walk.alt_frames@)
        },
        ChickenOrDog::Dog => {
            &&& h.bundle == puppy(dog_config, request.location)
            &&& h.sprite == puppy_walk.frames[0]
            &&& h.animation.frames@ == indices(puppy_walk.frames@)
            &&& h.animation.alt_frames->0@ == indices(puppy_walk.alt_frames@)
        },
    }
}

/// The strip of the side that `request` asks a minion of has a first
/// picture to show the minion with.
pub open spec fn can_hatch(
    request: SpawnRequest,
    chick_walk: ChickWalkFrames,
    puppy_walk: PuppyWalkFrames,
) -> bool {
    match request.team {
        ChickenOrDog::Chicken => chick_walk.frames.len() > 0,
        ChickenOrDog::Dog => puppy_walk.frames.len() > 0,
    }
}

/// The minion that answers `request`.
pub fn hatch(
    request: &SpawnRequest,
    chick_walk: &ChickWalkFrames,
    puppy_walk: &PuppyWalkFrames,
    chicken_config: &ChickenMinionConfig,
    dog_config: &DogMinionConfig,
) -> (h: Hatchling)
    requires
        can_hatch(*request, *chick_walk, *puppy_walk),
    ensures
        hatched(h, *request, *chick_walk, *puppy_walk, *chicken_config, *dog_config),
{
    match request.team {
        ChickenOrDog::Chicken => Hatchling {
            bundle: MinionBundle::spawn_chicken_minion(chicken_config, request.location),
            sprite: chick_walk.frames[0],
            animation: Animation {
                current_frame: 0,
                frames: frame_indices(&chick_walk.frames),
                alt_frames: Some(frame_indices(&chick_walk.alt_frames)),
                playing_alt: false,
                playing: true,
                flip_x: false,
                flip_y: false,
                timer: Timer::new(MINION_FRAME_TIME, true),
            },
            flash: DamageFlash { timer: Timer::new(0, false) },
        },
        ChickenOrDog::Dog => Hatchling {
            bundle: MinionBundle::spawn_dog_minion(dog_config, request.location),
            sprite: puppy_walk.frames[0],
            animation: Animation {
                current_frame: 0,
                frames: frame_indices(&puppy_walk.frames),
                alt_frames: Some(frame_indices(&puppy_walk.alt_frames)),
                playing_alt: false,
                playing: true,
                flip_x: false,
                flip_y: false,
                timer: Timer::new(MINION_FRAME_TIME, true),
            },
            flash: DamageFlash { timer: Timer::new(0, false) },
        },
    }
}

/// Runs the spawn timer of each capture point for `dt` microseconds and
/// makes the minions that the points ask for, in the order of the points: a
/// chick for a point of the chickens, a puppy for a point of the dogs.
pub fn minions_spawner_ai(
    spawners: &mut Vec<Spawner>,
    chick_walk: &ChickWalkFrames,
    puppy_walk: &PuppyWalkFrames,
    chicken_config: &ChickenMinionConfig,
    dog_config: &DogMinionConfig,
    dt: u32,
) -> (spawned: Vec<Hatchling>)
    requires
        forall|k: int|
            0 <= k < broods(views(old(spawners)@), dt).len() ==> can_hatch(
                #[trigger] broods(views(old(spawners)@), dt)[k],
                *chick_walk,
                *puppy_walk,
            ),
    ensures
        final(spawners).len() == old(spawners).len(),
        forall|i: int|
            0 <= i < old(spawners).len() ==> (#[trigger] final(spawners)[i])@ == bred(
                old(spawners)[i]@,
                dt,
            ),
        spawned.len() == broods(views(old(spawners)@), dt).len(),
        forall|k: int|
            0 <= k < spawned.len() ==> hatched(
                #[trigger] spawned[k],
                broods(views(old(spawners)@), dt)[k],
                *chick_walk,
                *puppy_walk,
                *chicken_config,
                *dog_config,
            ),
{
    let requests = tick_spawners(spawners, dt);
    let mut spawned: Vec<Hatchling> = Vec::new();
    let mut k: usize = 0;
    while k < requests.len()
        invariant
            k <= requests.len(),
            spawned.len() == k,
            forall|j: int|
                0 <= j < requests.len() ==> can_hatch(
                    #[trigger] requests[j],
                    *chick_walk,
                    *puppy_walk,
                ),
            forall|j: int|
                0 <= j < k ==> hatched(
                    #[trigger] spawned[j],
                    requests[j],
                    *chick_walk,
                    *puppy_walk,
                    *chicken_config,
                    *dog_config,
                ),
        decreases requests.len() - k,
    {
        let h = hatch(&requests[k], chick_walk, puppy_walk, chicken_config, dog_config);
        spawned.push(h);
        k = k + 1;
    }
    spawned
}

/// The points `spawners` after those who stand on them have pushed their
/// progress for `dt` microseconds.
pub open spec fn contested(spawners: Seq<SpawnerView>, overlaps: Seq<Vec<Occupant>>, dt: u32) -> Seq<
    SpawnerView,
> {
    Seq::new(
        spawners.len(),
        |i: int| captured(spawners[i], influence(standing_on(overlaps, i)), dt as int),
    )
}

/// The rules of the capture points, in the order in which they apply within
/// one step of the match: first the points are contested, then they breed,
/// then the match is decided.
pub struct SpawnerPlugin;

impl SpawnerPlugin {
    /// One step of `dt` microseconds for the capture points.
    ///
    /// While the match is played, those who stand on the points push their
    /// progress, then each point that has an owner runs its spawn timer, and
    /// then the match is decided on the owners that the points have now. The
    /// result holds the minions that the points ask for, in the order of the
    /// points, and the screen that follows if the match is decided. On any
    /// other screen nothing happens.
    pub fn update(
        &self,
        spawners: &mut Vec<Spawner>,
        overlaps: &Vec<Vec<Occupant>>,
        state: &GameState,
        dt: u32,
    ) -> (r: (Vec<SpawnRequest>, Option<GameState>))
        ensures
            final(spawners).len() == old(spawners).len(),
            *state != GameState::GamePlay ==> *final(spawners) == *old(spawners) && r.0.len() == 0
                && r.1 is None,
            *state == GameState::GamePlay ==> {
                &&& forall|i: int|
                    0 <= i < old(spawners).len() ==> (#[trigger] final(spawners)[i])@ == bred(
                        captured(
                            old(spawners)[i]@,
                            influence(standing_on(overlaps@, i)),
                            dt as int,
                        ),
                        dt,
                    )
                &&& r.0@ == broods(contested(views(old(spawners)@), overlaps@, dt), dt)
                &&& r.1 == verdict(final(spawners)@, *state)
            },
    {
        match state {
            GameState::GamePlay => {
                spawner_capture_ai(spawners, overlaps, dt);
                assert(views(spawners@) =~= contested(views(old(spawners)@), overlaps@, dt));
                let requests = tick_spawners(spawners, dt);
                let over = spawner_win_con(spawners, state);
                (requests, over)
            },
            _ => (Vec::new(), None),
        }
    }
}

} // verus!
