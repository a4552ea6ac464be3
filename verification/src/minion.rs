//! Minions: the foot soldiers that capture points breed.

use vstd::prelude::*;
use crate::assets::Color;
use crate::geometry::Point;
use crate::movement::{step, stepped};
use crate::prelude::{CollisionLayers, Health, Layer, MovementStats, ALL_LAYERS};
use crate::targeting::{everything, heading, nearest_target, TargetCandidate};
use crate::team::ChickenOrDog;
use crate::GameState;

verus! {

/// The width of a minion: a quarter of a world unit.
pub const MINION_SIZE: u32 = 250_000;

/// A minion as it enters the arena.
#[derive(Clone, Copy, Debug, PartialEq, Eq, Structural)]
pub struct MinionBundle {
    pub position: Point,
    pub movement_stats: MovementStats,
    pub minion_type: ChickenOrDog,
    pub hp: Health,
    /// The radius of the minion's round body.
    pub collision_radius: u32,
    pub collision_layer: CollisionLayers,
    pub color: Color,
    /// The size at which the minion is drawn, where it is not the size of
    /// its picture.
    pub custom_size: Option<Point>,
}

/// What a puppy is made with.
#[derive(Clone, Copy, Debug, PartialEq, Eq, Structural)]
pub struct DogMinionConfig {
    pub speed: u32,
    pub hp: i32,
}

/// What a chick is made with.
#[derive(Clone, Copy, Debug, PartialEq, Eq, Structural)]
pub struct ChickenMinionConfig {
    pub speed: u32,
    pub hp: i32,
}

/// The puppy that `config` makes at `spawn_location`: a salmon body a
/// quarter of a world unit wide, on the enemy's layer.
pub open spec fn puppy(config: DogMinionConfig, spawn_location: Point) -> MinionBundle {
    MinionBundle {
        position: spawn_location,
        movement_stats: MovementStats { speed: config.speed },
        minion_type: ChickenOrDog::Dog,
        hp: Health(config.hp),
        collision_radius: (MINION_SIZE / 2) as u32,
        collision_layer: CollisionLayers {
            groups: 0u32 | Layer::Enemy.bits(),
            masks: ALL_LAYERS,
        },
        color: Color::Salmon,
        custom_size: Some(Point { x: MINION_SIZE as i32, y: MINION_SIZE as i32 }),
    }
}

/// The chick that `config` makes at `spawn_location`: a green body, drawn
/// as large as its picture, on the player's layer.
pub open spec fn chick(config: ChickenMinionConfig, spawn_location: Point) -> MinionBundle {
    MinionBundle {
        position: spawn_location,
        movement_stats: MovementStats { speed: config.speed },
        minion_type: ChickenOrDog::Chicken,
        hp: Health(config.hp),
        collision_radius: (MINION_SIZE / 2) as u32,
        collision_layer: CollisionLayers {
            groups: 0u32 | Layer::Player.bits(),
            masks: ALL_LAYERS,
        },
        color: Color::Green,
        custom_size: None,
    }
}

/// The minion `m` after `dt` microseconds: it has gone for the nearest of
/// `targets` that is not of its own side, or for the player where there is
/// none.
pub open spec fn marched(m: MinionBundle, targets: Seq<TargetCandidate>, player: Point, dt: u32) -> MinionBundle {
    MinionBundle {
        position: stepped(
            m.position,
            heading(m.position, m.minion_type, targets, everything(targets.len()), player),
            m.movement_stats.speed,
            dt,
        ),
        ..m
    }
}

/// The minions of `minions` that have hit points left, in their order.
pub open spec fn survivors(minions: Seq<MinionBundle>) -> Seq<MinionBundle>
    decreases minions.len(),
{
    if minions.len() == 0 {
        Seq::empty()
    } else if minions.last().hp.0 > 0 {
        survivors(minions.drop_last()).push(minions.last())
    } else {
        survivors(minions.drop_last())
    }
}

/// Every survivor has hit points left, and no minion with hit points left
/// is lost.
pub proof fn lemma_survivors(minions: Seq<MinionBundle>)
    ensures
        forall|i: int| 0 <= i < survivors(minions).len() ==> (#[trigger] survivors(minions)[i]).hp.0 > 0,
        forall|i: int|
            0 <= i < minions.len() && (#[trigger] minions[i]).hp.0 > 0 ==> survivors(
                minions,
            ).contains(minions[i]),
        survivors(minions).len() <= minions.len(),
    decreases minions.len(),
{
    if minions.len() > 0 {
        let rest = minions.drop_last();
        lemma_survivors(rest);
        let s = survivors(minions);
        assert forall|i: int| 0 <= i < minions.len() && (#[trigger] minions[i]).hp.0 > 0 implies s.contains(
            minions[i],
        ) by {
            if i < minions.len() - 1 {
                assert(rest[i] == minions[i]);
                let k = choose|k: int| 0 <= k < survivors(rest).len() && survivors(rest)[k] == rest[i];
                assert(s[k] == minions[i]);
            } else {
                assert(s[s.len() - 1] == minions[i]);
            }
        }
    }
}

impl MinionBundle {
    /// Whether the minion has no hit points left.
    pub fn is_dead(&self) -> (b: bool)
        ensures
            b == (self.hp.0 <= 0),
    {
        self.hp.0 <= 0
    }

    /// The puppy that `config` makes at `spawn_location`.
    pub fn spawn_dog_minion(config: &DogMinionConfig, spawn_location: Point) -> (r: MinionBundle)
        ensures
            r == puppy(*config, spawn_location),
    {
        MinionBundle {
            position: spawn_location,
            movement_stats: MovementStats { speed: config.speed },
            minion_type: ChickenOrDog::Dog,
            hp: Health(config.hp),
            collision_radius: MINION_SIZE / 2,
            collision_layer: CollisionLayers::all_masks().with_group(Layer::Enemy),
            color: Color::Salmon,
            custom_size: Some(Point { x: MINION_SIZE as i32, y: MINION_SIZE as i32 }),
        }
    }

    /// The chick that `config` makes at `spawn_location`.
    pub fn spawn_chicken_minion(config: &ChickenMinionConfig, spawn_location: Point) -> (r:
        MinionBundle)
        ensures
            r == chick(*config, spawn_location),
    {
        MinionBundle {
            position: spawn_location,
            movement_stats: MovementStats { speed: config.speed },
            minion_type: ChickenOrDog::Chicken,
            hp: Health(config.hp),
            collision_radius: MINION_SIZE / 2,
            collision_layer: CollisionLayers::all_masks().with_group(Layer::Player),
            color: Color::Green,
            custom_size: None,
        }
    }
}

/// Moves each minion for `dt` microseconds.
///
/// A minion goes for the nearest of `targets` that has no side or the other
/// side, in a straight line and whatever stands in between. Where there is
/// no such target it goes for `player`. All minions see the targets where
/// they were when the step began.
pub fn minions_ai(
    minions: &mut Vec<MinionBundle>,
    targets: &Vec<TargetCandidate>,
    player: Point,
    dt: u32,
)
    ensures
        final(minions).len() == old(minions).len(),
        forall|i: int|
            0 <= i < old(minions).len() ==> #[trigger] final(minions)[i] == marched(
                old(minions)[i],
                targets@,
                player,
                dt,
            ),
{
    let seen = all_seen(targets.len());
    let mut i: usize = 0;
    while i < minions.len()
        invariant
            i <= minions.len(),
            minions.len() == old(minions).len(),
            seen@ == everything(targets.len() as nat),
            forall|j: int|
                0 <= j < i ==> #[trigger] minions[j] == marched(old(minions)[j], targets@, player, dt),
            forall|j: int| i <= j < minions.len() ==> minions[j] == old(minions)[j],
        decreases minions.len() - i,
    {
        let m = minions[i];
        let goal = match nearest_target(m.position, m.minion_type, targets, &seen) {
            Some(p) => p,
            None => player,
        };
        let position = step(m.position, goal, m.movement_stats.speed, dt);
        minions.set(i, MinionBundle { position, ..m });
        i = i + 1;
    }
}

/// `n` sightings, each of them good.
fn all_seen(n: usize) -> (seen: Vec<bool>)
    ensures
        seen@ == everything(n as nat),
{
    let mut seen: Vec<bool> = Vec::new();
    let mut i: usize = 0;
    while i < n
        invariant
            i <= n,
            seen.len() == i,
            forall|j: int| 0 <= j < i ==> seen[j],
        decreases n - i,
    {
        seen.push(true);
        i = i + 1;
    }
    assert(seen@ =~= everything(n as nat));
    seen
}

/// Takes the minions that have no hit points left out of the arena.
pub fn minion_death(minions: &mut Vec<MinionBundle>)
    ensures
        final(minions)@ == survivors(old(minions)@),
{
    let mut kept: Vec<MinionBundle> = Vec::new();
    let mut i: usize = 0;
    while i < minions.len()
        invariant
            i <= minions.len(),
            *minions == *old(minions),
            kept@ == survivors(minions@.take(i as int)),
        decreases minions.len() - i,
    {
        assert(minions@.take(i + 1).drop_last() =~= minions@.take(i as int));
        let m = minions[i];
        if !m.is_dead() {
            kept.push(m);
        }
        i = i + 1;
    }
    assert(minions@.take(minions.len() as int) =~= minions@);
    *minions = kept;
}

/// The rules of the minions.
pub struct MinionPlugin;

impl MinionPlugin {
    /// One step of `dt` microseconds for the minions: while the match is
    /// played they move, and on every screen those that have no hit points
    /// left leave the arena. A minion moves before it is seen to be dead.
    pub fn update(
        &self,
        minions: &mut Vec<MinionBundle>,
        targets: &Vec<TargetCandidate>,
        player: Point,
        state: &GameState,
        dt: u32,
    )
        ensures
            *state == GameState::GamePlay ==> final(minions)@ == survivors(
                Seq::new(
                    old(minions).len() as nat,
                    |i: int| marched(old(minions)[i], targets@, player, dt),
                ),
            ),
            *state != GameState::GamePlay ==> final(minions)@ == survivors(old(minions)@),
    {
        match state {
            GameState::GamePlay => {
                minions_ai(minions, targets, player, dt);
                assert(minions@ =~= Seq::new(
                    old(minions).len() as nat,
                    |i: int| marched(old(minions)[i], targets@, player, dt),
                ));
            },
            _ => {},
        }
        minion_death(minions);
    }
}

} // verus!
