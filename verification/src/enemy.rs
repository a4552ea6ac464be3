//! The leader of the dogs: where he goes and whom he shoots.

use vstd::prelude::*;
use rand::Rng;
use crate::assets::{indices, frame_indices, BulletFrames, DogWalkFrames, Sprite};
use crate::bullet::{
    bullet_layers, direction, layers_of_bullet, unit_toward, Bullet, BulletBundle, BULLET_SIZE,
    BULLET_SPEED,
};
use crate::geometry::{dist2, Point};
use crate::map::GameMap;
use crate::movement::{step, stepped};
use crate::prelude::{
    Agent, Animation, CollisionLayers, Enemy, Health, Layer, MovementStats, RespawnTimer,
    ALL_LAYERS,
};
use crate::targeting::{
    heading, may_ask, nearest_target, sight, sightings, target, TargetCandidate,
};
use crate::team::ChickenOrDog;
use crate::timer::{fresh, ticked, Timer};
use crate::GameState;

verus! {

/// The width of a leader's body: a quarter of a world unit.
pub const LEADER_SIZE: u32 = 250_000;

/// How fast the enemy walks: a fifth of a world unit per second.
pub const ENEMY_SPEED: u32 = 200_000;

/// How far the enemy shoots: two and a half world units.
pub const ENEMY_RANGE: u32 = 2_500_000;

/// The pause between two shots of the enemy: six tenths of a second.
pub const ENEMY_COOLDOWN: u32 = 600_000;

/// How long each picture of the walking enemy stays: a fifth of a second.
pub const ENEMY_FRAME_TIME: u32 = 200_000;

/// The place of the first of the enemy's two bullet pictures in the strip of
/// bullets.
pub const ENEMY_BULLET_FRAME: usize = 2;

/// The enemy as he takes aim.
#[derive(Clone, Copy, Debug, PartialEq, Eq, Structural)]
pub struct Shooter {
    pub enemy: Enemy,
    pub position: Point,
    /// Whether the enemy is shown upside down, as he is while he is down.
    pub flip_y: bool,
    pub respawn: RespawnTimer,
}

/// What came of the enemy's turn to shoot.
#[derive(Clone, Copy, Debug, PartialEq, Eq, Structural)]
pub enum Shot {
    /// He did not shoot: he is down, or not ready, or sees nobody.
    Held,
    /// He did not shoot because the nearest he sees is too far.
    OutOfRange,
    /// He shot this bullet.
    Fired(BulletBundle),
}

/// The enemy as he enters the arena.
#[derive(Debug)]
pub struct EnemyBundle {
    pub agent: Agent,
    pub enemy: Enemy,
    pub sprite: Sprite,
    pub animation: Animation,
    /// The radius of the enemy's round body.
    pub collision_radius: u32,
    pub collision_layer: CollisionLayers,
}

/// The leader `agent` after `dt` microseconds of going for the nearest of
/// `targets` that is not of his side and of which `seen` says that he sees
/// it, or for `player` where there is none.
pub open spec fn pursued(
    agent: Agent,
    targets: Seq<TargetCandidate>,
    seen: Seq<bool>,
    player: Point,
    dt: u32,
) -> Agent {
    Agent {
        position: stepped(
            agent.position,
            heading(agent.position, agent.team, targets, seen, player),
            agent.movement_stats.speed,
            dt,
        ),
        ..agent
    }
}

/// `after` is the leader `before` after `dt` microseconds: where he was if
/// he is down, else gone for what `visible` let him see.
pub open spec fn hunted<F: Fn(Point, Point) -> bool>(
    visible: F,
    before: Agent,
    after: Agent,
    targets: Seq<TargetCandidate>,
    player: Point,
    dt: u32,
) -> bool {
    if before.respawn.is_dead {
        after == before
    } else {
        exists|seen: Seq<bool>|
            #[trigger] sightings(visible, before.position, before.team, targets, seen) && after
                == pursued(before, targets, seen, player, dt)
    }
}

/// The bullet that the enemy at `position` shoots at `aim`, shown with
/// `sprite`.
pub open spec fn enemy_bullet(position: Point, aim: Point, sprite: Sprite) -> BulletBundle {
    BulletBundle {
        position,
        bullet: Bullet { speed: BULLET_SPEED, direction: unit_toward(position, aim) },
        team: ChickenOrDog::Dog,
        sprite,
        collision_radius: (BULLET_SIZE / 2) as u32,
        collision_layer: bullet_layers(Layer::Enemy),
        rotates: true,
    }
}

/// The enemy `s` after his turn to shoot, whatever came of it: upside down
/// if he is down, else upright and his cooldown run for `dt` microseconds.
pub open spec fn after_turn(s: Shooter, dt: u32) -> Shooter {
    if s.respawn.is_dead {
        Shooter { flip_y: true, ..s }
    } else {
        Shooter {
            flip_y: false,
            enemy: Enemy { bullet_cooldown: ticked(s.enemy.bullet_cooldown, dt), ..s.enemy },
            ..s
        }
    }
}

/// Whether the enemy looks for somebody to shoot: he is not down, and his
/// cooldown has run out.
pub open spec fn takes_aim(s: Shooter) -> bool {
    !s.respawn.is_dead && s.enemy.bullet_cooldown.finished
}

/// `shot` is what comes of the turn of the enemy `s` when `aim` is the
/// nearest chicken he sees: nothing where he sees none, nothing where the
/// nearest is farther than his range, else a bullet at the nearest, shown
/// with one of the enemy's two bullet pictures.
pub open spec fn is_shot(s: Shooter, aim: Option<Point>, frames: Seq<Sprite>, shot: Shot) -> bool {
    match aim {
        None => shot is Held,
        Some(p) => if dist2(p, s.position) > s.enemy.range * s.enemy.range {
            shot is OutOfRange
        } else {
            exists|variant: int|
                0 <= variant < 2 && shot == Shot::Fired(
                    enemy_bullet(s.position, p, #[trigger] frames[ENEMY_BULLET_FRAME + variant]),
                )
        },
    }
}

/// `after` and `shot` are what the turn of the enemy `before` comes to.
pub open spec fn is_turn<F: Fn(Point, Point) -> bool>(
    visible: F,
    before: Shooter,
    after: Shooter,
    shot: Shot,
    targets: Seq<TargetCandidate>,
    frames: Seq<Sprite>,
    dt: u32,
) -> bool {
    &&& after == after_turn(before, dt)
    &&& if takes_aim(before) {
        exists|seen: Seq<bool>|
            #[trigger] sightings(visible, before.position, ChickenOrDog::Dog, targets, seen)
                && is_shot(
                before,
                target(before.position, ChickenOrDog::Dog, targets, seen),
                frames,
                shot,
            )
    } else {
        shot is Held
    }
}

/// The enemy as he starts out on a map: at the enemy's place, on the dogs'
/// side, alive, with all his hit points.
pub open spec fn enemy_agent(map: GameMap, full_health: Health) -> Agent {
    Agent {
        position: map.enemy_spawn,
        team: ChickenOrDog::Dog,
        movement_stats: MovementStats { speed: ENEMY_SPEED },
        health: full_health,
        respawn: RespawnTimer { is_dead: false, timer: fresh(0, false) },
    }
}

/// What the enemy carries as he starts out.
pub open spec fn enemy_gun() -> Enemy {
    Enemy { range: ENEMY_RANGE, bullet_cooldown: fresh(ENEMY_COOLDOWN, true) }
}

/// Calls `rand::thread_rng().gen_range(0..2)`, which draws a number from
/// the range that begins at 0 and ends before 2.
#[verifier::external_body]
fn toss() -> (n: usize)
    ensures
        n < 2,
{
    rand::thread_rng().gen_range(0..2)
}

/// What comes of the turn of the enemy `s` when `aim` is the nearest chicken
/// he sees and `variant` picks the picture of his bullet.
pub fn shoot_at(s: &Shooter, aim: Option<Point>, bullets: &BulletFrames, variant: usize) -> (shot:
    Shot)
    requires
        variant < 2,
        bullets.frames.len() >= 4,
    ensures
        is_shot(*s, aim, bullets.frames@, shot),
        aim matches Some(p) ==> (dist2(p, s.position) <= s.enemy.range * s.enemy.range ==> shot
            == Shot::Fired(
            enemy_bullet(s.position, p, bullets.frames[ENEMY_BULLET_FRAME + variant]),
        )),
{
    match aim {
        None => Shot::Held,
        Some(p) => {
            let reach: u128 = s.enemy.range as u128;
            assert(reach * reach <= 0xffff_ffff * 0xffff_ffff) by (nonlinear_arith)
                requires
                    0 <= reach <= 0xffff_ffff,
            ;
            if p.distance_squared(s.position) > reach * reach {
                Shot::OutOfRange
            } else {
                Shot::Fired(
                    BulletBundle {
                        position: s.position,
                        bullet: Bullet { speed: BULLET_SPEED, direction: direction(s.position, p) },
                        team: ChickenOrDog::Dog,
                        sprite: bullets.frames[ENEMY_BULLET_FRAME + variant],
                        collision_radius: BULLET_SIZE / 2,
                        collision_layer: layers_of_bullet(Layer::Enemy),
                        rotates: true,
                    },
                )
            }
        },
    }
}

impl Shooter {
    /// The enemy's turn to shoot.
    ///
    /// An enemy that is down is shown upside down and does nothing. One
    /// whose cooldown has not run out lets it run. One that is ready lets it
    /// run too, which starts it anew, and looks for the nearest chicken that
    /// `visibility_check` lets him see: he shoots at it if it is within his
    /// range.
    pub fn take_turn<F: Fn(Point, Point) -> bool>(
        &mut self,
        targets: &Vec<TargetCandidate>,
        visibility_check: &F,
        bullets: &BulletFrames,
        dt: u32,
    ) -> (shot: Shot)
        requires
            bullets.frames.len() >= 4,
            may_ask(*visibility_check, old(self).position, ChickenOrDog::Dog, targets@),
        ensures
            is_turn(
                *visibility_check,
                *old(self),
                *final(self),
                shot,
                targets@,
                bullets.frames@,
                dt,
            ),
    {
        if self.respawn.is_dead {
            self.flip_y = true;
            return Shot::Held;
        }
        self.flip_y = false;
        if !self.enemy.bullet_cooldown.finished() {
            self.enemy.bullet_cooldown.tick(dt);
            return Shot::Held;
        }
        let seen = sight(self.position, ChickenOrDog::Dog, targets, visibility_check);
        self.enemy.bullet_cooldown.tick(dt);
        let aim = nearest_target(self.position, ChickenOrDog::Dog, targets, &seen);
        let variant = match aim {
            Some(_) => toss(),
            None => 0,
        };
        let shot = shoot_at(self, aim, bullets, variant);
        assert(sightings(*visibility_check, old(self).position, ChickenOrDog::Dog, targets@, seen@));
        shot
    }
}

/// Moves each leader of `enemies` for `dt` microseconds.
///
/// A leader that is down stays. Any other goes for the nearest of `targets`
/// that has no side or the other side and that `visibility_check` lets him
/// see from where he stands, and for `player` where there is none.
pub fn enemy_ai<F: Fn(Point, Point) -> bool>(
    enemies: &mut Vec<Agent>,
    targets: &Vec<TargetCandidate>,
    player: Point,
    visibility_check: &F,
    dt: u32,
)
    requires
        forall|i: int|
            0 <= i < old(enemies).len() && !(#[trigger] old(enemies)[i]).respawn.is_dead
                ==> may_ask(
                *visibility_check,
                old(enemies)[i].position,
                old(enemies)[i].team,
                targets@,
            ),
    ensures
        final(enemies).len() == old(enemies).len(),
        forall|i: int|
            0 <= i < old(enemies).len() ==> hunted(
                *visibility_check,
                old(enemies)[i],
                #[trigger] final(enemies)[i],
                targets@,
                player,
                dt,
            ),
{
    let mut i: usize = 0;
    while i < enemies.len()
        invariant
            i <= enemies.len(),
            enemies.len() == old(enemies).len(),
            forall|i: int|
                0 <= i < old(enemies).len() && !(#[trigger] old(enemies)[i]).respawn.is_dead
                    ==> may_ask(
                    *visibility_check,
                    old(enemies)[i].position,
                    old(enemies)[i].team,
                    targets@,
                ),
            forall|j: int|
                0 <= j < i ==> hunted(
                    *visibility_check,
                    old(enemies)[j],
                    #[trigger] enemies[j],
                    targets@,
                    player,
                    dt,
                ),
            forall|j: int| i <= j < enemies.len() ==> enemies[j] == old(enemies)[j],
        decreases enemies.len() - i,
    {
        let agent = enemies[i];
        if !agent.respawn.is_dead {
            assert(agent == old(enemies)[i as int]);
            let seen = sight(agent.position, agent.team, targets, visibility_check);
            let goal = match nearest_target(agent.position, agent.team, targets, &seen) {
                Some(p) => p,
                None => player,
            };
            let position = step(agent.position, goal, agent.movement_stats.speed, dt);
            enemies.set(i, Agent { position, ..agent });
            assert(enemies[i as int] == pursued(agent, targets@, seen@, player, dt));
        }
        i = i + 1;
    }
}

/// Lets each enemy of `enemies` take his turn to shoot, in their order,
/// and reports what came of each turn.
///
/// The turns end with the first enemy whose nearest chicken is out of his
/// range: those that come after him do not take theirs.
pub fn enemy_shoot<F: Fn(Point, Point) -> bool>(
    enemies: &mut Vec<Shooter>,
    targets: &Vec<TargetCandidate>,
    visibility_check: &F,
    bullets: &BulletFrames,
    dt: u32,
) -> (shots: Vec<Shot>)
    requires
        bullets.frames.len() >= 4,
        forall|i: int|
            0 <= i < old(enemies).len() ==> may_ask(
                *visibility_check,
                (#[trigger] old(enemies)[i]).position,
                ChickenOrDog::Dog,
                targets@,
            ),
    ensures
        final(enemies).len() == old(enemies).len(),
        shots.len() <= old(enemies).len(),
        forall|i: int|
            0 <= i < shots.len() ==> is_turn(
                *visibility_check,
                old(enemies)[i],
                #[trigger] final(enemies)[i],
                shots[i],
                targets@,
                bullets.frames@,
                dt,
            ),
        forall|i: int| shots.len() <= i < old(enemies).len() ==> final(enemies)[i] == old(enemies)[i],
        forall|i: int| 0 <= i < shots.len() - 1 ==> !((#[trigger] shots[i]) is OutOfRange),
        shots.len() < old(enemies).len() ==> shots.len() > 0 && shots[shots.len() - 1] is OutOfRange,
{
    let mut shots: Vec<Shot> = Vec::new();
    let mut i: usize = 0;
    let mut stopped = false;
    while i < enemies.len() && !stopped
        invariant
            i <= enemies.len(),
            enemies.len() == old(enemies).len(),
            bullets.frames.len() >= 4,
            shots.len() == i,
            forall|i: int|
                0 <= i < old(enemies).len() ==> may_ask(
                    *visibility_check,
                    (#[trigger] old(enemies)[i]).position,
                    ChickenOrDog::Dog,
                    targets@,
                ),
            forall|j: int|
                0 <= j < i ==> is_turn(
                    *visibility_check,
                    old(enemies)[j],
                    #[trigger] enemies[j],
                    shots[j],
                    targets@,
                    bullets.frames@,
                    dt,
                ),
            forall|j: int| i <= j < enemies.len() ==> enemies[j] == old(enemies)[j],
            stopped ==> i > 0 && shots[i - 1] is OutOfRange,
            forall|j: int| 0 <= j < i - 1 ==> !((#[trigger] shots[j]) is OutOfRange),
            !stopped ==> forall|j: int| 0 <= j < i ==> !((#[trigger] shots[j]) is OutOfRange),
        decreases enemies.len() - i,
    {
        let mut shooter = enemies[i];
        assert(shooter == old(enemies)[i as int]);
        let shot = shooter.take_turn(targets, visibility_check, bullets, dt);
        enemies.set(i, shooter);
        match shot {
            Shot::OutOfRange => {
                stopped = true;
            },
            _ => {},
        }
        shots.push(shot);
        i = i + 1;
    }
    shots
}

/// The enemy as he enters the arena of `map`, with the pictures `dog_walk`:
/// at the enemy's place, on the dogs' side, walking, with all his hit points.
pub fn spawn_enemy(map: &GameMap, dog_walk: &DogWalkFrames, full_health: Health) -> (r: EnemyBundle)
    requires
        dog_walk.frames.len() > 0,
    ensures
        r.agent == enemy_agent(*map, full_health),
        r.enemy == enemy_gun(),
        r.sprite == dog_walk.frames[0],
        r.animation.frames@ == indices(dog_walk.frames@),
        r.animation.alt_frames matches Some(alt) && alt@ == indices(dog_walk.alt_frames@),
        r.animation.current_frame == 0 && !r.animation.playing_alt && r.animation.playing
            && r.animation.flip_x && !r.animation.flip_y,
        r.animation.timer == fresh(ENEMY_FRAME_TIME, true),
        r.collision_radius == LEADER_SIZE / 2,
        r.collision_layer == (CollisionLayers {
            groups: 0u32 | Layer::Enemy.bits(),
            masks: ALL_LAYERS,
        }),
{
    EnemyBundle {
        agent: Agent {
            position: map.enemy_spawn,
            team: ChickenOrDog::Dog,
            movement_stats: MovementStats { speed: ENEMY_SPEED },
            health: full_health,
            respawn: RespawnTimer { is_dead: false, timer: Timer::new(0, false) },
        },
        enemy: Enemy { range: ENEMY_RANGE, bullet_cooldown: Timer::new(ENEMY_COOLDOWN, true) },
        sprite: dog_walk.frames[0],
        animation: Animation {
            current_frame: 0,
            frames: frame_indices(&dog_walk.frames),
            alt_frames: Some(frame_indices(&dog_walk.alt_frames)),
            playing_alt: false,
            playing: true,
            flip_x: true,
            flip_y: false,
            timer: Timer::new(ENEMY_FRAME_TIME, true),
        },
        collision_radius: LEADER_SIZE / 2,
        collision_layer: CollisionLayers::all_masks().with_group(Layer::Enemy),
    }
}

/// The rules of the enemy.
pub struct EnemyPlugin;

impl EnemyPlugin {
    /// One step of `dt` microseconds for the enemy: while the match is
    /// played he moves and then takes his turn to shoot, from where he stood
    /// when the step began. On any other screen nothing happens.
    pub fn update<F: Fn(Point, Point) -> bool>(
        &self,
        enemies: &mut Vec<Agent>,
        shooters: &mut Vec<Shooter>,
        move_targets: &Vec<TargetCandidate>,
        shoot_targets: &Vec<TargetCandidate>,
        player: Point,
        visibility_check: &F,
        bullets: &BulletFrames,
        state: &GameState,
        dt: u32,
    ) -> (shots: Vec<Shot>)
        requires
            bullets.frames.len() >= 4,
            forall|i: int|
                0 <= i < old(enemies).len() && !(#[trigger] old(enemies)[i]).respawn.is_dead
                    ==> may_ask(
                    *visibility_check,
                    old(enemies)[i].position,
                    old(enemies)[i].team,
                    move_targets@,
                ),
            forall|i: int|
                0 <= i < old(shooters).len() ==> may_ask(
                    *visibility_check,
                    (#[trigger] old(shooters)[i]).position,
                    ChickenOrDog::Dog,
                    shoot_targets@,
                ),
        ensures
            final(enemies).len() == old(enemies).len(),
            final(shooters).len() == old(shooters).len(),
            *state != GameState::GamePlay ==> *final(enemies) == *old(enemies) && *final(shooters)
                == *old(shooters) && shots.len() == 0,
            *state == GameState::GamePlay ==> {
                &&& forall|i: int|
                    0 <= i < old(enemies).len() ==> hunted(
                        *visibility_check,
                        old(enemies)[i],
                        #[trigger] final(enemies)[i],
                        move_targets@,
                        player,
                        dt,
                    )
                &&& shots.len() <= old(shooters).len()
                &&& forall|i: int|
                    0 <= i < shots.len() ==> is_turn(
                        *visibility_check,
                        old(shooters)[i],
                        #[trigger] final(shooters)[i],
                        shots[i],
                        shoot_targets@,
                        bullets.frames@,
                        dt,
                    )
                &&& forall|i: int|
                    shots.len() <= i < old(shooters).len() ==> final(shooters)[i] == old(shooters)[i]
                &&& forall|i: int| 0 <= i < shots.len() - 1 ==> !((#[trigger] shots[i]) is OutOfRange)
                &&& shots.len() < old(shooters).len() ==> shots.len() > 0 && shots[shots.len()
                    - 1] is OutOfRange
            },
    {
        match state {
            GameState::GamePlay => {
                enemy_ai(enemies, move_targets, player, visibility_check, dt);
                enemy_shoot(shooters, shoot_targets, visibility_check, bullets, dt)
            },
            _ => Vec::new(),
        }
    }
}

} // verus!
