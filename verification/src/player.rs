//! The leader of the chickens: how he moves, shoots, falls and returns.

use vstd::prelude::*;
use crate::assets::{frame_indices, indices, ChickenWalkFrames, Color, Sprite};
use crate::bullet::{
    bullet_layers, direction, layers_of_bullet, unit_toward, Bullet, BulletBundle, BULLET_SIZE,
    BULLET_SPEED,
};
use crate::fixed::{clamp, clamp_to_i32, div_trunc, lemma_div_trunc_bounds, quotient, ONE};
use crate::geometry::Point;
use crate::map::{locations_of, marked, GameMap};
use crate::prelude::{
    Agent, Animation, CollisionLayers, Health, Layer, MovementStats, Player, RespawnTimer,
    ALL_LAYERS,
};
use crate::targeting::{farthest, find_farthest};
use crate::team::ChickenOrDog;
use crate::timer::{fresh, ticked, Timer};
use crate::GameState;

verus! {

/// How fast the player walks: half a world unit per second.
pub const PLAYER_SPEED: u32 = 500_000;

/// The pause between two shots of the player: 0.35 seconds.
pub const PLAYER_COOLDOWN: u32 = 350_000;

/// How long each picture of the walking player stays: a tenth of a second.
pub const PLAYER_FRAME_TIME: u32 = 100_000;

/// How long a fallen leader stays down: two seconds.
pub const RESPAWN_TIME: u32 = 2_000_000;

/// How far a stick must be pushed to make the player walk: a hundredth.
pub const WALK_DEADZONE: i32 = 10_000;

/// How far the aim must be pushed to make the player shoot: a tenth.
pub const AIM_DEADZONE: i32 = 100_000;

/// How far beside the player his bullet starts: 0.08 world units.
pub const MUZZLE_OFFSET: i32 = 80_000;

/// The keys that move the player.
#[derive(Clone, Copy, Debug, PartialEq, Eq, Structural)]
pub struct Keys {
    pub left: bool,
    pub right: bool,
    pub up: bool,
    pub down: bool,
}

/// The player as he enters the arena.
#[derive(Debug)]
pub struct PlayerBundle {
    pub agent: Agent,
    pub player: Player,
    pub sprite: Sprite,
    pub animation: Animation,
    /// The radius of the player's round body.
    pub collision_radius: u32,
    pub collision_layer: CollisionLayers,
}

/// A coordinate moved by `push * speed * dt`, where `push` is in millionths,
/// rounded toward zero and held on the grid.
pub open spec fn pushed(from: int, push: int, speed: u32, dt: u32) -> int {
    clamp(from + div_trunc(push * speed * dt, ONE as int * ONE), i32::MIN as int, i32::MAX as int)
}

/// The place `p` after each of the sticks has pushed it in turn.
pub open spec fn strolled(p: Point, sticks: Seq<Point>, speed: u32, dt: u32) -> Point
    decreases sticks.len(),
{
    if sticks.len() == 0 {
        p
    } else {
        let q = strolled(p, sticks.drop_last(), speed, dt);
        Point {
            x: pushed(q.x as int, sticks.last().x as int, speed, dt) as i32,
            y: pushed(q.y as int, sticks.last().y as int, speed, dt) as i32,
        }
    }
}

/// Whether any of the sticks is pushed out of its rest.
pub open spec fn any_pushed(sticks: Seq<Point>) -> bool {
    exists|i: int|
        0 <= i < sticks.len() && ((#[trigger] sticks[i]).x > WALK_DEADZONE || sticks[i].x
            < -WALK_DEADZONE || sticks[i].y > WALK_DEADZONE || sticks[i].y < -WALK_DEADZONE)
}

/// What the keys push: one whole to the right for `right`, to the left for
/// `left`, up for `up` and down for `down`.
pub open spec fn key_push(keys: Keys) -> Point {
    Point {
        x: if keys.right == keys.left {
            0
        } else if keys.right {
            ONE
        } else {
            -ONE as i32
        },
        y: if keys.up == keys.down {
            0
        } else if keys.up {
            ONE
        } else {
            -ONE as i32
        },
    }
}

/// Where the player stands after walking for `dt` microseconds: pushed by
/// each stick in turn, then by the keys, right before left before up before
/// down.
pub open spec fn walked(p: Point, sticks: Seq<Point>, keys: Keys, speed: u32, dt: u32) -> Point {
    let q = strolled(p, sticks, speed, dt);
    let x1 = if keys.right {
        pushed(q.x as int, ONE as int, speed, dt)
    } else {
        q.x as int
    };
    let x2 = if keys.left {
        pushed(x1, -ONE, speed, dt)
    } else {
        x1
    };
    let y1 = if keys.up {
        pushed(q.y as int, ONE as int, speed, dt)
    } else {
        q.y as int
    };
    let y2 = if keys.down {
        pushed(y1, -ONE, speed, dt)
    } else {
        y1
    };
    Point { x: x2 as i32, y: y2 as i32 }
}

/// The animation of the player after he has walked: it plays if a stick is
/// pushed or a key to the side is down, or if a key up or down is down and
/// he is not shooting; and while he is not shooting he looks where the last
/// key to the side sends him.
pub open spec fn walking(a: Animation, sticks: Seq<Point>, keys: Keys) -> Animation {
    Animation {
        playing: any_pushed(sticks) || keys.right || keys.left || ((keys.up || keys.down)
            && !a.playing_alt),
        flip_x: if a.playing_alt {
            a.flip_x
        } else if keys.left {
            false
        } else if keys.right {
            true
        } else {
            a.flip_x
        },
        ..a
    }
}

/// Where the player aims: where the last of the sticks points, moved by one
/// whole for each arrow key that is down.
pub open spec fn aimed(sticks: Seq<Point>, keys: Keys) -> (int, int) {
    let base = if sticks.len() == 0 {
        Point { x: 0, y: 0 }
    } else {
        sticks.last()
    };
    (base.x + key_push(keys).x, base.y + key_push(keys).y)
}

/// Whether the aim is pushed far enough to shoot: farther than
/// `AIM_DEADZONE`.
pub open spec fn aims(aim: (int, int)) -> bool {
    aim.0 * aim.0 + aim.1 * aim.1 > AIM_DEADZONE * AIM_DEADZONE
}

/// The aim as a point of the grid.
pub open spec fn aim_point(aim: (int, int)) -> Point {
    Point {
        x: clamp(aim.0, i32::MIN as int, i32::MAX as int) as i32,
        y: clamp(aim.1, i32::MIN as int, i32::MAX as int) as i32,
    }
}

/// The bullet that the player at `position` shoots in `direction`: it starts
/// `MUZZLE_OFFSET` to the side to which it flies.
pub open spec fn player_bullet(position: Point, direction: Point) -> BulletBundle {
    BulletBundle {
        position: Point {
            x: clamp(
                position.x + if direction.x < 0 {
                    -MUZZLE_OFFSET
                } else {
                    MUZZLE_OFFSET as int
                },
                i32::MIN as int,
                i32::MAX as int,
            ) as i32,
            y: position.y,
        },
        bullet: Bullet { speed: BULLET_SPEED, direction },
        team: ChickenOrDog::Chicken,
        sprite: Sprite {
            index: 0,
            color: Color::DarkGreen,
            flip_x: false,
            flip_y: false,
            custom_size: Some(Point { x: BULLET_SIZE as i32, y: BULLET_SIZE as i32 }),
        },
        collision_radius: (BULLET_SIZE / 2) as u32,
        collision_layer: bullet_layers(Layer::Player),
        rotates: false,
    }
}

/// Whether the player shoots: he is not down, his cooldown has run out, and
/// he aims.
pub open spec fn shoots(player: Player, agent: Agent, sticks: Seq<Point>, keys: Keys) -> bool {
    !agent.respawn.is_dead && player.bullet_cooldown.finished && aims(aimed(sticks, keys))
}

/// The way in which the player shoots: the unit of his aim.
pub open spec fn shot_way(sticks: Seq<Point>, keys: Keys) -> Point {
    unit_toward(Point { x: 0, y: 0 }, aim_point(aimed(sticks, keys)))
}

/// The bullet that the player shoots in his turn, if he shoots.
pub open spec fn fired(player: Player, agent: Agent, sticks: Seq<Point>, keys: Keys) -> Option<
    BulletBundle,
> {
    if shoots(player, agent, sticks, keys) {
        Some(player_bullet(agent.position, shot_way(sticks, keys)))
    } else {
        None
    }
}

/// What the player carries after his turn to shoot: his cooldown has run for
/// `dt` microseconds if it had not run out, or if he shot.
pub open spec fn reloaded(player: Player, agent: Agent, sticks: Seq<Point>, keys: Keys, dt: u32) -> Player {
    if !agent.respawn.is_dead && (!player.bullet_cooldown.finished || shoots(
        player,
        agent,
        sticks,
        keys,
    )) {
        Player { bullet_cooldown: ticked(player.bullet_cooldown, dt) }
    } else {
        player
    }
}

/// The animation of the player after his turn to shoot: upside down and
/// still if he is down, else upright; and if he shot, at the start of his
/// second strip and looking where he shot.
pub open spec fn recoiled(
    player: Player,
    agent: Agent,
    a: Animation,
    sticks: Seq<Point>,
    keys: Keys,
) -> Animation {
    if agent.respawn.is_dead {
        Animation { flip_y: true, playing: false, ..a }
    } else if shoots(player, agent, sticks, keys) {
        Animation {
            flip_y: false,
            current_frame: 0,
            playing_alt: true,
            flip_x: shot_way(sticks, keys).x < 0,
            ..a
        }
    } else {
        Animation { flip_y: false, ..a }
    }
}

/// Where a leader of `team` returns to from `position`: to the farthest of
/// the capture points that his side holds, or where there is none to the
/// place at which his side starts.
pub open spec fn refuge(
    position: Point,
    team: ChickenOrDog,
    spawners: Seq<(Point, ChickenOrDog)>,
    map: GameMap,
) -> Point {
    match farthest(position, marked(spawners, team)) {
        Some(p) => p,
        None => match team {
            ChickenOrDog::Chicken => map.player_spawn,
            ChickenOrDog::Dog => map.enemy_spawn,
        },
    }
}

/// The leader `a` after `dt` microseconds of falling and returning.
///
/// A leader who has no hit points left and is not down yet goes down with
/// all his hit points and a countdown of `RESPAWN_TIME`. Then the countdown
/// runs. When it runs out the leader is up again with all his hit points, at
/// his refuge.
pub open spec fn revived(
    a: Agent,
    spawners: Seq<(Point, ChickenOrDog)>,
    map: GameMap,
    full_health: Health,
    dt: u32,
) -> Agent {
    let fallen = if a.health.0 <= 0 && !a.respawn.is_dead {
        Agent {
            health: full_health,
            respawn: RespawnTimer { is_dead: true, timer: fresh(RESPAWN_TIME, false) },
            ..a
        }
    } else {
        a
    };
    let timer = ticked(fallen.respawn.timer, dt);
    if timer.just_finished {
        Agent {
            position: refuge(a.position, a.team, spawners, map),
            health: full_health,
            respawn: RespawnTimer { is_dead: false, timer },
            ..fallen
        }
    } else {
        Agent { respawn: RespawnTimer { timer, ..fallen.respawn }, ..fallen }
    }
}

/// One coordinate of a push.
fn push(from: i32, by: i32, speed: u32, dt: u32) -> (r: i32)
    ensures
        r == pushed(from as int, by as int, speed, dt),
{
    assert(0 <= speed * dt <= 0xffff_ffff * 0xffff_ffff) by (nonlinear_arith)
        requires
            0 <= speed <= 0xffff_ffff,
            0 <= dt <= 0xffff_ffff,
    ;
    let pace: i128 = speed as i128 * dt as i128;
    assert(-0x8000_0000 * (0xffff_ffff * 0xffff_ffff) <= by * pace <= 0x8000_0000 * (0xffff_ffff
        * 0xffff_ffff)) by (nonlinear_arith)
        requires
            -0x8000_0000 <= by <= 0x8000_0000,
            0 <= pace <= 0xffff_ffff * 0xffff_ffff,
    ;
    assert(by * speed * dt == by * pace) by (nonlinear_arith)
        requires
            pace == speed * dt,
    ;
    let n: i128 = by as i128 * pace;
    let q: i128 = quotient(n, 1_000_000_000_000);
    proof {
        lemma_div_trunc_bounds(n as int, 1_000_000_000_000);
    }
    clamp_to_i32(from as i128 + q)
}

/// Whether any of the sticks is pushed out of its rest.
fn is_any_pushed(sticks: &Vec<Point>) -> (b: bool)
    ensures
        b == any_pushed(sticks@),
{
    let mut i: usize = 0;
    while i < sticks.len()
        invariant
            i <= sticks.len(),
            forall|j: int|
                0 <= j < i ==> !((#[trigger] sticks[j]).x > WALK_DEADZONE || sticks[j].x
                    < -WALK_DEADZONE || sticks[j].y > WALK_DEADZONE || sticks[j].y < -WALK_DEADZONE),
        decreases sticks.len() - i,
    {
        let s = sticks[i];
        if s.x > WALK_DEADZONE || s.x < -WALK_DEADZONE || s.y > WALK_DEADZONE || s.y
            < -WALK_DEADZONE {
            return true;
        }
        i = i + 1;
    }
    false
}

/// Moves the player for `dt` microseconds as the sticks and the keys push
/// him, and sets his animation to match. A player who is down does not
/// move. `sticks` holds the left stick of each pad that is plugged in, in
/// millionths of its full push.
pub fn player_movement(
    player: &mut Agent,
    animation: &mut Animation,
    sticks: &Vec<Point>,
    keys: Keys,
    dt: u32,
)
    ensures
        old(player).respawn.is_dead ==> *final(player) == *old(player) && *final(animation) == *old(animation),
        !old(player).respawn.is_dead ==> *final(player) == (Agent {
            position: walked(
                old(player).position,
                sticks@,
                keys,
                old(player).movement_stats.speed,
                dt,
            ),
            ..*old(player)
        }) && *final(animation) == walking(*old(animation), sticks@, keys),
{
    if player.respawn.is_dead {
        return ;
    }
    let speed = player.movement_stats.speed;
    let mut position = player.position;
    let mut i: usize = 0;
    while i < sticks.len()
        invariant
            i <= sticks.len(),
            position == strolled(old(player).position, sticks@.take(i as int), speed, dt),
        decreases sticks.len() - i,
    {
        assert(sticks@.take(i + 1).drop_last() =~= sticks@.take(i as int));
        let s = sticks[i];
        position = Point { x: push(position.x, s.x, speed, dt), y: push(position.y, s.y, speed, dt) };
        i = i + 1;
    }
    assert(sticks@.take(sticks.len() as int) =~= sticks@);
    animation.playing = is_any_pushed(sticks);
    if keys.right {
        position.x = push(position.x, ONE, speed, dt);
        animation.playing = true;
        if !animation.playing_alt {
            animation.flip_x = true;
        }
    }
    if keys.left {
        position.x = push(position.x, -ONE, speed, dt);
        animation.playing = true;
        if !animation.playing_alt {
            animation.flip_x = false;
        }
    }
    if keys.up {
        position.y = push(position.y, ONE, speed, dt);
        if !animation.playing_alt {
            animation.playing = true;
        }
    }
    if keys.down {
        position.y = push(position.y, -ONE, speed, dt);
        if !animation.playing_alt {
            animation.playing = true;
        }
    }
    player.position = position;
}

/// Where the player aims.
fn take_aim(sticks: &Vec<Point>, keys: Keys) -> (aim: (i64, i64))
    ensures
        aim.0 == aimed(sticks@, keys).0,
        aim.1 == aimed(sticks@, keys).1,
        -0x1_0000_0000 <= aim.0 <= 0x1_0000_0000,
        -0x1_0000_0000 <= aim.1 <= 0x1_0000_0000,
{
    let base = if sticks.len() == 0 {
        Point { x: 0, y: 0 }
    } else {
        sticks[sticks.len() - 1]
    };
    let mut x: i64 = base.x as i64;
    let mut y: i64 = base.y as i64;
    if keys.left {
        x = x - 1_000_000;
    }
    if keys.right {
        x = x + 1_000_000;
    }
    if keys.up {
        y = y + 1_000_000;
    }
    if keys.down {
        y = y - 1_000_000;
    }
    (x, y)
}

/// Whether the aim is pushed far enough to shoot.
fn is_aiming(x: i64, y: i64) -> (b: bool)
    requires
        -0x1_0000_0000 <= x <= 0x1_0000_0000,
        -0x1_0000_0000 <= y <= 0x1_0000_0000,
    ensures
        b == aims((x as int, y as int)),
{
    assert(0 <= x * x <= 0x1_0000_0000 * 0x1_0000_0000) by (nonlinear_arith)
        requires
            -0x1_0000_0000 <= x <= 0x1_0000_0000,
    ;
    assert(0 <= y * y <= 0x1_0000_0000 * 0x1_0000_0000) by (nonlinear_arith)
        requires
            -0x1_0000_0000 <= y <= 0x1_0000_0000,
    ;
    assert(AIM_DEADZONE * AIM_DEADZONE == 10_000_000_000) by (nonlinear_arith)
        requires
            AIM_DEADZONE == 100_000,
    ;
    let reach: i128 = (x as i128) * (x as i128) + (y as i128) * (y as i128);
    reach > 10_000_000_000
}

/// The player's turn to shoot.
///
/// A player who is down is shown upside down, stands still, and does
/// nothing. One whose cooldown has not run out lets it run. One that is
/// ready and aims lets it run too, which starts it anew, plays his second
/// strip from its start, looks where he shoots, and shoots. `sticks` holds
/// the right stick of each pad that is plugged in.
pub fn player_shoot(
    player: &mut Player,
    agent: &Agent,
    animation: &mut Animation,
    sticks: &Vec<Point>,
    keys: Keys,
    dt: u32,
) -> (shot: Option<BulletBundle>)
    ensures
        shot == fired(*old(player), *agent, sticks@, keys),
        *final(player) == reloaded(*old(player), *agent, sticks@, keys, dt),
        *final(animation) == recoiled(*old(player), *agent, *old(animation), sticks@, keys),
{
    if agent.respawn.is_dead {
        animation.flip_y = true;
        animation.playing = false;
        return None;
    }
    animation.flip_y = false;
    if !player.bullet_cooldown.finished() {
        player.bullet_cooldown.tick(dt);
        return None;
    }
    let (x, y) = take_aim(sticks, keys);
    if is_aiming(x, y) {
        let aim = Point { x: clamp_to_i32(x as i128), y: clamp_to_i32(y as i128) };
        let way = direction(Point { x: 0, y: 0 }, aim);
        player.bullet_cooldown.tick(dt);
        animation.current_frame = 0;
        animation.playing_alt = true;
        let offset: i128 = if way.x < 0 {
            animation.flip_x = true;
            -(MUZZLE_OFFSET as i128)
        } else {
            animation.flip_x = false;
            MUZZLE_OFFSET as i128
        };
        Some(
            BulletBundle {
                position: Point {
                    x: clamp_to_i32(agent.position.x as i128 + offset),
                    y: agent.position.y,
                },
                bullet: Bullet { speed: BULLET_SPEED, direction: way },
                team: ChickenOrDog::Chicken,
                sprite: Sprite {
                    index: 0,
                    color: Color::DarkGreen,
                    flip_x: false,
                    flip_y: false,
                    custom_size: Some(Point { x: BULLET_SIZE as i32, y: BULLET_SIZE as i32 }),
                },
                collision_radius: BULLET_SIZE / 2,
                collision_layer: layers_of_bullet(Layer::Player),
                rotates: false,
            },
        )
    } else {
        None
    }
}

/// Lets each leader fall and return for `dt` microseconds. `spawners` holds
/// the place and the owner of each capture point that has an owner.
pub fn player_death(
    players: &mut Vec<Agent>,
    spawners: &Vec<(Point, ChickenOrDog)>,
    map: &GameMap,
    full_health: Health,
    dt: u32,
)
    ensures
        final(players).len() == old(players).len(),
        forall|i: int|
            0 <= i < old(players).len() ==> #[trigger] final(players)[i] == revived(
                old(players)[i],
                spawners@,
                *map,
                full_health,
                dt,
            ),
{
    let mut i: usize = 0;
    while i < players.len()
        invariant
            i <= players.len(),
            players.len() == old(players).len(),
            forall|j: int|
                0 <= j < i ==> #[trigger] players[j] == revived(
                    old(players)[j],
                    spawners@,
                    *map,
                    full_health,
                    dt,
                ),
            forall|j: int| i <= j < players.len() ==> players[j] == old(players)[j],
        decreases players.len() - i,
    {
        let before = players[i];
        let mut a = before;
        if a.health.0 <= 0 && !a.respawn.is_dead {
            a.respawn.timer = Timer::new(RESPAWN_TIME, false);
            a.respawn.is_dead = true;
            a.health = full_health;
        }
        a.respawn.timer.tick(dt);
        if a.respawn.timer.just_finished() {
            a.health = full_health;
            a.respawn.is_dead = false;
            let friendly_spawners = locations_of(spawners, before.team);
            a.position = match find_farthest(before.position, &friendly_spawners) {
                Some(p) => p,
                None => match before.team {
                    ChickenOrDog::Chicken => map.player_spawn,
                    ChickenOrDog::Dog => map.enemy_spawn,
                },
            };
        }
        players.set(i, a);
        i = i + 1;
    }
}

/// The player as he enters the arena of `map`, with the pictures
/// `chicken_walk`: at the player's place, on the chickens' side, standing,
/// with all his hit points, and as wide as his first picture is drawn.
pub fn spawn_player(map: &GameMap, chicken_walk: &ChickenWalkFrames, full_health: Health) -> (r:
    PlayerBundle)
    requires
        chicken_walk.frames.len() > 0,
        chicken_walk.frames[0].custom_size matches Some(size) && size.x >= 0,
    ensures
        r.agent == (Agent {
            position: map.player_spawn,
            team: ChickenOrDog::Chicken,
            movement_stats: MovementStats { speed: PLAYER_SPEED },
            health: full_health,
            respawn: RespawnTimer { is_dead: false, timer: fresh(0, false) },
        }),
        r.player == (Player { bullet_cooldown: fresh(PLAYER_COOLDOWN, true) }),
        r.sprite == chicken_walk.frames[0],
        r.animation.frames@ == indices(chicken_walk.frames@),
        r.animation.alt_frames matches Some(alt) && alt@ == indices(chicken_walk.alt_frames@),
        r.animation.current_frame == 0 && !r.animation.playing_alt && !r.animation.playing
            && !r.animation.flip_x && !r.animation.flip_y,
        r.animation.timer == fresh(PLAYER_FRAME_TIME, true),
        r.collision_radius == chicken_walk.frames[0].custom_size->0.x / 2,
        r.collision_layer == (CollisionLayers {
            groups: 0u32 | Layer::Player.bits(),
            masks: ALL_LAYERS,
        }),
{
    let size: i32 = match chicken_walk.frames[0].custom_size {
        Some(size) => size.x,
        None => 0,
    };
    PlayerBundle {
        agent: Agent {
            position: map.player_spawn,
            team: ChickenOrDog::Chicken,
            movement_stats: MovementStats { speed: PLAYER_SPEED },
            health: full_health,
            respawn: RespawnTimer { is_dead: false, timer: Timer::new(0, false) },
        },
        player: Player { bullet_cooldown: Timer::new(PLAYER_COOLDOWN, true) },
        sprite: chicken_walk.frames[0],
        animation: Animation {
            current_frame: 0,
            frames: frame_indices(&chicken_walk.frames),
            alt_frames: Some(frame_indices(&chicken_walk.alt_frames)),
            playing_alt: false,
            playing: false,
            flip_x: false,
            flip_y: false,
            timer: Timer::new(PLAYER_FRAME_TIME, true),
        },
        collision_radius: (size / 2) as u32,
        collision_layer: CollisionLayers::all_masks().with_group(Layer::Player),
    }
}

/// The rules of the player.
pub struct PlayerPlugin;

impl PlayerPlugin {
    /// One step of `dt` microseconds for the player: while the match is
    /// played he moves, takes his turn to shoot from where he stood when the
    /// step began, and then falls or returns. On any other screen nothing
    /// happens.
    pub fn update(
        &self,
        agent: &mut Agent,
        player: &mut Player,
        animation: &mut Animation,
        left_sticks: &Vec<Point>,
        move_keys: Keys,
        right_sticks: &Vec<Point>,
        aim_keys: Keys,
        spawners: &Vec<(Point, ChickenOrDog)>,
        map: &GameMap,
        full_health: Health,
        state: &GameState,
        dt: u32,
    ) -> (shot: Option<BulletBundle>)
        ensures
            *state != GameState::GamePlay ==> shot is None && *final(agent) == *old(agent)
                && *final(player) == *old(player) && *final(animation) == *old(animation),
            *state == GameState::GamePlay ==> {
                &&& shot == fired(*old(player), *old(agent), right_sticks@, aim_keys)
                &&& *final(player) == reloaded(
                    *old(player),
                    *old(agent),
                    right_sticks@,
                    aim_keys,
                    dt,
                )
                &&& *final(animation) == recoiled(
                    *old(player),
                    *old(agent),
                    if old(agent).respawn.is_dead {
                        *old(animation)
                    } else {
                        walking(*old(animation), left_sticks@, move_keys)
                    },
                    right_sticks@,
                    aim_keys,
                )
                &&& *final(agent) == revived(
                    if old(agent).respawn.is_dead {
                        *old(agent)
                    } else {
                        Agent {
                            position: walked(
                                old(agent).position,
                                left_sticks@,
                                move_keys,
                                old(agent).movement_stats.speed,
                                dt,
                            ),
                            ..*old(agent)
                        }
                    },
                    spawners@,
                    *map,
                    full_health,
                    dt,
                )
            },
    {
        match state {
            GameState::GamePlay => {
                let before = *agent;
                player_movement(agent, animation, left_sticks, move_keys, dt);
                let shot = player_shoot(player, &before, animation, right_sticks, aim_keys, dt);
                let mut both: Vec<Agent> = Vec::new();
                both.push(*agent);
                player_death(&mut both, spawners, map, full_health, dt);
                *agent = both[0];
                shot
            },
            _ => None,
        }
    }
}

} // verus!
