use frontier::assets::{ChickenWalkFrames, Color, Sprite};
use frontier::bullet::{Bullet, BulletBundle, BULLET_SPEED};
use frontier::geometry::Point;
use frontier::map::GameMap;
use frontier::player::{
    player_death, player_movement, player_shoot, spawn_player, Keys, PlayerPlugin, PLAYER_COOLDOWN,
    PLAYER_FRAME_TIME, PLAYER_SPEED, RESPAWN_TIME,
};
use frontier::prelude::{
    Agent, Animation, CollisionLayers, Health, MovementStats, Player, RespawnTimer,
};
use frontier::team::ChickenOrDog;
use frontier::timer::Timer;
use frontier::GameState;

const NO_KEYS: Keys = Keys { left: false, right: false, up: false, down: false };

fn sprite(index: usize, size: Option<Point>) -> Sprite {
    Sprite { index, color: Color::White, flip_x: false, flip_y: false, custom_size: size }
}

fn chicken(x: i32, y: i32) -> Agent {
    Agent {
        position: Point::new(x, y),
        team: ChickenOrDog::Chicken,
        movement_stats: MovementStats { speed: PLAYER_SPEED },
        health: Health(5_000_000),
        respawn: RespawnTimer { is_dead: false, timer: Timer::new(0, false) },
    }
}

fn animation() -> Animation {
    Animation {
        current_frame: 1,
        frames: vec![0, 1, 2],
        alt_frames: Some(vec![3, 4]),
        playing_alt: false,
        playing: false,
        flip_x: false,
        flip_y: false,
        timer: Timer::new(PLAYER_FRAME_TIME, true),
    }
}

fn ready() -> Player {
    let mut cooldown = Timer::new(PLAYER_COOLDOWN, true);
    cooldown.tick(PLAYER_COOLDOWN);
    Player { bullet_cooldown: cooldown }
}

fn map() -> GameMap {
    GameMap {
        rects: Vec::new(),
        spawn_locations: Vec::new(),
        player_spawn: Point::new(-1_000_000, 0),
        enemy_spawn: Point::new(1_000_000, 0),
    }
}

#[test]
fn keys_move_the_player_at_his_speed() {
    let mut agent = chicken(0, 0);
    let mut anim = animation();
    let keys = Keys { right: true, up: true, ..NO_KEYS };
    player_movement(&mut agent, &mut anim, &Vec::new(), keys, 1_000_000);
    assert_eq!(agent.position, Point::new(500_000, 500_000));
    assert!(anim.playing);
    assert!(anim.flip_x);
    let keys = Keys { left: true, down: true, ..NO_KEYS };
    player_movement(&mut agent, &mut anim, &Vec::new(), keys, 16_667);
    assert_eq!(agent.position, Point::new(500_000 - 8_333, 500_000 - 8_333));
    assert!(!anim.flip_x);
}

#[test]
fn opposite_keys_cancel() {
    let mut agent = chicken(7, 7);
    let mut anim = animation();
    let keys = Keys { left: true, right: true, up: true, down: true };
    player_movement(&mut agent, &mut anim, &Vec::new(), keys, 1_000_000);
    assert_eq!(agent.position, Point::new(7, 7));
    assert!(anim.playing);
    assert!(!anim.flip_x);
}

#[test]
fn sticks_move_the_player_by_their_push() {
    let mut agent = chicken(0, 0);
    let mut anim = animation();
    let sticks = vec![Point::new(500_000, -1_000_000), Point::new(0, 5_000)];
    player_movement(&mut agent, &mut anim, &sticks, NO_KEYS, 1_000_000);
    assert_eq!(agent.position, Point::new(250_000, -500_000 + 2_500));
    assert!(anim.playing);
}

#[test]
fn resting_sticks_do_not_play_the_walk() {
    let mut agent = chicken(0, 0);
    let mut anim = animation();
    anim.playing = true;
    let sticks = vec![Point::new(10_000, -10_000)];
    player_movement(&mut agent, &mut anim, &sticks, NO_KEYS, 1_000_000);
    assert_eq!(agent.position, Point::new(5_000, -5_000));
    assert!(!anim.playing);
    player_movement(&mut agent, &mut anim, &vec![Point::new(10_001, 0)], NO_KEYS, 0);
    assert!(anim.playing);
}

#[test]
fn shooting_player_keeps_looking_where_he_shoots() {
    let mut agent = chicken(0, 0);
    let mut anim = animation();
    anim.playing_alt = true;
    anim.flip_x = false;
    player_movement(&mut agent, &mut anim, &Vec::new(), Keys { right: true, ..NO_KEYS }, 1);
    assert!(!anim.flip_x);
    assert!(anim.playing);
    anim.playing = false;
    player_movement(&mut agent, &mut anim, &Vec::new(), Keys { up: true, ..NO_KEYS }, 1);
    assert!(!anim.playing);
}

#[test]
fn player_who_is_down_does_not_move() {
    let mut agent = chicken(0, 0);
    agent.respawn.is_dead = true;
    let mut anim = animation();
    anim.playing = true;
    player_movement(&mut agent, &mut anim, &vec![Point::new(1_000_000, 0)], NO_KEYS, 1_000_000);
    assert_eq!(agent.position, Point::new(0, 0));
    assert!(anim.playing);
}

#[test]
fn player_shoots_where_he_aims() {
    let agent = chicken(1_000_000, 2_000_000);
    let mut player = ready();
    let mut anim = animation();
    anim.flip_y = true;
    let keys = Keys { left: true, ..NO_KEYS };
    let shot = player_shoot(&mut player, &agent, &mut anim, &Vec::new(), keys, 16_667).unwrap();
    assert_eq!(
        shot,
        BulletBundle {
            position: Point::new(1_000_000 - 80_000, 2_000_000),
            bullet: Bullet { speed: BULLET_SPEED, direction: Point::new(-1_000_000, 0) },
            team: ChickenOrDog::Chicken,
            sprite: Sprite {
                index: 0,
                color: Color::DarkGreen,
                flip_x: false,
                flip_y: false,
                custom_size: Some(Point::new(100_000, 100_000)),
            },
            collision_radius: 50_000,
            collision_layer: CollisionLayers { groups: 1, masks: 58 },
            rotates: false,
        }
    );
    assert_eq!(anim.current_frame, 0);
    assert!(anim.playing_alt && anim.flip_x && !anim.flip_y);
    assert_eq!(player.bullet_cooldown.remaining(), PLAYER_COOLDOWN - 16_667);
    assert!(!player.bullet_cooldown.finished());
}

#[test]
fn last_stick_and_keys_add_up_to_the_aim() {
    let agent = chicken(0, 0);
    let mut player = ready();
    let mut anim = animation();
    let sticks = vec![Point::new(-1_000_000, 0), Point::new(0, 4_000_000)];
    let keys = Keys { right: true, up: false, left: false, down: false };
    let shot = player_shoot(&mut player, &agent, &mut anim, &sticks, keys, 1).unwrap();
    assert_eq!(shot.bullet.direction, Point::new(242_535, 970_142));
    assert_eq!(shot.position, Point::new(80_000, 0));
    assert!(!anim.flip_x);
}

#[test]
fn player_does_not_shoot_without_aim() {
    let agent = chicken(0, 0);
    let mut player = ready();
    let mut anim = animation();
    let rest = vec![Point::new(100_000, 0)];
    assert_eq!(player_shoot(&mut player, &agent, &mut anim, &rest, NO_KEYS, 1), None);
    assert!(player.bullet_cooldown.finished());
    assert_eq!(anim.current_frame, 1);
    let pushed = vec![Point::new(100_000, 1)];
    assert!(player_shoot(&mut player, &agent, &mut anim, &pushed, NO_KEYS, 1).is_some());
}

#[test]
fn player_waits_for_his_cooldown() {
    let agent = chicken(0, 0);
    let mut player = Player { bullet_cooldown: Timer::new(PLAYER_COOLDOWN, true) };
    let mut anim = animation();
    let keys = Keys { up: true, ..NO_KEYS };
    assert_eq!(player_shoot(&mut player, &agent, &mut anim, &Vec::new(), keys, 349_999), None);
    assert_eq!(player_shoot(&mut player, &agent, &mut anim, &Vec::new(), keys, 1), None);
    assert!(player.bullet_cooldown.finished());
    assert!(player_shoot(&mut player, &agent, &mut anim, &Vec::new(), keys, 1).is_some());
}

#[test]
fn player_who_is_down_lies_still() {
    let mut agent = chicken(0, 0);
    agent.respawn.is_dead = true;
    let mut player = ready();
    let mut anim = animation();
    anim.playing = true;
    let keys = Keys { up: true, ..NO_KEYS };
    assert_eq!(player_shoot(&mut player, &agent, &mut anim, &Vec::new(), keys, 1), None);
    assert!(anim.flip_y);
    assert!(!anim.playing);
    assert_eq!(player, ready());
}

#[test]
fn leader_without_hit_points_goes_down_and_returns() {
    let mut fallen = chicken(0, 0);
    fallen.health = Health(0);
    fallen.respawn.timer.tick(1);
    let mut players = vec![fallen];
    let spawners = vec![
        (Point::new(1_000_000, 0), ChickenOrDog::Chicken),
        (Point::new(9_000_000, 0), ChickenOrDog::Dog),
        (Point::new(-3_000_000, 0), ChickenOrDog::Chicken),
        (Point::new(0, 3_000_000), ChickenOrDog::Chicken),
    ];
    player_death(&mut players, &spawners, &map(), Health(7_000_000), 1_000_000);
    assert!(players[0].respawn.is_dead);
    assert_eq!(players[0].health, Health(7_000_000));
    assert_eq!(players[0].respawn.timer.remaining(), RESPAWN_TIME - 1_000_000);
    assert_eq!(players[0].position, Point::new(0, 0));
    player_death(&mut players, &spawners, &map(), Health(7_000_000), 1_000_000);
    assert!(!players[0].respawn.is_dead);
    assert_eq!(players[0].health, Health(7_000_000));
    assert_eq!(players[0].position, Point::new(0, 3_000_000));
    player_death(&mut players, &spawners, &map(), Health(7_000_000), 1_000_000);
    assert_eq!(players[0].position, Point::new(0, 3_000_000));
}

#[test]
fn leader_returns_to_his_start_when_his_side_holds_nothing() {
    let mut dog = chicken(5, 5);
    dog.team = ChickenOrDog::Dog;
    dog.health = Health(-1);
    dog.respawn.timer.tick(1);
    let mut players = vec![chicken(5, 5), dog];
    players[0].health = Health(0);
    players[0].respawn.timer.tick(1);
    let spawners = vec![(Point::new(1_000_000, 0), ChickenOrDog::Chicken)];
    player_death(&mut players, &spawners, &map(), Health(1), RESPAWN_TIME);
    assert_eq!(players[0].position, Point::new(1_000_000, 0));
    assert_eq!(players[1].position, Point::new(1_000_000, 0));
    assert_eq!(players[1].team, ChickenOrDog::Dog);
    let mut alone = vec![chicken(5, 5)];
    alone[0].health = Health(0);
    alone[0].respawn.timer.tick(1);
    player_death(&mut alone, &Vec::new(), &map(), Health(1), RESPAWN_TIME);
    assert_eq!(alone[0].position, Point::new(-1_000_000, 0));
}

#[test]
fn fresh_leader_is_set_on_his_feet_by_the_first_step() {
    let mut players = vec![chicken(5, 5)];
    players[0].health = Health(3);
    player_death(&mut players, &Vec::new(), &map(), Health(9), 0);
    assert_eq!(players[0].health, Health(9));
    assert_eq!(players[0].position, Point::new(-1_000_000, 0));
    assert!(!players[0].respawn.is_dead);
}

#[test]
fn player_enters_at_his_place() {
    let walk = ChickenWalkFrames {
        frames: vec![sprite(6, Some(Point::new(320_000, 400_000))), sprite(7, None)],
        alt_frames: vec![sprite(8, None)],
    };
    let player = spawn_player(&map(), &walk, Health(10_000_000));
    assert_eq!(player.agent, Agent { health: Health(10_000_000), ..chicken(-1_000_000, 0) });
    assert_eq!(player.player, Player { bullet_cooldown: Timer::new(350_000, true) });
    assert_eq!(player.sprite, sprite(6, Some(Point::new(320_000, 400_000))));
    assert_eq!(player.animation.frames, vec![6, 7]);
    assert_eq!(player.animation.alt_frames, Some(vec![8]));
    assert!(!player.animation.playing);
    assert_eq!(player.animation.timer, Timer::new(PLAYER_FRAME_TIME, true));
    assert_eq!(player.collision_radius, 160_000);
    assert_eq!(player.collision_layer, CollisionLayers { groups: 4, masks: 63 });
}

#[test]
fn player_step_runs_only_on_the_field() {
    let mut agent = chicken(0, 0);
    agent.respawn.timer.tick(1);
    let mut player = ready();
    let mut anim = animation();
    let keys = Keys { right: true, ..NO_KEYS };
    let shot = PlayerPlugin.update(
        &mut agent,
        &mut player,
        &mut anim,
        &Vec::new(),
        keys,
        &Vec::new(),
        keys,
        &Vec::new(),
        &map(),
        Health(1),
        &GameState::MainMenu,
        1_000_000,
    );
    assert_eq!(shot, None);
    assert_eq!(agent.position, Point::new(0, 0));
    let shot = PlayerPlugin.update(
        &mut agent,
        &mut player,
        &mut anim,
        &Vec::new(),
        keys,
        &Vec::new(),
        keys,
        &Vec::new(),
        &map(),
        Health(1),
        &GameState::GamePlay,
        1_000_000,
    );
    assert_eq!(agent.position, Point::new(500_000, 0));
    assert_eq!(shot.unwrap().position, Point::new(80_000, 0));
    assert!(anim.playing_alt);
}
