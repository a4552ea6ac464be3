use frontier::assets::{BulletFrames, Color, DogWalkFrames, Sprite};
use frontier::bullet::{Bullet, BULLET_SPEED};
use frontier::enemy::{
    enemy_ai, enemy_shoot, shoot_at, spawn_enemy, EnemyPlugin, Shooter, Shot, ENEMY_COOLDOWN,
    ENEMY_FRAME_TIME, ENEMY_RANGE, ENEMY_SPEED,
};
use frontier::geometry::Point;
use frontier::map::GameMap;
use frontier::prelude::{
    Agent, CollisionLayers, Enemy, Health, MovementStats, RespawnTimer,
};
use frontier::targeting::TargetCandidate;
use frontier::team::ChickenOrDog;
use frontier::timer::Timer;
use frontier::GameState;

fn sprite(index: usize) -> Sprite {
    Sprite { index, color: Color::White, flip_x: false, flip_y: false, custom_size: None }
}

fn bullets() -> BulletFrames {
    BulletFrames { frames: vec![sprite(10), sprite(11), sprite(12), sprite(13)] }
}

fn dog(x: i32, y: i32, is_dead: bool) -> Agent {
    Agent {
        position: Point::new(x, y),
        team: ChickenOrDog::Dog,
        movement_stats: MovementStats { speed: 1_000_000 },
        health: Health(1),
        respawn: RespawnTimer { is_dead, timer: Timer::new(0, false) },
    }
}

fn ready(x: i32, y: i32) -> Shooter {
    let mut cooldown = Timer::new(ENEMY_COOLDOWN, true);
    cooldown.tick(ENEMY_COOLDOWN);
    Shooter {
        enemy: Enemy { range: ENEMY_RANGE, bullet_cooldown: cooldown },
        position: Point::new(x, y),
        flip_y: true,
        respawn: RespawnTimer { is_dead: false, timer: Timer::new(0, false) },
    }
}

fn chicken_at(x: i32, y: i32) -> TargetCandidate {
    TargetCandidate { position: Point::new(x, y), team: Some(ChickenOrDog::Chicken) }
}

#[test]
fn enemy_goes_for_the_nearest_chicken_he_sees() {
    let mut enemies = vec![dog(0, 0, false)];
    let targets = vec![
        chicken_at(1_000_000, 0),
        chicken_at(0, -2_000_000),
        TargetCandidate { position: Point::new(-500_000, 0), team: Some(ChickenOrDog::Dog) },
    ];
    let hidden = |_from: Point, to: Point| to.x != 1_000_000;
    enemy_ai(&mut enemies, &targets, Point::new(9, 9), &hidden, 500_000);
    assert_eq!(enemies[0].position, Point::new(0, -500_000));
}

#[test]
fn enemy_goes_for_the_player_when_he_sees_nobody() {
    let mut enemies = vec![dog(0, 0, false)];
    let targets = vec![chicken_at(1_000_000, 0)];
    enemy_ai(&mut enemies, &targets, Point::new(0, 7_000_000), &|_, _| false, 500_000);
    assert_eq!(enemies[0].position, Point::new(0, 500_000));
}

#[test]
fn enemy_that_is_down_stays_and_asks_nothing() {
    let mut enemies = vec![dog(0, 0, true)];
    let targets = vec![chicken_at(1_000_000, 0)];
    let asked = std::cell::Cell::new(0);
    enemy_ai(
        &mut enemies,
        &targets,
        Point::new(0, 7_000_000),
        &|_, _| {
            asked.set(asked.get() + 1);
            true
        },
        500_000,
    );
    assert_eq!(enemies[0], dog(0, 0, true));
    assert_eq!(asked.get(), 0);
}

#[test]
fn enemy_shoots_the_nearest_chicken_in_range() {
    let mut enemies = vec![ready(0, 0)];
    let targets = vec![chicken_at(3_000_000, 0), chicken_at(0, 2_000_000)];
    let shots = enemy_shoot(&mut enemies, &targets, &|_, _| true, &bullets(), 16_667);
    assert_eq!(shots.len(), 1);
    match shots[0] {
        Shot::Fired(b) => {
            assert_eq!(b.position, Point::new(0, 0));
            assert_eq!(b.bullet, Bullet { speed: BULLET_SPEED, direction: Point::new(0, 1_000_000) });
            assert_eq!(b.team, ChickenOrDog::Dog);
            assert!(b.sprite == sprite(12) || b.sprite == sprite(13));
            assert_eq!(b.collision_radius, 50_000);
            assert_eq!(b.collision_layer, CollisionLayers { groups: 1, masks: 60 });
            assert!(b.rotates);
        }
        other => panic!("{:?}", other),
    }
    assert!(!enemies[0].flip_y);
    assert!(!enemies[0].enemy.bullet_cooldown.finished());
    assert_eq!(enemies[0].enemy.bullet_cooldown.remaining(), ENEMY_COOLDOWN - 16_667);
}

#[test]
fn enemy_bullet_takes_the_picture_that_was_drawn() {
    let shooter = ready(0, 0);
    let aim = Some(Point::new(0, -1));
    for variant in 0..2usize {
        match shoot_at(&shooter, aim, &bullets(), variant) {
            Shot::Fired(b) => assert_eq!(b.sprite, sprite(12 + variant)),
            other => panic!("{:?}", other),
        }
    }
    assert_eq!(shoot_at(&shooter, None, &bullets(), 0), Shot::Held);
}

#[test]
fn enemy_draws_both_pictures_sooner_or_later() {
    let mut seen = [false, false];
    for _ in 0..200 {
        let mut enemies = vec![ready(0, 0)];
        let shots = enemy_shoot(&mut enemies, &vec![chicken_at(1, 0)], &|_, _| true, &bullets(), 1);
        match shots[0] {
            Shot::Fired(b) => seen[b.sprite.index - 12] = true,
            other => panic!("{:?}", other),
        }
    }
    assert_eq!(seen, [true, true]);
}

#[test]
fn enemy_holds_his_fire_at_the_edge_of_his_range() {
    let shooter = ready(0, 0);
    let at_range = Some(Point::new(ENEMY_RANGE as i32, 0));
    let beyond = Some(Point::new(ENEMY_RANGE as i32, 1));
    assert!(matches!(shoot_at(&shooter, at_range, &bullets(), 0), Shot::Fired(_)));
    assert_eq!(shoot_at(&shooter, beyond, &bullets(), 0), Shot::OutOfRange);
}

#[test]
fn enemy_lets_his_cooldown_run() {
    let mut shooter = ready(0, 0);
    shooter.enemy.bullet_cooldown = Timer::new(ENEMY_COOLDOWN, true);
    let mut enemies = vec![shooter];
    let shots = enemy_shoot(&mut enemies, &vec![chicken_at(1, 0)], &|_, _| true, &bullets(), 100_000);
    assert_eq!(shots, vec![Shot::Held]);
    assert_eq!(enemies[0].enemy.bullet_cooldown.remaining(), ENEMY_COOLDOWN - 100_000);
    assert!(!enemies[0].flip_y);
}

#[test]
fn enemy_that_is_down_lies_on_his_back() {
    let mut shooter = ready(0, 0);
    shooter.respawn.is_dead = true;
    shooter.flip_y = false;
    let before = shooter.enemy;
    let mut enemies = vec![shooter];
    let shots = enemy_shoot(&mut enemies, &vec![chicken_at(1, 0)], &|_, _| true, &bullets(), 100_000);
    assert_eq!(shots, vec![Shot::Held]);
    assert!(enemies[0].flip_y);
    assert_eq!(enemies[0].enemy, before);
}

#[test]
fn enemy_who_sees_nobody_still_starts_his_cooldown() {
    let mut enemies = vec![ready(0, 0)];
    let shots = enemy_shoot(&mut enemies, &vec![chicken_at(1, 0)], &|_, _| false, &bullets(), 1);
    assert_eq!(shots, vec![Shot::Held]);
    assert_eq!(enemies[0].enemy.bullet_cooldown.remaining(), ENEMY_COOLDOWN - 1);
}

#[test]
fn turns_end_with_the_first_enemy_out_of_range() {
    let mut enemies = vec![ready(0, 0), ready(9_000_000, 0), ready(0, 1)];
    let untouched = enemies[2];
    let targets = vec![chicken_at(0, 1_000_000)];
    let shots = enemy_shoot(&mut enemies, &targets, &|_, _| true, &bullets(), 1);
    assert_eq!(shots.len(), 2);
    assert!(matches!(shots[0], Shot::Fired(_)));
    assert_eq!(shots[1], Shot::OutOfRange);
    assert_eq!(enemies[2], untouched);
}

#[test]
fn enemy_enters_at_his_place() {
    let map = GameMap {
        rects: Vec::new(),
        spawn_locations: Vec::new(),
        player_spawn: Point::new(1, 1),
        enemy_spawn: Point::new(4_000_000, 0),
    };
    let walk = DogWalkFrames { frames: vec![sprite(3), sprite(4)], alt_frames: vec![sprite(5)] };
    let enemy = spawn_enemy(&map, &walk, Health(10_000_000));
    assert_eq!(enemy.agent.position, Point::new(4_000_000, 0));
    assert_eq!(enemy.agent.team, ChickenOrDog::Dog);
    assert_eq!(enemy.agent.movement_stats, MovementStats { speed: ENEMY_SPEED });
    assert_eq!(enemy.agent.health, Health(10_000_000));
    assert_eq!(enemy.agent.respawn, RespawnTimer { is_dead: false, timer: Timer::new(0, false) });
    assert_eq!(enemy.enemy, Enemy { range: 2_500_000, bullet_cooldown: Timer::new(600_000, true) });
    assert_eq!(enemy.sprite, sprite(3));
    assert_eq!(enemy.animation.frames, vec![3, 4]);
    assert_eq!(enemy.animation.alt_frames, Some(vec![5]));
    assert!(enemy.animation.playing && enemy.animation.flip_x);
    assert_eq!(enemy.animation.timer, Timer::new(ENEMY_FRAME_TIME, true));
    assert_eq!(enemy.collision_radius, 125_000);
    assert_eq!(enemy.collision_layer, CollisionLayers { groups: 2, masks: 63 });
}

#[test]
fn enemy_step_moves_then_shoots_only_on_the_field() {
    let mut agents = vec![dog(0, 0, false)];
    let mut shooters = vec![ready(0, 0)];
    let targets = vec![chicken_at(0, 1_000_000)];
    let shots = EnemyPlugin.update(
        &mut agents,
        &mut shooters,
        &targets,
        &targets,
        Point::new(0, 0),
        &|_, _| true,
        &bullets(),
        &GameState::MainMenu,
        100_000,
    );
    assert!(shots.is_empty());
    assert_eq!(agents[0].position, Point::new(0, 0));
    let shots = EnemyPlugin.update(
        &mut agents,
        &mut shooters,
        &targets,
        &targets,
        Point::new(0, 0),
        &|_, _| true,
        &bullets(),
        &GameState::GamePlay,
        100_000,
    );
    assert_eq!(agents[0].position, Point::new(0, 100_000));
    assert!(matches!(shots[0], Shot::Fired(_)));
}
