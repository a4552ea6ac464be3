use frontier::assets::{ChickWalkFrames, Color, PuppyWalkFrames, Sprite};
use frontier::geometry::Point;
use frontier::map::{GameMap, Rect};
use frontier::minion::{ChickenMinionConfig, DogMinionConfig, MinionBundle};
use frontier::spawner::{
    minions_spawner_ai, spawn_initial_spawners, tick_spawners, Occupant, SpawnRequest, Spawner,
    DEFAULT_CAPTURE_TIME, DEFAULT_SPAWN_PERIOD, MINION_FRAME_TIME,
};
use frontier::team::ChickenOrDog;
use frontier::timer::Timer;

fn owned(position: Point, owner: ChickenOrDog) -> Spawner {
    let mut point = Spawner::at(position);
    let pusher = match owner {
        ChickenOrDog::Chicken => Occupant::Player { is_dead: false },
        ChickenOrDog::Dog => Occupant::Enemy { is_dead: false },
    };
    point.update(&vec![pusher], DEFAULT_CAPTURE_TIME);
    assert_eq!(point.team(), Some(owner));
    point
}

fn sprite(index: usize) -> Sprite {
    Sprite { index, color: Color::White, flip_x: false, flip_y: false, custom_size: None }
}

#[test]
fn timer_of_five_seconds_fires_once_after_five_seconds() {
    let mut timer = Timer::new(5_000_000, true);
    timer.tick_and_restart(5_000_000);
    assert!(timer.just_finished());
    assert!(timer.finished());
    assert_eq!(timer.remaining(), 5_000_000);
    timer.tick_and_restart(1);
    assert!(!timer.just_finished());
    assert!(!timer.finished());
    assert_eq!(timer.remaining(), 4_999_999);
}

#[test]
fn timer_fires_when_the_ticks_add_up() {
    let mut timer = Timer::new(5_000_000, true);
    let mut fired = 0;
    for _ in 0..4 {
        timer.tick_and_restart(1_250_000);
        if timer.just_finished() {
            fired += 1;
        }
    }
    assert_eq!(fired, 1);
    assert_eq!(timer.remaining(), 5_000_000);
}

#[test]
fn timer_that_restarts_fires_once_however_long_the_tick() {
    let mut timer = Timer::new(5_000_000, true);
    timer.tick_and_restart(u32::MAX);
    assert!(timer.just_finished());
    assert_eq!(timer.remaining(), 5_000_000);
    assert_eq!(timer.duration(), 5_000_000);
    timer.tick_and_restart(7_000_000);
    assert!(timer.just_finished());
    assert_eq!(timer.remaining(), 5_000_000);
}

#[test]
fn timer_that_carries_over_keeps_what_a_tick_goes_beyond_the_end() {
    let mut timer = Timer::new(1_000_000, true);
    timer.tick(1_500_000);
    assert!(timer.just_finished() && timer.finished());
    assert_eq!(timer.remaining(), 500_000);
    assert_eq!(timer.elapsed(), 500_000);
    timer.tick(499_999);
    assert!(!timer.just_finished() && !timer.finished());
    assert_eq!(timer.remaining(), 1);
    timer.tick(3_000_001);
    assert!(timer.just_finished());
    assert_eq!(timer.remaining(), 1_000_000);
    timer.tick(u32::MAX);
    assert!(timer.just_finished());
    assert_eq!(timer.remaining(), 1_000_000 - (u32::MAX % 1_000_000));
}

#[test]
fn timer_runs_down_tick_by_tick() {
    let mut timer = Timer::new(600_000, true);
    timer.tick(16_667);
    assert_eq!(timer.remaining(), 583_333);
    assert!(!timer.finished());
    timer.tick(0);
    assert_eq!(timer.remaining(), 583_333);
    timer.tick(583_333);
    assert!(timer.finished() && timer.just_finished());
    assert_eq!(timer.remaining(), 600_000);
}

#[test]
fn timer_that_does_not_repeat_stays_finished() {
    let mut timer = Timer::new(2_000_000, false);
    timer.tick(1_999_999);
    assert!(!timer.finished());
    timer.tick(1);
    assert!(timer.finished() && timer.just_finished());
    assert_eq!(timer.remaining(), 0);
    timer.tick(10);
    assert!(timer.finished());
    assert!(!timer.just_finished());
    let mut instant = Timer::new(0, false);
    instant.tick(0);
    assert!(instant.just_finished());
    let mut late = Timer::new(2_000_000, false);
    late.tick(u32::MAX);
    assert!(late.finished() && late.just_finished());
    assert_eq!(late.remaining(), 0);
}

#[test]
fn odd_timers_are_read_as_begun_anew() {
    let mut none = Timer::new(0, true);
    none.tick(5);
    assert!(none.finished() && none.just_finished());
    assert_eq!(none.remaining(), 0);
    let mut spent = Timer { remaining: 0, ..Timer::new(10, true) };
    assert_eq!(spent.elapsed(), 0);
    spent.tick(3);
    assert_eq!(spent.remaining(), 7);
    let mut long = Timer { remaining: 50, ..Timer::new(10, false) };
    assert_eq!(long.elapsed(), 0);
    long.tick(3);
    assert_eq!(long.remaining(), 7);
}

#[test]
fn neutral_point_breeds_nothing_and_its_timer_stands_still() {
    let mut point = Spawner::at(Point::new(1, 1));
    let timer = point.spawn_timer();
    assert_eq!(point.tick(DEFAULT_SPAWN_PERIOD), None);
    assert_eq!(point.tick(u32::MAX), None);
    assert_eq!(point.spawn_timer(), timer);
}

#[test]
fn owned_point_breeds_for_its_owner_at_its_place() {
    let mut point = owned(Point::new(-7, 9), ChickenOrDog::Dog);
    assert_eq!(point.tick(DEFAULT_SPAWN_PERIOD - 1), None);
    assert_eq!(point.spawn_timer().remaining, 1);
    assert_eq!(
        point.tick(1),
        Some(SpawnRequest { team: ChickenOrDog::Dog, location: Point::new(-7, 9) })
    );
    assert_eq!(point.spawn_timer().remaining, DEFAULT_SPAWN_PERIOD);
    assert_eq!(point.tick(1), None);
    assert_eq!(point.capture_progress(), -1_000_000);
}

#[test]
fn spawners_are_ticked_in_order() {
    let mut points = vec![
        owned(Point::new(1, 0), ChickenOrDog::Chicken),
        Spawner::at(Point::new(2, 0)),
        owned(Point::new(3, 0), ChickenOrDog::Dog),
    ];
    assert_eq!(tick_spawners(&mut points, 1_000_000), Vec::new());
    let requests = tick_spawners(&mut points, 4_000_000);
    assert_eq!(
        requests,
        vec![
            SpawnRequest { team: ChickenOrDog::Chicken, location: Point::new(1, 0) },
            SpawnRequest { team: ChickenOrDog::Dog, location: Point::new(3, 0) },
        ]
    );
    assert_eq!(points[1].spawn_timer().remaining, DEFAULT_SPAWN_PERIOD);
}

#[test]
fn bred_minions_are_chicks_and_puppies() {
    let chick_walk = ChickWalkFrames { frames: vec![sprite(4), sprite(5)], alt_frames: vec![sprite(6)] };
    let puppy_walk = PuppyWalkFrames { frames: vec![sprite(7)], alt_frames: vec![sprite(8), sprite(9)] };
    let chicken_config = ChickenMinionConfig { speed: 300_000, hp: 3_000_000 };
    let dog_config = DogMinionConfig { speed: 250_000, hp: 2_000_000 };
    let mut points = vec![
        owned(Point::new(1, 0), ChickenOrDog::Chicken),
        owned(Point::new(3, 0), ChickenOrDog::Dog),
    ];
    let spawned = minions_spawner_ai(
        &mut points,
        &chick_walk,
        &puppy_walk,
        &chicken_config,
        &dog_config,
        DEFAULT_SPAWN_PERIOD,
    );
    assert_eq!(spawned.len(), 2);
    assert_eq!(
        spawned[0].bundle,
        MinionBundle::spawn_chicken_minion(&chicken_config, Point::new(1, 0))
    );
    assert_eq!(spawned[0].sprite, sprite(4));
    assert_eq!(spawned[0].animation.frames, vec![4, 5]);
    assert_eq!(spawned[0].animation.alt_frames, Some(vec![6]));
    assert!(spawned[0].animation.playing);
    assert_eq!(spawned[0].animation.timer, Timer::new(MINION_FRAME_TIME, true));
    assert_eq!(spawned[0].flash.timer, Timer::new(0, false));
    assert_eq!(spawned[1].bundle, MinionBundle::spawn_dog_minion(&dog_config, Point::new(3, 0)));
    assert_eq!(spawned[1].sprite, sprite(7));
    assert_eq!(spawned[1].animation.frames, vec![7]);
    assert_eq!(spawned[1].animation.alt_frames, Some(vec![8, 9]));
    let again = minions_spawner_ai(&mut points, &chick_walk, &puppy_walk, &chicken_config, &dog_config, 1);
    assert!(again.is_empty());
}

#[test]
fn map_gives_neutral_points_with_chicken_marks_first() {
    let map = GameMap {
        rects: vec![Rect { position: Point::new(0, 0), size: Point::new(2, 2), rotation: 0 }],
        spawn_locations: vec![
            (Point::new(1, 1), ChickenOrDog::Dog),
            (Point::new(2, 2), ChickenOrDog::Chicken),
            (Point::new(3, 3), ChickenOrDog::Dog),
            (Point::new(4, 4), ChickenOrDog::Chicken),
        ],
        player_spawn: Point::new(0, 0),
        enemy_spawn: Point::new(9, 9),
    };
    let points = spawn_initial_spawners(&map);
    let places: Vec<Point> = points.iter().map(|p| p.position()).collect();
    assert_eq!(places, vec![Point::new(2, 2), Point::new(4, 4), Point::new(1, 1), Point::new(3, 3)]);
    for point in &points {
        assert_eq!(point.team(), None);
        assert_eq!(point.capture_progress(), 0);
        assert_eq!(point.capture_time(), DEFAULT_CAPTURE_TIME);
    }
}
