use frontier::geometry::Point;
use frontier::spawner::{
    evaluate, spawner_win_con, Occupant, SpawnRequest, Spawner, SpawnerPlugin, DEFAULT_CAPTURE_TIME,
};
use frontier::team::ChickenOrDog;
use frontier::GameState;

const A: Option<ChickenOrDog> = Some(ChickenOrDog::Chicken);
const B: Option<ChickenOrDog> = Some(ChickenOrDog::Dog);

fn owned(owner: Option<ChickenOrDog>) -> Spawner {
    let mut point = Spawner::default();
    match owner {
        Some(ChickenOrDog::Chicken) => {
            point.update(&vec![Occupant::Player { is_dead: false }], DEFAULT_CAPTURE_TIME)
        }
        Some(ChickenOrDog::Dog) => {
            point.update(&vec![Occupant::Enemy { is_dead: false }], DEFAULT_CAPTURE_TIME)
        }
        None => {}
    }
    point
}

#[test]
fn side_that_owns_every_point_wins() {
    assert_eq!(evaluate(&vec![A, A, A]), A);
    assert_eq!(evaluate(&vec![B, B, B]), B);
    assert_eq!(evaluate(&vec![B]), B);
}

#[test]
fn nobody_wins_while_a_point_is_neutral() {
    assert_eq!(evaluate(&vec![A, A, None]), None);
    assert_eq!(evaluate(&vec![None, B, B]), None);
    assert_eq!(evaluate(&vec![None]), None);
}

#[test]
fn nobody_wins_while_both_sides_hold_points() {
    assert_eq!(evaluate(&vec![A, A, B]), None);
    assert_eq!(evaluate(&vec![B, A]), None);
}

#[test]
fn chickens_win_where_there_is_no_point() {
    assert_eq!(evaluate(&Vec::new()), A);
}

#[test]
fn asking_twice_gives_the_same_winner() {
    let owners = vec![B, B];
    assert_eq!(evaluate(&owners), evaluate(&owners));
}

#[test]
fn match_is_decided_only_while_it_is_played() {
    let won = vec![owned(A), owned(A)];
    let lost = vec![owned(B)];
    let open = vec![owned(A), owned(None)];
    assert_eq!(spawner_win_con(&won, &GameState::GamePlay), Some(GameState::GameOver { won: true }));
    assert_eq!(spawner_win_con(&lost, &GameState::GamePlay), Some(GameState::GameOver { won: false }));
    assert_eq!(spawner_win_con(&open, &GameState::GamePlay), None);
    assert_eq!(spawner_win_con(&won, &GameState::GameOver { won: true }), None);
    assert_eq!(spawner_win_con(&won, &GameState::MainMenu), None);
    assert_eq!(spawner_win_con(&lost, &GameState::Splash), None);
    assert_eq!(spawner_win_con(&lost, &GameState::Tutorial), None);
}

#[test]
fn step_contests_then_breeds_then_decides() {
    let mut points = vec![Spawner::at(Point::new(5, 5))];
    let overlaps = vec![vec![Occupant::Player { is_dead: false }]];
    let (requests, over) =
        SpawnerPlugin.update(&mut points, &overlaps, &GameState::GamePlay, DEFAULT_CAPTURE_TIME);
    assert_eq!(points[0].team(), A);
    assert_eq!(
        requests,
        vec![SpawnRequest { team: ChickenOrDog::Chicken, location: Point::new(5, 5) }]
    );
    assert_eq!(over, Some(GameState::GameOver { won: true }));
}

#[test]
fn step_does_nothing_off_the_field() {
    let mut points = vec![owned(A)];
    let before = points[0].spawn_timer();
    let overlaps = vec![vec![Occupant::Enemy { is_dead: false }]];
    let (requests, over) =
        SpawnerPlugin.update(&mut points, &overlaps, &GameState::MainMenu, DEFAULT_CAPTURE_TIME);
    assert!(requests.is_empty());
    assert_eq!(over, None);
    assert_eq!(points[0].capture_progress(), 1_000_000);
    assert_eq!(points[0].spawn_timer(), before);
}
