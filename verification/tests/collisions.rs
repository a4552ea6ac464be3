use frontier::external::collisions::{
    role_of, standing, update_collisions_system, Collisions, Sensor,
};
use frontier::spawner::{net_influence, Occupant};
use frontier::external::ExternalPlugin;
use frontier::geometry::Point;
use frontier::map::{create_map, locations_of, GameMap, MapPlugin, Rect, Wall};
use frontier::prelude::{
    has_layers_set, is_bullet_collision, is_layer_collision, CollisionData, CollisionEvent,
    CollisionLayers, Layer,
};
use frontier::team::ChickenOrDog;

fn body(entity: u64, layer: Layer) -> CollisionData {
    CollisionData {
        rigid_body_entity: entity,
        collision_layers: CollisionLayers::all_masks().with_group(layer),
    }
}

fn sensor(entity: u64) -> Sensor {
    Sensor { entity, collisions: Collisions::default() }
}

#[test]
fn layers_are_one_bit_each() {
    let bits: Vec<u32> = [
        Layer::Bullet,
        Layer::Enemy,
        Layer::Player,
        Layer::Wall,
        Layer::CaptureArea,
        Layer::Unset,
    ]
    .iter()
    .map(|l| l.to_bits())
    .collect();
    assert_eq!(bits, vec![1, 2, 4, 8, 16, 32]);
}

#[test]
fn layers_are_built_bit_by_bit() {
    assert_eq!(CollisionLayers::none(), CollisionLayers { groups: 0, masks: 0 });
    assert_eq!(CollisionLayers::all_masks(), CollisionLayers { groups: 0, masks: 63 });
    let area = CollisionLayers::none()
        .with_group(Layer::CaptureArea)
        .with_mask(Layer::Player)
        .with_mask(Layer::Enemy);
    assert_eq!(area, CollisionLayers { groups: 16, masks: 6 });
    assert!(area.contains_group(Layer::CaptureArea));
    assert!(!area.contains_group(Layer::Player));
    assert!(area.contains_mask(Layer::Enemy));
    assert!(!area.contains_mask(Layer::Wall));
    assert_eq!(area.without_mask(Layer::Player), CollisionLayers { groups: 16, masks: 2 });
    assert_eq!(area.without_mask(Layer::Wall), area);
}

#[test]
fn touch_is_told_with_the_asked_layer_first() {
    let event = CollisionEvent::Started(body(1, Layer::Player), body(2, Layer::Bullet));
    assert!(has_layers_set(&event));
    assert_eq!(is_bullet_collision(&event), Some((2, 1)));
    assert_eq!(is_layer_collision(&event, Layer::Player), Some((1, 2)));
    assert_eq!(is_layer_collision(&event, Layer::Wall), None);
    let both = CollisionEvent::Stopped(body(3, Layer::Bullet), body(4, Layer::Bullet));
    assert_eq!(is_bullet_collision(&both), Some((3, 4)));
    assert_eq!(both.data(), (body(3, Layer::Bullet), body(4, Layer::Bullet)));
    assert!(!both.is_started() && event.is_started());
}

#[test]
fn layers_that_were_never_set_are_told_apart() {
    let unset = CollisionData {
        rigid_body_entity: 1,
        collision_layers: CollisionLayers { groups: u32::MAX, masks: u32::MAX },
    };
    assert!(!has_layers_set(&CollisionEvent::Started(unset, body(2, Layer::Wall))));
    assert!(!has_layers_set(&CollisionEvent::Started(body(2, Layer::Wall), unset)));
}

#[test]
fn collisions_hold_each_body_once() {
    let mut sensors = vec![sensor(1)];
    let c = &sensors[0].collisions;
    assert!(c.is_empty());
    assert_eq!(c.entities(), Vec::<u64>::new());
    let events = vec![
        CollisionEvent::Started(body(1, Layer::CaptureArea), body(7, Layer::Player)),
        CollisionEvent::Started(body(9, Layer::Enemy), body(1, Layer::CaptureArea)),
        CollisionEvent::Started(body(1, Layer::CaptureArea), body(7, Layer::Wall)),
    ];
    update_collisions_system(&events, &mut sensors);
    let c = &sensors[0].collisions;
    assert!(!c.is_empty());
    let mut entities = c.entities();
    entities.sort();
    assert_eq!(entities, vec![7, 9]);
    let events = vec![
        CollisionEvent::Stopped(body(1, Layer::CaptureArea), body(7, Layer::Wall)),
        CollisionEvent::Stopped(body(1, Layer::CaptureArea), body(8, Layer::Wall)),
    ];
    update_collisions_system(&events, &mut sensors);
    assert_eq!(sensors[0].collisions.entities(), vec![9]);
    let events = vec![CollisionEvent::Stopped(body(9, Layer::Enemy), body(1, Layer::CaptureArea))];
    update_collisions_system(&events, &mut sensors);
    assert!(sensors[0].collisions.is_empty());
    assert_eq!(sensors[0].collisions.entities(), Vec::<u64>::new());
}

#[test]
fn bodies_learn_and_forget_whom_they_touch() {
    let mut sensors = vec![sensor(1), sensor(2), sensor(3)];
    let events = vec![
        CollisionEvent::Started(body(1, Layer::CaptureArea), body(2, Layer::Player)),
        CollisionEvent::Started(body(3, Layer::Enemy), body(1, Layer::CaptureArea)),
        CollisionEvent::Started(body(8, Layer::Enemy), body(9, Layer::Wall)),
    ];
    update_collisions_system(&events, &mut sensors);
    let mut first = sensors[0].collisions.entities();
    first.sort();
    assert_eq!(first, vec![2, 3]);
    assert_eq!(sensors[1].collisions.entities(), vec![1]);
    assert_eq!(sensors[2].collisions.entities(), vec![1]);
    let events = vec![
        CollisionEvent::Stopped(body(2, Layer::Player), body(1, Layer::CaptureArea)),
        CollisionEvent::Stopped(body(5, Layer::Player), body(3, Layer::Enemy)),
    ];
    ExternalPlugin.update(&events, &mut sensors);
    assert_eq!(sensors[0].collisions.entities(), vec![3]);
    assert!(sensors[1].collisions.is_empty());
    assert_eq!(sensors[2].collisions.entities(), vec![1]);
    assert_eq!(sensors[0].entity, 1);
}

#[test]
fn touch_that_begins_and_ends_in_one_step_leaves_nothing() {
    let mut sensors = vec![sensor(1)];
    let events = vec![
        CollisionEvent::Started(body(1, Layer::CaptureArea), body(2, Layer::Player)),
        CollisionEvent::Stopped(body(1, Layer::CaptureArea), body(2, Layer::Player)),
    ];
    update_collisions_system(&events, &mut sensors);
    assert!(sensors[0].collisions.is_empty());
    let events = vec![
        CollisionEvent::Stopped(body(1, Layer::CaptureArea), body(2, Layer::Player)),
        CollisionEvent::Started(body(1, Layer::CaptureArea), body(2, Layer::Player)),
    ];
    update_collisions_system(&events, &mut sensors);
    assert_eq!(sensors[0].collisions.entities(), vec![2]);
}

#[test]
fn roster_says_who_is_who() {
    let roster = vec![
        (4, Occupant::Player { is_dead: false }),
        (5, Occupant::Minion(ChickenOrDog::Dog)),
        (4, Occupant::Enemy { is_dead: false }),
    ];
    assert_eq!(role_of(&roster, 4), Some(Occupant::Player { is_dead: false }));
    assert_eq!(role_of(&roster, 5), Some(Occupant::Minion(ChickenOrDog::Dog)));
    assert_eq!(role_of(&roster, 6), None);
    assert_eq!(role_of(&Vec::new(), 4), None);
}

#[test]
fn those_who_stand_on_a_point_are_those_it_touches() {
    let mut sensors = vec![sensor(1)];
    let roster = vec![
        (2, Occupant::Player { is_dead: false }),
        (3, Occupant::Minion(ChickenOrDog::Dog)),
        (4, Occupant::Enemy { is_dead: false }),
        (5, Occupant::Minion(ChickenOrDog::Chicken)),
    ];
    assert_eq!(standing(&sensors[0].collisions, &roster), Vec::new());
    let events = vec![
        CollisionEvent::Started(body(1, Layer::CaptureArea), body(3, Layer::Enemy)),
        CollisionEvent::Started(body(2, Layer::Player), body(1, Layer::CaptureArea)),
        CollisionEvent::Started(body(1, Layer::CaptureArea), body(8, Layer::Bullet)),
        CollisionEvent::Started(body(1, Layer::CaptureArea), body(5, Layer::Player)),
        CollisionEvent::Started(body(1, Layer::CaptureArea), body(3, Layer::Enemy)),
    ];
    update_collisions_system(&events, &mut sensors);
    let occupants = standing(&sensors[0].collisions, &roster);
    assert_eq!(occupants.len(), 3);
    assert!(occupants.contains(&Occupant::Player { is_dead: false }));
    assert!(occupants.contains(&Occupant::Minion(ChickenOrDog::Dog)));
    assert!(occupants.contains(&Occupant::Minion(ChickenOrDog::Chicken)));
    assert_eq!(net_influence(&occupants), 1_000_000);
}

#[test]
fn walls_are_half_as_wide_from_the_centre() {
    let map = GameMap {
        rects: vec![
            Rect { position: Point::new(1, 2), size: Point::new(4_000_000, 1_000_001), rotation: 785_398 },
            Rect { position: Point::new(0, 0), size: Point::new(-3, 0), rotation: 0 },
        ],
        spawn_locations: vec![
            (Point::new(1, 1), ChickenOrDog::Dog),
            (Point::new(2, 2), ChickenOrDog::Chicken),
            (Point::new(3, 3), ChickenOrDog::Dog),
        ],
        player_spawn: Point::new(0, 0),
        enemy_spawn: Point::new(0, 0),
    };
    let walls = create_map(&map);
    assert_eq!(
        walls,
        vec![
            Wall {
                position: Point::new(1, 2),
                half_extents: Point::new(2_000_000, 500_000),
                rotation: 785_398,
                collision_layer: CollisionLayers { groups: 8, masks: 63 },
            },
            Wall {
                position: Point::new(0, 0),
                half_extents: Point::new(-1, 0),
                rotation: 0,
                collision_layer: CollisionLayers { groups: 8, masks: 63 },
            },
        ]
    );
    assert_eq!(MapPlugin.build(&map), walls);
    assert_eq!(
        locations_of(&map.spawn_locations, ChickenOrDog::Dog),
        vec![Point::new(1, 1), Point::new(3, 3)]
    );
    assert_eq!(locations_of(&map.spawn_locations, ChickenOrDog::Chicken), vec![Point::new(2, 2)]);
}
