//! The arena: its walls, and where things start.

use vstd::prelude::*;
use crate::geometry::Point;
use crate::prelude::{CollisionLayers, Layer, ALL_LAYERS};
use crate::team::ChickenOrDog;

verus! {

/// A wall: a rectangle given by its centre, its size, and the angle by which
/// it is turned about its centre, in millionths of a radian.
#[derive(Clone, Copy, Debug, PartialEq, Eq, Structural)]
pub struct Rect {
    pub position: Point,
    pub size: Point,
    pub rotation: i32,
}

/// An arena.
#[derive(Debug)]
pub struct GameMap {
    pub rects: Vec<Rect>,
    /// Where the capture points lie, and the side each is marked for.
    pub spawn_locations: Vec<(Point, ChickenOrDog)>,
    pub player_spawn: Point,
    pub enemy_spawn: Point,
}

/// Half of a coordinate, rounded toward zero.
pub open spec fn halved(v: int) -> int {
    if v >= 0 {
        v / 2
    } else {
        -((-v) / 2)
    }
}

/// From the centre of a wall to its corner: half of the wall's size.
pub open spec fn extents(rect: Rect) -> Point {
    Point { x: halved(rect.size.x as int) as i32, y: halved(rect.size.y as int) as i32 }
}

impl Rect {
    /// From the centre of the wall to its corner: half of its size.
    pub fn half_extents(&self) -> (r: Point)
        ensures
            r == extents(*self),
    {
        Point { x: self.size.x / 2, y: self.size.y / 2 }
    }
}

/// The places of `locations` that are marked for `team`, in their order.
pub open spec fn marked(locations: Seq<(Point, ChickenOrDog)>, team: ChickenOrDog) -> Seq<Point>
    decreases locations.len(),
{
    if locations.len() == 0 {
        Seq::empty()
    } else {
        let rest = marked(locations.drop_last(), team);
        if locations.last().1 == team {
            rest.push(locations.last().0)
        } else {
            rest
        }
    }
}

/// The places of `locations` that are marked for `team`, in their order.
pub fn locations_of(locations: &Vec<(Point, ChickenOrDog)>, team: ChickenOrDog) -> (r: Vec<Point>)
    ensures
        r@ == marked(locations@, team),
{
    let mut r: Vec<Point> = Vec::new();
    let mut i: usize = 0;
    while i < locations.len()
        invariant
            i <= locations.len(),
            r@ == marked(locations@.take(i as int), team),
        decreases locations.len() - i,
    {
        assert(locations@.take(i + 1).drop_last() =~= locations@.take(i as int));
        let (place, mark) = locations[i];
        if mark == team {
            r.push(place);
        }
        i = i + 1;
    }
    assert(locations@.take(locations.len() as int) =~= locations@);
    r
}

/// A wall as it stands in the arena: a box that nothing passes.
#[derive(Clone, Copy, Debug, PartialEq, Eq, Structural)]
pub struct Wall {
    pub position: Point,
    /// From the centre of the wall to its corner.
    pub half_extents: Point,
    pub rotation: i32,
    pub collision_layer: CollisionLayers,
}

/// The wall that a rectangle of the map makes: where the rectangle is,
/// turned as it is, on the layer of walls.
pub open spec fn wall_of(rect: Rect) -> Wall {
    Wall {
        position: rect.position,
        half_extents: extents(rect),
        rotation: rect.rotation,
        collision_layer: CollisionLayers { groups: 0u32 | Layer::Wall.bits(), masks: ALL_LAYERS },
    }
}

/// The walls of a map, in the order of its rectangles.
pub fn create_map(map: &GameMap) -> (walls: Vec<Wall>)
    ensures
        walls.len() == map.rects.len(),
        forall|i: int| 0 <= i < map.rects.len() ==> #[trigger] walls[i] == wall_of(map.rects[i]),
{
    let mut walls: Vec<Wall> = Vec::new();
    let mut i: usize = 0;
    while i < map.rects.len()
        invariant
            i <= map.rects.len(),
            walls.len() == i,
            forall|j: int| 0 <= j < i ==> #[trigger] walls[j] == wall_of(map.rects[j]),
        decreases map.rects.len() - i,
    {
        let rect = map.rects[i];
        walls.push(
            Wall {
                position: rect.position,
                half_extents: rect.half_extents(),
                rotation: rect.rotation,
                collision_layer: CollisionLayers::all_masks().with_group(Layer::Wall),
            },
        );
        i = i + 1;
    }
    walls
}

/// The rules of the map.
pub struct MapPlugin;

impl MapPlugin {
    /// What the map puts into the arena when the game leaves the splash
    /// screen: its walls.
    pub fn build(&self, map: &GameMap) -> (walls: Vec<Wall>)
        ensures
            walls.len() == map.rects.len(),
            forall|i: int| 0 <= i < map.rects.len() ==> #[trigger] walls[i] == wall_of(map.rects[i]),
    {
        create_map(map)
    }
}

} // verus!
