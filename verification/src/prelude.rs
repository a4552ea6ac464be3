//! What the things in the arena are made of.

use vstd::prelude::*;
use crate::geometry::Point;
use crate::timer::Timer;

pub use crate::bullet::Bullet;
pub use crate::external::collisions::Collisions;
pub use crate::map::GameMap;
pub use crate::spawner::Spawner;
pub use crate::team::ChickenOrDog;
pub use crate::targeting::{find_closest, find_farthest};
pub use crate::GameState;

verus! {

/// What the leader of the chickens carries.
#[derive(Clone, Copy, Debug, PartialEq, Eq, Structural)]
pub struct Player {
    /// The pause between two shots.
    pub bullet_cooldown: Timer,
}

/// What the leader of the dogs carries.
#[derive(Clone, Copy, Debug, PartialEq, Eq, Structural)]
pub struct Enemy {
    /// How far the enemy shoots, in millionths of a world unit.
    pub range: u32,
    /// The pause between two shots.
    pub bullet_cooldown: Timer,
}

/// Hit points, in millionths.
#[derive(Clone, Copy, Debug, PartialEq, Eq, Structural)]
pub struct Health(pub i32);

/// How fast something moves, in millionths of a world unit per second.
#[derive(Clone, Copy, Debug, PartialEq, Eq, Structural)]
pub struct MovementStats {
    pub speed: u32,
}

/// Whether a leader is down, and the countdown to his return.
#[derive(Clone, Copy, Debug, PartialEq, Eq, Structural)]
pub struct RespawnTimer {
    pub is_dead: bool,
    pub timer: Timer,
}

/// The countdown during which something that was hit is shown in red.
#[derive(Clone, Copy, Debug, PartialEq, Eq, Structural)]
pub struct DamageFlash {
    pub timer: Timer,
}

/// A leader as the rules see him: where he stands, whose side he leads, how
/// fast he walks, how much he can take, and whether he is down.
#[derive(Clone, Copy, Debug, PartialEq, Eq, Structural)]
pub struct Agent {
    pub position: Point,
    pub team: ChickenOrDog,
    pub movement_stats: MovementStats,
    pub health: Health,
    pub respawn: RespawnTimer,
}

/// Which picture of a strip is shown, and how far the strip has run.
///
/// A strip is a list of places in a sheet of pictures. Beside its usual
/// strip an animation may have a second one, which is played once from its
/// start when `playing_alt` is set, after which the usual strip takes over
/// again.
#[derive(Debug)]
pub struct Animation {
    /// The place in the strip that is playing.
    pub current_frame: usize,
    /// The usual strip.
    pub frames: Vec<usize>,
    /// The second strip, if there is one.
    pub alt_frames: Option<Vec<usize>>,
    /// Whether the second strip is playing.
    pub playing_alt: bool,
    /// Whether the usual strip is playing.
    pub playing: bool,
    pub flip_x: bool,
    pub flip_y: bool,
    /// The time each picture stays.
    pub timer: Timer,
}

/// The strip that `a` is on.
pub open spec fn strip(a: Animation) -> Seq<usize> {
    if a.playing_alt {
        match a.alt_frames {
            Some(alt) => alt@,
            None => Seq::empty(),
        }
    } else {
        a.frames@
    }
}

/// An animation can be played: its usual strip is not empty, and its current
/// frame lies on the strip that it is on.
pub open spec fn playable(a: Animation) -> bool {
    a.frames.len() > 0 && a.current_frame < strip(a).len()
}

/// What kind of body something has, for the sake of what it can touch.
#[derive(Clone, Copy, Debug, PartialEq, Eq, Structural, Hash)]
pub enum Layer {
    Bullet,
    Enemy,
    Player,
    Wall,
    CaptureArea,
    /// The layer that nothing is on. Layers that were never set hold it,
    /// because they hold every layer.
    Unset,
}

/// The layers a body is on (`groups`) and the layers it touches (`masks`),
/// one bit each.
#[derive(Clone, Copy, Debug, PartialEq, Eq, Structural)]
pub struct CollisionLayers {
    pub groups: u32,
    pub masks: u32,
}

/// One side of a touch: the body, and its layers.
#[derive(Clone, Copy, Debug, PartialEq, Eq, Structural)]
pub struct CollisionData {
    pub rigid_body_entity: u64,
    pub collision_layers: CollisionLayers,
}

/// Two bodies have begun or ceased to touch.
#[derive(Clone, Copy, Debug, PartialEq, Eq, Structural)]
pub enum CollisionEvent {
    Started(CollisionData, CollisionData),
    Stopped(CollisionData, CollisionData),
}

/// The bits of every layer.
pub const ALL_LAYERS: u32 = 63;

impl Layer {
    /// The bit of the layer.
    pub open spec fn bits(self) -> u32 {
        match self {
            Layer::Bullet => 1,
            Layer::Enemy => 2,
            Layer::Player => 4,
            Layer::Wall => 8,
            Layer::CaptureArea => 16,
            Layer::Unset => 32,
        }
    }

    /// The bit of the layer.
    pub fn to_bits(self) -> (r: u32)
        ensures
            r == self.bits(),
    {
        match self {
            Layer::Bullet => 1,
            Layer::Enemy => 2,
            Layer::Player => 4,
            Layer::Wall => 8,
            Layer::CaptureArea => 16,
            Layer::Unset => 32,
        }
    }
}

impl CollisionLayers {
    /// Whether the body is on `layer`.
    pub open spec fn on(self, layer: Layer) -> bool {
        self.groups & layer.bits() != 0
    }

    /// Whether the body touches `layer`.
    pub open spec fn touches(self, layer: Layer) -> bool {
        self.masks & layer.bits() != 0
    }

    /// On no layer, touching none.
    pub fn none() -> (r: CollisionLayers)
        ensures
            r == (CollisionLayers { groups: 0, masks: 0 }),
    {
        CollisionLayers { groups: 0, masks: 0 }
    }

    /// On no layer, touching all.
    pub fn all_masks() -> (r: CollisionLayers)
        ensures
            r == (CollisionLayers { groups: 0, masks: ALL_LAYERS }),
    {
        CollisionLayers { groups: 0, masks: ALL_LAYERS }
    }

    /// The same layers, and on `layer` too.
    pub fn with_group(self, layer: Layer) -> (r: CollisionLayers)
        ensures
            r == (CollisionLayers { groups: self.groups | layer.bits(), masks: self.masks }),
    {
        CollisionLayers { groups: self.groups | layer.to_bits(), masks: self.masks }
    }

    /// The same layers, and touching `layer` too.
    pub fn with_mask(self, layer: Layer) -> (r: CollisionLayers)
        ensures
            r == (CollisionLayers { groups: self.groups, masks: self.masks | layer.bits() }),
    {
        CollisionLayers { groups: self.groups, masks: self.masks | layer.to_bits() }
    }

    /// The same layers, but not touching `layer`.
    pub fn without_mask(self, layer: Layer) -> (r: CollisionLayers)
        ensures
            r == (CollisionLayers { groups: self.groups, masks: self.masks & !layer.bits() }),
    {
        CollisionLayers { groups: self.groups, masks: self.masks & !layer.to_bits() }
    }

    /// Whether the body is on `layer`.
    pub fn contains_group(self, layer: Layer) -> (b: bool)
        ensures
            b == self.on(layer),
    {
        self.groups & layer.to_bits() != 0
    }

    /// Whether the body touches `layer`.
    pub fn contains_mask(self, layer: Layer) -> (b: bool)
        ensures
            b == self.touches(layer),
    {
        self.masks & layer.to_bits() != 0
    }
}

impl CollisionEvent {
    /// The two sides of the touch.
    pub open spec fn sides(self) -> (CollisionData, CollisionData) {
        match self {
            CollisionEvent::Started(a, b) => (a, b),
            CollisionEvent::Stopped(a, b) => (a, b),
        }
    }

    /// The two sides of the touch.
    pub fn data(self) -> (r: (CollisionData, CollisionData))
        ensures
            r == self.sides(),
    {
        match self {
            CollisionEvent::Started(a, b) => (a, b),
            CollisionEvent::Stopped(a, b) => (a, b),
        }
    }

    /// Whether the touch has begun.
    pub fn is_started(self) -> (b: bool)
        ensures
            b == (self is Started),
    {
        match self {
            CollisionEvent::Started(_, _) => true,
            CollisionEvent::Stopped(_, _) => false,
        }
    }
}

/// The two bodies of a touch with the one on `layer` first, or nothing where
/// neither is on it. Where both are on it they come in the order of the
/// event.
pub open spec fn layer_collision(event: CollisionEvent, layer: Layer) -> Option<(u64, u64)> {
    let (a, b) = event.sides();
    if a.collision_layers.on(layer) {
        Some((a.rigid_body_entity, b.rigid_body_entity))
    } else if b.collision_layers.on(layer) {
        Some((b.rigid_body_entity, a.rigid_body_entity))
    } else {
        None
    }
}

/// Both sides of the touch have had their layers set.
pub open spec fn layers_set(event: CollisionEvent) -> bool {
    !event.sides().0.collision_layers.on(Layer::Unset) && !event.sides().1.collision_layers.on(
        Layer::Unset,
    )
}

/// Whether both sides of the touch have had their layers set.
pub fn has_layers_set(event: &CollisionEvent) -> (b: bool)
    ensures
        b == layers_set(*event),
{
    let (a, b) = event.data();
    !a.collision_layers.contains_group(Layer::Unset) && !b.collision_layers.contains_group(
        Layer::Unset,
    )
}

/// The two bodies of a touch with the bullet first, or nothing where neither
/// is a bullet.
pub fn is_bullet_collision(event: &CollisionEvent) -> (r: Option<(u64, u64)>)
    requires
        layers_set(*event),
    ensures
        r == layer_collision(*event, Layer::Bullet),
{
    is_layer_collision(event, Layer::Bullet)
}

/// The two bodies of a touch with the one on `layer` first, or nothing where
/// neither is on it.
pub fn is_layer_collision(event: &CollisionEvent, layer: Layer) -> (r: Option<(u64, u64)>)
    requires
        layers_set(*event),
    ensures
        r == layer_collision(*event, layer),
{
    let (a, b) = event.data();
    if a.collision_layers.contains_group(layer) {
        Some((a.rigid_body_entity, b.rigid_body_entity))
    } else if b.collision_layers.contains_group(layer) {
        Some((b.rigid_body_entity, a.rigid_body_entity))
    } else {
        None
    }
}

} // verus!
