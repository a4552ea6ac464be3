//! Bullets: how they fly, whom they hurt, and when they are spent.

use vstd::prelude::*;
use crate::assets::Sprite;
use crate::external::collisions::{touching, Collisions};
use crate::fixed::{clamp, clamp_to_i32, div_trunc, lemma_div_trunc_bounds, quotient, ONE};
use crate::geometry::{fine_length, lemma_fine_length, Point};
use crate::movement::{lemma_step_length, stride};
use crate::prelude::{CollisionLayers, DamageFlash, Health, Layer, ALL_LAYERS};
use crate::team::ChickenOrDog;
use crate::timer::{fresh, Timer};

verus! {

/// The speed that a bullet is made with: a fifth of a world unit per second.
pub const BULLET_SPEED: u32 = 200_000;

/// The width of a bullet: a tenth of a world unit.
pub const BULLET_SIZE: u32 = 100_000;

/// What a hit takes off the hit points: one whole.
pub const BULLET_DAMAGE: i32 = 1_000_000;

/// How long something that was hit stays red: a tenth of a second.
pub const FLASH_TIME: u32 = 100_000;

/// A bullet in flight.
#[derive(Clone, Copy, Debug, PartialEq, Eq, Structural)]
pub struct Bullet {
    pub speed: u32,
    /// The way the bullet goes in one second.
    pub direction: Point,
}

/// A bullet as it enters the arena.
#[derive(Clone, Copy, Debug, PartialEq, Eq, Structural)]
pub struct BulletBundle {
    pub position: Point,
    pub bullet: Bullet,
    /// The side that shot the bullet.
    pub team: ChickenOrDog,
    pub sprite: Sprite,
    /// The radius of the bullet's round body.
    pub collision_radius: u32,
    pub collision_layer: CollisionLayers,
    /// Whether the bullet spins as it flies.
    pub rotates: bool,
}

/// Something that a bullet can hurt.
#[derive(Clone, Copy, Debug, PartialEq, Eq, Structural)]
pub struct Target {
    pub entity: u64,
    pub health: Health,
    pub team: ChickenOrDog,
    /// The flash of the target, if it has one.
    pub flash: Option<DamageFlash>,
}

/// A bullet together with the bodies that it touches.
#[derive(Debug)]
pub struct Strike {
    pub team: ChickenOrDog,
    pub touched: Vec<u64>,
}

/// The unit of the way from `from` to `to`: the way divided by its length,
/// which is taken a million times finer than the grid, each coordinate
/// rounded toward zero; and nothing where the two places are one.
pub open spec fn unit_toward(from: Point, to: Point) -> Point {
    let fine = fine_length(from, to);
    if fine == 0 {
        Point { x: 0, y: 0 }
    } else {
        Point {
            x: stride(to.x - from.x, fine, ONE as int, ONE as int) as i32,
            y: stride(to.y - from.y, fine, ONE as int, ONE as int) as i32,
        }
    }
}

/// The layers of a bullet whose shooter is on the layer `own`: on the layer
/// of bullets, touching all but bullets and the shooter's layer.
pub open spec fn bullet_layers(own: Layer) -> CollisionLayers {
    CollisionLayers {
        groups: 0u32 | Layer::Bullet.bits(),
        masks: (ALL_LAYERS & !Layer::Bullet.bits()) & !own.bits(),
    }
}

/// Where a bullet at `position` is after flying for `dt` microseconds in
/// `direction`: `position + direction * dt`, each coordinate rounded toward
/// zero and held on the grid.
pub open spec fn flown(position: Point, direction: Point, dt: u32) -> Point {
    Point {
        x: clamp(
            position.x + div_trunc(direction.x * dt, ONE as int),
            i32::MIN as int,
            i32::MAX as int,
        ) as i32,
        y: clamp(
            position.y + div_trunc(direction.y * dt, ONE as int),
            i32::MIN as int,
            i32::MAX as int,
        ) as i32,
    }
}

/// How often the bullets `strikes` hurt the target: once for each body that
/// a bullet of the other side touches and that is the target.
pub open spec fn hits(strikes: Seq<Strike>, target: Target) -> nat
    decreases strikes.len(),
{
    if strikes.len() == 0 {
        0
    } else {
        hits(strikes.drop_last(), target) + hits_of(strikes.last(), target)
    }
}

/// How often one bullet hurts the target.
pub open spec fn hits_of(strike: Strike, target: Target) -> nat {
    if strike.team == target.team {
        0
    } else {
        count(strike.touched@, target.entity)
    }
}

/// How often `entity` occurs in `touched`.
pub open spec fn count(touched: Seq<u64>, entity: u64) -> nat
    decreases touched.len(),
{
    if touched.len() == 0 {
        0
    } else {
        count(touched.drop_last(), entity) + if touched.last() == entity {
            1nat
        } else {
            0nat
        }
    }
}

/// The target after `n` hits: each takes `BULLET_DAMAGE` off its hit
/// points, which do not fall below the least number there is, and a target
/// that has a flash and was hit at all flashes anew.
pub open spec fn hurt(target: Target, n: nat) -> Target {
    if n == 0 {
        target
    } else {
        Target {
            health: Health(
                clamp(target.health.0 - n * BULLET_DAMAGE, i32::MIN as int, i32::MAX as int) as i32,
            ),
            flash: match target.flash {
                Some(_) => Some(DamageFlash { timer: fresh(FLASH_TIME, true) }),
                None => None,
            },
            ..target
        }
    }
}

/// The unit of a way is no longer than one whole along either axis, and
/// one whole long in all, give or take two millionths for the roundings.
pub proof fn lemma_unit_bound(from: Point, to: Point)
    ensures
        -ONE <= unit_toward(from, to).x <= ONE,
        -ONE <= unit_toward(from, to).y <= ONE,
        from == to ==> unit_toward(from, to) == (Point { x: 0, y: 0 }),
        unit_toward(from, to).x * unit_toward(from, to).x + unit_toward(from, to).y * unit_toward(
            from,
            to,
        ).y <= (ONE + 2) * (ONE + 2),
{
    lemma_fine_length(from, to);
    let fine = fine_length(from, to);
    if fine != 0 {
        lemma_axis_bound(to.x - from.x, fine);
        lemma_axis_bound(to.y - from.y, fine);
        let speed: u32 = 1_000_000;
        let dt: u32 = 1_000_000;
        assert(speed * dt == 1_000_000_000_000) by (nonlinear_arith)
            requires
                speed == 1_000_000,
                dt == 1_000_000,
        ;
        lemma_step_length(from, to, speed, dt);
        let ux = stride(to.x - from.x, fine, ONE as int, ONE as int);
        let uy = stride(to.y - from.y, fine, ONE as int, ONE as int);
        let reach = (speed * dt) / 1_000_000 + 2;
        assert(reach == ONE + 2);
        assert(ux * ux + uy * uy <= reach * reach);
        assert(unit_toward(from, to).x == ux && unit_toward(from, to).y == uy);
    } else {
        assert(0 <= (ONE + 2) * (ONE + 2)) by (nonlinear_arith)
            requires
                ONE == 1_000_000,
        ;
    }
}

/// A side that, taken a million times, is at most `fine`, stretched by one
/// whole twice and divided by `fine`, is at most one whole.
proof fn lemma_axis_bound(d: int, fine: int)
    requires
        fine > 0,
        -fine <= d * 1_000_000 <= fine,
    ensures
        -ONE <= stride(d, fine, ONE as int, ONE as int) <= ONE,
{
    let n = d * ONE * ONE;
    lemma_div_trunc_bounds(n, fine);
    let q = div_trunc(n, fine);
    assert(n == (d * 1_000_000) * 1_000_000) by (nonlinear_arith)
        requires
            n == d * ONE * ONE,
            ONE == 1_000_000,
    ;
    let e = d * 1_000_000;
    assert(q <= ONE) by (nonlinear_arith)
        requires
            e <= fine,
            fine > 0,
            n == e * 1_000_000,
            ONE == 1_000_000,
            n >= 0 ==> q * fine <= n,
            n <= 0 ==> q <= 0,
    ;
    assert(q >= -ONE) by (nonlinear_arith)
        requires
            -fine <= e,
            fine > 0,
            n == e * 1_000_000,
            ONE == 1_000_000,
            n <= 0 ==> n <= q * fine,
            n >= 0 ==> q >= 0,
    ;
}

/// The unit of the way from `from` to `to`.
pub fn direction(from: Point, to: Point) -> (r: Point)
    ensures
        r == unit_toward(from, to),
{
    proof {
        lemma_fine_length(from, to);
        lemma_unit_bound(from, to);
    }
    let fine: u64 = from.fine_distance(to);
    if fine == 0 {
        Point { x: 0, y: 0 }
    } else {
        let dx: i128 = to.x as i128 - from.x as i128;
        let dy: i128 = to.y as i128 - from.y as i128;
        assert(dx * ONE * ONE == dx * 1_000_000_000_000 && dy * ONE * ONE == dy
            * 1_000_000_000_000) by (nonlinear_arith)
            requires
                ONE == 1_000_000,
        ;
        let x: i128 = quotient(dx * 1_000_000_000_000, fine);
        let y: i128 = quotient(dy * 1_000_000_000_000, fine);
        Point { x: x as i32, y: y as i32 }
    }
}

/// The layers of a bullet whose shooter is on the layer `own`.
pub fn layers_of_bullet(own: Layer) -> (r: CollisionLayers)
    ensures
        r == bullet_layers(own),
{
    CollisionLayers::all_masks().with_group(Layer::Bullet).without_mask(Layer::Bullet).without_mask(
        own,
    )
}

/// Moves each bullet by what it flies in `dt` microseconds. A bullet flies
/// its direction once a second, whatever its speed says.
pub fn bullet_fly(bullets: &mut Vec<BulletBundle>, dt: u32)
    ensures
        final(bullets).len() == old(bullets).len(),
        forall|i: int|
            0 <= i < old(bullets).len() ==> #[trigger] final(bullets)[i] == (BulletBundle {
                position: flown(old(bullets)[i].position, old(bullets)[i].bullet.direction, dt),
                ..old(bullets)[i]
            }),
{
    let mut i: usize = 0;
    while i < bullets.len()
        invariant
            i <= bullets.len(),
            bullets.len() == old(bullets).len(),
            forall|j: int|
                0 <= j < i ==> #[trigger] bullets[j] == (BulletBundle {
                    position: flown(old(bullets)[j].position, old(bullets)[j].bullet.direction, dt),
                    ..old(bullets)[j]
                }),
            forall|j: int| i <= j < bullets.len() ==> bullets[j] == old(bullets)[j],
        decreases bullets.len() - i,
    {
        let b = bullets[i];
        let position = Point {
            x: fly(b.position.x, b.bullet.direction.x, dt),
            y: fly(b.position.y, b.bullet.direction.y, dt),
        };
        bullets.set(i, BulletBundle { position, ..b });
        i = i + 1;
    }
}

/// One coordinate of a flight.
fn fly(from: i32, direction: i32, dt: u32) -> (r: i32)
    ensures
        r == clamp(
            from + div_trunc(direction * dt, ONE as int),
            i32::MIN as int,
            i32::MAX as int,
        ),
{
    assert(-0x8000_0000 * 0xffff_ffff <= direction * dt <= 0x8000_0000 * 0xffff_ffff)
        by (nonlinear_arith)
        requires
            -0x8000_0000 <= direction <= 0x8000_0000,
            0 <= dt <= 0xffff_ffff,
    ;
    let n: i128 = direction as i128 * dt as i128;
    let q: i128 = quotient(n, 1_000_000);
    proof {
        lemma_div_trunc_bounds(n as int, 1_000_000);
    }
    clamp_to_i32(from as i128 + q)
}

/// How often `entity` occurs in `touched`.
fn count_of(touched: &Vec<u64>, entity: u64) -> (n: usize)
    ensures
        n == count(touched@, entity),
{
    let mut n: usize = 0;
    let mut i: usize = 0;
    while i < touched.len()
        invariant
            i <= touched.len(),
            n == count(touched@.take(i as int), entity),
            n <= i,
        decreases touched.len() - i,
    {
        assert(touched@.take(i + 1).drop_last() =~= touched@.take(i as int));
        if touched[i] == entity {
            n = n + 1;
        }
        i = i + 1;
    }
    assert(touched@.take(touched.len() as int) =~= touched@);
    n
}

/// The target after `n` hits.
fn wound(target: Target, n: u128) -> (r: Target)
    ensures
        r == hurt(target, n as nat),
{
    if n == 0 {
        target
    } else {
        let flash = match target.flash {
            Some(_) => Some(DamageFlash { timer: Timer::new(FLASH_TIME, true) }),
            None => None,
        };
        let health = if n >= 0x1_0000_0000 {
            i32::MIN
        } else {
            clamp_to_i32(target.health.0 as i128 - (n as i128) * (BULLET_DAMAGE as i128))
        };
        Target { health: Health(health), flash, ..target }
    }
}

/// Lets each bullet hurt whom it touches: a body that is touched by a bullet
/// of the other side loses `BULLET_DAMAGE` for each such touch, and flashes
/// if it has a flash.
pub fn bullet_damage(entities: &mut Vec<Target>, bullets: &Vec<Strike>)
    ensures
        final(entities).len() == old(entities).len(),
        forall|i: int|
            0 <= i < old(entities).len() ==> #[trigger] final(entities)[i] == hurt(
                old(entities)[i],
                hits(bullets@, old(entities)[i]),
            ),
{
    let mut i: usize = 0;
    while i < entities.len()
        invariant
            i <= entities.len(),
            entities.len() == old(entities).len(),
            forall|j: int|
                0 <= j < i ==> #[trigger] entities[j] == hurt(
                    old(entities)[j],
                    hits(bullets@, old(entities)[j]),
                ),
            forall|j: int| i <= j < entities.len() ==> entities[j] == old(entities)[j],
        decreases entities.len() - i,
    {
        let target = entities[i];
        let mut n: u128 = 0;
        let mut k: usize = 0;
        while k < bullets.len()
            invariant
                k <= bullets.len(),
                n == hits(bullets@.take(k as int), target),
                n <= k * 0xffff_ffff_ffff_ffff,
            decreases bullets.len() - k,
        {
            assert(bullets@.take(k + 1).drop_last() =~= bullets@.take(k as int));
            if bullets[k].team != target.team {
                n = n + count_of(&bullets[k].touched, target.entity) as u128;
            }
            k = k + 1;
        }
        assert(bullets@.take(bullets.len() as int) =~= bullets@);
        entities.set(i, wound(target, n));
        i = i + 1;
    }
}

/// Which bullets are spent: for each bullet in turn, whether it touches
/// anything.
pub fn delete_bullet(bullets: &Vec<Strike>) -> (spent: Vec<bool>)
    ensures
        spent.len() == bullets.len(),
        forall|i: int| 0 <= i < bullets.len() ==> spent[i] == (bullets[i].touched.len() > 0),
{
    let mut spent: Vec<bool> = Vec::new();
    let mut i: usize = 0;
    while i < bullets.len()
        invariant
            i <= bullets.len(),
            spent.len() == i,
            forall|j: int| 0 <= j < i ==> spent[j] == (bullets[j].touched.len() > 0),
        decreases bullets.len() - i,
    {
        spent.push(bullets[i].touched.len() > 0);
        i = i + 1;
    }
    spent
}

impl Strike {
    /// The strike of a bullet of `team` that keeps `collisions`: it touches
    /// each body that the collisions hold once, in an order that is not laid
    /// down.
    pub fn of(team: ChickenOrDog, collisions: &Collisions) -> (strike: Strike)
        ensures
            strike.team == team,
            strike.touched@.no_duplicates(),
            strike.touched@.to_set() == touching(*collisions).dom(),
    {
        Strike { team, touched: collisions.entities() }
    }
}

/// Whether a bullet of `team` that keeps `collisions` hurts `target`: it
/// touches the target, and the target is of the other side.
pub fn struck(team: ChickenOrDog, collisions: &Collisions, target: &Target) -> (b: bool)
    ensures
        b == (team != target.team && touching(*collisions).dom().contains(target.entity)),
{
    team != target.team && collisions.contains(&target.entity)
}

/// The rules of the bullets.
pub struct BulletPlugin;

impl BulletPlugin {
    /// One step of `dt` microseconds for the bullets: they fly, those that
    /// touch anything are marked as spent, and each hurts whom it touches.
    /// `strikes` holds for each bullet in turn its side and whom it touched
    /// when the step began.
    pub fn update(
        &self,
        bullets: &mut Vec<BulletBundle>,
        entities: &mut Vec<Target>,
        strikes: &Vec<Strike>,
        dt: u32,
    ) -> (spent: Vec<bool>)
        ensures
            final(bullets).len() == old(bullets).len(),
            forall|i: int|
                0 <= i < old(bullets).len() ==> #[trigger] final(bullets)[i] == (BulletBundle {
                    position: flown(old(bullets)[i].position, old(bullets)[i].bullet.direction, dt),
                    ..old(bullets)[i]
                }),
            spent.len() == strikes.len(),
            forall|i: int| 0 <= i < strikes.len() ==> spent[i] == (strikes[i].touched.len() > 0),
            final(entities).len() == old(entities).len(),
            forall|i: int|
                0 <= i < old(entities).len() ==> #[trigger] final(entities)[i] == hurt(
                    old(entities)[i],
                    hits(strikes@, old(entities)[i]),
                ),
    {
        bullet_fly(bullets, dt);
        let spent = delete_bullet(strikes);
        bullet_damage(entities, strikes);
        spent
    }
}

} // verus!
