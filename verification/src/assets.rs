//! Pictures: which one is shown of what.

use vstd::prelude::*;
use crate::fixed::ONE;
use crate::geometry::Point;
use crate::prelude::{playable, strip, Animation, DamageFlash};
use crate::spawner::{CAPTURED, CONTESTED};
use crate::timer::ticked;

verus! {

/// How many pixels of a sheet make one world unit.
pub const PIXEL_SIZE: i32 = 200;

/// What is cut off each side of a picture so that its neighbours in the
/// sheet do not show: 0.15 pixels.
pub const BLEED: i32 = 150_000;

/// How fast a spinning thing turns, in millionths of a radian per second.
pub const SPIN: u32 = 5_100_000;

/// A full turn, in millionths of a radian.
pub const FULL_TURN: u32 = 6_283_185;

/// The place of the ruin of the dogs' building in the strip of buildings.
pub const BUILDING_DOGS: usize = 0;

/// The place of the empty building in the strip of buildings.
pub const BUILDING_EMPTY: usize = 1;

/// The place of the chickens' building in the strip of buildings.
pub const BUILDING_CHICKENS: usize = 2;

/// The place of the building that leans to the dogs.
pub const BUILDING_LEANS_DOGS: usize = 3;

/// The place of the building that leans to the chickens.
pub const BUILDING_LEANS_CHICKENS: usize = 4;

/// The tint of a picture.
#[derive(Clone, Copy, Debug, PartialEq, Eq, Structural)]
pub enum Color {
    White,
    Red,
    Green,
    DarkGreen,
    Salmon,
    /// Not drawn at all.
    Transparent,
}

/// A picture out of a sheet, as it is shown.
#[derive(Clone, Copy, Debug, PartialEq, Eq, Structural)]
pub struct Sprite {
    /// The place of the picture in its sheet.
    pub index: usize,
    pub color: Color,
    pub flip_x: bool,
    pub flip_y: bool,
    /// The size at which the picture is drawn, in millionths of a world
    /// unit, where it is not the size of the picture itself.
    pub custom_size: Option<Point>,
}

/// Something that spins about its centre.
#[derive(Clone, Copy, Debug, PartialEq, Eq, Structural)]
pub struct Rotate {
    /// How far it has turned, in millionths of a radian.
    pub angle: u32,
}

/// Where a picture lies in its sheet, in millionths of a pixel.
#[derive(Clone, Copy, Debug, PartialEq, Eq)]
pub struct SpriteDesc {
    pub pos: (i32, i32),
    pub size: (i32, i32),
}

/// The part of a sheet that is shown of a picture, in millionths of a pixel.
#[derive(Clone, Copy, Debug, PartialEq, Eq)]
pub struct AtlasRect {
    pub min: (i64, i64),
    pub max: (i64, i64),
}

/// The pictures of a sheet.
#[derive(Debug)]
pub struct GraphicsDesc {
    pub frames: Vec<SpriteDesc>,
}

/// The pictures of the walking and of the shooting leader of the chickens.
#[derive(Debug)]
pub struct ChickenWalkFrames {
    pub frames: Vec<Sprite>,
    pub alt_frames: Vec<Sprite>,
}

/// The pictures of the walking and of the shooting leader of the dogs.
#[derive(Debug)]
pub struct DogWalkFrames {
    pub frames: Vec<Sprite>,
    pub alt_frames: Vec<Sprite>,
}

/// The pictures of the walking and of the shooting puppy.
#[derive(Debug)]
pub struct PuppyWalkFrames {
    pub frames: Vec<Sprite>,
    pub alt_frames: Vec<Sprite>,
}

/// The pictures of the walking and of the attacking chick.
#[derive(Debug)]
pub struct ChickWalkFrames {
    pub frames: Vec<Sprite>,
    pub alt_frames: Vec<Sprite>,
}

/// The pictures of the bullets.
#[derive(Debug)]
pub struct BulletFrames {
    pub frames: Vec<Sprite>,
}

/// The pictures of a capture point's building, in the order of the
/// `BUILDING_` places.
#[derive(Debug)]
pub struct BuildingFrames {
    pub frames: Vec<Sprite>,
}

/// A picture together with the animation that drives it.
#[derive(Debug)]
pub struct Animated {
    pub sprite: Sprite,
    pub animation: Animation,
}

/// A picture together with the flash that reddens it.
#[derive(Clone, Copy, Debug, PartialEq, Eq, Structural)]
pub struct Flashing {
    pub sprite: Sprite,
    pub flash: DamageFlash,
}

/// The part of the sheet that is shown of the picture `desc`: the picture
/// less `BLEED` on each side.
pub open spec fn atlas_rect(desc: SpriteDesc) -> AtlasRect {
    AtlasRect {
        min: ((desc.pos.0 + BLEED) as i64, (desc.pos.1 + BLEED) as i64),
        max: (
            (desc.pos.0 + desc.size.0 - BLEED) as i64,
            (desc.pos.1 + desc.size.1 - BLEED) as i64,
        ),
    }
}

/// One millionth of a pixel's share of a world unit, rounded toward zero.
pub open spec fn to_world(pixels: int) -> int {
    if pixels >= 0 {
        pixels / (PIXEL_SIZE as int)
    } else {
        -((-pixels) / (PIXEL_SIZE as int))
    }
}

/// The places in the sheet of the pictures `frames`, in their order.
pub open spec fn indices(frames: Seq<Sprite>) -> Seq<usize> {
    Seq::new(frames.len(), |i: int| frames[i].index)
}

/// The angle `angle` after spinning for `dt` microseconds: `angle` plus
/// `SPIN * dt / ONE`, less the full turns in it.
pub open spec fn spun(angle: u32, dt: u32) -> u32 {
    ((angle + (SPIN * dt) / (ONE as int)) % (FULL_TURN as int)) as u32
}

/// The animation `a` after `dt` microseconds. One that is not playing stands
/// still. Of one that plays, the timer runs; when it runs out, the next
/// picture of the strip comes, and after the last picture the first one of
/// the usual strip.
pub open spec fn animated(a: Animation, dt: u32) -> Animation {
    if !a.playing && !a.playing_alt {
        a
    } else {
        let timer = ticked(a.timer, dt);
        if !timer.just_finished {
            Animation { timer, ..a }
        } else if a.current_frame + 1 >= strip(a).len() {
            Animation { current_frame: 0, playing_alt: false, timer, ..a }
        } else {
            Animation { current_frame: (a.current_frame + 1) as usize, timer, ..a }
        }
    }
}

/// The picture `sprite` of the animation `a` after `dt` microseconds. It is
/// always turned upside down as the animation says. While the animation
/// plays it shows the current picture of the strip, mirrored as the animation
/// says.
pub open spec fn pictured(sprite: Sprite, a: Animation, dt: u32) -> Sprite {
    if !a.playing && !a.playing_alt {
        Sprite { flip_y: a.flip_y, ..sprite }
    } else {
        let after = animated(a, dt);
        Sprite {
            index: strip(after)[after.current_frame as int],
            flip_x: a.flip_x,
            flip_y: a.flip_y,
            ..sprite
        }
    }
}

/// The flash `f` after `dt` microseconds: its timer runs until it has run
/// out.
pub open spec fn flashed(f: DamageFlash, dt: u32) -> DamageFlash {
    if f.timer.finished {
        f
    } else {
        DamageFlash { timer: ticked(f.timer, dt) }
    }
}

/// The tint of something with the flash `f`: red until the flash has run
/// out, white after.
pub open spec fn tint(f: DamageFlash) -> Color {
    if f.timer.finished {
        Color::White
    } else {
        Color::Red
    }
}

/// The place in the strip of buildings of the picture that a capture point
/// shows when its progress has come to `progress` and it showed the picture
/// at `shown` before.
pub open spec fn building(progress: int, shown: usize) -> usize {
    if progress <= -CAPTURED {
        BUILDING_DOGS
    } else if progress >= CAPTURED {
        BUILDING_CHICKENS
    } else if -CONTESTED <= progress <= CONTESTED {
        BUILDING_EMPTY
    } else if -(ONE / 2) <= progress <= -(ONE / 10) {
        BUILDING_LEANS_DOGS
    } else if ONE / 10 <= progress <= ONE / 2 {
        BUILDING_LEANS_CHICKENS
    } else {
        shown
    }
}

/// Choosing the picture of a building twice for the same progress changes
/// nothing.
pub proof fn lemma_building_settles(progress: int, shown: usize)
    ensures
        building(progress, building(progress, shown)) == building(progress, shown),
{
}

/// Whether the animation `a` can be played for a step: it stands still, or
/// it is playable.
pub open spec fn can_play(a: Animation) -> bool {
    a.playing || a.playing_alt ==> playable(a)
}

/// An animation that can be played for a step can be played for the next.
pub proof fn lemma_animated_playable(a: Animation, dt: u32)
    requires
        can_play(a),
    ensures
        can_play(animated(a, dt)),
        playable(a) ==> playable(animated(a, dt)),
{
}

impl SpriteDesc {
    /// The part of the sheet that is shown of the picture.
    pub fn to_atlas_rect(self) -> (r: AtlasRect)
        ensures
            r == atlas_rect(self),
    {
        AtlasRect {
            min: (self.pos.0 as i64 + BLEED as i64, self.pos.1 as i64 + BLEED as i64),
            max: (
                self.pos.0 as i64 + self.size.0 as i64 - BLEED as i64,
                self.pos.1 as i64 + self.size.1 as i64 - BLEED as i64,
            ),
        }
    }

    /// The size at which the picture is drawn, in millionths of a world
    /// unit: its size in the sheet divided by `PIXEL_SIZE`.
    pub fn custom_size(self) -> (r: Point)
        ensures
            r.x == to_world(self.size.0 as int),
            r.y == to_world(self.size.1 as int),
    {
        Point { x: self.size.0 / PIXEL_SIZE, y: self.size.1 / PIXEL_SIZE }
    }
}

/// The places in the sheet of the pictures `frames`, in their order.
pub fn frame_indices(frames: &Vec<Sprite>) -> (r: Vec<usize>)
    ensures
        r@ == indices(frames@),
{
    let mut r: Vec<usize> = Vec::new();
    let mut i: usize = 0;
    while i < frames.len()
        invariant
            i <= frames.len(),
            r.len() == i,
            forall|j: int| 0 <= j < i ==> r[j] == frames[j].index,
        decreases frames.len() - i,
    {
        r.push(frames[i].index);
        i = i + 1;
    }
    assert(r@ =~= indices(frames@));
    r
}

/// Turns each spinning thing by what it turns in `dt` microseconds.
pub fn rotate(graphics: &mut Vec<Rotate>, dt: u32)
    ensures
        final(graphics).len() == old(graphics).len(),
        forall|i: int|
            0 <= i < old(graphics).len() ==> (#[trigger] final(graphics)[i]).angle == spun(
                old(graphics)[i].angle,
                dt,
            ),
{
    let mut i: usize = 0;
    while i < graphics.len()
        invariant
            i <= graphics.len(),
            graphics.len() == old(graphics).len(),
            forall|j: int|
                0 <= j < i ==> (#[trigger] graphics[j]).angle == spun(old(graphics)[j].angle, dt),
            forall|j: int| i <= j < graphics.len() ==> graphics[j] == old(graphics)[j],
        decreases graphics.len() - i,
    {
        let angle = graphics[i].angle;
        graphics.set(i, Rotate { angle: spin(angle, dt) });
        i = i + 1;
    }
}

/// The angle `angle` after spinning for `dt` microseconds.
pub fn spin(angle: u32, dt: u32) -> (r: u32)
    ensures
        r == spun(angle, dt),
        r < FULL_TURN,
{
    assert(SPIN * dt <= 5_100_000 * 0xffff_ffff) by (nonlinear_arith)
        requires
            SPIN == 5_100_000,
            0 <= dt <= 0xffff_ffff,
    ;
    let turn: u64 = (SPIN as u64 * dt as u64) / 1_000_000;
    ((angle as u64 + turn) % (FULL_TURN as u64)) as u32
}

/// Plays one animation for `dt` microseconds and shows its picture.
pub fn animate(sprite: &mut Sprite, animation: &mut Animation, dt: u32)
    requires
        can_play(*old(animation)),
    ensures
        *final(animation) == animated(*old(animation), dt),
        *final(sprite) == pictured(*old(sprite), *old(animation), dt),
        can_play(*final(animation)),
{
    sprite.flip_y = animation.flip_y;
    if !animation.playing && !animation.playing_alt {
        return ;
    }
    animation.timer.tick(dt);
    if animation.timer.just_finished() {
        let frames_len = if animation.playing_alt {
            match &animation.alt_frames {
                Some(alt) => alt.len(),
                None => 0,
            }
        } else {
            animation.frames.len()
        };
        if animation.current_frame + 1 >= frames_len {
            animation.current_frame = 0;
            animation.playing_alt = false;
        } else {
            animation.current_frame = animation.current_frame + 1;
        }
    }
    let index = if animation.playing_alt {
        match &animation.alt_frames {
            Some(alt) => alt[animation.current_frame],
            None => 0,
        }
    } else {
        animation.frames[animation.current_frame]
    };
    sprite.index = index;
    sprite.flip_x = animation.flip_x;
}

/// Plays each animation for `dt` microseconds and shows its picture.
pub fn animate_frames(graphics: &mut Vec<Animated>, dt: u32)
    requires
        forall|i: int| 0 <= i < old(graphics).len() ==> can_play(#[trigger] old(graphics)[i].animation),
    ensures
        final(graphics).len() == old(graphics).len(),
        forall|i: int|
            0 <= i < old(graphics).len() ==> {
                &&& (#[trigger] final(graphics)[i]).animation == animated(
                    old(graphics)[i].animation,
                    dt,
                )
                &&& final(graphics)[i].sprite == pictured(
                    old(graphics)[i].sprite,
                    old(graphics)[i].animation,
                    dt,
                )
                &&& can_play(final(graphics)[i].animation)
            },
{
    let mut i: usize = 0;
    while i < graphics.len()
        invariant
            i <= graphics.len(),
            graphics.len() == old(graphics).len(),
            forall|j: int|
                0 <= j < old(graphics).len() ==> can_play(#[trigger] old(graphics)[j].animation),
            forall|j: int|
                0 <= j < i ==> {
                    &&& (#[trigger] graphics[j]).animation == animated(old(graphics)[j].animation, dt)
                    &&& graphics[j].sprite == pictured(
                        old(graphics)[j].sprite,
                        old(graphics)[j].animation,
                        dt,
                    )
                    &&& can_play(graphics[j].animation)
                },
            forall|j: int| i <= j < graphics.len() ==> graphics[j] == old(graphics)[j],
        decreases graphics.len() - i,
    {
        graphics[i].play(dt);
        i = i + 1;
    }
}

impl Animated {
    /// Plays the animation for `dt` microseconds and shows its picture.
    pub fn play(&mut self, dt: u32)
        requires
            can_play(old(self).animation),
        ensures
            final(self).animation == animated(old(self).animation, dt),
            final(self).sprite == pictured(old(self).sprite, old(self).animation, dt),
            can_play(final(self).animation),
    {
        animate(&mut self.sprite, &mut self.animation, dt);
    }
}

/// Runs one flash for `dt` microseconds and tints its picture: red while the
/// flash had not run out before, white after.
pub fn flash(sprite: &mut Sprite, flash: &mut DamageFlash, dt: u32)
    ensures
        *final(flash) == flashed(*old(flash), dt),
        *final(sprite) == (Sprite { color: tint(*old(flash)), ..*old(sprite) }),
{
    sprite.color = Color::White;
    if !flash.timer.finished() {
        flash.timer.tick(dt);
        sprite.color = Color::Red;
    }
}

/// Runs each flash for `dt` microseconds and tints its picture.
pub fn flash_red(sprites: &mut Vec<Flashing>, dt: u32)
    ensures
        final(sprites).len() == old(sprites).len(),
        forall|i: int|
            0 <= i < old(sprites).len() ==> #[trigger] final(sprites)[i] == (Flashing {
                sprite: Sprite { color: tint(old(sprites)[i].flash), ..old(sprites)[i].sprite },
                flash: flashed(old(sprites)[i].flash, dt),
            }),
{
    let mut i: usize = 0;
    while i < sprites.len()
        invariant
            i <= sprites.len(),
            sprites.len() == old(sprites).len(),
            forall|j: int|
                0 <= j < i ==> #[trigger] sprites[j] == (Flashing {
                    sprite: Sprite { color: tint(old(sprites)[j].flash), ..old(sprites)[j].sprite },
                    flash: flashed(old(sprites)[j].flash, dt),
                }),
            forall|j: int| i <= j < sprites.len() ==> sprites[j] == old(sprites)[j],
        decreases sprites.len() - i,
    {
        let mut entry = sprites[i];
        flash(&mut entry.sprite, &mut entry.flash, dt);
        sprites.set(i, entry);
        i = i + 1;
    }
}

/// The place in the strip of buildings of the picture that a capture point
/// shows when its progress has come to `progress` and it showed the picture
/// at `shown` before.
pub fn building_frame(progress: i32, shown: usize) -> (r: usize)
    ensures
        r == building(progress as int, shown),
{
    if progress <= -CAPTURED {
        BUILDING_DOGS
    } else if progress >= CAPTURED {
        BUILDING_CHICKENS
    } else if -CONTESTED <= progress && progress <= CONTESTED {
        BUILDING_EMPTY
    } else if -(ONE / 2) <= progress && progress <= -(ONE / 10) {
        BUILDING_LEANS_DOGS
    } else if ONE / 10 <= progress && progress <= ONE / 2 {
        BUILDING_LEANS_CHICKENS
    } else {
        shown
    }
}

/// The rules of the pictures.
pub struct GameAssetsPlugin;

impl GameAssetsPlugin {
    /// One step of `dt` microseconds for the pictures: what spins is turned,
    /// and what is animated is played.
    pub fn update(&self, spinning: &mut Vec<Rotate>, graphics: &mut Vec<Animated>, dt: u32)
        requires
            forall|i: int|
                0 <= i < old(graphics).len() ==> can_play(#[trigger] old(graphics)[i].animation),
        ensures
            final(spinning).len() == old(spinning).len(),
            forall|i: int|
                0 <= i < old(spinning).len() ==> (#[trigger] final(spinning)[i]).angle == spun(
                    old(spinning)[i].angle,
                    dt,
                ),
            final(graphics).len() == old(graphics).len(),
            forall|i: int|
                0 <= i < old(graphics).len() ==> {
                    &&& (#[trigger] final(graphics)[i]).animation == animated(
                        old(graphics)[i].animation,
                        dt,
                    )
                    &&& final(graphics)[i].sprite == pictured(
                        old(graphics)[i].sprite,
                        old(graphics)[i].animation,
                        dt,
                    )
                    &&& can_play(final(graphics)[i].animation)
                },
    {
        rotate(spinning, dt);
        animate_frames(graphics, dt);
    }

    /// What follows each step for the pictures: what was hit is tinted.
    pub fn post_update(&self, sprites: &mut Vec<Flashing>, dt: u32)
        ensures
            final(sprites).len() == old(sprites).len(),
            forall|i: int|
                0 <= i < old(sprites).len() ==> #[trigger] final(sprites)[i] == (Flashing {
                    sprite: Sprite { color: tint(old(sprites)[i].flash), ..old(sprites)[i].sprite },
                    flash: flashed(old(sprites)[i].flash, dt),
                }),
    {
        flash_red(sprites, dt);
    }
}

} // verus!
