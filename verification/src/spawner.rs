//! The spawner: turns a pointer press into a new particle near the pointer.

use rand::rngs::ThreadRng;
use rand::Rng;
use vstd::prelude::*;
use crate::particle::{Activity, Color, Particle};

verus! {

/// The farthest a new particle is placed from the pointer along one axis.
pub const MAX_JITTER: i32 = 20;

/// The lowest red channel of a new particle, in thousandths.
pub const RED_FROM: u16 = 700;

/// The bound that the red channel of a new particle stays below.
pub const RED_TO: u16 = 900;

/// The lowest green channel of a new particle, in thousandths.
pub const GREEN_FROM: u16 = 600;

/// The bound that the green channel of a new particle stays below.
pub const GREEN_TO: u16 = 800;

/// The lowest blue channel of a new particle, in thousandths.
pub const BLUE_FROM: u16 = 100;

/// The bound that the blue channel of a new particle stays below.
pub const BLUE_TO: u16 = 300;

/// `rand::rngs::ThreadRng`, the handle to a thread's random number generator.
/// It is carried through to the calls that draw from it; nothing is known of
/// what it holds.
#[verifier::external_type_specification]
#[verifier::external_body]
pub struct ExThreadRng(rand::rngs::ThreadRng);

/// `rand::thread_rng` returns a handle to the generator of the calling
/// thread. Nothing is claimed of the handle. The call fails only where the
/// operating system has no entropy to seed the generator with.
pub assume_specification[ rand::thread_rng ]() -> (rng: ThreadRng);

/// `Rng::gen_range` on an inclusive range of `i32`. The range must not be
/// empty. All that is claimed of the number drawn is that it lies in the
/// range.
#[verifier::external_body]
fn random_between(rng: &mut ThreadRng, low: i32, high: i32) -> (drawn: i32)
    requires
        low <= high,
    ensures
        low <= drawn <= high,
{
    rng.gen_range(low..=high)
}

/// `Rng::gen_ratio`: a coin that comes up `true` with a chance of `numerator`
/// in `denominator`. The chance must be a proper one. Claimed: a chance of
/// one always comes up `true`, a chance of zero never does.
#[verifier::external_body]
fn random_chance(rng: &mut ThreadRng, numerator: u32, denominator: u32) -> (hit: bool)
    requires
        0 < denominator,
        numerator <= denominator,
    ensures
        numerator == denominator ==> hit,
        numerator == 0 ==> !hit,
{
    rng.gen_ratio(numerator, denominator)
}

/// Whether `color` lies in the palette of sand: a yellow-brown, with each
/// channel in its own range.
pub open spec fn is_sand_color(color: Color) -> bool {
    &&& RED_FROM <= color.red < RED_TO
    &&& GREEN_FROM <= color.green < GREEN_TO
    &&& BLUE_FROM <= color.blue < BLUE_TO
}

/// Whether `offset` is a placement jitter: at most `MAX_JITTER` either way.
pub open spec fn is_jitter(offset: int) -> bool {
    -MAX_JITTER <= offset <= MAX_JITTER
}

/// A pointer coordinate in the simulation's centred space: screen coordinate
/// less half the viewport's extent along that axis.
pub open spec fn centered(pointer: int, extent: int) -> int {
    pointer - extent / 2
}

/// Whether a particle can be placed at the pointer with the offset given:
/// both of its coordinates are positions of the world.
pub open spec fn can_place(pointer: (i32, i32), viewport: (u32, u32), offset: (i32, i32)) -> bool {
    &&& i32::MIN <= centered(pointer.0 as int, viewport.0 as int) + offset.0 <= i32::MAX
    &&& i32::MIN <= centered(pointer.1 as int, viewport.1 as int) + offset.1 <= i32::MAX
}

/// Whether a particle can be placed at the pointer whatever the jitter.
pub open spec fn can_spawn(pointer: (i32, i32), viewport: (u32, u32)) -> bool {
    &&& i32::MIN + MAX_JITTER <= centered(pointer.0 as int, viewport.0 as int) <= i32::MAX
        - MAX_JITTER
    &&& i32::MIN + MAX_JITTER <= centered(pointer.1 as int, viewport.1 as int) <= i32::MAX
        - MAX_JITTER
}

/// Whether the pointer can be tracked: its position is known, and lies where
/// the world has room for a particle and its jitter.
pub open spec fn trackable(pointer: Option<(i32, i32)>, viewport: (u32, u32)) -> bool {
    pointer matches Some(at) && can_spawn(at, viewport)
}

/// Whether `particle` is one that a press at `pointer` may create: moving, in
/// the palette of sand, and within the jitter of the centred pointer along
/// both axes.
pub open spec fn is_spawn(particle: Particle, pointer: (i32, i32), viewport: (u32, u32)) -> bool {
    &&& particle.moving()
    &&& is_sand_color(particle.color)
    &&& is_jitter(particle.x - centered(pointer.0 as int, viewport.0 as int))
    &&& is_jitter(particle.y - centered(pointer.1 as int, viewport.1 as int))
}

/// The new particle for a press at `pointer`, in screen coordinates, in a
/// viewport of the size given: centred, moved by `offset`, and moving.
pub fn place_particle(
    pointer: (i32, i32),
    viewport: (u32, u32),
    offset: (i32, i32),
    color: Color,
) -> (particle: Particle)
    requires
        can_place(pointer, viewport, offset),
    ensures
        particle.x == centered(pointer.0 as int, viewport.0 as int) + offset.0,
        particle.y == centered(pointer.1 as int, viewport.1 as int) + offset.1,
        particle.color == color,
        particle.activity == Activity::Moving,
{
    let x = pointer.0 as i64 - (viewport.0 / 2) as i64 + offset.0 as i64;
    let y = pointer.1 as i64 - (viewport.1 / 2) as i64 + offset.1 as i64;
    Particle::new(x as i32, y as i32, color)
}

/// Whether a particle can be placed at the pointer whatever the jitter.
pub fn can_spawn_at(pointer: (i32, i32), viewport: (u32, u32)) -> (possible: bool)
    ensures
        possible == can_spawn(pointer, viewport),
{
    let x = pointer.0 as i64 - (viewport.0 / 2) as i64;
    let y = pointer.1 as i64 - (viewport.1 / 2) as i64;
    let lowest = i32::MIN as i64 + MAX_JITTER as i64;
    let highest = i32::MAX as i64 - MAX_JITTER as i64;
    lowest <= x && x <= highest && lowest <= y && y <= highest
}

/// Draws one colour channel from `from` up to, not including, `to`.
fn random_channel(rng: &mut ThreadRng, from: u16, to: u16) -> (channel: u16)
    requires
        from < to,
    ensures
        from <= channel < to,
{
    random_between(rng, from as i32, to as i32 - 1) as u16
}

/// Draws the colour of a new particle, each channel on its own.
pub fn random_color(rng: &mut ThreadRng) -> (color: Color)
    ensures
        is_sand_color(color),
{
    let red = random_channel(rng, RED_FROM, RED_TO);
    let green = random_channel(rng, GREEN_FROM, GREEN_TO);
    let blue = random_channel(rng, BLUE_FROM, BLUE_TO);
    Color { red, green, blue }
}

/// Draws the placement offset along one axis: on the toss of a fair coin a
/// whole number of world units up to `MAX_JITTER` either way, else none.
pub fn random_jitter(rng: &mut ThreadRng) -> (offset: i32)
    ensures
        is_jitter(offset as int),
{
    let applied = random_chance(rng, 1, 2);
    let amount = if applied {
        random_between(rng, -MAX_JITTER, MAX_JITTER)
    } else {
        0
    };
    jitter(applied, amount)
}

/// The placement offset along one axis, given how the coin fell and the
/// amount that was drawn: the amount where the coin says to apply it, else
/// none.
pub fn jitter(applied: bool, amount: i32) -> (offset: i32)
    ensures
        offset == if applied {
            amount
        } else {
            0
        },
{
    if applied {
        amount
    } else {
        0
    }
}

/// Creates the particle of this tick, if there is one: while the pointer is
/// pressed and can be tracked, one particle in the palette of sand, within
/// the jitter of the pointer. Otherwise nothing happens.
pub fn spawn_sand_particle(pressed: bool, pointer: Option<(i32, i32)>, viewport: (u32, u32)) -> (spawned:
    Option<Particle>)
    ensures
        spawned is Some <==> pressed && trackable(pointer, viewport),
        spawned matches Some(particle) ==> (pointer matches Some(at) && is_spawn(particle, at, viewport)),
{
    match pointer {
        Some(at) => {
            if pressed && can_spawn_at(at, viewport) {
                let mut rng = rand::thread_rng();
                let color = random_color(&mut rng);
                let offset_x = random_jitter(&mut rng);
                let offset_y = random_jitter(&mut rng);
                Some(place_particle(at, viewport, (offset_x, offset_y), color))
            } else {
                None
            }
        },
        None => None,
    }
}

} // verus!
