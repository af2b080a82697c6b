//! Where the icons sit: evenly spaced on a ring around the middle of the
//! window.
//!
//! The ring and the angles are exact. Turning an angle into a point on the
//! ring takes a cosine and a sine, which is left to the caller.

use vstd::prelude::*;
use crate::error::ZoneError;

verus! {

/// How many units of a [`Ring`] make a pixel. Halves and thirds of a pixel
/// are whole numbers of them.
pub const RING_UNIT: i64 = 6;

/// Degrees in a full turn.
pub const FULL_TURN: u64 = 360;

/// The angle `numer / denom` degrees, measured from the positive x axis.
#[derive(Clone, Copy, Debug, PartialEq, Eq, Structural)]
pub struct Angle {
    pub numer: u64,
    pub denom: u64,
}

/// The ring on which the icons are laid out, in units of `1 / unit` pixels.
/// The unit of a window's ring is [`RING_UNIT`].
#[derive(Clone, Copy, Debug, PartialEq, Eq, Structural)]
pub struct Ring {
    /// How many units make a pixel.
    pub unit: i64,
    pub center_x: i64,
    pub center_y: i64,
    pub radius: i64,
}

/// The angle of place `index` among `count` places: `index` steps of one
/// `count`-th of a full turn.
pub open spec fn ring_angle(count: int, index: int) -> Angle {
    Angle { numer: (FULL_TURN * index) as u64, denom: count as u64 }
}

/// The angles of `count` places, in order.
pub open spec fn ring_angles(count: int) -> Seq<Angle> {
    Seq::new(count as nat, |index: int| ring_angle(count, index))
}

/// The ring for a window of `width` by `height` pixels: around the middle
/// of the window, with a third of the width as radius.
pub open spec fn window_ring(width: int, height: int) -> Ring {
    Ring {
        unit: RING_UNIT,
        center_x: (3 * width) as i64,
        center_y: (3 * height) as i64,
        radius: (2 * width) as i64,
    }
}

/// The angles at which `count` icons sit on their ring, in ring order.
///
/// Fails with `InvalidArgument` when `count` is zero.
pub fn layout_angles(count: u32) -> (result: Result<Vec<Angle>, ZoneError>)
    ensures
        match result {
            Ok(angles) => count >= 1 && angles@ == ring_angles(count as int),
            Err(e) => count == 0 && e == ZoneError::InvalidArgument,
        },
{
    if count == 0 {
        return Err(ZoneError::InvalidArgument);
    }
    let mut angles: Vec<Angle> = Vec::new();
    let mut index: u32 = 0;
    while index < count
        invariant
            0 <= index <= count,
            angles@.len() == index,
            forall|i: int| 0 <= i < index ==> angles@[i] == ring_angle(count as int, i),
        decreases count - index,
    {
        angles.push(Angle { numer: FULL_TURN * (index as u64), denom: count as u64 });
        index = index + 1;
    }
    Ok(angles)
}

/// The ring on which the icons of a window of `width` by `height` pixels
/// sit.
pub fn icon_ring(width: i32, height: i32) -> (ring: Ring)
    ensures
        ring == window_ring(width as int, height as int),
        ring.unit == 6,
        ring.center_x == 3 * width,
        ring.center_y == 3 * height,
        ring.radius == 2 * width,
{
    Ring {
        unit: RING_UNIT,
        center_x: 3 * (width as i64),
        center_y: 3 * (height as i64),
        radius: 2 * (width as i64),
    }
}

/// The places of a ring start on the positive x axis, follow one another
/// at exactly one `count`-th of a full turn, and stay short of a full turn.
pub proof fn lemma_angles_evenly_spaced(count: int, index: int)
    requires
        1 <= count <= u32::MAX,
        0 <= index < count,
    ensures
        ring_angles(count).len() == count,
        ring_angles(count)[0].numer == 0,
        ring_angles(count)[index].denom == count,
        ring_angles(count)[index].numer < FULL_TURN * ring_angles(count)[index].denom,
        index + 1 < count ==> ring_angles(count)[index + 1].numer - ring_angles(count)[index].numer
            == FULL_TURN,
{
}

} // verus!
