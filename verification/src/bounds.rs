//! Arena bounds for an electron that is moved directly.
//!
//! Coordinates are whole numbers of a unit that the caller picks, measured
//! from the centre of the arena. With half pixels as the unit, an arena of 84
//! by 48 pixels with walls of 1 pixel and an electron of 3 pixels has only
//! whole sizes: half extents of 84 and 48, walls of 2, half an electron of 3.

use vstd::prelude::*;

verus! {

/// Position clamped into `[-limit, limit]`.
pub open spec fn clamped(position: int, limit: int) -> int {
    if position < -limit {
        -limit
    } else if position > limit {
        limit
    } else {
        position
    }
}

/// How far from the centre the electron's centre may go along one axis: the
/// half extent of the arena less the wall and half the electron. `None` where
/// wall and electron leave no room at all.
pub fn axis_limit(
    half_extent: u32,
    wall_thickness: u32,
    half_electron_size: u32,
) -> (limit: Option<u32>)
    ensures
        limit == if wall_thickness + half_electron_size <= half_extent {
            Some((half_extent - wall_thickness - half_electron_size) as u32)
        } else {
            None::<u32>
        },
{
    if wall_thickness <= half_extent && half_electron_size <= half_extent - wall_thickness {
        Some(half_extent - wall_thickness - half_electron_size)
    } else {
        None
    }
}

/// Clamps a position along one axis into `[-limit, limit]`.
pub fn clamp_axis(position: i64, limit: u32) -> (inside: i64)
    ensures
        inside == clamped(position as int, limit as int),
{
    let limit: i64 = limit as i64;
    if position < -limit {
        -limit
    } else if position > limit {
        limit
    } else {
        position
    }
}

/// Clamps a position into the arena, each axis on its own.
pub fn clamp_position(position: (i64, i64), limits: (u32, u32)) -> (inside: (i64, i64))
    ensures
        inside.0 == clamped(position.0 as int, limits.0 as int),
        inside.1 == clamped(position.1 as int, limits.1 as int),
{
    (clamp_axis(position.0, limits.0), clamp_axis(position.1, limits.1))
}

/// A clamped position lies within the bounds; one that was outside lands
/// exactly on the bound it had passed, one that was inside stays; and clamping
/// what is already clamped changes nothing.
pub proof fn lemma_clamp(position: int, limit: int)
    requires
        0 <= limit,
    ensures
        -limit <= clamped(position, limit) <= limit,
        position < -limit ==> clamped(position, limit) == -limit,
        position > limit ==> clamped(position, limit) == limit,
        -limit <= position <= limit ==> clamped(position, limit) == position,
        clamped(clamped(position, limit), limit) == clamped(position, limit),
{
}

} // verus!
