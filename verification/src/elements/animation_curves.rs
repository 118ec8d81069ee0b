//! The interpolation of animation curves.

use vstd::prelude::*;

verus! {

/// How an animation curve interpolates between its points.
#[derive(Clone, Copy, Debug, PartialEq, Eq, Structural)]
pub enum GMAnimationCurveType {
    Linear,
    Smooth,
}

/// The curve type numbered `n` (0 or 1).
pub open spec fn curve_type_of(n: u32) -> Option<GMAnimationCurveType> {
    if n == 0 { Some(GMAnimationCurveType::Linear) }
    else if n == 1 { Some(GMAnimationCurveType::Smooth) }
    else { None }
}

impl GMAnimationCurveType {
    /// The curve type numbered `n`; fails for a number that names none.
    pub fn from_u32(n: u32) -> (r: Result<Self, String>)
        ensures
            match r {
                Ok(t) => curve_type_of(n) == Some(t),
                Err(_) => curve_type_of(n) is None,
            },
    {
        match n {
            0 => Ok(GMAnimationCurveType::Linear),
            1 => Ok(GMAnimationCurveType::Smooth),
            _ => Err("Invalid animation curve type".to_owned()),
        }
    }

    /// The curve type's number.
    pub fn to_u32(&self) -> (r: u32)
        ensures
            curve_type_of(r) == Some(*self),
    {
        match self {
            GMAnimationCurveType::Linear => 0,
            GMAnimationCurveType::Smooth => 1,
        }
    }
}

} // verus!
