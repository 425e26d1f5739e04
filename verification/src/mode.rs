//! Which curve is fitted to a run of control points, and what it takes.
//!
//! The curve itself is floating-point work and is fitted by the host. What
//! is decided here is whether a fit may be asked for at all, and how many
//! cubic segments the curve will have.

use crate::stroke::ContractViolation;
use vstd::prelude::*;

verus! {

/// The basis of the curve.
#[derive(Clone, Copy, Debug, PartialEq, Eq, Structural)]
pub enum SplineMode {
    /// Through every control point, with a tangent given at each.
    Hermite,
    /// Through every control point, with tangents taken from the neighbours
    /// (Catmull-Rom).
    Cardinal,
    /// Near the control points, not through them (uniform B-spline).
    B,
}

/// Whether the curve closes into a loop.
#[derive(Clone, Copy, Debug, PartialEq, Eq, Structural)]
pub enum CyclingMode {
    /// The curve ends at the last control point.
    NotCyclic,
    /// The curve runs on from the last control point to the first.
    Cyclic,
}

/// The fewest control points from which a curve of basis `mode` is fitted,
/// where windows are tuned to hold `min_points`. A Hermite curve, whose
/// points must match its tangents, needs only the two points of any curve.
/// The others need what the tuning says, and never fewer than a curve of
/// their basis can be made of: two points through which to pass, four for a
/// B-spline.
pub open spec fn required_points(mode: SplineMode, min_points: nat) -> nat {
    let least: nat = match mode {
        SplineMode::Hermite => 2,
        SplineMode::Cardinal => 2,
        SplineMode::B => 4,
    };
    if mode != SplineMode::Hermite && min_points > least {
        min_points
    } else {
        least
    }
}

/// The number of cubic segments of the curve fitted to `points` control
/// points: a loop has one segment for each point; an open curve through its
/// points has one between each two neighbours; an open B-spline has one for
/// each run of four points.
pub open spec fn segment_count(mode: SplineMode, cycling: CyclingMode, points: nat) -> int {
    match cycling {
        CyclingMode::Cyclic => points as int,
        CyclingMode::NotCyclic => match mode {
            SplineMode::Hermite => points - 1,
            SplineMode::Cardinal => points - 1,
            SplineMode::B => points - 3,
        },
    }
}

/// What is to be done about a fit of `points` control points with
/// `tangents` tangents: a mismatch of the two is a violation for a Hermite
/// curve, whose every point needs its tangent; too few points give no curve;
/// else the curve has `segment_count` segments.
pub open spec fn fit_plan(
    mode: SplineMode,
    cycling: CyclingMode,
    points: nat,
    tangents: nat,
    min_points: nat,
) -> Result<Option<usize>, ContractViolation> {
    if mode == SplineMode::Hermite && points != tangents {
        Err(ContractViolation::TangentMismatch)
    } else if points < required_points(mode, min_points) {
        Ok(None)
    } else {
        Ok(Some(segment_count(mode, cycling, points) as usize))
    }
}

/// Into how many equal parts of its parameter range a curve is cut so that
/// the cuts and the two ends together are `count` samples: one part fewer
/// than samples, and no cutting at all for no samples. No parts for one
/// sample means the start of the curve alone.
pub open spec fn parts_for(count: nat) -> Option<usize> {
    if count == 0 {
        None
    } else {
        Some((count - 1) as usize)
    }
}

/// Into how many equal parts of its parameter range a curve is cut to give
/// `count` samples with both of its ends among them.
pub fn subdivisions(count: usize) -> (parts: Option<usize>)
    ensures
        parts == parts_for(count as nat),
        parts matches Some(n) ==> n + 1 == count,
        parts.is_none() <==> count == 0,
{
    if count == 0 {
        None
    } else {
        Some(count - 1)
    }
}

impl SplineMode {
    /// The basis that follows this one when the user steps through them.
    pub fn next(self) -> (following: Self)
        ensures
            following == match self {
                SplineMode::Hermite => SplineMode::Cardinal,
                SplineMode::Cardinal => SplineMode::B,
                SplineMode::B => SplineMode::Hermite,
            },
    {
        match self {
            SplineMode::Hermite => SplineMode::Cardinal,
            SplineMode::Cardinal => SplineMode::B,
            SplineMode::B => SplineMode::Hermite,
        }
    }

    /// The basis's name as the user reads it.
    pub fn name(self) -> (text: String)
        ensures
            text@ == match self {
                SplineMode::Hermite => "Hermite"@,
                SplineMode::Cardinal => "Cardinal"@,
                SplineMode::B => "B"@,
            },
    {
        match self {
            SplineMode::Hermite => "Hermite".to_owned(),
            SplineMode::Cardinal => "Cardinal".to_owned(),
            SplineMode::B => "B".to_owned(),
        }
    }
}

impl Default for SplineMode {
    fn default() -> (mode: Self)
        ensures
            mode == SplineMode::Cardinal,
    {
        SplineMode::Cardinal
    }
}

impl CyclingMode {
    /// The other mode.
    pub fn next(self) -> (following: Self)
        ensures
            following == match self {
                CyclingMode::NotCyclic => CyclingMode::Cyclic,
                CyclingMode::Cyclic => CyclingMode::NotCyclic,
            },
    {
        match self {
            CyclingMode::NotCyclic => CyclingMode::Cyclic,
            CyclingMode::Cyclic => CyclingMode::NotCyclic,
        }
    }

    /// The mode's name as the user reads it.
    pub fn name(self) -> (text: String)
        ensures
            text@ == match self {
                CyclingMode::NotCyclic => "Not Cyclic"@,
                CyclingMode::Cyclic => "Cyclic"@,
            },
    {
        match self {
            CyclingMode::NotCyclic => "Not Cyclic".to_owned(),
            CyclingMode::Cyclic => "Cyclic".to_owned(),
        }
    }
}

impl Default for CyclingMode {
    fn default() -> (mode: Self)
        ensures
            mode == CyclingMode::NotCyclic,
    {
        CyclingMode::NotCyclic
    }
}

/// Decides about a fit of `points` control points with `tangents` tangents
/// (a basis other than Hermite ignores the tangents), where windows are tuned
/// to hold `min_points`. `Err` reports a Hermite fit whose points and
/// tangents differ in number; `Ok(None)` says that the points are too few for
/// a curve yet; `Ok(Some(n))` says that the curve is to be fitted and will
/// have `n` segments.
pub fn plan_fit(
    mode: SplineMode,
    cycling: CyclingMode,
    points: usize,
    tangents: usize,
    min_points: usize,
) -> (plan: Result<Option<usize>, ContractViolation>)
    ensures
        plan == fit_plan(mode, cycling, points as nat, tangents as nat, min_points as nat),
        plan matches Ok(Some(n)) ==> n >= 1 && n == segment_count(mode, cycling, points as nat),
{
    if mode == SplineMode::Hermite && points != tangents {
        return Err(ContractViolation::TangentMismatch);
    }
    let least: usize = match mode {
        SplineMode::Hermite => 2,
        SplineMode::Cardinal => 2,
        SplineMode::B => 4,
    };
    let needed: usize = if mode != SplineMode::Hermite && min_points > least {
        min_points
    } else {
        least
    };
    if points < needed {
        return Ok(None);
    }
    let segments: usize = match cycling {
        CyclingMode::Cyclic => points,
        CyclingMode::NotCyclic => match mode {
            SplineMode::Hermite => points - 1,
            SplineMode::Cardinal => points - 1,
            SplineMode::B => points - 3,
        },
    };
    Ok(Some(segments))
}

} // verus!
