use vstd::prelude::*;

use crate::numeric::{round_div, round_div_spec};

verus! {

/// Millionths of a point in one point.
pub const MICROS_PER_POINT: u64 = 1_000_000;

/// The largest page side, in millionths of a point, that a probe can report:
/// nine integer digits and six fractional digits.
pub const MAX_SIDE_MICROS: u64 = 999_999_999_999_999;

/// Size of a typeset page, in millionths of a point.
#[derive(Clone, Copy, Debug, PartialEq, Eq)]
pub struct PageGeometry {
    pub width_micros: u64,
    pub height_micros: u64,
}

impl PageGeometry {
    /// Both sides are positive and within what a probe can report.
    pub open spec fn wf(&self) -> bool {
        &&& 0 < self.width_micros <= MAX_SIDE_MICROS
        &&& 0 < self.height_micros <= MAX_SIDE_MICROS
    }
}

/// Pixel size of a raster image; both sides are at least one pixel.
#[derive(Clone, Copy, Debug, PartialEq, Eq)]
pub struct TargetDimensions {
    pub width: u32,
    pub height: u32,
}

/// A pixel count brought into the range from one to `u32::MAX`.
pub open spec fn clamp_px(x: nat) -> u32 {
    if x < 1 {
        1
    } else if x > u32::MAX {
        u32::MAX
    } else {
        x as u32
    }
}

/// The pixel size chosen for a page and the optional user overrides.
///
/// Both overrides win as given; one override keeps the page's aspect ratio for
/// the other side; with none, one point becomes one pixel.
pub open spec fn resolved_dimensions(
    g: PageGeometry,
    width: Option<u32>,
    height: Option<u32>,
) -> TargetDimensions {
    match (width, height) {
        (Some(w), Some(h)) => TargetDimensions { width: w, height: h },
        (None, Some(h)) => TargetDimensions {
            width: clamp_px(round_div_spec((h * g.width_micros) as nat, g.height_micros as nat)),
            height: h,
        },
        (Some(w), None) => TargetDimensions {
            width: w,
            height: clamp_px(round_div_spec((w * g.height_micros) as nat, g.width_micros as nat)),
        },
        (None, None) => TargetDimensions {
            width: clamp_px(round_div_spec(g.width_micros as nat, MICROS_PER_POINT as nat)),
            height: clamp_px(round_div_spec(g.height_micros as nat, MICROS_PER_POINT as nat)),
        },
    }
}

fn clamp_pixels(x: u128) -> (r: u32)
    ensures
        r == clamp_px(x as nat),
{
    if x < 1 {
        1
    } else if x > u32::MAX as u128 {
        u32::MAX
    } else {
        x as u32
    }
}

fn scaled_side(given: u32, along: u64, across: u64) -> (r: u32)
    requires
        0 < along <= MAX_SIDE_MICROS,
        0 < across <= MAX_SIDE_MICROS,
    ensures
        r == clamp_px(round_div_spec((given * across) as nat, along as nat)),
{
    assert(given as int * across as int <= u32::MAX as int * MAX_SIDE_MICROS as int)
        by (nonlinear_arith)
        requires
            given <= u32::MAX,
            across <= MAX_SIDE_MICROS,
    ;
    let prod: u128 = given as u128 * across as u128;
    clamp_pixels(round_div(prod, along as u128))
}

/// Chooses the pixel size of the raster image from the page geometry and the
/// user's width and height overrides, each positive where given.
pub fn resolve_dimensions(g: &PageGeometry, width: Option<u32>, height: Option<u32>) -> (r:
    TargetDimensions)
    requires
        g.wf(),
        width matches Some(w) ==> w > 0,
        height matches Some(h) ==> h > 0,
    ensures
        r == resolved_dimensions(*g, width, height),
        r.width >= 1,
        r.height >= 1,
{
    match (width, height) {
        (Some(w), Some(h)) => TargetDimensions { width: w, height: h },
        (None, Some(h)) => TargetDimensions {
            width: scaled_side(h, g.height_micros, g.width_micros),
            height: h,
        },
        (Some(w), None) => TargetDimensions {
            width: w,
            height: scaled_side(w, g.width_micros, g.height_micros),
        },
        (None, None) => TargetDimensions {
            width: clamp_pixels(round_div(g.width_micros as u128, MICROS_PER_POINT as u128)),
            height: clamp_pixels(round_div(g.height_micros as u128, MICROS_PER_POINT as u128)),
        },
    }
}

} // verus!
