//! The map camera: panning with the keyboard, zooming with keys and wheel.

use vstd::prelude::*;

use crate::geom::COORD_BOUND;
use crate::geom::Vec3Fix;
use crate::geom::div_trunc;

verus! {

/// How fast the camera pans, in world units per second.
pub const CAMERA_PAN_SPEED: i64 = 100;

/// One zoom step, in thousandths of the camera scale.
pub const ZOOM_STEP: i64 = 100;

/// The camera scale never drops below one (in thousandths).
pub const MIN_SCALE: i64 = 1000;

/// The camera's pose: where it looks and how wide (scale in thousandths).
pub struct CameraTransform {
    pub translation: Vec3Fix,
    pub scale: i64,
}

/// What the player pressed this frame. The wheel values are this frame's
/// scroll events, in thousandths.
pub struct CameraInput {
    pub left: bool,
    pub right: bool,
    pub up: bool,
    pub down: bool,
    pub zoom_in: bool,
    pub zoom_out: bool,
    pub wheel: Vec<i64>,
}

/// The scale the frame ends with, before clamping: each zoom source writes
/// it afresh from the frame's starting scale, so the last writer wins —
/// wheel events beat the zoom keys, and the zoom-out key beats the zoom-in
/// key.
pub open spec fn spec_scale_written(s0: int, input: CameraInput) -> int {
    if input.wheel@.len() > 0 {
        s0 - div_trunc(input.wheel@.last() as int, 10)
    } else if input.zoom_out {
        s0 - ZOOM_STEP
    } else if input.zoom_in {
        s0 + ZOOM_STEP
    } else {
        s0
    }
}

/// The pan direction one axis gets from its two keys: they cancel.
pub open spec fn spec_axis(pos: bool, neg: bool) -> int {
    (if pos { 1int } else { 0 }) - (if neg { 1int } else { 0 })
}

/// One camera frame: pan by the held keys, zoom by the keys and the wheel,
/// and never let the scale drop below `MIN_SCALE`.
pub fn camera_system(transf: &mut CameraTransform, input: &CameraInput, dt_micros: u64)
    requires
        old(transf).translation.in_world(),
        -COORD_BOUND <= old(transf).scale <= COORD_BOUND,
        forall|i: int|
            0 <= i < input.wheel@.len()
                ==> -COORD_BOUND <= #[trigger] input.wheel@[i] <= COORD_BOUND,
        dt_micros <= 60_000_000,
    ensures
        ({
            let s1 = spec_scale_written(old(transf).scale as int, *input);
            final(transf).scale == if s1 < MIN_SCALE {
                MIN_SCALE as int
            } else {
                s1
            }
        }),
        final(transf).translation.x == old(transf).translation.x + spec_axis(
            input.right,
            input.left,
        ) * ((dt_micros / 10) as int),
        final(transf).translation.y == old(transf).translation.y + spec_axis(
            input.up,
            input.down,
        ) * ((dt_micros / 10) as int),
        final(transf).translation.z == old(transf).translation.z,
{
    let scale0 = transf.scale;
    if input.zoom_in {
        transf.scale = scale0 + ZOOM_STEP;
    }
    if input.zoom_out {
        transf.scale = scale0 - ZOOM_STEP;
    }
    let n = input.wheel.len();
    let mut i: usize = 0;
    while i < n
        invariant
            i <= n == input.wheel@.len(),
            scale0 == old(transf).scale,
            -COORD_BOUND <= scale0 <= COORD_BOUND,
            forall|k: int|
                0 <= k < n ==> -COORD_BOUND <= #[trigger] input.wheel@[k] <= COORD_BOUND,
            i == 0 ==> transf.scale == spec_scale_written_keys(scale0 as int, input.zoom_in, input.zoom_out),
            i > 0 ==> transf.scale == scale0 - div_trunc(input.wheel@[i - 1] as int, 10),
            transf.translation == old(transf).translation,
        decreases n - i,
    {
        let e = input.wheel[i];
        let step = if e >= 0 {
            e / 10
        } else {
            -((-e) / 10)
        };
        transf.scale = scale0 - step;
        i = i + 1;
    }
    if transf.scale < MIN_SCALE {
        transf.scale = MIN_SCALE;
    }
    let dx: i64 = (if input.right { 1i64 } else { 0 }) - (if input.left { 1i64 } else { 0 });
    let dy: i64 = (if input.up { 1i64 } else { 0 }) - (if input.down { 1i64 } else { 0 });
    let step: i64 = (dt_micros / 10) as i64;
    proof {
        assert(-step <= dx * step <= step) by (nonlinear_arith)
            requires
                -1 <= dx <= 1,
                step >= 0,
        {
        }
        assert(-step <= dy * step <= step) by (nonlinear_arith)
            requires
                -1 <= dy <= 1,
                step >= 0,
        {
        }
    }
    transf.translation = Vec3Fix {
        x: transf.translation.x + dx * step,
        y: transf.translation.y + dy * step,
        z: transf.translation.z,
    };
}

/// The scale after the zoom keys alone (no wheel event yet).
pub open spec fn spec_scale_written_keys(s0: int, zoom_in: bool, zoom_out: bool) -> int {
    if zoom_out {
        s0 - ZOOM_STEP
    } else if zoom_in {
        s0 + ZOOM_STEP
    } else {
        s0
    }
}

} // verus!
