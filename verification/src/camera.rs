//! Camera state, projection parameters, and the camera-controller actor.
//!
//! The camera is owned by the orchestrator; actors request motion through
//! `MoveCamera` / `RotateCamera` update commands rather than holding a
//! reference.  Angles are fixed-point radians.  The trigonometric values
//! of the camera's current orientation are evaluated outside the library
//! (they are floating point) and handed in as a [`CameraTrig`] sample; the
//! controller consumes the sampled values.

use vstd::prelude::*;

use crate::app::{update_buffer_wf, Actor, Model};
use crate::command_buffer::{CommandBuffer, NCommandUpdate};
use crate::input::{InputState, KEY_A, KEY_D, KEY_S, KEY_SHIFT, KEY_SPACE, KEY_W};
use crate::math::{
    clamp_coord, clamped_add, clamped_sub, coord_in_range, fp_mul, fp_mul_spec, Vec3, COORD_MAX,
    FP_ONE,
};

verus! {

/// Pitch is clamped just short of a quarter turn: (pi/2 - 0.0001) radians
/// in fixed point.
pub const PITCH_LIMIT: i64 = 102937;

/// The scene camera: position and orientation, all fixed point.
pub struct Camera {
    position: Vec3,
    yaw: i64,
    pitch: i64,
}

/// The pitch clamp, as a mathematical function.
pub open spec fn clamp_pitch(s: int) -> int {
    if s < -PITCH_LIMIT {
        -PITCH_LIMIT as int
    } else if s > PITCH_LIMIT {
        PITCH_LIMIT as int
    } else {
        s
    }
}

impl Camera {
    pub closed spec fn spec_position(self) -> Vec3 {
        self.position
    }

    pub closed spec fn spec_yaw(self) -> i64 {
        self.yaw
    }

    pub closed spec fn spec_pitch(self) -> i64 {
        self.pitch
    }

    /// Position in the coordinate range, yaw likewise, pitch clamped.
    pub open spec fn wf(self) -> bool {
        &&& self.spec_position().bounded()
        &&& coord_in_range(self.spec_yaw())
        &&& -PITCH_LIMIT <= self.spec_pitch() <= PITCH_LIMIT
    }

    pub fn new(position: Vec3, yaw: i64, pitch: i64) -> (r: Camera)
        requires
            position.bounded(),
            coord_in_range(yaw),
            -PITCH_LIMIT <= pitch <= PITCH_LIMIT,
        ensures
            r.wf(),
            r.spec_position() == position,
            r.spec_yaw() == yaw,
            r.spec_pitch() == pitch,
    {
        Camera { position, yaw, pitch }
    }

    pub fn position(&self) -> (r: Vec3)
        ensures
            r == self.spec_position(),
    {
        self.position
    }

    pub fn yaw(&self) -> (r: i64)
        ensures
            r == self.spec_yaw(),
    {
        self.yaw
    }

    pub fn pitch(&self) -> (r: i64)
        ensures
            r == self.spec_pitch(),
    {
        self.pitch
    }

    /// Move by a world-space offset; each coordinate saturates at the edge
    /// of the coordinate range.
    pub fn move_position(&mut self, offset: Vec3)
        requires
            old(self).wf(),
        ensures
            final (self).wf(),
            final (self).spec_position().x == clamp_coord(
                old(self).spec_position().x + offset.x,
            ),
            final (self).spec_position().y == clamp_coord(
                old(self).spec_position().y + offset.y,
            ),
            final (self).spec_position().z == clamp_coord(
                old(self).spec_position().z + offset.z,
            ),
            final (self).spec_yaw() == old(self).spec_yaw(),
            final (self).spec_pitch() == old(self).spec_pitch(),
    {
        self.position = Vec3 {
            x: clamped_add(self.position.x, offset.x),
            y: clamped_add(self.position.y, offset.y),
            z: clamped_add(self.position.z, offset.z),
        };
    }

    /// Add a yaw delta, saturating at the coordinate range.
    pub fn add_yaw(&mut self, yaw: i64)
        requires
            old(self).wf(),
        ensures
            final (self).wf(),
            final (self).spec_yaw() == clamp_coord(old(self).spec_yaw() + yaw),
            final (self).spec_position() == old(self).spec_position(),
            final (self).spec_pitch() == old(self).spec_pitch(),
    {
        self.yaw = clamped_add(self.yaw, yaw);
    }

    /// Add a pitch delta; the result is clamped just short of straight up
    /// or straight down.
    pub fn add_pitch(&mut self, pitch: i64)
        requires
            old(self).wf(),
        ensures
            final (self).wf(),
            final (self).spec_pitch() == clamp_pitch(old(self).spec_pitch() + pitch),
            final (self).spec_position() == old(self).spec_position(),
            final (self).spec_yaw() == old(self).spec_yaw(),
    {
        let s = clamped_add(self.pitch, pitch);
        self.pitch = if s < -PITCH_LIMIT {
            -PITCH_LIMIT
        } else if s > PITCH_LIMIT {
            PITCH_LIMIT
        } else {
            s
        };
    }
}

/// Perspective-projection parameters, fixed point: aspect ratio, vertical
/// field of view, near and far plane distances.
pub struct Projection {
    aspect: i64,
    fov_y: i64,
    z_near: i64,
    z_far: i64,
}

impl Projection {
    pub closed spec fn spec_aspect(self) -> i64 {
        self.aspect
    }

    pub closed spec fn spec_fov_y(self) -> i64 {
        self.fov_y
    }

    pub closed spec fn spec_z_near(self) -> i64 {
        self.z_near
    }

    pub closed spec fn spec_z_far(self) -> i64 {
        self.z_far
    }

    /// The far plane distance lies in the coordinate range, so its square
    /// is exact in the distance filter.
    pub open spec fn wf(self) -> bool {
        0 <= self.spec_z_far() <= COORD_MAX
    }

    /// The fixed-point aspect ratio of a surface size.
    pub open spec fn spec_aspect_of(width: u32, height: u32) -> int {
        (width * FP_ONE) / (height as int)
    }

    pub fn new(width: u32, height: u32, fov_y: i64, z_near: i64, z_far: i64) -> (r: Projection)
        requires
            height > 0,
            0 <= z_far <= COORD_MAX,
        ensures
            r.wf(),
            r.spec_aspect() == Projection::spec_aspect_of(width, height),
            r.spec_fov_y() == fov_y,
            r.spec_z_near() == z_near,
            r.spec_z_far() == z_far,
    {
        Projection { aspect: aspect_of(width, height), fov_y, z_near, z_far }
    }

    /// React to a surface resize: only the aspect ratio changes.
    pub fn resize(&mut self, width: u32, height: u32)
        requires
            old(self).wf(),
            height > 0,
        ensures
            final (self).wf(),
            final (self).spec_aspect() == Projection::spec_aspect_of(width, height),
            final (self).spec_fov_y() == old(self).spec_fov_y(),
            final (self).spec_z_near() == old(self).spec_z_near(),
            final (self).spec_z_far() == old(self).spec_z_far(),
    {
        self.aspect = aspect_of(width, height);
    }

    /// Set the vertical field of view; nothing else changes.
    pub fn set_fov_y(&mut self, fov_y: i64)
        requires
            old(self).wf(),
        ensures
            final (self).wf(),
            final (self).spec_fov_y() == fov_y,
            final (self).spec_aspect() == old(self).spec_aspect(),
            final (self).spec_z_near() == old(self).spec_z_near(),
            final (self).spec_z_far() == old(self).spec_z_far(),
    {
        self.fov_y = fov_y;
    }

    pub fn z_far(&self) -> (r: i64)
        ensures
            r == self.spec_z_far(),
    {
        self.z_far
    }

    pub fn fov_y(&self) -> (r: i64)
        ensures
            r == self.spec_fov_y(),
    {
        self.fov_y
    }

    pub fn z_near(&self) -> (r: i64)
        ensures
            r == self.spec_z_near(),
    {
        self.z_near
    }

    pub fn aspect(&self) -> (r: i64)
        ensures
            r == self.spec_aspect(),
    {
        self.aspect
    }
}

/// The fixed-point aspect ratio `width / height`.
fn aspect_of(width: u32, height: u32) -> (r: i64)
    requires
        height > 0,
    ensures
        r == Projection::spec_aspect_of(width, height),
{
    ((width as u64 * FP_ONE as u64) / (height as u64)) as i64
}

/// A sample of the camera orientation's trigonometry, fixed point, taken
/// outside the library each frame: sine and cosine of yaw and pitch.
#[derive(Clone, Copy, Debug, PartialEq, Eq, Structural)]
pub struct CameraTrig {
    pub yaw_sin: i64,
    pub yaw_cos: i64,
    pub pitch_sin: i64,
    pub pitch_cos: i64,
}

impl CameraTrig {
    pub fn new(yaw_sin: i64, yaw_cos: i64, pitch_sin: i64, pitch_cos: i64) -> (r: CameraTrig)
        ensures
            r == (CameraTrig { yaw_sin, yaw_cos, pitch_sin, pitch_cos }),
    {
        CameraTrig { yaw_sin, yaw_cos, pitch_sin, pitch_cos }
    }
}

/// The next value of a movement amount: full scale when the key just went
/// down, zero when it was just released, otherwise unchanged.
pub open spec fn next_amount(current: i64, just_pressed: bool, just_released: bool) -> i64 {
    if just_pressed {
        FP_ONE
    } else if just_released {
        0
    } else {
        current
    }
}

/// Frame time in fixed-point seconds: milliseconds scaled by the
/// fixed-point unit over one thousand, saturating at the coordinate range.
pub open spec fn spec_dt_fp(dt_ms: u64) -> int {
    let v = (dt_ms * FP_ONE) / 1000;
    if v > COORD_MAX {
        COORD_MAX as int
    } else {
        v
    }
}

/// Convert a frame time in milliseconds to fixed-point seconds.
pub fn dt_fp(dt_ms: u64) -> (r: i64)
    ensures
        r == spec_dt_fp(dt_ms),
{
    let v: u128 = (dt_ms as u128 * FP_ONE as u128) / 1000;
    if v > COORD_MAX as u128 {
        COORD_MAX
    } else {
        v as i64
    }
}

/// An actor that turns keyboard and mouse state into camera motion
/// commands.  Movement amounts are zero or one in fixed point; speed and
/// sensitivity scale them.
pub struct CameraController {
    id: u128,
    speed: i64,
    sensitivity: i64,
    amount_left: i64,
    amount_right: i64,
    amount_forward: i64,
    amount_backward: i64,
    amount_up: i64,
    amount_down: i64,
    rotate_horizontal: i64,
    rotate_vertical: i64,
    scroll: i64,
}

impl CameraController {
    pub closed spec fn spec_id(self) -> u128 {
        self.id
    }

    pub closed spec fn spec_speed(self) -> i64 {
        self.speed
    }

    pub closed spec fn spec_sensitivity(self) -> i64 {
        self.sensitivity
    }

    pub closed spec fn spec_amounts(self) -> (i64, i64, i64, i64, i64, i64) {
        (
            self.amount_left,
            self.amount_right,
            self.amount_forward,
            self.amount_backward,
            self.amount_up,
            self.amount_down,
        )
    }

    pub closed spec fn spec_rotate(self) -> (i64, i64) {
        (self.rotate_horizontal, self.rotate_vertical)
    }

    pub closed spec fn spec_scroll(self) -> i64 {
        self.scroll
    }

    /// Every movement amount is either zero or one (in fixed point).
    pub open spec fn wf(self) -> bool {
        &&& (self.spec_amounts().0 == 0 || self.spec_amounts().0 == FP_ONE)
        &&& (self.spec_amounts().1 == 0 || self.spec_amounts().1 == FP_ONE)
        &&& (self.spec_amounts().2 == 0 || self.spec_amounts().2 == FP_ONE)
        &&& (self.spec_amounts().3 == 0 || self.spec_amounts().3 == FP_ONE)
        &&& (self.spec_amounts().4 == 0 || self.spec_amounts().4 == FP_ONE)
        &&& (self.spec_amounts().5 == 0 || self.spec_amounts().5 == FP_ONE)
    }

    /// A fresh controller with all motion at rest and a new random
    /// identity.
    pub fn new(speed: i64, sensitivity: i64) -> (r: CameraController)
        ensures
            r.wf(),
            r.spec_speed() == speed,
            r.spec_sensitivity() == sensitivity,
            r.spec_amounts() == (0i64, 0i64, 0i64, 0i64, 0i64, 0i64),
            r.spec_rotate() == (0i64, 0i64),
            r.spec_scroll() == 0i64,
    {
        CameraController {
            id: fresh_id(),
            speed,
            sensitivity,
            amount_left: 0,
            amount_right: 0,
            amount_forward: 0,
            amount_backward: 0,
            amount_up: 0,
            amount_down: 0,
            rotate_horizontal: 0,
            rotate_vertical: 0,
            scroll: 0,
        }
    }

    pub fn id(&self) -> (r: u128)
        ensures
            r == CameraController::spec_id(*self),
    {
        self.id
    }

    /// Latch movement amounts from key transitions: a key just pressed
    /// drives its amount to one, just released to zero.
    pub fn process_keyboard(&mut self, inputs: &InputState)
        ensures
            final (self).spec_amounts().2 == next_amount(
                old(self).spec_amounts().2,
                inputs.spec_just_pressed(KEY_W),
                inputs.spec_just_released(KEY_W),
            ),
            final (self).spec_amounts().3 == next_amount(
                old(self).spec_amounts().3,
                inputs.spec_just_pressed(KEY_S),
                inputs.spec_just_released(KEY_S),
            ),
            final (self).spec_amounts().0 == next_amount(
                old(self).spec_amounts().0,
                inputs.spec_just_pressed(KEY_A),
                inputs.spec_just_released(KEY_A),
            ),
            final (self).spec_amounts().1 == next_amount(
                old(self).spec_amounts().1,
                inputs.spec_just_pressed(KEY_D),
                inputs.spec_just_released(KEY_D),
            ),
            final (self).spec_amounts().4 == next_amount(
                old(self).spec_amounts().4,
                inputs.spec_just_pressed(KEY_SPACE),
                inputs.spec_just_released(KEY_SPACE),
            ),
            final (self).spec_amounts().5 == next_amount(
                old(self).spec_amounts().5,
                inputs.spec_just_pressed(KEY_SHIFT),
                inputs.spec_just_released(KEY_SHIFT),
            ),
            final (self).spec_rotate() == old(self).spec_rotate(),
            final (self).spec_scroll() == old(self).spec_scroll(),
            CameraController::spec_id(*final (self)) == CameraController::spec_id(*old(self)),
            final (self).spec_speed() == old(self).spec_speed(),
            final (self).spec_sensitivity() == old(self).spec_sensitivity(),
            old(self).wf() ==> final (self).wf(),
    {
        if inputs.is_key_just_pressed(KEY_W) {
            self.amount_forward = FP_ONE;
        } else if inputs.is_key_just_released(KEY_W) {
            self.amount_forward = 0;
        }
        if inputs.is_key_just_pressed(KEY_S) {
            self.amount_backward = FP_ONE;
        } else if inputs.is_key_just_released(KEY_S) {
            self.amount_backward = 0;
        }
        if inputs.is_key_just_pressed(KEY_A) {
            self.amount_left = FP_ONE;
        } else if inputs.is_key_just_released(KEY_A) {
            self.amount_left = 0;
        }
        if inputs.is_key_just_pressed(KEY_D) {
            self.amount_right = FP_ONE;
        } else if inputs.is_key_just_released(KEY_D) {
            self.amount_right = 0;
        }
        if inputs.is_key_just_pressed(KEY_SPACE) {
            self.amount_up = FP_ONE;
        } else if inputs.is_key_just_released(KEY_SPACE) {
            self.amount_up = 0;
        }
        if inputs.is_key_just_pressed(KEY_SHIFT) {
            self.amount_down = FP_ONE;
        } else if inputs.is_key_just_released(KEY_SHIFT) {
            self.amount_down = 0;
        }
    }

    /// Latch the frame's averaged mouse motion.
    pub fn process_mouse(&mut self, inputs: &InputState)
        requires
            inputs.wf(),
        ensures
            final (self).spec_rotate() == inputs.spec_mouse_delta(),
            final (self).spec_amounts() == old(self).spec_amounts(),
            final (self).spec_scroll() == old(self).spec_scroll(),
            CameraController::spec_id(*final (self)) == CameraController::spec_id(*old(self)),
            final (self).spec_speed() == old(self).spec_speed(),
            final (self).spec_sensitivity() == old(self).spec_sensitivity(),
            old(self).wf() ==> final (self).wf(),
    {
        let delta = inputs.mouse_delta();
        self.rotate_horizontal = delta.0;
        self.rotate_vertical = delta.1;
    }

    /// Latch the frame's scroll delta.
    pub fn process_scroll(&mut self, inputs: &InputState)
        ensures
            final (self).spec_scroll() == inputs.spec_mouse_scroll(),
            final (self).spec_amounts() == old(self).spec_amounts(),
            final (self).spec_rotate() == old(self).spec_rotate(),
            CameraController::spec_id(*final (self)) == CameraController::spec_id(*old(self)),
            final (self).spec_speed() == old(self).spec_speed(),
            final (self).spec_sensitivity() == old(self).spec_sensitivity(),
            old(self).wf() ==> final (self).wf(),
    {
        self.scroll = inputs.mouse_scroll();
    }
}

/// The world-space move offset a controller state commands, given the
/// orientation sample and the frame time: forward and strafe motion in the
/// yaw plane, scroll motion along the view direction, and vertical motion
/// on the world axis, each scaled by speed (and, for scroll, sensitivity)
/// and the frame time.
pub open spec fn spec_move_offset(c: CameraController, trig: CameraTrig, dtf: int) -> Vec3 {
    let sd = fp_mul_spec(c.spec_speed() as int, dtf);
    let ssd = fp_mul_spec(sd, c.spec_sensitivity() as int);
    let fb = clamp_coord(c.spec_amounts().2 - c.spec_amounts().3);
    let rl = clamp_coord(c.spec_amounts().1 - c.spec_amounts().0);
    let ud = clamp_coord(c.spec_amounts().4 - c.spec_amounts().5);
    let fwd_scale = fp_mul_spec(fb, sd);
    let right_scale = fp_mul_spec(rl, sd);
    let scroll_scale = fp_mul_spec(c.spec_scroll() as int, ssd);
    let ox1 = fp_mul_spec(trig.yaw_cos as int, fwd_scale);
    let ox2 = fp_mul_spec(trig.yaw_sin as int, right_scale);
    let sx = fp_mul_spec(fp_mul_spec(trig.pitch_cos as int, trig.yaw_cos as int), scroll_scale);
    let oy1 = fp_mul_spec(ud, sd);
    let oy2 = fp_mul_spec(trig.pitch_sin as int, scroll_scale);
    let oz1 = fp_mul_spec(trig.yaw_sin as int, fwd_scale);
    let oz2 = fp_mul_spec(trig.yaw_cos as int, right_scale);
    let sz = fp_mul_spec(fp_mul_spec(trig.pitch_cos as int, trig.yaw_sin as int), scroll_scale);
    Vec3 {
        x: clamp_coord(clamp_coord(ox1 - ox2) + sx) as i64,
        y: clamp_coord(oy1 + oy2) as i64,
        z: clamp_coord(clamp_coord(oz1 + oz2) + sz) as i64,
    }
}

/// The yaw delta a controller state commands: horizontal mouse motion
/// scaled by sensitivity and frame time.
pub open spec fn spec_yaw_delta(c: CameraController, dtf: int) -> i64 {
    fp_mul_spec(fp_mul_spec(c.spec_rotate().0 as int, c.spec_sensitivity() as int), dtf) as i64
}

/// The pitch delta a controller state commands: vertical mouse motion
/// scaled by sensitivity and frame time, inverted.
pub open spec fn spec_pitch_delta(c: CameraController, dtf: int) -> i64 {
    (-fp_mul_spec(
        fp_mul_spec(c.spec_rotate().1 as int, c.spec_sensitivity() as int),
        dtf,
    )) as i64
}

/// The controller state after latching one frame's input: key transitions
/// drive the movement amounts, the averaged mouse motion becomes the
/// rotation, the wheel becomes the scroll; identity, speed and
/// sensitivity stay.
pub closed spec fn spec_stepped(c: CameraController, inputs: InputState) -> CameraController {
    CameraController {
        id: c.id,
        speed: c.speed,
        sensitivity: c.sensitivity,
        amount_left: next_amount(
            c.amount_left,
            inputs.spec_just_pressed(KEY_A),
            inputs.spec_just_released(KEY_A),
        ),
        amount_right: next_amount(
            c.amount_right,
            inputs.spec_just_pressed(KEY_D),
            inputs.spec_just_released(KEY_D),
        ),
        amount_forward: next_amount(
            c.amount_forward,
            inputs.spec_just_pressed(KEY_W),
            inputs.spec_just_released(KEY_W),
        ),
        amount_backward: next_amount(
            c.amount_backward,
            inputs.spec_just_pressed(KEY_S),
            inputs.spec_just_released(KEY_S),
        ),
        amount_up: next_amount(
            c.amount_up,
            inputs.spec_just_pressed(KEY_SPACE),
            inputs.spec_just_released(KEY_SPACE),
        ),
        amount_down: next_amount(
            c.amount_down,
            inputs.spec_just_pressed(KEY_SHIFT),
            inputs.spec_just_released(KEY_SHIFT),
        ),
        rotate_horizontal: inputs.spec_mouse_delta().0,
        rotate_vertical: inputs.spec_mouse_delta().1,
        scroll: inputs.spec_mouse_scroll(),
    }
}

impl CameraController {
    /// One actor step: latch the frame's input, then emit exactly one
    /// `MoveCamera` and one `RotateCamera` command for it.
    pub fn update_commands<M>(
        &mut self,
        dt_ms: u64,
        inputs: &InputState,
        trig: &CameraTrig,
    ) -> (r: CommandBuffer<NCommandUpdate<M, CameraController>>)
        requires
            inputs.wf(),
        ensures
            CameraController::spec_id(*final (self)) == CameraController::spec_id(*old(self)),
            final (self).spec_speed() == old(self).spec_speed(),
            final (self).spec_sensitivity() == old(self).spec_sensitivity(),
            final (self).spec_amounts().2 == next_amount(
                old(self).spec_amounts().2,
                inputs.spec_just_pressed(KEY_W),
                inputs.spec_just_released(KEY_W),
            ),
            final (self).spec_amounts().3 == next_amount(
                old(self).spec_amounts().3,
                inputs.spec_just_pressed(KEY_S),
                inputs.spec_just_released(KEY_S),
            ),
            final (self).spec_amounts().0 == next_amount(
                old(self).spec_amounts().0,
                inputs.spec_just_pressed(KEY_A),
                inputs.spec_just_released(KEY_A),
            ),
            final (self).spec_amounts().1 == next_amount(
                old(self).spec_amounts().1,
                inputs.spec_just_pressed(KEY_D),
                inputs.spec_just_released(KEY_D),
            ),
            final (self).spec_amounts().4 == next_amount(
                old(self).spec_amounts().4,
                inputs.spec_just_pressed(KEY_SPACE),
                inputs.spec_just_released(KEY_SPACE),
            ),
            final (self).spec_amounts().5 == next_amount(
                old(self).spec_amounts().5,
                inputs.spec_just_pressed(KEY_SHIFT),
                inputs.spec_just_released(KEY_SHIFT),
            ),
            final (self).spec_rotate() == inputs.spec_mouse_delta(),
            final (self).spec_scroll() == inputs.spec_mouse_scroll(),
            *final (self) == spec_stepped(*old(self), *inputs),
            r@.len() == 2,
            r@[0] == NCommandUpdate::<M, CameraController>::MoveCamera(
                spec_move_offset(*final (self), *trig, spec_dt_fp(dt_ms)),
            ),
            r@[1] == NCommandUpdate::<M, CameraController>::RotateCamera(
                spec_yaw_delta(*final (self), spec_dt_fp(dt_ms)),
                spec_pitch_delta(*final (self), spec_dt_fp(dt_ms)),
            ),
            old(self).wf() ==> final (self).wf(),
    {
        self.process_keyboard(inputs);
        self.process_mouse(inputs);
        self.process_scroll(inputs);

        let dtf = dt_fp(dt_ms);
        let sd = fp_mul(self.speed, dtf);
        let ssd = fp_mul(sd, self.sensitivity);
        let fb = clamped_sub(self.amount_forward, self.amount_backward);
        let rl = clamped_sub(self.amount_right, self.amount_left);
        let ud = clamped_sub(self.amount_up, self.amount_down);
        let fwd_scale = fp_mul(fb, sd);
        let right_scale = fp_mul(rl, sd);
        let scroll_scale = fp_mul(self.scroll, ssd);

        let ox1 = fp_mul(trig.yaw_cos, fwd_scale);
        let ox2 = fp_mul(trig.yaw_sin, right_scale);
        let sx = fp_mul(fp_mul(trig.pitch_cos, trig.yaw_cos), scroll_scale);
        let oy1 = fp_mul(ud, sd);
        let oy2 = fp_mul(trig.pitch_sin, scroll_scale);
        let oz1 = fp_mul(trig.yaw_sin, fwd_scale);
        let oz2 = fp_mul(trig.yaw_cos, right_scale);
        let sz = fp_mul(fp_mul(trig.pitch_cos, trig.yaw_sin), scroll_scale);

        let offset = Vec3 {
            x: clamped_add(clamped_add(ox1, -ox2), sx),
            y: clamped_add(oy1, oy2),
            z: clamped_add(clamped_add(oz1, oz2), sz),
        };

        let dyaw = fp_mul(fp_mul(self.rotate_horizontal, self.sensitivity), dtf);
        let dpitch = fp_mul(fp_mul(self.rotate_vertical, self.sensitivity), dtf);

        let mut buffer = CommandBuffer::<NCommandUpdate<M, CameraController>>::new();
        buffer.push(NCommandUpdate::MoveCamera(offset));
        buffer.push(NCommandUpdate::RotateCamera(dyaw, -dpitch));
        buffer
    }
}

impl<M: Model> Actor<M> for CameraController {
    open spec fn spec_id(&self) -> u128 {
        CameraController::spec_id(*self)
    }

    /// One controller step: the latched state, then one `MoveCamera` and
    /// one `RotateCamera` command computed from it.
    open spec fn spec_update(&self, dt_ms: u64, inputs: InputState, trig: CameraTrig) -> (
        CameraController,
        Seq<NCommandUpdate<M, CameraController>>,
    ) {
        let stepped = spec_stepped(*self, inputs);
        (
            stepped,
            seq![
                NCommandUpdate::MoveCamera(spec_move_offset(stepped, trig, spec_dt_fp(dt_ms))),
                NCommandUpdate::RotateCamera(
                    spec_yaw_delta(stepped, spec_dt_fp(dt_ms)),
                    spec_pitch_delta(stepped, spec_dt_fp(dt_ms)),
                ),
            ],
        )
    }

    fn id(&self) -> (r: u128) {
        CameraController::id(self)
    }

    fn update(&mut self, dt_ms: u64, inputs: &InputState, trig: &CameraTrig) -> (r: CommandBuffer<
        NCommandUpdate<M, Self>,
    >) {
        let buffer = self.update_commands(dt_ms, inputs, trig);
        proof {
            assert forall|i: int|
                0 <= i < buffer@.len() implies crate::app::update_cmd_wf(#[trigger] buffer@[i]) by {
                if i == 0 {
                    assert(buffer@[0] is MoveCamera);
                } else {
                    assert(buffer@[1] is RotateCamera);
                }
            }
            assert(update_buffer_wf(buffer@));
            assert(buffer@ =~= <CameraController as Actor<M>>::spec_update(
                old(self),
                dt_ms,
                *inputs,
                *trig,
            ).1);
        }
        buffer
    }
}

/// Relies on `uuid::Uuid::new_v4` for a fresh random 128-bit identity;
/// nothing is assumed of the value.
#[verifier::external_body]
pub(crate) fn fresh_id() -> u128 {
    uuid::Uuid::new_v4().as_u128()
}

} // verus!
