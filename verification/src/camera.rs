//! First-person camera integration: velocity from resolved axes, yaw and
//! pitch from rotation deltas, position from velocity and elapsed time.

use vstd::prelude::*;

verus! {

use crate::math::DT_MAX;
use crate::math::HALF_PI;
use crate::math::POS_LIMIT;
use crate::math::ROT_DELTA_MAX;
use crate::math::ROT_SENS;
use crate::math::UNIT;
use crate::math::YAW_LIMIT;
use crate::math::clamp64;
use crate::math::clamp_spec;
use crate::math::lemma_mul_bound;
use crate::math::div_toward_zero;
use crate::math::div_trunc64;
use crate::input::AxisBinding;
use crate::input::AxisBindingSet;
use crate::input::DeviceState;
use crate::input::resolve_first;
use crate::vec3::Vec3;
use crate::vec3::lemma_unit_of_props;
use crate::vec3::unit_of;

/// The five resolved axis scalars consumed by one tick. The movement axes
/// are fixed-point (micro-units); the rotation axes are raw device counts.
#[derive(Clone, Copy, Debug, PartialEq, Eq, Structural)]
pub struct AxisValues {
    pub longitudinal: i64,
    pub latitudinal: i64,
    pub elevation: i64,
    pub yaw_delta: i64,
    pub pitch_delta: i64,
}

/// A camera placement: position plus yaw/pitch/roll orientation angles
/// (micro-radians). Roll is always zero: the camera never tilts.
#[derive(Clone, Copy, Debug, PartialEq, Eq, Structural)]
pub struct Pose {
    pub position: Vec3,
    pub yaw: i64,
    pub pitch: i64,
    pub roll: i64,
}

/// The mutable camera state: orientation angles (micro-radians), the
/// current unit-capped velocity, and the position (micro-units).
#[derive(Clone, Copy, Debug, PartialEq, Eq, Structural)]
pub struct CameraState {
    pub yaw: i64,
    pub pitch: i64,
    pub velocity: Vec3,
    pub position: Vec3,
}

/// A movement axis value pushed into the digital range `[-UNIT, UNIT]`.
pub open spec fn axis_clamped(v: int) -> int {
    clamp_spec(v, -(UNIT as int), UNIT as int)
}

/// The orientation change one rotation delta causes: sensitivity-scaled,
/// sign-flipped, with extreme inputs clamped first.
pub open spec fn rot_step(delta: int) -> int {
    -((ROT_SENS as int) * clamp_spec(delta, -(ROT_DELTA_MAX as int), ROT_DELTA_MAX as int))
}

/// Yaw after one tick: accumulates additively, saturating only at the far
/// machine limit `YAW_LIMIT`.
pub open spec fn next_yaw(yaw: int, delta: int) -> int {
    clamp_spec(yaw + rot_step(delta), -(YAW_LIMIT as int), YAW_LIMIT as int)
}

/// Pitch after one tick: accumulates additively, clamped to
/// `[-HALF_PI, HALF_PI]` so the camera never flips over.
pub open spec fn next_pitch(pitch: int, delta: int) -> int {
    clamp_spec(pitch + rot_step(delta), -(HALF_PI as int), HALF_PI as int)
}

/// One position component after one tick: the velocity component scaled by
/// the elapsed time, saturating at the far machine limit `POS_LIMIT`.
pub open spec fn next_pos(p: int, v: int, dt: int) -> int {
    clamp_spec(p + div_toward_zero(v * dt, UNIT as int), -(POS_LIMIT as int), POS_LIMIT as int)
}

/// The walk direction before normalization: the camera's local z axis
/// projected onto the horizontal plane and reversed (cameras look down
/// their negative local z).
pub open spec fn walk_dir(local_z: Vec3) -> Vec3 {
    Vec3 { x: (-local_z.x) as i64, y: 0, z: (-local_z.z) as i64 }
}

/// The strafe direction before normalization: the camera's local x axis
/// projected onto the horizontal plane.
pub open spec fn right_dir(local_x: Vec3) -> Vec3 {
    Vec3 { x: local_x.x, y: 0, z: local_x.z }
}

/// The combined movement intent: unit walk and strafe directions weighted
/// by the clamped movement axes, plus the world up axis weighted by the
/// clamped elevation axis. Components are in micro-squared units.
pub open spec fn combined(local_x: Vec3, local_z: Vec3, a: AxisValues) -> Vec3 {
    let w = unit_of(walk_dir(local_z));
    let r = unit_of(right_dir(local_x));
    let l = axis_clamped(a.longitudinal as int);
    let t = axis_clamped(a.latitudinal as int);
    let e = axis_clamped(a.elevation as int);
    Vec3 {
        x: (w.x * l + r.x * t) as i64,
        y: (w.y * l + r.y * t + (UNIT as int) * e) as i64,
        z: (w.z * l + r.z * t) as i64,
    }
}

/// The velocity one tick produces: the combined movement intent scaled to
/// unit length, or zero when every movement axis is zero.
pub open spec fn velocity_spec(local_x: Vec3, local_z: Vec3, a: AxisValues) -> Vec3 {
    unit_of(combined(local_x, local_z, a))
}

impl CameraState {
    /// The state is inside all machine bounds and the pitch invariant.
    pub open spec fn wf(self) -> bool {
        &&& -(HALF_PI as int) <= self.pitch <= HALF_PI as int
        &&& -(YAW_LIMIT as int) <= self.yaw <= YAW_LIMIT as int
        &&& self.velocity.in_box(UNIT as int)
        &&& self.velocity.norm_sq() <= (UNIT as int) * (UNIT as int)
        &&& self.position.in_box(POS_LIMIT as int)
    }

    /// A camera at rest at `position`, looking level along its default
    /// orientation.
    pub fn at_position(position: Vec3) -> (s: CameraState)
        requires
            position.in_box(POS_LIMIT as int),
        ensures
            s.wf(),
            s.yaw == 0,
            s.pitch == 0,
            s.velocity == Vec3::zero_spec(),
            s.position == position,
    {
        CameraState { yaw: 0, pitch: 0, velocity: Vec3 { x: 0, y: 0, z: 0 }, position }
    }

    /// The current pose. Roll is always zero.
    pub fn pose(&self) -> (p: Pose)
        ensures
            p.position == self.position,
            p.yaw == self.yaw,
            p.pitch == self.pitch,
            p.roll == 0,
    {
        Pose { position: self.position, yaw: self.yaw, pitch: self.pitch, roll: 0 }
    }

    /// Apply one tick of resolved input: recompute the velocity from the
    /// movement axes and the camera's current basis vectors, and integrate
    /// the rotation axes into yaw and pitch. Position is untouched.
    pub fn apply_input(&mut self, axes: &AxisValues, local_x: Vec3, local_z: Vec3)
        requires
            old(self).wf(),
            local_x.in_box(UNIT as int),
            local_z.in_box(UNIT as int),
        ensures
            final(self).wf(),
            final(self).velocity == velocity_spec(local_x, local_z, *axes),
            final(self).yaw == next_yaw(old(self).yaw as int, axes.yaw_delta as int),
            final(self).pitch == next_pitch(old(self).pitch as int, axes.pitch_delta as int),
            final(self).position == old(self).position,
    {
        let walk = (Vec3 { x: -local_z.x, y: 0, z: -local_z.z }).normalize_or_zero();
        let right = (Vec3 { x: local_x.x, y: 0, z: local_x.z }).normalize_or_zero();
        proof {
            lemma_unit_of_props(walk_dir(local_z));
            lemma_unit_of_props(right_dir(local_x));
        }
        let l = clamp64(axes.longitudinal, -UNIT, UNIT);
        let t = clamp64(axes.latitudinal, -UNIT, UNIT);
        let e = clamp64(axes.elevation, -UNIT, UNIT);
        proof {
            lemma_mul_bound(walk.x as int, l as int, UNIT as int, UNIT as int);
            lemma_mul_bound(walk.y as int, l as int, UNIT as int, UNIT as int);
            lemma_mul_bound(walk.z as int, l as int, UNIT as int, UNIT as int);
            lemma_mul_bound(right.x as int, t as int, UNIT as int, UNIT as int);
            lemma_mul_bound(right.y as int, t as int, UNIT as int, UNIT as int);
            lemma_mul_bound(right.z as int, t as int, UNIT as int, UNIT as int);
        }
        let comb = Vec3 {
            x: walk.x * l + right.x * t,
            y: walk.y * l + right.y * t + UNIT * e,
            z: walk.z * l + right.z * t,
        };
        proof {
            assert(comb == combined(local_x, local_z, *axes));
            lemma_unit_of_props(comb);
        }
        self.velocity = comb.normalize_or_zero();
        let yd = clamp64(axes.yaw_delta, -ROT_DELTA_MAX, ROT_DELTA_MAX);
        let pd = clamp64(axes.pitch_delta, -ROT_DELTA_MAX, ROT_DELTA_MAX);
        self.yaw = clamp64(self.yaw + -(ROT_SENS * yd), -YAW_LIMIT, YAW_LIMIT);
        self.pitch = clamp64(self.pitch + -(ROT_SENS * pd), -HALF_PI, HALF_PI);
    }

    /// Integrate the current velocity over `dt` micro-seconds of elapsed
    /// time: frame-rate independent, exact truncating fixed-point scaling.
    /// Velocity and orientation are untouched.
    pub fn integrate(&mut self, dt: i64)
        requires
            old(self).wf(),
            0 <= dt <= DT_MAX,
        ensures
            final(self).wf(),
            final(self).position.x == next_pos(
                old(self).position.x as int,
                old(self).velocity.x as int,
                dt as int,
            ),
            final(self).position.y == next_pos(
                old(self).position.y as int,
                old(self).velocity.y as int,
                dt as int,
            ),
            final(self).position.z == next_pos(
                old(self).position.z as int,
                old(self).velocity.z as int,
                dt as int,
            ),
            final(self).yaw == old(self).yaw,
            final(self).pitch == old(self).pitch,
            final(self).velocity == old(self).velocity,
    {
        proof {
            lemma_mul_bound(self.velocity.x as int, dt as int, UNIT as int, DT_MAX as int);
            lemma_mul_bound(self.velocity.y as int, dt as int, UNIT as int, DT_MAX as int);
            lemma_mul_bound(self.velocity.z as int, dt as int, UNIT as int, DT_MAX as int);
        }
        let dx = div_trunc64(self.velocity.x * dt, UNIT);
        let dy = div_trunc64(self.velocity.y * dt, UNIT);
        let dz = div_trunc64(self.velocity.z * dt, UNIT);
        let px = clamp64(self.position.x + dx, -POS_LIMIT, POS_LIMIT);
        let py = clamp64(self.position.y + dy, -POS_LIMIT, POS_LIMIT);
        let pz = clamp64(self.position.z + dz, -POS_LIMIT, POS_LIMIT);
        self.position = Vec3 { x: px, y: py, z: pz };
    }

    /// One whole tick: apply the resolved axes, then integrate the new
    /// velocity over the elapsed time.
    pub fn update(&mut self, axes: &AxisValues, local_x: Vec3, local_z: Vec3, dt: i64)
        requires
            old(self).wf(),
            local_x.in_box(UNIT as int),
            local_z.in_box(UNIT as int),
            0 <= dt <= DT_MAX,
        ensures
            final(self).wf(),
            final(self).velocity == velocity_spec(local_x, local_z, *axes),
            final(self).yaw == next_yaw(old(self).yaw as int, axes.yaw_delta as int),
            final(self).pitch == next_pitch(old(self).pitch as int, axes.pitch_delta as int),
            final(self).position.x == next_pos(
                old(self).position.x as int,
                velocity_spec(local_x, local_z, *axes).x as int,
                dt as int,
            ),
            final(self).position.y == next_pos(
                old(self).position.y as int,
                velocity_spec(local_x, local_z, *axes).y as int,
                dt as int,
            ),
            final(self).position.z == next_pos(
                old(self).position.z as int,
                velocity_spec(local_x, local_z, *axes).z as int,
                dt as int,
            ),
    {
        self.apply_input(axes, local_x, local_z);
        self.integrate(dt);
    }
}

/// Resolve all five logical axes from one device snapshot: each field is
/// the first-match-wins value of its axis under the given bindings.
pub fn resolve_axes(bindings: &AxisBindingSet, device: &DeviceState) -> (a: AxisValues)
    ensures
        a.longitudinal as int == resolve_first(
            bindings.sources(AxisBinding::Longitudinal),
            *device,
        ),
        a.latitudinal as int == resolve_first(bindings.sources(AxisBinding::Latitudinal), *device),
        a.elevation as int == resolve_first(bindings.sources(AxisBinding::Elevation), *device),
        a.yaw_delta as int == resolve_first(bindings.sources(AxisBinding::Yaw), *device),
        a.pitch_delta as int == resolve_first(bindings.sources(AxisBinding::Pitch), *device),
{
    AxisValues {
        longitudinal: bindings.resolve(AxisBinding::Longitudinal, device),
        latitudinal: bindings.resolve(AxisBinding::Latitudinal, device),
        elevation: bindings.resolve(AxisBinding::Elevation, device),
        yaw_delta: bindings.resolve(AxisBinding::Yaw, device),
        pitch_delta: bindings.resolve(AxisBinding::Pitch, device),
    }
}

/// The velocity of a tick never exceeds unit speed, and is exactly zero
/// when all three movement axes are zero.
pub proof fn lemma_velocity_props(local_x: Vec3, local_z: Vec3, a: AxisValues)
    ensures
        velocity_spec(local_x, local_z, a).norm_sq() <= (UNIT as int) * (UNIT as int),
        velocity_spec(local_x, local_z, a).in_box(UNIT as int),
        (a.longitudinal == 0 && a.latitudinal == 0 && a.elevation == 0) ==> velocity_spec(
            local_x,
            local_z,
            a,
        ) == Vec3::zero_spec(),
{
    let c = combined(local_x, local_z, a);
    lemma_unit_of_props(c);
    if a.longitudinal == 0 && a.latitudinal == 0 && a.elevation == 0 {
        let w = unit_of(walk_dir(local_z));
        let r = unit_of(right_dir(local_x));
        assert(w.x * 0 + r.x * 0 == 0) by (nonlinear_arith);
        assert(w.y * 0 + r.y * 0 + (UNIT as int) * 0 == 0) by (nonlinear_arith);
        assert(w.z * 0 + r.z * 0 == 0) by (nonlinear_arith);
        assert(c == Vec3::zero_spec());
    }
}

/// Pitch stays inside `[-HALF_PI, HALF_PI]` after any tick, whatever the
/// starting pitch and however large the delta.
pub proof fn lemma_pitch_in_range(pitch: int, delta: int)
    ensures
        -(HALF_PI as int) <= next_pitch(pitch, delta) <= HALF_PI as int,
{
}

/// A delta that pushes pitch to or past a bound lands exactly on that
/// bound: clamped, never wrapped.
pub proof fn lemma_pitch_saturates(pitch: int, delta: int)
    ensures
        pitch + rot_step(delta) >= HALF_PI as int ==> next_pitch(pitch, delta) == HALF_PI as int,
        pitch + rot_step(delta) <= -(HALF_PI as int) ==> next_pitch(pitch, delta) == -(
        HALF_PI as int),
{
}

/// Yaw accumulates additively as long as it stays inside the machine
/// saturation bound, and a zero delta leaves it exactly unchanged.
pub proof fn lemma_yaw_accumulates(yaw: int, delta: int)
    requires
        -(YAW_LIMIT as int) <= yaw <= YAW_LIMIT as int,
    ensures
        -(YAW_LIMIT as int) <= yaw + rot_step(delta) <= YAW_LIMIT as int ==> next_yaw(yaw, delta)
            == yaw + rot_step(delta),
        next_yaw(yaw, 0) == yaw,
{
    assert((ROT_SENS as int) * clamp_spec(0, -(ROT_DELTA_MAX as int), ROT_DELTA_MAX as int) == 0);
}

/// A tick with zero rotation deltas leaves the whole orientation (yaw,
/// pitch, and the always-zero roll) exactly unchanged.
pub proof fn lemma_orientation_stable(yaw: int, pitch: int)
    requires
        -(YAW_LIMIT as int) <= yaw <= YAW_LIMIT as int,
        -(HALF_PI as int) <= pitch <= HALF_PI as int,
    ensures
        next_yaw(yaw, 0) == yaw,
        next_pitch(pitch, 0) == pitch,
{
    lemma_yaw_accumulates(yaw, 0);
    assert((ROT_SENS as int) * clamp_spec(0, -(ROT_DELTA_MAX as int), ROT_DELTA_MAX as int) == 0);
}

} // verus!
