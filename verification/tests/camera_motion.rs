use flycam::camera::AxisValues;
use flycam::camera::CameraState;
use flycam::math::HALF_PI;
use flycam::math::UNIT;
use flycam::math::clamp64;
use flycam::math::div_trunc64;
use flycam::math::isqrt_up;
use flycam::vec3::Vec3;

fn still() -> AxisValues {
    AxisValues { longitudinal: 0, latitudinal: 0, elevation: 0, yaw_delta: 0, pitch_delta: 0 }
}

fn identity_x() -> Vec3 {
    Vec3 { x: UNIT, y: 0, z: 0 }
}

fn identity_z() -> Vec3 {
    Vec3 { x: 0, y: 0, z: UNIT }
}

fn origin() -> CameraState {
    CameraState::at_position(Vec3 { x: 0, y: 0, z: 0 })
}

fn norm_sq(v: Vec3) -> i128 {
    let x = v.x as i128;
    let y = v.y as i128;
    let z = v.z as i128;
    x * x + y * y + z * z
}

#[test]
fn forward_axis_moves_one_unit_in_one_second() {
    let mut cam = origin();
    let axes = AxisValues { longitudinal: UNIT, ..still() };
    cam.update(&axes, identity_x(), identity_z(), UNIT);
    // Walking forward is along the reversed local z axis.
    assert_eq!(cam.velocity, Vec3 { x: 0, y: 0, z: -UNIT });
    assert_eq!(cam.position, Vec3 { x: 0, y: 0, z: -UNIT });
    assert_eq!(cam.yaw, 0);
    assert_eq!(cam.pitch, 0);
}

#[test]
fn velocity_is_zero_when_all_movement_axes_are_zero() {
    let mut cam = origin();
    cam.update(&still(), identity_x(), identity_z(), UNIT);
    assert_eq!(cam.velocity, Vec3 { x: 0, y: 0, z: 0 });
    assert_eq!(cam.position, Vec3 { x: 0, y: 0, z: 0 });
}

#[test]
fn diagonal_movement_is_not_faster_than_unit_speed() {
    let mut cam = origin();
    let axes = AxisValues { longitudinal: UNIT, latitudinal: UNIT, ..still() };
    cam.update(&axes, identity_x(), identity_z(), UNIT);
    let unit = UNIT as i128;
    assert!(norm_sq(cam.velocity) <= unit * unit);
    assert_eq!(cam.velocity.y, 0);
    assert_eq!(cam.velocity.x, -cam.velocity.z);
    assert!(cam.velocity.x > 0);
}

#[test]
fn extreme_axis_values_still_cap_speed_at_unit() {
    let mut cam = origin();
    let axes = AxisValues {
        longitudinal: i64::MAX,
        latitudinal: i64::MIN + 1,
        elevation: i64::MAX,
        ..still()
    };
    cam.update(&axes, identity_x(), identity_z(), UNIT);
    let unit = UNIT as i128;
    assert!(norm_sq(cam.velocity) <= unit * unit);
}

#[test]
fn vertical_look_contributes_no_horizontal_motion() {
    let mut cam = origin();
    // Looking straight up: the horizontal projection of local z is zero,
    // so the longitudinal axis moves nothing this frame.
    let up_z = Vec3 { x: 0, y: UNIT, z: 0 };
    let axes = AxisValues { longitudinal: UNIT, ..still() };
    cam.update(&axes, identity_x(), up_z, UNIT);
    assert_eq!(cam.velocity, Vec3 { x: 0, y: 0, z: 0 });
    assert_eq!(cam.position, Vec3 { x: 0, y: 0, z: 0 });
}

#[test]
fn elevation_axis_moves_straight_up() {
    let mut cam = origin();
    let axes = AxisValues { elevation: UNIT, ..still() };
    // Half a second of elevation at unit speed: half a unit up.
    cam.update(&axes, identity_x(), identity_z(), UNIT / 2);
    assert_eq!(cam.velocity, Vec3 { x: 0, y: UNIT, z: 0 });
    assert_eq!(cam.position, Vec3 { x: 0, y: UNIT / 2, z: 0 });
}

#[test]
fn orientation_is_unchanged_by_zero_rotation_deltas() {
    let mut cam = origin();
    cam.update(
        &AxisValues { pitch_delta: -700, ..still() },
        identity_x(),
        identity_z(),
        UNIT,
    );
    let yaw_before = cam.yaw;
    let pitch_before = cam.pitch;
    cam.update(&still(), identity_x(), identity_z(), UNIT);
    assert_eq!(cam.yaw, yaw_before);
    assert_eq!(cam.pitch, pitch_before);
}

#[test]
fn yaw_accumulates_additively() {
    let mut cam = origin();
    let axes = AxisValues { yaw_delta: -5, ..still() };
    cam.update(&axes, identity_x(), identity_z(), UNIT);
    assert_eq!(cam.yaw, 5_000);
    cam.update(&axes, identity_x(), identity_z(), UNIT);
    assert_eq!(cam.yaw, 10_000);
}

#[test]
fn rotation_sensitivity_scales_and_flips_the_delta() {
    let mut cam = origin();
    let axes = AxisValues { yaw_delta: 2, pitch_delta: 3, ..still() };
    cam.update(&axes, identity_x(), identity_z(), UNIT);
    assert_eq!(cam.yaw, -2_000);
    assert_eq!(cam.pitch, -3_000);
}

#[test]
fn huge_rotation_deltas_are_clamped_before_scaling() {
    let mut cam = origin();
    let axes = AxisValues { yaw_delta: i64::MAX, ..still() };
    cam.update(&axes, identity_x(), identity_z(), UNIT);
    assert_eq!(cam.yaw, -1_000_000_000_000_000);
}

#[test]
fn pitch_past_the_top_lands_exactly_on_half_pi() {
    let mut cam = origin();
    // A large negative delta pushes pitch far past pi/2 in one tick.
    let axes = AxisValues { pitch_delta: -10_000, ..still() };
    cam.update(&axes, identity_x(), identity_z(), UNIT);
    assert_eq!(cam.pitch, HALF_PI);
    let axes_down = AxisValues { pitch_delta: 10_000, ..still() };
    cam.update(&axes_down, identity_x(), identity_z(), UNIT);
    cam.update(&axes_down, identity_x(), identity_z(), UNIT);
    assert_eq!(cam.pitch, -HALF_PI);
}

#[test]
fn pitch_stays_in_range_over_many_wild_ticks() {
    let mut cam = origin();
    let mut i: i64 = 0;
    while i < 50 {
        let delta: i64 = if i % 3 == 0 { -987_654_321 } else { 123_456_789 * i };
        let axes = AxisValues { pitch_delta: delta, ..still() };
        cam.update(&axes, identity_x(), identity_z(), UNIT);
        assert!(-HALF_PI <= cam.pitch && cam.pitch <= HALF_PI);
        i += 1;
    }
}

#[test]
fn pose_reports_position_and_angles_with_zero_roll() {
    let mut cam = CameraState::at_position(Vec3 { x: 1, y: 2, z: 3 });
    let axes = AxisValues { yaw_delta: -1, pitch_delta: -1, ..still() };
    cam.update(&axes, identity_x(), identity_z(), 0);
    let pose = cam.pose();
    assert_eq!(pose.position, Vec3 { x: 1, y: 2, z: 3 });
    assert_eq!(pose.yaw, 1_000);
    assert_eq!(pose.pitch, 1_000);
    assert_eq!(pose.roll, 0);
}

#[test]
fn normalize_scales_to_exact_unit_length() {
    let v = Vec3 { x: 3, y: 4, z: 0 };
    assert_eq!(v.normalize_or_zero(), Vec3 { x: 600_000, y: 800_000, z: 0 });
    let w = Vec3 { x: 600_000, y: 800_000, z: 0 };
    assert_eq!(w.normalize_or_zero(), w);
    let zero = Vec3 { x: 0, y: 0, z: 0 };
    assert_eq!(zero.normalize_or_zero(), zero);
}

#[test]
fn isqrt_up_rounds_upward() {
    assert_eq!(isqrt_up(0), 0);
    assert_eq!(isqrt_up(1), 1);
    assert_eq!(isqrt_up(2), 2);
    assert_eq!(isqrt_up(4), 2);
    assert_eq!(isqrt_up(5), 3);
    assert_eq!(isqrt_up(1_000_000_000_000_000_000_000_000), 1_000_000_000_000);
}

#[test]
fn scalar_helpers_round_and_clamp_exactly() {
    assert_eq!(div_trunc64(7, 2), 3);
    assert_eq!(div_trunc64(-7, 2), -3);
    assert_eq!(div_trunc64(0, 5), 0);
    assert_eq!(clamp64(12, -3, 3), 3);
    assert_eq!(clamp64(-12, -3, 3), -3);
    assert_eq!(clamp64(2, -3, 3), 2);
}
