use flycam::camera::resolve_axes;
use flycam::input::AxisBinding;
use flycam::input::AxisBindingSet;
use flycam::input::DeviceState;
use flycam::input::GamepadAxisKind;
use flycam::input::InputSource;
use flycam::input::KEY_A;
use flycam::input::KEY_D;
use flycam::input::KEY_E;
use flycam::input::KEY_Q;
use flycam::input::KEY_S;
use flycam::input::KEY_W;
use flycam::input::default_bindings;
use flycam::math::UNIT;

fn idle_device() -> DeviceState {
    DeviceState {
        pressed: Vec::new(),
        left_stick_x: 0,
        left_stick_y: 0,
        right_stick_x: 0,
        right_stick_y: 0,
        mouse_dx: 0,
        mouse_dy: 0,
    }
}

#[test]
fn resolve_is_zero_when_no_source_active() {
    let set = default_bindings();
    let d = idle_device();
    assert_eq!(set.resolve(AxisBinding::Longitudinal, &d), 0);
    assert_eq!(set.resolve(AxisBinding::Latitudinal, &d), 0);
    assert_eq!(set.resolve(AxisBinding::Elevation, &d), 0);
    assert_eq!(set.resolve(AxisBinding::Pitch, &d), 0);
    assert_eq!(set.resolve(AxisBinding::Yaw, &d), 0);
}

#[test]
fn digital_keys_emit_unit_values() {
    let set = default_bindings();
    let mut d = idle_device();
    d.pressed = vec![KEY_W, KEY_D, KEY_E];
    assert_eq!(set.resolve(AxisBinding::Longitudinal, &d), UNIT);
    assert_eq!(set.resolve(AxisBinding::Latitudinal, &d), UNIT);
    assert_eq!(set.resolve(AxisBinding::Elevation, &d), UNIT);
    d.pressed = vec![KEY_S, KEY_A, KEY_Q];
    assert_eq!(set.resolve(AxisBinding::Longitudinal, &d), -UNIT);
    assert_eq!(set.resolve(AxisBinding::Latitudinal, &d), -UNIT);
    assert_eq!(set.resolve(AxisBinding::Elevation, &d), -UNIT);
}

#[test]
fn analog_sources_pass_raw_magnitude_through() {
    let set = default_bindings();
    let mut d = idle_device();
    d.left_stick_y = 731_000;
    d.mouse_dx = 42;
    d.mouse_dy = -17;
    assert_eq!(set.resolve(AxisBinding::Longitudinal, &d), 731_000);
    assert_eq!(set.resolve(AxisBinding::Yaw, &d), 42);
    assert_eq!(set.resolve(AxisBinding::Pitch, &d), -17);
}

#[test]
fn first_registered_active_source_wins() {
    let set = default_bindings();
    let mut d = idle_device();
    // The left stick is registered before the W key: both active, the
    // stick's analog reading wins.
    d.left_stick_y = 500_000;
    d.pressed = vec![KEY_W];
    assert_eq!(set.resolve(AxisBinding::Longitudinal, &d), 500_000);
    // With the stick at rest, resolution falls through to the key.
    d.left_stick_y = 0;
    assert_eq!(set.resolve(AxisBinding::Longitudinal, &d), UNIT);
}

#[test]
fn rotation_axes_prefer_mouse_over_stick() {
    let set = default_bindings();
    let mut d = idle_device();
    d.mouse_dx = 9;
    d.right_stick_x = 250_000;
    assert_eq!(set.resolve(AxisBinding::Yaw, &d), 9);
    d.mouse_dx = 0;
    assert_eq!(set.resolve(AxisBinding::Yaw, &d), 250_000);
}

#[test]
fn bind_preserves_registration_order() {
    let mut set = AxisBindingSet::new();
    set.bind(AxisBinding::Elevation, InputSource::Key { code: 10, negative: false });
    set.bind(AxisBinding::Elevation, InputSource::Key { code: 20, negative: true });
    let mut d = idle_device();
    d.pressed = vec![10, 20];
    // Both keys held: the first registered candidate wins.
    assert_eq!(set.resolve(AxisBinding::Elevation, &d), UNIT);
    d.pressed = vec![20];
    assert_eq!(set.resolve(AxisBinding::Elevation, &d), -UNIT);
    // Nothing bound to the other axes: silent zero.
    assert_eq!(set.resolve(AxisBinding::Yaw, &d), 0);
}

#[test]
fn resolve_axes_fills_all_five_channels() {
    let set = default_bindings();
    let mut d = idle_device();
    d.pressed = vec![KEY_S, KEY_A];
    d.mouse_dx = -3;
    d.right_stick_y = 120_000;
    let axes = resolve_axes(&set, &d);
    assert_eq!(axes.longitudinal, -UNIT);
    assert_eq!(axes.latitudinal, -UNIT);
    assert_eq!(axes.elevation, 0);
    assert_eq!(axes.yaw_delta, -3);
    assert_eq!(axes.pitch_delta, 120_000);
}

#[test]
fn opposed_keys_resolve_by_order_not_sum() {
    let set = default_bindings();
    let mut d = idle_device();
    d.pressed = vec![KEY_W, KEY_S];
    // W is registered before S; there is no blending of the two.
    assert_eq!(set.resolve(AxisBinding::Longitudinal, &d), UNIT);
}
