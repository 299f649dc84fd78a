//! Logical axes, physical input sources, and first-match-wins resolution.

use vstd::prelude::*;

verus! {

use crate::math::UNIT;

/// Key codes used by the default bindings (ASCII of the letter).
pub const KEY_W: u32 = 87;

pub const KEY_A: u32 = 65;

pub const KEY_S: u32 = 83;

pub const KEY_D: u32 = 68;

pub const KEY_Q: u32 = 81;

pub const KEY_E: u32 = 69;

/// A named logical axis producing one scalar per tick.
#[derive(Clone, Copy, Debug, PartialEq, Eq, Structural)]
pub enum AxisBinding {
    Longitudinal,
    Latitudinal,
    Elevation,
    Pitch,
    Yaw,
}

/// A gamepad stick axis.
#[derive(Clone, Copy, Debug, PartialEq, Eq, Structural)]
pub enum GamepadAxisKind {
    LeftStickX,
    LeftStickY,
    RightStickX,
    RightStickY,
}

/// A mouse motion axis (delta since the last tick).
#[derive(Clone, Copy, Debug, PartialEq, Eq, Structural)]
pub enum MouseAxisKind {
    X,
    Y,
}

/// A physical input source for an axis.
///
/// A key is digital: it emits `-UNIT`, `0` or `UNIT`. Gamepad and mouse
/// sources are analog: their raw reading passes through unchanged.
#[derive(Clone, Copy, Debug, PartialEq, Eq, Structural)]
pub enum InputSource {
    Key { code: u32, negative: bool },
    GamepadAxis(GamepadAxisKind),
    MouseDelta(MouseAxisKind),
}

/// A read-only snapshot of raw device state for one tick: pressed key
/// codes, stick positions in micro-units, and mouse deltas in raw counts.
#[derive(Debug)]
pub struct DeviceState {
    pub pressed: Vec<u32>,
    pub left_stick_x: i64,
    pub left_stick_y: i64,
    pub right_stick_x: i64,
    pub right_stick_y: i64,
    pub mouse_dx: i64,
    pub mouse_dy: i64,
}

/// The raw reading of one gamepad axis.
pub open spec fn gamepad_value(d: DeviceState, a: GamepadAxisKind) -> int {
    match a {
        GamepadAxisKind::LeftStickX => d.left_stick_x as int,
        GamepadAxisKind::LeftStickY => d.left_stick_y as int,
        GamepadAxisKind::RightStickX => d.right_stick_x as int,
        GamepadAxisKind::RightStickY => d.right_stick_y as int,
    }
}

/// The raw reading of one mouse axis.
pub open spec fn mouse_value(d: DeviceState, a: MouseAxisKind) -> int {
    match a {
        MouseAxisKind::X => d.mouse_dx as int,
        MouseAxisKind::Y => d.mouse_dy as int,
    }
}

/// The scalar a source produces under device state `d`.
pub open spec fn source_value(s: InputSource, d: DeviceState) -> int {
    match s {
        InputSource::Key { code, negative } => if d.pressed@.contains(code) {
            if negative {
                -(UNIT as int)
            } else {
                UNIT as int
            }
        } else {
            0
        },
        InputSource::GamepadAxis(a) => gamepad_value(d, a),
        InputSource::MouseDelta(a) => mouse_value(d, a),
    }
}

/// First-match-wins resolution: the value of the first source in `srcs`
/// whose reading is non-zero, else zero.
pub open spec fn resolve_first(srcs: Seq<InputSource>, d: DeviceState) -> int
    decreases srcs.len(),
{
    if srcs.len() == 0 {
        0
    } else if source_value(srcs[0], d) != 0 {
        source_value(srcs[0], d)
    } else {
        resolve_first(srcs.drop_first(), d)
    }
}

/// If no source produces a value, resolution is silently zero.
pub proof fn lemma_resolve_silent(srcs: Seq<InputSource>, d: DeviceState)
    requires
        forall|i: int| 0 <= i < srcs.len() ==> source_value(srcs[i], d) == 0,
    ensures
        resolve_first(srcs, d) == 0,
    decreases srcs.len(),
{
    if srcs.len() > 0 {
        lemma_resolve_silent(srcs.drop_first(), d);
    }
}

/// Over digital (key) sources alone, resolution stays in `[-UNIT, UNIT]`.
pub proof fn lemma_resolve_digital(srcs: Seq<InputSource>, d: DeviceState)
    requires
        forall|i: int| 0 <= i < srcs.len() ==> srcs[i] is Key,
    ensures
        -(UNIT as int) <= resolve_first(srcs, d) <= UNIT as int,
    decreases srcs.len(),
{
    if srcs.len() > 0 {
        assert(srcs[0] is Key);
        lemma_resolve_digital(srcs.drop_first(), d);
    }
}

/// Whatever resolution returns, when it is not zero it is the reading of
/// the first active source, read under `d`.
pub proof fn lemma_resolve_first_active(srcs: Seq<InputSource>, d: DeviceState)
    requires
        resolve_first(srcs, d) != 0,
    ensures
        exists|i: int|
            0 <= i < srcs.len() && resolve_first(srcs, d) == source_value(srcs[i], d) && (forall|
                j: int,
            | 0 <= j < i ==> source_value(srcs[j], d) == 0),
    decreases srcs.len(),
{
    if srcs.len() > 0 {
        if source_value(srcs[0], d) != 0 {
            assert(0 <= 0 < srcs.len() && resolve_first(srcs, d) == source_value(srcs[0], d) && (
            forall|j: int| 0 <= j < 0 ==> source_value(srcs[j], d) == 0));
        } else {
            lemma_resolve_first_active(srcs.drop_first(), d);
            let k = choose|i: int|
                0 <= i < srcs.drop_first().len() && resolve_first(srcs.drop_first(), d)
                    == source_value(srcs.drop_first()[i], d) && (forall|j: int|
                    0 <= j < i ==> source_value(srcs.drop_first()[j], d) == 0);
            assert(srcs[k + 1] == srcs.drop_first()[k]);
            assert(forall|j: int| 0 <= j < k + 1 ==> source_value(srcs[j], d) == 0) by {
                assert(forall|j: int|
                    1 <= j < k + 1 ==> srcs[j] == srcs.drop_first()[j - 1]
                        && source_value(srcs.drop_first()[j - 1], d) == 0);
            }
            assert(0 <= k + 1 < srcs.len() && resolve_first(srcs, d) == source_value(
                srcs[k + 1],
                d,
            ) && (forall|j: int| 0 <= j < k + 1 ==> source_value(srcs[j], d) == 0));
        }
    }
}

/// Does the snapshot list `code` among the pressed keys?
fn key_pressed(d: &DeviceState, code: u32) -> (r: bool)
    ensures
        r == d.pressed@.contains(code),
{
    let mut i: usize = 0;
    while i < d.pressed.len()
        invariant
            0 <= i <= d.pressed.len(),
            forall|j: int| 0 <= j < i ==> d.pressed@[j] != code,
        decreases d.pressed.len() - i,
    {
        if d.pressed[i] == code {
            return true;
        }
        i += 1;
    }
    false
}

/// Read one source's scalar from the device snapshot.
fn read_source(s: &InputSource, d: &DeviceState) -> (r: i64)
    ensures
        r as int == source_value(*s, *d),
{
    match s {
        InputSource::Key { code, negative } => {
            if key_pressed(d, *code) {
                if *negative {
                    -UNIT
                } else {
                    UNIT
                }
            } else {
                0
            }
        },
        InputSource::GamepadAxis(a) => {
            match a {
                GamepadAxisKind::LeftStickX => d.left_stick_x,
                GamepadAxisKind::LeftStickY => d.left_stick_y,
                GamepadAxisKind::RightStickX => d.right_stick_x,
                GamepadAxisKind::RightStickY => d.right_stick_y,
            }
        },
        InputSource::MouseDelta(a) => {
            match a {
                MouseAxisKind::X => d.mouse_dx,
                MouseAxisKind::Y => d.mouse_dy,
            }
        },
    }
}

/// An ordered list of candidate sources for each logical axis.
#[derive(Debug)]
pub struct AxisBindingSet {
    pub longitudinal: Vec<InputSource>,
    pub latitudinal: Vec<InputSource>,
    pub elevation: Vec<InputSource>,
    pub pitch: Vec<InputSource>,
    pub yaw: Vec<InputSource>,
}

impl AxisBindingSet {
    /// The candidate list registered for `axis`, in registration order.
    pub open spec fn sources(self, axis: AxisBinding) -> Seq<InputSource> {
        match axis {
            AxisBinding::Longitudinal => self.longitudinal@,
            AxisBinding::Latitudinal => self.latitudinal@,
            AxisBinding::Elevation => self.elevation@,
            AxisBinding::Pitch => self.pitch@,
            AxisBinding::Yaw => self.yaw@,
        }
    }

    /// A set with no sources bound to any axis.
    pub fn new() -> (s: AxisBindingSet)
        ensures
            forall|a: AxisBinding| s.sources(a).len() == 0,
    {
        AxisBindingSet {
            longitudinal: Vec::new(),
            latitudinal: Vec::new(),
            elevation: Vec::new(),
            pitch: Vec::new(),
            yaw: Vec::new(),
        }
    }

    /// Register one more candidate source for `axis`, after those already
    /// registered; other axes are untouched.
    pub fn bind(&mut self, axis: AxisBinding, src: InputSource)
        ensures
            final(self).sources(axis) == old(self).sources(axis).push(src),
            forall|a: AxisBinding| a != axis ==> final(self).sources(a) == old(self).sources(a),
    {
        match axis {
            AxisBinding::Longitudinal => self.longitudinal.push(src),
            AxisBinding::Latitudinal => self.latitudinal.push(src),
            AxisBinding::Elevation => self.elevation.push(src),
            AxisBinding::Pitch => self.pitch.push(src),
            AxisBinding::Yaw => self.yaw.push(src),
        }
    }

    /// Evaluate `axis` under the device snapshot `d`: the value of the
    /// first registered source whose reading is non-zero, else zero.
    pub fn resolve(&self, axis: AxisBinding, d: &DeviceState) -> (r: i64)
        ensures
            r as int == resolve_first(self.sources(axis), *d),
    {
        let srcs: &Vec<InputSource> = match axis {
            AxisBinding::Longitudinal => &self.longitudinal,
            AxisBinding::Latitudinal => &self.latitudinal,
            AxisBinding::Elevation => &self.elevation,
            AxisBinding::Pitch => &self.pitch,
            AxisBinding::Yaw => &self.yaw,
        };
        let mut i: usize = 0;
        proof {
            assert(srcs@.skip(0) =~= srcs@);
        }
        while i < srcs.len()
            invariant
                0 <= i <= srcs.len(),
                srcs@ == self.sources(axis),
                resolve_first(srcs@, *d) == resolve_first(srcs@.skip(i as int), *d),
            decreases srcs.len() - i,
        {
            let v: i64 = read_source(&srcs[i], d);
            proof {
                assert(srcs@.skip(i as int)[0] == srcs@[i as int]);
            }
            if v != 0 {
                return v;
            }
            proof {
                assert(srcs@.skip(i as int).drop_first() =~= srcs@.skip(i as int + 1));
            }
            i += 1;
        }
        proof {
            assert(srcs@.skip(i as int).len() == 0);
        }
        0
    }
}

/// The default binding set: gamepad sticks and WASD/QE keys drive the
/// movement axes, mouse deltas and the right stick drive rotation.
pub fn default_bindings() -> (s: AxisBindingSet)
    ensures
        s.sources(AxisBinding::Longitudinal) =~= seq![
            InputSource::GamepadAxis(GamepadAxisKind::LeftStickY),
            InputSource::Key { code: KEY_W, negative: false },
            InputSource::Key { code: KEY_S, negative: true },
        ],
        s.sources(AxisBinding::Latitudinal) =~= seq![
            InputSource::GamepadAxis(GamepadAxisKind::LeftStickX),
            InputSource::Key { code: KEY_D, negative: false },
            InputSource::Key { code: KEY_A, negative: true },
        ],
        s.sources(AxisBinding::Elevation) =~= seq![
            InputSource::Key { code: KEY_E, negative: false },
            InputSource::Key { code: KEY_Q, negative: true },
        ],
        s.sources(AxisBinding::Pitch) =~= seq![
            InputSource::MouseDelta(MouseAxisKind::Y),
            InputSource::GamepadAxis(GamepadAxisKind::RightStickY),
        ],
        s.sources(AxisBinding::Yaw) =~= seq![
            InputSource::MouseDelta(MouseAxisKind::X),
            InputSource::GamepadAxis(GamepadAxisKind::RightStickX),
        ],
{
    let mut s = AxisBindingSet::new();
    s.bind(AxisBinding::Longitudinal, InputSource::GamepadAxis(GamepadAxisKind::LeftStickY));
    s.bind(AxisBinding::Longitudinal, InputSource::Key { code: KEY_W, negative: false });
    s.bind(AxisBinding::Longitudinal, InputSource::Key { code: KEY_S, negative: true });
    s.bind(AxisBinding::Latitudinal, InputSource::GamepadAxis(GamepadAxisKind::LeftStickX));
    s.bind(AxisBinding::Latitudinal, InputSource::Key { code: KEY_D, negative: false });
    s.bind(AxisBinding::Latitudinal, InputSource::Key { code: KEY_A, negative: true });
    s.bind(AxisBinding::Elevation, InputSource::Key { code: KEY_E, negative: false });
    s.bind(AxisBinding::Elevation, InputSource::Key { code: KEY_Q, negative: true });
    s.bind(AxisBinding::Pitch, InputSource::MouseDelta(MouseAxisKind::Y));
    s.bind(AxisBinding::Pitch, InputSource::GamepadAxis(GamepadAxisKind::RightStickY));
    s.bind(AxisBinding::Yaw, InputSource::MouseDelta(MouseAxisKind::X));
    s.bind(AxisBinding::Yaw, InputSource::GamepadAxis(GamepadAxisKind::RightStickX));
    s
}

} // verus!
