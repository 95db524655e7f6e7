//! The light bar on the chassis, driven through the firmware's 16-byte lighting frame.
//!
//! ```text
//! 0 mode  1 speed  2 brightness  3 0x00  4 direction  5 R  6 G  7 B
//! 8 0x03  9 0x02 (target: light bar - 0x01 is the keyboard)  10..15 0x00
//! ```

use vstd::prelude::*;

verus! {

/// The device the frames are written to.
pub const DEVICE: &'static str = "/dev/acer-gkbbl-0";

pub const TARGET_LIGHT_BAR: u8 = 0x02;

pub const TAIL_MARKER: u8 = 0x03;

/// Speed range that the bar offers.
pub const SPEED_MIN: u8 = 1;

pub const SPEED_MAX: u8 = 5;

/// Brightness is a percentage.
pub const BRIGHTNESS_MAX: u8 = 100;

/// Idle delay before the bar blanks, the same as the keyboard backlight's own timeout.
pub const IDLE_SECONDS: u64 = 30;

/// The pause after a waking frame, in milliseconds.
pub const WAKE_PAUSE_MS: u64 = 300;

/// Message shown where the device is missing.
pub const DEVICE_NOT_FOUND: &'static str = "rgb_err_device_not_found";

#[derive(Debug, Clone, Copy, PartialEq, Eq, Hash, Structural)]
pub enum LightBarMode {
    Off,
    Breathing,
    Neon,
    Rainbow,
    Wave,
    Ripple,
    Scanner,
    Strobe,
    Static,
}

impl LightBarMode {
    /// Every mode, in the order they are offered.
    pub const ALL: [LightBarMode; 9] = [
        LightBarMode::Static,
        LightBarMode::Breathing,
        LightBarMode::Neon,
        LightBarMode::Rainbow,
        LightBarMode::Wave,
        LightBarMode::Ripple,
        LightBarMode::Scanner,
        LightBarMode::Strobe,
        LightBarMode::Off,
    ];

    /// The mode's byte in a frame. The ids are sparse: solid colour is the last one.
    pub open spec fn id(self) -> u8 {
        match self {
            LightBarMode::Off => 0x00,
            LightBarMode::Breathing => 0x01,
            LightBarMode::Neon => 0x02,
            LightBarMode::Rainbow => 0x03,
            LightBarMode::Wave => 0x04,
            LightBarMode::Ripple => 0x05,
            LightBarMode::Scanner => 0x06,
            LightBarMode::Strobe => 0x07,
            LightBarMode::Static => 0xff,
        }
    }

    /// The mode's byte in a frame.
    pub fn wire_id(self) -> (r: u8)
        ensures
            r == self.id(),
    {
        match self {
            LightBarMode::Off => 0x00,
            LightBarMode::Breathing => 0x01,
            LightBarMode::Neon => 0x02,
            LightBarMode::Rainbow => 0x03,
            LightBarMode::Wave => 0x04,
            LightBarMode::Ripple => 0x05,
            LightBarMode::Scanner => 0x06,
            LightBarMode::Strobe => 0x07,
            LightBarMode::Static => 0xff,
        }
    }

    /// The name of the mode's label.
    pub open spec fn label(self) -> Seq<char> {
        match self {
            LightBarMode::Off => "light_bar_off"@,
            LightBarMode::Breathing => "breath"@,
            LightBarMode::Neon => "neon"@,
            LightBarMode::Rainbow => "effect_rainbow"@,
            LightBarMode::Wave => "wave"@,
            LightBarMode::Ripple => "light_bar_ripple"@,
            LightBarMode::Scanner => "light_bar_scanner"@,
            LightBarMode::Strobe => "light_bar_strobe"@,
            LightBarMode::Static => "static_mode"@,
        }
    }

    /// The name of the mode's label.
    pub fn label_key(self) -> (r: &'static str)
        ensures
            r@ == self.label(),
    {
        match self {
            LightBarMode::Off => "light_bar_off",
            LightBarMode::Breathing => "breath",
            LightBarMode::Neon => "neon",
            LightBarMode::Rainbow => "effect_rainbow",
            LightBarMode::Wave => "wave",
            LightBarMode::Ripple => "light_bar_ripple",
            LightBarMode::Scanner => "light_bar_scanner",
            LightBarMode::Strobe => "light_bar_strobe",
            LightBarMode::Static => "static_mode",
        }
    }

    /// Whether the mode shows the chosen colour.
    pub fn uses_color(self) -> (r: bool)
        ensures
            r == !(self is Off || self is Neon || self is Rainbow),
            self is Static || self is Breathing || self is Wave || self is Ripple || self is Scanner
                || self is Strobe ==> r,
            self is Off || self is Neon || self is Rainbow ==> !r,
    {
        match self {
            LightBarMode::Off => false,
            LightBarMode::Neon => false,
            LightBarMode::Rainbow => false,
            _ => true,
        }
    }

    /// Whether the mode has a speed.
    pub fn uses_speed(self) -> (r: bool)
        ensures
            r == !(self is Off || self is Static),
            self is Off || self is Static ==> !r,
            !(self is Off) && !(self is Static) ==> r,
    {
        match self {
            LightBarMode::Off => false,
            LightBarMode::Static => false,
            _ => true,
        }
    }
}

/// Everything one frame carries.
#[derive(Debug, Clone, Copy, PartialEq, Eq, Structural)]
pub struct LightBarState {
    pub mode: LightBarMode,
    pub speed: u8,
    pub brightness: u8,
    pub red: u8,
    pub green: u8,
    pub blue: u8,
}

/// The state of whoever never chose one.
pub open spec fn default_state() -> LightBarState {
    LightBarState {
        mode: LightBarMode::Breathing,
        speed: 3,
        brightness: 100,
        red: 0,
        green: 174,
        blue: 199,
    }
}

impl Default for LightBarState {
    fn default() -> (r: Self)
        ensures
            r == default_state(),
    {
        LightBarState {
            mode: LightBarMode::Breathing,
            speed: 3,
            brightness: BRIGHTNESS_MAX,
            red: 0,
            green: 174,
            blue: 199,
        }
    }
}

/// The bytes of the frame that carries a state.
pub open spec fn frame_bytes(state: LightBarState) -> Seq<u8> {
    seq![
        state.mode.id(),
        state.speed,
        state.brightness,
        0,
        1,
        state.red,
        state.green,
        state.blue,
        TAIL_MARKER,
        TARGET_LIGHT_BAR,
        0,
        0,
        0,
        0,
        0,
        0,
    ]
}

/// The frame that carries a state.
pub fn frame(state: &LightBarState) -> (r: [u8; 16])
    ensures
        r@ == frame_bytes(*state),
{
    let f: [u8; 16] = [
        state.mode.wire_id(),
        state.speed,
        state.brightness,
        0x00,
        0x01,
        state.red,
        state.green,
        state.blue,
        TAIL_MARKER,
        TARGET_LIGHT_BAR,
        0,
        0,
        0,
        0,
        0,
        0,
    ];
    assert(f@ =~= frame_bytes(*state));
    f
}

/// The state that shows what a chosen state means: the bar is turned off by a solid colour
/// without brightness, since the firmware's own "off" id leaves it lit.
pub open spec fn shown(state: LightBarState) -> LightBarState {
    if state.mode == LightBarMode::Off {
        LightBarState { mode: LightBarMode::Static, brightness: 0, ..state }
    } else {
        state
    }
}

fn to_show(state: &LightBarState) -> (r: LightBarState)
    ensures
        r == shown(*state),
{
    if state.mode == LightBarMode::Off {
        LightBarState { mode: LightBarMode::Static, brightness: 0, ..*state }
    } else {
        *state
    }
}

/// Frames as contracts speak of them.
pub open spec fn frames_view(frames: Seq<[u8; 16]>) -> Seq<Seq<u8>> {
    Seq::new(frames.len(), |i: int| frames[i]@)
}

/// The frames that apply a state, in order.
pub open spec fn frames_to_apply(state: LightBarState, wake: bool) -> Seq<Seq<u8>> {
    if wake && state.mode != LightBarMode::Breathing && state.mode != LightBarMode::Off {
        seq![
            frame_bytes(LightBarState { mode: LightBarMode::Breathing, ..state }),
            frame_bytes(shown(state)),
        ]
    } else {
        seq![frame_bytes(shown(state))]
    }
}

/// The frames that apply a state, [`WAKE_PAUSE_MS`] apart; the first failure stops it.
///
/// `wake` sends a breathing frame first: after the firmware was left in its off state, or
/// after a cold boot, it takes one such frame before another mode is seen.
pub fn apply(state: &LightBarState, wake: bool, available: bool) -> (r: Result<
    Vec<[u8; 16]>,
    &'static str,
>)
    ensures
        r is Ok == available,
        match r {
            Ok(frames) => frames_view(frames@) == frames_to_apply(*state, wake),
            Err(key) => key@ == DEVICE_NOT_FOUND@,
        },
{
    if !available {
        return Err(DEVICE_NOT_FOUND);
    }
    let mut out: Vec<[u8; 16]> = Vec::new();
    if wake && state.mode != LightBarMode::Breathing && state.mode != LightBarMode::Off {
        out.push(frame(&LightBarState { mode: LightBarMode::Breathing, ..*state }));
    }
    out.push(frame(&to_show(state)));
    assert(frames_view(out@) =~= frames_to_apply(*state, wake));
    Ok(out)
}

/// The frame that blanks the bar: what was last applied, without brightness. The mode is left
/// alone, so that one frame puts back what was showing.
pub fn blank(saved: &Option<LightBarState>) -> (r: [u8; 16])
    ensures
        r@ == frame_bytes(
            LightBarState {
                brightness: 0,
                ..(match saved {
                    Some(state) => *state,
                    None => default_state(),
                })
            },
        ),
        r@[2] == 0,
        saved matches Some(state) ==> r@[0] == state.mode.id() && r@[5] == state.red && r@[6]
            == state.green && r@[7] == state.blue,
{
    let state = match saved {
        Some(state) => *state,
        None => LightBarState::default(),
    };
    frame(&LightBarState { brightness: 0, ..state })
}

/// The frames that put back what was last applied, where there is any: used when idle
/// blanking is switched off, which must not leave the bar dark.
pub fn restore_from_config(saved: &Option<LightBarState>, available: bool) -> (r: Vec<[u8; 16]>)
    ensures
        frames_view(r@) == (if saved is Some && available {
            frames_to_apply(saved->0, true)
        } else {
            seq![]
        }),
{
    if let Some(state) = saved {
        if let Ok(frames) = apply(state, true, available) {
            return frames;
        }
    }
    let none: Vec<[u8; 16]> = Vec::new();
    assert(frames_view(none@) =~= seq![]);
    none
}

/// The frame that undoes [`blank`]: what was showing, without a waking frame and its pause.
pub fn unblank(saved: &Option<LightBarState>) -> (r: Option<[u8; 16]>)
    ensures
        r is Some == saved is Some,
        r is Some ==> (r->0)@ == frame_bytes(shown(saved->0)),
{
    match saved {
        Some(state) => Some(frame(&to_show(state))),
        None => None,
    }
}

/// Undoing a blanking puts back the frame that applying the same state ends with.
pub proof fn law_unblanking_shows_what_was_applied(state: LightBarState, wake: bool)
    ensures
        frames_to_apply(state, wake).last() == frame_bytes(shown(state)),
{
}

/// A bar that is off is dark, whatever its saved brightness.
pub proof fn law_off_is_dark(state: LightBarState, wake: bool)
    requires
        state.mode == LightBarMode::Off,
    ensures
        frames_to_apply(state, wake).len() == 1,
        frames_to_apply(state, wake)[0][2] == 0,
        frames_to_apply(state, wake)[0][0] == LightBarMode::Static.id(),
{
}

/// Two states with the same frame are the same state.
pub proof fn law_frames_are_distinct(a: LightBarState, b: LightBarState)
    requires
        frame_bytes(a) == frame_bytes(b),
    ensures
        a == b,
{
    let x = frame_bytes(a);
    let y = frame_bytes(b);
    assert(x[0] == y[0] && x[1] == y[1] && x[2] == y[2] && x[5] == y[5] && x[6] == y[6] && x[7]
        == y[7]);
}

/// A frame carries the state at the places the firmware reads: the mode first, then speed and
/// brightness, and red, green and blue at bytes 5, 6 and 7; it is addressed to the bar.
pub proof fn law_frame_carries_the_state(state: LightBarState)
    ensures
        ({
            let f = frame_bytes(state);
            &&& f.len() == 16
            &&& f[0] == state.mode.id()
            &&& f[1] == state.speed
            &&& f[2] == state.brightness
            &&& f[3] == 0 && f[4] == 1
            &&& f[5] == state.red
            &&& f[6] == state.green
            &&& f[7] == state.blue
            &&& f[8] == 3 && f[9] == 2
            &&& forall|i: int| 10 <= i < 16 ==> #[trigger] f[i] == 0
        }),
{
}

/// The modes' bytes as the firmware knows them.
pub proof fn law_mode_bytes_are_the_firmwares()
    ensures
        LightBarMode::Off.id() == 0x00,
        LightBarMode::Breathing.id() == 0x01,
        LightBarMode::Neon.id() == 0x02,
        LightBarMode::Rainbow.id() == 0x03,
        LightBarMode::Wave.id() == 0x04,
        LightBarMode::Ripple.id() == 0x05,
        LightBarMode::Scanner.id() == 0x06,
        LightBarMode::Strobe.id() == 0x07,
        LightBarMode::Static.id() == 0xff,
{
}

/// Applying ends with the chosen state as it is, where it is not off. A bar that has to be
/// woken gets one breathing frame before it, in the same colour, unless it breathes anyway.
pub proof fn law_applying_ends_with_the_chosen_state(state: LightBarState, wake: bool)
    requires
        state.mode != LightBarMode::Off,
    ensures
        ({
            let frames = frames_to_apply(state, wake);
            &&& frames.last()[0] == state.mode.id()
            &&& frames.last()[1] == state.speed
            &&& frames.last()[2] == state.brightness
            &&& frames.last()[5] == state.red
            &&& frames.last()[6] == state.green
            &&& frames.last()[7] == state.blue
            &&& !wake || state.mode == LightBarMode::Breathing ==> frames.len() == 1
            &&& wake && state.mode != LightBarMode::Breathing ==> frames.len() == 2 && frames[0][0]
                == 0x01 && frames[0][5] == state.red && frames[0][6] == state.green && frames[0][7]
                == state.blue
        }),
{
}

/// The state of whoever never chose one breathes in the brand's colour, in full.
pub proof fn law_unchosen_bar_breathes()
    ensures
        ({
            let state = default_state();
            &&& state.mode is Breathing
            &&& state.brightness == 100 && state.speed == 3
            &&& state.red == 0 && state.green == 174 && state.blue == 199
        }),
        SPEED_MIN == 1 && SPEED_MAX == 5 && BRIGHTNESS_MAX == 100,
        TARGET_LIGHT_BAR == 2 && TAIL_MARKER == 3 && WAKE_PAUSE_MS == 300,
        DEVICE@ == "/dev/acer-gkbbl-0"@,
{
}

/// Every mode goes under its own label.
pub proof fn law_modes_go_under_their_labels()
    ensures
        LightBarMode::Off.label() == "light_bar_off"@,
        LightBarMode::Static.label() == "static_mode"@,
        LightBarMode::Breathing.label() == "breath"@,
        LightBarMode::Neon.label() == "neon"@,
        LightBarMode::Rainbow.label() == "effect_rainbow"@,
        LightBarMode::Wave.label() == "wave"@,
        LightBarMode::Ripple.label() == "light_bar_ripple"@,
        LightBarMode::Scanner.label() == "light_bar_scanner"@,
        LightBarMode::Strobe.label() == "light_bar_strobe"@,
{
}

/// Frames are seen as they are, in their order.
pub proof fn law_frames_are_seen_as_they_are(frames: Seq<[u8; 16]>, i: int)
    requires
        0 <= i < frames.len(),
    ensures
        frames_view(frames).len() == frames.len(),
        frames_view(frames)[i] == frames[i]@,
{
}

} // verus!
