//! Replaying saved lighting onto the hardware, which remembers none of it: after a cold boot
//! and after a resume.

use vstd::prelude::*;

use crate::config::settings::ChiconyRgbState;
use crate::hardware::chicony_rgb;
use crate::hardware::keyboard_rgb;
use crate::hardware::keyboard_rgb::KeyboardState;
use crate::hardware::light_bar;
use crate::hardware::light_bar::LightBarState;
use crate::hardware::request::Request;
use crate::protocol::helper::Action;
use crate::text::cat3;

verus! {

/// What the machine has and what was saved for it.
pub struct SavedLighting {
    /// Whether the keyboard takes 24-bit colours.
    pub keyboard_rgb_capable: bool,
    pub keyboard_rgb: Option<KeyboardState>,
    /// Whether the keyboard with the fixed palette is there.
    pub chicony_available: bool,
    pub chicony_rgb: Option<ChiconyRgbState>,
    /// Whether the light bar's device is there.
    pub light_bar_available: bool,
    pub light_bar: Option<LightBarState>,
}

/// What is sent to put the lighting back. A part that is `None` is left alone; one that is an
/// error is logged.
pub struct Replay {
    pub keyboard: Option<Result<Request, &'static str>>,
    /// Whether `keyboard` is for the keyboard with the fixed palette.
    pub palette: bool,
    pub light_bar: Option<Result<Vec<[u8; 16]>, &'static str>>,
}

/// Whether a request puts back an effect of the fixed palette, or an error says what is wrong
/// with what was saved.
pub open spec fn replays_palette(
    saved: ChiconyRgbState,
    r: Result<Request, &'static str>,
) -> bool {
    if !(1 <= saved.effect <= 12) {
        r matches Err(key) && key@ == chicony_rgb::INVALID_EFFECT@
    } else if !(1 <= saved.color <= 7) {
        r matches Err(key) && key@ == chicony_rgb::INVALID_COLOR@
    } else {
        r matches Ok(request) && request.asks(
            Action::ChiconyRgb,
            chicony_rgb::effect_args(saved.effect, saved.brightness, saved.color, saved.speed),
        )
    }
}

/// What is sent to put the saved lighting back. `wake` is for a cold boot: coming back from
/// suspend the light bar needs no waking frame.
pub fn restore_saved(saved: &SavedLighting, wake: bool) -> (r: Replay)
    ensures
        r.palette == !saved.keyboard_rgb_capable,
        saved.keyboard_rgb_capable ==> match saved.keyboard_rgb {
            Some(state) => r.keyboard matches Some(Ok(request)) && request.asks(
                Action::ChiconyEffect,
                keyboard_rgb::effect_args(state),
            ),
            None => r.keyboard is None,
        },
        !saved.keyboard_rgb_capable ==> match saved.chicony_rgb {
            Some(state) if saved.chicony_available => r.keyboard is Some && replays_palette(
                state,
                r.keyboard->0,
            ),
            _ => r.keyboard is None,
        },
        match saved.light_bar {
            Some(state) => if saved.light_bar_available {
                r.light_bar matches Some(Ok(frames)) && light_bar::frames_view(frames@)
                    == light_bar::frames_to_apply(state, wake)
            } else {
                r.light_bar matches Some(Err(key)) && key@ == light_bar::DEVICE_NOT_FOUND@
            },
            None => r.light_bar is None,
        },
        r.light_bar matches Some(Ok(frames)) ==> {
            &&& frames@.len() > 0
            &&& !wake ==> frames@.len() == 1
            &&& frames@.last()@[5] == saved.light_bar->0.red
            &&& frames@.last()@[6] == saved.light_bar->0.green
            &&& frames@.last()@[7] == saved.light_bar->0.blue
        },
{
    let keyboard = if saved.keyboard_rgb_capable {
        match &saved.keyboard_rgb {
            Some(state) => Some(Ok(keyboard_rgb::apply(state))),
            None => None,
        }
    } else {
        match &saved.chicony_rgb {
            Some(state) => if saved.chicony_available {
                Some(
                    chicony_rgb::set_effect(
                        state.effect,
                        state.brightness,
                        state.color,
                        state.speed,
                    ),
                )
            } else {
                None
            },
            None => None,
        }
    };
    let bar = match &saved.light_bar {
        Some(state) => Some(light_bar::apply(state, wake, saved.light_bar_available)),
        None => None,
    };
    let ghost sent_bar = bar;
    proof {
        if sent_bar is Some && sent_bar->0 is Ok {
            let frames = sent_bar->0->Ok_0;
            let sent = light_bar::frames_view(frames@);
            assert(sent.len() == frames@.len());
            assert(sent[sent.len() - 1] == frames@[frames@.len() - 1]@);
        }
    }
    Replay { keyboard, palette: !saved.keyboard_rgb_capable, light_bar: bar }
}

/// Which device could not be put back.
#[derive(Debug, Clone, Copy, PartialEq, Eq, Structural)]
pub enum Device {
    Keyboard,
    PaletteKeyboard,
    LightBar,
}

/// What a log line says of a device.
pub open spec fn complaint(device: Device) -> Seq<char> {
    match device {
        Device::Keyboard => ": keyboard lighting not restored: "@,
        Device::PaletteKeyboard => ": Chicony keyboard lighting not restored: "@,
        Device::LightBar => ": light bar not restored: "@,
    }
}

/// The line to log where a device could not be put back; `context` names the caller.
pub fn not_restored(device: Device, context: &str, error: &str) -> (r: String)
    ensures
        r@ == context@ + complaint(device) + error@,
{
    let middle = match device {
        Device::Keyboard => ": keyboard lighting not restored: ",
        Device::PaletteKeyboard => ": Chicony keyboard lighting not restored: ",
        Device::LightBar => ": light bar not restored: ",
    };
    cat3(context, middle, error)
}

/// A resume sends no waking frame: the light bar gets one frame.
pub proof fn law_resume_does_not_flicker(state: LightBarState)
    ensures
        light_bar::frames_to_apply(state, false).len() == 1,
{
}

/// A saved effect of the fixed palette is asked for again as it was saved; one that was never
/// an effect or a colour of it is an error.
pub proof fn law_saved_palette_is_replayed(
    saved: ChiconyRgbState,
    r: Result<Request, &'static str>,
)
    requires
        replays_palette(saved, r),
    ensures
        r is Ok <==> 1 <= saved.effect <= 12 && 1 <= saved.color <= 7,
        r is Ok ==> r->Ok_0.action is ChiconyRgb && crate::text::texts(r->Ok_0.args@)
            == chicony_rgb::effect_args(
            saved.effect,
            saved.brightness,
            saved.color,
            saved.speed,
        ),
{
}

/// Each device is complained of by its own name.
pub proof fn law_complaints_name_the_device()
    ensures
        complaint(Device::Keyboard) == ": keyboard lighting not restored: "@,
        complaint(Device::PaletteKeyboard) == ": Chicony keyboard lighting not restored: "@,
        complaint(Device::LightBar) == ": light bar not restored: "@,
{
}

} // verus!
