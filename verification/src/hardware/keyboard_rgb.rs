//! Lighting of the USB keyboard with 24-bit colour.

use vstd::prelude::*;

use crate::hardware::blanking::Blanking;
use crate::hardware::chicony_rgb;
use crate::hardware::chicony_rgb::UsbIds;
use crate::hardware::request::Request;
use crate::number::{decimal, decimal_text, decimal_value, law_decimal_round_trip};
use crate::protocol::helper::Action;
use crate::text::texts;

verus! {

/// One entry of the controller's effect table.
#[derive(Debug, Clone, Copy, PartialEq, Eq, Hash, Structural)]
pub enum Effect {
    Off,
    Static,
    Breathing,
    Wave,
    Snake,
    Ripple,
    Rainbow,
    Rain,
    Lightning,
    Spot,
    Stars,
    Fireball,
    Snow,
    Heartbeat,
}

impl Effect {
    /// Every effect, in the order they are offered.
    pub const ALL: [Effect; 14] = [
        Effect::Static,
        Effect::Breathing,
        Effect::Wave,
        Effect::Snake,
        Effect::Ripple,
        Effect::Rainbow,
        Effect::Rain,
        Effect::Lightning,
        Effect::Spot,
        Effect::Stars,
        Effect::Fireball,
        Effect::Snow,
        Effect::Heartbeat,
        Effect::Off,
    ];

    /// The controller's number for the effect. Off is the static effect without brightness.
    pub open spec fn code(self) -> u8 {
        match self {
            Effect::Off => 0x01,
            Effect::Static => 0x01,
            Effect::Breathing => 0x02,
            Effect::Wave => 0x03,
            Effect::Snake => 0x05,
            Effect::Ripple => 0x06,
            Effect::Rainbow => 0x08,
            Effect::Rain => 0x0a,
            Effect::Lightning => 0x12,
            Effect::Spot => 0x25,
            Effect::Stars => 0x26,
            Effect::Fireball => 0x27,
            Effect::Snow => 0x28,
            Effect::Heartbeat => 0x29,
        }
    }

    /// The controller's number for the effect.
    pub fn opcode(self) -> (r: u8)
        ensures
            r == self.code(),
    {
        match self {
            Effect::Off => 0x01,
            Effect::Static => 0x01,
            Effect::Breathing => 0x02,
            Effect::Wave => 0x03,
            Effect::Snake => 0x05,
            Effect::Ripple => 0x06,
            Effect::Rainbow => 0x08,
            Effect::Rain => 0x0a,
            Effect::Lightning => 0x12,
            Effect::Spot => 0x25,
            Effect::Stars => 0x26,
            Effect::Fireball => 0x27,
            Effect::Snow => 0x28,
            Effect::Heartbeat => 0x29,
        }
    }

    /// The name of the effect's label.
    pub open spec fn label(self) -> Seq<char> {
        match self {
            Effect::Off => "light_bar_off"@,
            Effect::Static => "static_mode"@,
            Effect::Breathing => "breath"@,
            Effect::Wave => "wave"@,
            Effect::Snake => "effect_snake"@,
            Effect::Ripple => "light_bar_ripple"@,
            Effect::Rainbow => "effect_rainbow"@,
            Effect::Rain => "kb_effect_rain"@,
            Effect::Lightning => "kb_effect_lightning"@,
            Effect::Spot => "effect_spot"@,
            Effect::Stars => "effect_star"@,
            Effect::Fireball => "kb_effect_fireball"@,
            Effect::Snow => "kb_effect_snow"@,
            Effect::Heartbeat => "kb_effect_heartbeat"@,
        }
    }

    /// The name of the effect's label.
    pub fn label_key(self) -> (r: &'static str)
        ensures
            r@ == self.label(),
    {
        match self {
            Effect::Off => "light_bar_off",
            Effect::Static => "static_mode",
            Effect::Breathing => "breath",
            Effect::Wave => "wave",
            Effect::Snake => "effect_snake",
            Effect::Ripple => "light_bar_ripple",
            Effect::Rainbow => "effect_rainbow",
            Effect::Rain => "kb_effect_rain",
            Effect::Lightning => "kb_effect_lightning",
            Effect::Spot => "effect_spot",
            Effect::Stars => "effect_star",
            Effect::Fireball => "kb_effect_fireball",
            Effect::Snow => "kb_effect_snow",
            Effect::Heartbeat => "kb_effect_heartbeat",
        }
    }

    /// Whether the effect shows the chosen colour. The others are fixed animations.
    pub fn uses_color(self) -> (r: bool)
        ensures
            r == !(self is Off || self is Wave || self is Rainbow),
            self is Off || self is Wave || self is Rainbow ==> !r,
            !(self is Off) && !(self is Wave) && !(self is Rainbow) ==> r,
    {
        match self {
            Effect::Off => false,
            Effect::Wave => false,
            Effect::Rainbow => false,
            _ => true,
        }
    }

    /// Whether the effect has a speed.
    pub fn uses_speed(self) -> (r: bool)
        ensures
            r == !(self is Off || self is Static),
            self is Off || self is Static ==> !r,
            !(self is Off) && !(self is Static) ==> r,
    {
        match self {
            Effect::Off => false,
            Effect::Static => false,
            _ => true,
        }
    }

    /// Whether the effect has a direction.
    pub fn uses_direction(self) -> (r: bool)
        ensures
            r == (self is Wave),
            r <==> self is Wave,
    {
        match self {
            Effect::Wave => true,
            _ => false,
        }
    }
}

/// Everything that one lighting of the keyboard takes.
#[derive(Debug, Clone, Copy, PartialEq, Eq, Structural)]
pub struct KeyboardState {
    pub effect: Effect,
    pub red: u8,
    pub green: u8,
    pub blue: u8,
    /// Percent, scaled to the controller's own ceiling by the helper.
    pub brightness: u8,
    /// Percent; higher is faster.
    pub speed: u8,
    /// 1 or 2, of use only to [`Effect::uses_direction`].
    pub direction: u8,
}

/// The state of whoever never chose one.
pub open spec fn default_state() -> KeyboardState {
    KeyboardState {
        effect: Effect::Static,
        red: 0,
        green: 174,
        blue: 199,
        brightness: 100,
        speed: 50,
        direction: 1,
    }
}

impl Default for KeyboardState {
    fn default() -> (r: Self)
        ensures
            r == default_state(),
    {
        KeyboardState {
            effect: Effect::Static,
            red: 0,
            green: 174,
            blue: 199,
            brightness: 100,
            speed: 50,
            direction: 1,
        }
    }
}

/// Whether the keyboard is among the USB devices.
pub fn is_available(devices: &Vec<UsbIds>) -> (r: bool)
    ensures
        r == exists|i: int|
            0 <= i < devices@.len() && chicony_rgb::is_keyboard(#[trigger] devices@[i]),
{
    chicony_rgb::is_available(devices)
}

/// The brightness that shows a state: none, where the backlight is off.
pub open spec fn shown_brightness(state: KeyboardState) -> u8 {
    if state.effect == Effect::Off {
        0
    } else {
        state.brightness
    }
}

/// A direction as the controller takes it.
pub open spec fn held_direction(direction: u8) -> u8 {
    if direction < 1 {
        1
    } else if direction > 2 {
        2
    } else {
        direction
    }
}

/// The arguments of the request that lights the keyboard.
pub open spec fn effect_args(state: KeyboardState) -> Seq<Seq<char>> {
    seq![
        decimal_text(state.effect.code() as nat),
        decimal_text(state.speed as nat),
        decimal_text(shown_brightness(state) as nat),
        decimal_text(state.red as nat),
        decimal_text(state.green as nat),
        decimal_text(state.blue as nat),
        decimal_text(held_direction(state.direction) as nat),
    ]
}

/// Lights the keyboard. Off is the static effect without brightness.
pub fn apply(state: &KeyboardState) -> (r: Request)
    ensures
        r.asks(Action::ChiconyEffect, effect_args(*state)),
{
    let brightness: u8 = if state.effect == Effect::Off {
        0
    } else {
        state.brightness
    };
    let direction: u8 = if state.direction < 1 {
        1
    } else if state.direction > 2 {
        2
    } else {
        state.direction
    };
    let mut args: Vec<String> = Vec::new();
    args.push(decimal(state.effect.opcode() as u64));
    args.push(decimal(state.speed as u64));
    args.push(decimal(brightness as u64));
    args.push(decimal(state.red as u64));
    args.push(decimal(state.green as u64));
    args.push(decimal(state.blue as u64));
    args.push(decimal(direction as u64));
    assert(texts(args@) =~= effect_args(*state));
    Request { action: Action::ChiconyEffect, args }
}

/// Whether the backlight is being held off for want of input.
pub fn is_blanked(blanking: &Blanking) -> (r: bool)
    ensures
        r == blanking@,
{
    blanking.is_blanked()
}

/// What was last applied, or the default.
pub open spec fn saved_state(saved: Option<KeyboardState>) -> KeyboardState {
    match saved {
        Some(state) => state,
        None => default_state(),
    }
}

/// Turns the backlight off without disturbing the saved state.
pub fn blank(saved: &Option<KeyboardState>) -> (r: Request)
    ensures
        r.asks(
            Action::ChiconyEffect,
            effect_args(KeyboardState { effect: Effect::Off, ..saved_state(*saved) }),
        ),
{
    let state = match saved {
        Some(state) => *state,
        None => KeyboardState::default(),
    };
    apply(&KeyboardState { effect: Effect::Off, ..state })
}

/// Restores whatever was last applied.
pub fn unblank(saved: &Option<KeyboardState>) -> (r: Request)
    ensures
        r.asks(Action::ChiconyEffect, effect_args(saved_state(*saved))),
{
    match saved {
        Some(state) => apply(state),
        None => apply(&KeyboardState::default()),
    }
}

/// A request to light the keyboard has as many arguments as the helper wants.
pub proof fn law_request_has_its_arity(state: KeyboardState)
    ensures
        effect_args(state).len() == Action::ChiconyEffect.arity(),
{
}

/// The request carries the state: the effect's number, the speed, the brightness, and red,
/// green and blue, in this order and each as it was chosen; then a direction that the
/// controller has. A keyboard that is off gets no brightness.
pub proof fn law_request_carries_the_state(state: KeyboardState)
    ensures
        ({
            let args = effect_args(state);
            &&& decimal_value(args[0], 255) == Some(state.effect.code() as nat)
            &&& decimal_value(args[1], 255) == Some(state.speed as nat)
            &&& state.effect != Effect::Off ==> decimal_value(args[2], 255) == Some(
                state.brightness as nat,
            )
            &&& state.effect == Effect::Off ==> decimal_value(args[2], 255) == Some(0nat)
            &&& decimal_value(args[3], 255) == Some(state.red as nat)
            &&& decimal_value(args[4], 255) == Some(state.green as nat)
            &&& decimal_value(args[5], 255) == Some(state.blue as nat)
            &&& decimal_value(args[6], 255) matches Some(way) && 1 <= way <= 2 && (1
                <= state.direction <= 2 ==> way == state.direction)
        }),
{
    law_decimal_round_trip(state.effect.code() as nat, 255);
    law_decimal_round_trip(state.speed as nat, 255);
    law_decimal_round_trip(shown_brightness(state) as nat, 255);
    law_decimal_round_trip(state.red as nat, 255);
    law_decimal_round_trip(state.green as nat, 255);
    law_decimal_round_trip(state.blue as nat, 255);
    law_decimal_round_trip(held_direction(state.direction) as nat, 255);
}

/// No two effects share a number but Off and Static, which are told apart by the brightness.
pub proof fn law_effects_have_their_own_numbers(a: Effect, b: Effect)
    requires
        a.code() == b.code(),
    ensures
        a == b || (a is Off && b is Static) || (a is Static && b is Off),
{
}

/// The numbers of the controller's effect table.
pub proof fn law_effect_numbers_are_the_controllers()
    ensures
        Effect::Static.code() == 0x01,
        Effect::Breathing.code() == 0x02,
        Effect::Wave.code() == 0x03,
        Effect::Snake.code() == 0x05,
        Effect::Ripple.code() == 0x06,
        Effect::Rainbow.code() == 0x08,
        Effect::Rain.code() == 0x0a,
        Effect::Lightning.code() == 0x12,
        Effect::Spot.code() == 0x25,
        Effect::Stars.code() == 0x26,
        Effect::Fireball.code() == 0x27,
        Effect::Snow.code() == 0x28,
        Effect::Heartbeat.code() == 0x29,
{
}

/// A blanked keyboard is dark and keeps its colour; what is put back is what was saved.
pub proof fn law_blanking_keeps_the_colour(state: KeyboardState)
    ensures
        ({
            let dark = effect_args(KeyboardState { effect: Effect::Off, ..state });
            let lit = effect_args(saved_state(Some(state)));
            &&& decimal_value(dark[2], 255) == Some(0nat)
            &&& dark[3] == lit[3] && dark[4] == lit[4] && dark[5] == lit[5]
            &&& lit == effect_args(state)
        }),
{
    law_decimal_round_trip(0, 255);
}

/// The state of whoever never chose one is the brand's colour, still and in full.
pub proof fn law_unchosen_keyboard_is_still()
    ensures
        ({
            let state = default_state();
            &&& state.effect is Static
            &&& state.brightness == 100 && state.speed == 50 && state.direction == 1
            &&& state.red == 0 && state.green == 174 && state.blue == 199
        }),
{
}

/// Every effect goes under its own label.
pub proof fn law_effects_go_under_their_labels()
    ensures
        Effect::Off.label() == "light_bar_off"@,
        Effect::Static.label() == "static_mode"@,
        Effect::Breathing.label() == "breath"@,
        Effect::Wave.label() == "wave"@,
        Effect::Snake.label() == "effect_snake"@,
        Effect::Ripple.label() == "light_bar_ripple"@,
        Effect::Rainbow.label() == "effect_rainbow"@,
        Effect::Rain.label() == "kb_effect_rain"@,
        Effect::Lightning.label() == "kb_effect_lightning"@,
        Effect::Spot.label() == "effect_spot"@,
        Effect::Stars.label() == "effect_star"@,
        Effect::Fireball.label() == "kb_effect_fireball"@,
        Effect::Snow.label() == "kb_effect_snow"@,
        Effect::Heartbeat.label() == "kb_effect_heartbeat"@,
{
}

} // verus!
