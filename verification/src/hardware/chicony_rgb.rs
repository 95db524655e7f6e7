//! The USB keyboard whose effects take colours of a fixed palette.

use vstd::prelude::*;

use crate::hardware::request::Request;
use crate::number::{decimal, decimal_text, decimal_value, law_decimal_round_trip};
use crate::protocol::helper::{Action, PERCENT_MAX};
use crate::text::{lowered, same, texts, to_ascii_lowercase, trim, trimmed};

verus! {

pub const VENDOR_ID: &'static str = "04f2";

pub const PRODUCT_ID: &'static str = "0117";

/// Effects in the controller's order; it counts them from one.
pub const EFFECTS: [&'static str; 12] = [
    "static",
    "pulsating",
    "rainbow_wave",
    "fast_rainbow_wave",
    "snake",
    "raindrop_1",
    "raindrop_2",
    "color_shift_1",
    "color_shift_2",
    "color_shift_3",
    "color_shift_4",
    "electro",
];

/// Colours in the controller's order; it counts them from one.
pub const COLORS: [&'static str; 7] = [
    "red",
    "green",
    "yellow",
    "dark_blue",
    "bright_blue",
    "bright_pink",
    "white",
];

/// Message shown for an effect that the controller does not have.
pub const INVALID_EFFECT: &'static str = "chicony_rgb_err_invalid_effect";

/// Message shown for a colour that the controller does not have.
pub const INVALID_COLOR: &'static str = "chicony_rgb_err_invalid_color";

/// What sysfs holds of a USB device's ids; empty where it cannot be read.
pub struct UsbIds {
    pub vendor: String,
    pub product: String,
}

/// Whether an attribute holds this id, in capitals or not.
pub open spec fn holds_id(attribute: Seq<char>, id: Seq<char>) -> bool {
    lowered(trimmed(attribute)) == lowered(id)
}

/// Whether a device is the keyboard.
pub open spec fn is_keyboard(ids: UsbIds) -> bool {
    holds_id(ids.vendor@, VENDOR_ID@) && holds_id(ids.product@, PRODUCT_ID@)
}

fn matches_id(attribute: &str, id: &str) -> (r: bool)
    ensures
        r == holds_id(attribute@, id@),
{
    let held = to_ascii_lowercase(trim(attribute).as_str());
    same(held.as_str(), to_ascii_lowercase(id).as_str())
}

/// Whether the keyboard is among the USB devices.
pub fn is_available(devices: &Vec<UsbIds>) -> (r: bool)
    ensures
        r == exists|i: int| 0 <= i < devices@.len() && is_keyboard(#[trigger] devices@[i]),
{
    let mut i: usize = 0;
    while i < devices.len()
        invariant
            i <= devices@.len(),
            forall|k: int| 0 <= k < i ==> !is_keyboard(#[trigger] devices@[k]),
        decreases devices@.len() - i,
    {
        if matches_id(devices[i].vendor.as_str(), VENDOR_ID) && matches_id(
            devices[i].product.as_str(),
            PRODUCT_ID,
        ) {
            return true;
        }
        i = i + 1;
    }
    false
}

/// The arguments of the request for one colour on the whole keyboard.
pub open spec fn color_args(red: u8, green: u8, blue: u8) -> Seq<Seq<char>> {
    seq![
        decimal_text(red as nat),
        decimal_text(green as nat),
        decimal_text(blue as nat),
        decimal_text(PERCENT_MAX as nat),
    ]
}

/// One 24-bit colour on the whole keyboard, at full brightness.
pub fn set_static_color(red: u8, green: u8, blue: u8) -> (r: Request)
    ensures
        r.asks(Action::ChiconyColor, color_args(red, green, blue)),
{
    let mut args: Vec<String> = Vec::new();
    args.push(decimal(red as u64));
    args.push(decimal(green as u64));
    args.push(decimal(blue as u64));
    args.push(decimal(PERCENT_MAX as u64));
    assert(texts(args@) =~= color_args(red, green, blue));
    Request { action: Action::ChiconyColor, args }
}

/// The arguments of the request for an effect.
pub open spec fn effect_args(effect: usize, brightness: u8, color: usize, speed: u8) -> Seq<
    Seq<char>,
> {
    seq![
        decimal_text(effect as nat),
        decimal_text(brightness as nat),
        decimal_text(color as nat),
        decimal_text(speed as nat),
    ]
}

/// An effect in a colour, both by their place, counted from one, in [`EFFECTS`] and
/// [`COLORS`].
pub fn set_effect(effect: usize, brightness: u8, color: usize, speed: u8) -> (r: Result<
    Request,
    &'static str,
>)
    ensures
        if !(1 <= effect <= 12) {
            r matches Err(key) && key@ == INVALID_EFFECT@
        } else if !(1 <= color <= 7) {
            r matches Err(key) && key@ == INVALID_COLOR@
        } else {
            r matches Ok(request) && request.asks(
                Action::ChiconyRgb,
                effect_args(effect, brightness, color, speed),
            )
        },
{
    if effect < 1 || effect > EFFECTS.len() {
        return Err(INVALID_EFFECT);
    }
    if color < 1 || color > COLORS.len() {
        return Err(INVALID_COLOR);
    }
    let mut args: Vec<String> = Vec::new();
    args.push(decimal(effect as u64));
    args.push(decimal(brightness as u64));
    args.push(decimal(color as u64));
    args.push(decimal(speed as u64));
    assert(texts(args@) =~= effect_args(effect, brightness, color, speed));
    Ok(Request { action: Action::ChiconyRgb, args })
}

/// The requests made here have as many arguments as the helper wants.
pub proof fn law_requests_have_their_arity(
    red: u8,
    green: u8,
    blue: u8,
    effect: usize,
    brightness: u8,
    color: usize,
    speed: u8,
)
    ensures
        color_args(red, green, blue).len() == Action::ChiconyColor.arity(),
        effect_args(effect, brightness, color, speed).len() == Action::ChiconyRgb.arity(),
{
}

/// The requests carry what was picked: red, green and blue in this order at full brightness,
/// and an effect, its brightness, its colour and its speed in this one.
pub proof fn law_requests_carry_what_was_picked(
    red: u8,
    green: u8,
    blue: u8,
    effect: usize,
    brightness: u8,
    color: usize,
    speed: u8,
)
    requires
        effect <= 255,
        color <= 255,
    ensures
        ({
            let solid = color_args(red, green, blue);
            let moving = effect_args(effect, brightness, color, speed);
            &&& decimal_value(solid[0], 255) == Some(red as nat)
            &&& decimal_value(solid[1], 255) == Some(green as nat)
            &&& decimal_value(solid[2], 255) == Some(blue as nat)
            &&& decimal_value(solid[3], 255) == Some(100nat)
            &&& decimal_value(moving[0], 255) == Some(effect as nat)
            &&& decimal_value(moving[1], 255) == Some(brightness as nat)
            &&& decimal_value(moving[2], 255) == Some(color as nat)
            &&& decimal_value(moving[3], 255) == Some(speed as nat)
        }),
{
    law_decimal_round_trip(red as nat, 255);
    law_decimal_round_trip(green as nat, 255);
    law_decimal_round_trip(blue as nat, 255);
    law_decimal_round_trip(100, 255);
    law_decimal_round_trip(effect as nat, 255);
    law_decimal_round_trip(brightness as nat, 255);
    law_decimal_round_trip(color as nat, 255);
    law_decimal_round_trip(speed as nat, 255);
}

/// The keyboard is known by its two ids, and by both of them.
pub proof fn law_keyboard_is_known_by_both_ids(ids: UsbIds)
    ensures
        is_keyboard(ids) ==> lowered(trimmed(ids.vendor@)) == lowered("04f2"@) && lowered(
            trimmed(ids.product@),
        ) == lowered("0117"@),
        trimmed(ids.vendor@) == "04f2"@ && trimmed(ids.product@) == "0117"@ ==> is_keyboard(ids),
{
}

} // verus!
