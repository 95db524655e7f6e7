//! The Chicony USB keyboard: the packets that its controller takes, and the course of a
//! USB session that sends them.

use vstd::prelude::*;

use crate::number::{digit, digit_value};
use crate::privileged::messages::{fail, fail_quoting, failure, quoting};
use crate::text::{cat2, outcome, trim, trimmed};
use vstd::utf8::encode_utf8;

verus! {

pub const CHICONY_VENDOR_ID: u16 = 0x04F2;

pub const CHICONY_PRODUCT_ID: u16 = 0x0117;

pub const CHICONY_INTERFACE: u8 = 3;

pub const CHICONY_ENDPOINT: u8 = 0x04;

/// Request type: host to device, class, interface recipient.
pub const CHICONY_REQUEST_TYPE: u8 = 0x21;

/// Request: HID SET_REPORT.
pub const CHICONY_SET_REPORT: u8 = 0x09;

/// Feature report without a number.
pub const CHICONY_REPORT_VALUE: u16 = 0x0300;

/// The controller's own brightness ceiling; percentages are scaled to it.
pub const CHICONY_BRIGHT_MAX: u8 = 0x32;

/// Speed runs from 1 (fastest) to 9 (slowest) on the wire.
pub const CHICONY_SPEED_FAST: u8 = 1;

pub const CHICONY_SPEED_SLOW: u8 = 9;

/// Effect opcode for a solid colour.
pub const CHICONY_EFFECT_STATIC: u8 = 0x01;

/// The controller's brightness for a percentage.
pub open spec fn wire_brightness(percent: u8) -> int {
    (if percent <= 100 {
        percent as int
    } else {
        100
    }) * CHICONY_BRIGHT_MAX / 100
}

/// The controller's brightness for a percentage.
pub fn chicony_scale_brightness(percent: u8) -> (r: u8)
    ensures
        r == wire_brightness(percent),
        r <= CHICONY_BRIGHT_MAX,
{
    let p: u16 = if percent <= 100 {
        percent as u16
    } else {
        100
    };
    ((p * 0x32) / 100) as u8
}

/// The controller's speed for a percentage, where a higher percentage is faster.
pub open spec fn wire_speed(percent: u8) -> int {
    if percent >= 100 {
        CHICONY_SPEED_FAST as int
    } else {
        CHICONY_SPEED_SLOW - percent * (CHICONY_SPEED_SLOW - CHICONY_SPEED_FAST) / 100
    }
}

/// The controller's speed for a percentage.
pub fn chicony_scale_speed(percent: u8) -> (r: u8)
    ensures
        r == wire_speed(percent),
        CHICONY_SPEED_FAST <= r <= CHICONY_SPEED_SLOW,
{
    if percent >= 100 {
        return CHICONY_SPEED_FAST;
    }
    CHICONY_SPEED_SLOW - ((percent as u16 * 8) / 100) as u8
}

/// A faster percentage is never a slower wire value, nor a brighter one a dimmer.
pub proof fn law_scales_are_monotone(a: u8, b: u8)
    requires
        a <= b,
    ensures
        wire_brightness(a) <= wire_brightness(b),
        wire_speed(a) >= wire_speed(b),
        wire_speed(0) == CHICONY_SPEED_SLOW,
        wire_brightness(0) == 0,
        wire_brightness(100) == CHICONY_BRIGHT_MAX,
{
}

/// The packet that drives the effect engine with a colour from its palette.
pub open spec fn palette_packet(effect: u8, brightness: u8, color: u8, speed: u8) -> Seq<u8> {
    seq![0x08u8, 0x00, effect, speed, brightness, color, 0x00, 0xBE]
}

/// The packet that drives the effect engine with a colour from its palette.
pub fn chicony_rgb_apply(effect: u8, brightness: u8, color: u8, speed: u8) -> (r: Vec<[u8; 8]>)
    ensures
        r@.len() == 1,
        r@[0]@ == palette_packet(effect, brightness, color, speed),
{
    let mut out: Vec<[u8; 8]> = Vec::new();
    out.push([0x08, 0x00, effect, speed, brightness, color, 0x00, 0xBE]);
    out
}

/// The packet that the controller expects before a colour or an effect.
pub open spec fn preamble() -> Seq<u8> {
    seq![0xB1u8, 0x00, 0x00, 0x00, 0x00, 0x00, 0x00, 0x4E]
}

/// A direction brought into the two the controller knows.
pub open spec fn wire_direction(direction: u8) -> u8 {
    if direction < 1 {
        1
    } else if direction > 2 {
        2
    } else {
        direction
    }
}

/// The three packets of an effect with a colour of its own: the preamble, the colour that
/// is staged, and the effect that applies it.
pub open spec fn effect_packets(
    opcode: u8,
    speed: u8,
    brightness: u8,
    red: u8,
    green: u8,
    blue: u8,
    direction: u8,
) -> Seq<Seq<u8>> {
    seq![
        preamble(),
        seq![0x14u8, 0x00, 0x00, red, green, blue, 0x00, 0x00],
        seq![
            0x08u8,
            0x02,
            opcode,
            wire_speed(speed) as u8,
            wire_brightness(brightness) as u8,
            0x01,
            wire_direction(direction),
            0x9B,
        ],
    ]
}

/// Packets as contracts speak of them.
pub open spec fn packets_view(packets: Seq<[u8; 8]>) -> Seq<Seq<u8>> {
    Seq::new(packets.len(), |i: int| packets[i]@)
}

/// The packets of an effect with a colour of its own.
pub fn chicony_effect_apply(
    opcode: u8,
    speed: u8,
    brightness: u8,
    red: u8,
    green: u8,
    blue: u8,
    direction: u8,
) -> (r: Vec<[u8; 8]>)
    ensures
        packets_view(r@) == effect_packets(
            opcode,
            speed,
            brightness,
            red,
            green,
            blue,
            direction,
        ),
{
    let way: u8 = if direction < 1 {
        1
    } else if direction > 2 {
        2
    } else {
        direction
    };
    let first: [u8; 8] = [0xB1, 0x00, 0x00, 0x00, 0x00, 0x00, 0x00, 0x4E];
    let second: [u8; 8] = [0x14, 0x00, 0x00, red, green, blue, 0x00, 0x00];
    let third: [u8; 8] = [
        0x08,
        0x02,
        opcode,
        chicony_scale_speed(speed),
        chicony_scale_brightness(brightness),
        0x01,
        way,
        0x9B,
    ];
    let mut out: Vec<[u8; 8]> = Vec::new();
    out.push(first);
    out.push(second);
    out.push(third);
    proof {
        let e = effect_packets(opcode, speed, brightness, red, green, blue, direction);
        assert(first@ == e[0]);
        assert(second@ == e[1]);
        assert(third@ == e[2]);
        assert(packets_view(out@) == e);
    }
    out
}

/// The packets of a solid colour on the whole keyboard.
pub fn chicony_color_apply(red: u8, green: u8, blue: u8, brightness: u8) -> (r: Vec<[u8; 8]>)
    ensures
        packets_view(r@) == effect_packets(
            CHICONY_EFFECT_STATIC,
            0,
            brightness,
            red,
            green,
            blue,
            1,
        ),
{
    chicony_effect_apply(CHICONY_EFFECT_STATIC, 0, brightness, red, green, blue, 1)
}

/// The byte that two hexadecimal digits denote.
pub open spec fn hex_byte(a: char, b: char) -> Option<u8> {
    if a == '+' {
        match digit_value(b, 16) {
            Some(low) => Some(low as u8),
            None => None,
        }
    } else {
        match (digit_value(a, 16), digit_value(b, 16)) {
            (Some(high), Some(low)) => Some((high * 16 + low) as u8),
            _ => None,
        }
    }
}

fn parse_hex_byte(a: char, b: char) -> (r: Option<u8>)
    ensures
        r == hex_byte(a, b),
{
    if a == '+' {
        match digit(b, 16) {
            Some(low) => Some(low as u8),
            None => None,
        }
    } else {
        match (digit(a, 16), digit(b, 16)) {
            (Some(high), Some(low)) => Some((high * 16 + low) as u8),
            _ => None,
        }
    }
}

/// The text that two bytes of a string are, where they are whole characters.
pub open spec fn pair_text(b0: u8, b1: u8) -> Option<Seq<char>> {
    if b0 < 0x80 && b1 < 0x80 {
        Some(seq![b0 as char, b1 as char])
    } else if 0xC2 <= b0 <= 0xDF && 0x80 <= b1 <= 0xBF {
        Some(seq![((b0 - 0xC0) * 64 + (b1 - 0x80)) as char])
    } else {
        None
    }
}

/// The byte that two bytes of a string denote as hexadecimal digits.
pub open spec fn pair_byte(b0: u8, b1: u8) -> Option<u8> {
    if b0 < 0x80 && b1 < 0x80 {
        hex_byte(b0 as char, b1 as char)
    } else {
        None
    }
}

/// The error for two bytes that denote none.
pub open spec fn pair_error(b0: u8, b1: u8) -> Seq<char> {
    match pair_text(b0, b1) {
        Some(pair) => failure(quoting("chicony-seq: bad hex byte "@, pair, ""@)),
        None => failure("chicony-seq: not valid hex"@),
    }
}

/// `char::from_u32` gives the character with a code point, for every code point that has
/// one: all but the surrogates do, up to the last.
pub assume_specification[ char::from_u32 ](i: u32) -> (r: Option<char>)
    ensures
        r is Some == (i < 0xD800 || 0xE000 <= i <= 0x10FFFF),
        r is Some ==> r->0 as int == i,
;

fn describe_pair(b0: u8, b1: u8) -> (r: String)
    ensures
        r@ == pair_error(b0, b1),
{
    let mut pair = String::new();
    if b0 < 0x80 && b1 < 0x80 {
        pair.push(b0 as char);
        pair.push(b1 as char);
        assert(pair@ == seq![b0 as char, b1 as char]);
    } else if 0xC2 <= b0 && b0 <= 0xDF && 0x80 <= b1 && b1 <= 0xBF {
        let n: u32 = (b0 - 0xC0) as u32 * 64 + (b1 - 0x80) as u32;
        match char::from_u32(n) {
            Some(c) => {
                pair.push(c);
                assert(pair@ == seq![c]);
            },
            None => {},
        }
    } else {
        return fail("chicony-seq: not valid hex");
    }
    fail_quoting("chicony-seq: bad hex byte ", pair.as_str(), "")
}

/// The bytes that pairs of hexadecimal digits denote, or the error of the first pair that
/// denotes none.
pub open spec fn hex_bytes(s: Seq<u8>) -> Result<Seq<u8>, Seq<char>>
    decreases s.len(),
{
    if s.len() < 2 {
        Ok(seq![])
    } else {
        match pair_byte(s[0], s[1]) {
            None => Err(pair_error(s[0], s[1])),
            Some(byte) => match hex_bytes(s.skip(2)) {
                Err(e) => Err(e),
                Ok(rest) => Ok(seq![byte] + rest),
            },
        }
    }
}

/// The packets that a text denotes, one after the other: whole packets of eight bytes, each
/// byte two hexadecimal digits.
pub open spec fn packet_bytes(value: Seq<char>) -> Result<Seq<u8>, Seq<char>> {
    let text = encode_utf8(trimmed(value));
    if text.len() == 0 || text.len() % 16 != 0 {
        Err(failure("chicony-seq needs whole 8-byte packets (16 hex chars each)"@))
    } else {
        hex_bytes(text)
    }
}

/// Reads a raw packet sequence.
pub fn parse_packets(value: &str) -> (r: Result<Vec<[u8; 8]>, String>)
    ensures
        match r {
            Ok(packets) => {
                &&& packet_bytes(value@) is Ok
                &&& packets@.len() * 8 == packet_bytes(value@)->Ok_0.len()
                &&& forall|i: int, j: int|
                    0 <= i < packets@.len() && 0 <= j < 8 ==> #[trigger] packets@[i]@[j]
                        == packet_bytes(value@)->Ok_0[8 * i + j]
            },
            Err(e) => packet_bytes(value@) == Err::<Seq<u8>, Seq<char>>(e@),
        },
{
    let text = trim(value);
    let v: &[u8] = text.as_str().as_bytes();
    let n: usize = v.len();
    if n == 0 || n % 16 != 0 {
        return Err(fail("chicony-seq needs whole 8-byte packets (16 hex chars each)"));
    }
    let mut bytes: Vec<u8> = Vec::new();
    let mut i: usize = 0;
    assert(v@.skip(0) == v@);
    proof {
        match hex_bytes(v@) {
            Ok(all) => {
                assert(Seq::<u8>::empty() + all == all);
            },
            Err(_) => {},
        }
    }
    while i < n
        invariant
            i <= n == v@.len(),
            n % 16 == 0,
            i % 2 == 0,
            bytes@.len() * 2 == i,
            packet_bytes(value@) == hex_bytes(v@),
            hex_bytes(v@) == (match hex_bytes(v@.skip(i as int)) {
                Ok(rest) => Ok::<Seq<u8>, Seq<char>>(bytes@ + rest),
                Err(e) => Err(e),
            }),
        decreases n - i,
    {
        let ghost rest = v@.skip(i as int);
        assert(rest[0] == v@[i as int] && rest[1] == v@[i + 1]);
        assert(rest.skip(2) == v@.skip(i + 2));
        let b0: u8 = v[i];
        let b1: u8 = v[i + 1];
        let byte: u8 = match (if b0 < 0x80 && b1 < 0x80 {
            parse_hex_byte(b0 as char, b1 as char)
        } else {
            None
        }) {
            None => {
                return Err(describe_pair(b0, b1));
            },
            Some(byte) => byte,
        };
        proof {
            match hex_bytes(rest.skip(2)) {
                Ok(more) => {
                    assert(bytes@ + (seq![byte] + more) == bytes@.push(byte) + more);
                },
                Err(_) => {},
            }
        }
        bytes.push(byte);
        i = i + 2;
    }
    assert(v@.skip(i as int) == Seq::<u8>::empty());
    assert(bytes@ + seq![] == bytes@);
    let mut out: Vec<[u8; 8]> = Vec::new();
    let mut k: usize = 0;
    let total: usize = bytes.len();
    let count: usize = total / 8;
    assert(bytes@.len() == count * 8);
    while k < count
        invariant
            k <= count,
            bytes@.len() == total == count * 8,
            out@.len() == k,
            forall|i: int, j: int|
                0 <= i < k && 0 <= j < 8 ==> #[trigger] out@[i]@[j] == bytes@[8 * i + j],
        decreases count - k,
    {
        let b: usize = 8 * k;
        let packet: [u8; 8] = [
            bytes[b],
            bytes[b + 1],
            bytes[b + 2],
            bytes[b + 3],
            bytes[b + 4],
            bytes[b + 5],
            bytes[b + 6],
            bytes[b + 7],
        ];
        assert(packet@ == bytes@.subrange(b as int, b + 8));
        out.push(packet);
        assert forall|i: int, j: int| 0 <= i < k + 1 && 0 <= j < 8 implies #[trigger] out@[i]@[j]
            == bytes@[8 * i + j] by {
            if i == k {
                assert(packet@[j] == bytes@.subrange(b as int, b + 8)[j]);
            }
        }
        k = k + 1;
    }
    Ok(out)
}

// ---------------------------------------------------------------------------
// The session
// ---------------------------------------------------------------------------

/// Whether a USB device is this keyboard.
pub fn is_chicony(vendor: u16, product: u16) -> (r: bool)
    ensures
        r == (vendor == CHICONY_VENDOR_ID && product == CHICONY_PRODUCT_ID),
        r <==> vendor == 0x04f2 && product == 0x0117,
{
    vendor == CHICONY_VENDOR_ID && product == CHICONY_PRODUCT_ID
}

/// The error where no device is this keyboard.
pub fn chicony_not_found() -> (r: String)
    ensures
        r@ == failure("Chicony RGB keyboard (04f2:0117) not found"@),
{
    fail("Chicony RGB keyboard (04f2:0117) not found")
}

/// Where a session stands; `T` is what text is kept as.
#[derive(Debug)]
pub enum UsbStage<T> {
    /// The device is to be opened.
    Open,
    /// Whether the kernel drives the interface is to be found out.
    Detect,
    /// The kernel's driver is to be detached.
    Detach,
    /// The interface is to be claimed.
    Claim { detached: bool },
    /// A halt of the endpoint is to be cleared.
    ClearHalt { detached: bool },
    /// The packet with this number is to be sent.
    Send { next: usize, detached: bool },
    /// The interface is to be released.
    Release { detached: bool, failure: Option<T> },
    /// The kernel's driver is to be attached again.
    Attach { failure: Option<T> },
    Finished(Result<(), T>),
}

/// A stage with its texts taken as characters.
pub open spec fn usb_view(stage: UsbStage<String>) -> UsbStage<Seq<char>> {
    match stage {
        UsbStage::Open => UsbStage::Open,
        UsbStage::Detect => UsbStage::Detect,
        UsbStage::Detach => UsbStage::Detach,
        UsbStage::Claim { detached } => UsbStage::Claim { detached },
        UsbStage::ClearHalt { detached } => UsbStage::ClearHalt { detached },
        UsbStage::Send { next, detached } => UsbStage::Send { next, detached },
        UsbStage::Release { detached, failure } => UsbStage::Release {
            detached,
            failure: crate::text::text_of(failure),
        },
        UsbStage::Attach { failure } => UsbStage::Attach {
            failure: crate::text::text_of(failure),
        },
        UsbStage::Finished(r) => UsbStage::Finished(outcome(r)),
    }
}

/// What a session ends in, once it let go of the device.
pub open spec fn sent(failure_cause: Option<Seq<char>>) -> Result<(), Seq<char>> {
    match failure_cause {
        None => Ok(()),
        Some(cause) => Err(failure("USB control transfer failed: "@ + cause)),
    }
}

/// How a session goes on after the step that was due ended in `result`. Finding out about
/// the kernel's driver "succeeds" where it is active.
pub open spec fn usb_after(
    stage: UsbStage<Seq<char>>,
    packets: int,
    result: Result<(), Seq<char>>,
) -> UsbStage<Seq<char>> {
    match stage {
        UsbStage::Open => match result {
            Ok(()) => UsbStage::Detect,
            Err(e) => UsbStage::Finished(Err(failure("cannot open Chicony keyboard: "@ + e))),
        },
        UsbStage::Detect => match result {
            Ok(()) => UsbStage::Detach,
            Err(_) => UsbStage::Claim { detached: false },
        },
        UsbStage::Detach => match result {
            Ok(()) => UsbStage::Claim { detached: true },
            Err(e) => UsbStage::Finished(Err(failure("cannot detach kernel driver: "@ + e))),
        },
        UsbStage::Claim { detached } => match result {
            Ok(()) => UsbStage::ClearHalt { detached },
            Err(e) => UsbStage::Finished(Err(failure("cannot claim USB interface: "@ + e))),
        },
        UsbStage::ClearHalt { detached } => if packets > 0 {
            UsbStage::Send { next: 0, detached }
        } else {
            UsbStage::Release { detached, failure: None }
        },
        UsbStage::Send { next, detached } => match result {
            Ok(()) => if next + 1 < packets {
                UsbStage::Send { next: (next + 1) as usize, detached }
            } else {
                UsbStage::Release { detached, failure: None }
            },
            Err(e) => UsbStage::Release { detached, failure: Some(e) },
        },
        UsbStage::Release { detached, failure } => if detached {
            UsbStage::Attach { failure }
        } else {
            UsbStage::Finished(sent(failure))
        },
        UsbStage::Attach { failure } => UsbStage::Finished(sent(failure)),
        UsbStage::Finished(r) => UsbStage::Finished(r),
    }
}

fn session_result(cause: Option<String>) -> (r: Result<(), String>)
    ensures
        outcome(r) == sent(crate::text::text_of(cause)),
{
    match cause {
        None => Ok(()),
        Some(e) => Err(fail(cat2("USB control transfer failed: ", e.as_str()).as_str())),
    }
}

/// Takes note of how the step that was due went, in a session that sends this many packets.
pub fn usb_step(stage: UsbStage<String>, packets: usize, result: Result<(), String>) -> (r:
    UsbStage<String>)
    ensures
        usb_view(r) == usb_after(usb_view(stage), packets as int, outcome(result)),
{
    match stage {
        UsbStage::Open => match result {
            Ok(()) => UsbStage::Detect,
            Err(e) => UsbStage::Finished(
                Err(fail(cat2("cannot open Chicony keyboard: ", e.as_str()).as_str())),
            ),
        },
        UsbStage::Detect => match result {
            Ok(()) => UsbStage::Detach,
            Err(_) => UsbStage::Claim { detached: false },
        },
        UsbStage::Detach => match result {
            Ok(()) => UsbStage::Claim { detached: true },
            Err(e) => UsbStage::Finished(
                Err(fail(cat2("cannot detach kernel driver: ", e.as_str()).as_str())),
            ),
        },
        UsbStage::Claim { detached } => match result {
            Ok(()) => UsbStage::ClearHalt { detached },
            Err(e) => UsbStage::Finished(
                Err(fail(cat2("cannot claim USB interface: ", e.as_str()).as_str())),
            ),
        },
        UsbStage::ClearHalt { detached } => if packets > 0 {
            UsbStage::Send { next: 0, detached }
        } else {
            UsbStage::Release { detached, failure: None }
        },
        UsbStage::Send { next, detached } => match result {
            Ok(()) => if next < packets && packets - next > 1 {
                UsbStage::Send { next: next + 1, detached }
            } else {
                UsbStage::Release { detached, failure: None }
            },
            Err(e) => UsbStage::Release { detached, failure: Some(e) },
        },
        UsbStage::Release { detached, failure } => if detached {
            UsbStage::Attach { failure }
        } else {
            UsbStage::Finished(session_result(failure))
        },
        UsbStage::Attach { failure } => UsbStage::Finished(session_result(failure)),
        UsbStage::Finished(r) => UsbStage::Finished(r),
    }
}

/// Whether a session holds the interface.
pub open spec fn holds_interface(stage: UsbStage<Seq<char>>) -> bool {
    stage is ClearHalt || stage is Send || stage is Release
}

/// A session that holds the interface lets go of it before it ends: no step leads from
/// holding it to the end but the release.
pub proof fn law_interface_is_released(
    stage: UsbStage<Seq<char>>,
    packets: int,
    result: Result<(), Seq<char>>,
)
    requires
        holds_interface(stage),
        !(stage is Release),
    ensures
        holds_interface(usb_after(stage, packets, result)),
{
}

/// A driver that was detached is attached again once the interface is released, whatever
/// became of the packets.
pub proof fn law_detached_driver_is_attached(
    failure_cause: Option<Seq<char>>,
    packets: int,
    released: Result<(), Seq<char>>,
)
    ensures
        usb_after(
            UsbStage::Release { detached: true, failure: failure_cause },
            packets,
            released,
        ) == (UsbStage::Attach { failure: failure_cause }),
{
}

/// Packets are sent in order, and none after one that failed.
pub proof fn law_packets_are_sent_in_order(
    next: usize,
    detached: bool,
    packets: usize,
    result: Result<(), Seq<char>>,
)
    requires
        next < packets,
    ensures
        match usb_after(UsbStage::Send { next, detached }, packets as int, result) {
            UsbStage::Send { next: following, detached: d } => result is Ok && following == next + 1
                && following < packets && d == detached,
            UsbStage::Release { detached: d, failure } => d == detached && (failure is Some
                <==> result is Err),
            _ => false,
        },
{
}

/// How many steps a session has left at most.
pub open spec fn steps_left(stage: UsbStage<Seq<char>>, packets: nat) -> nat {
    match stage {
        UsbStage::Finished(_) => 0,
        UsbStage::Attach { .. } => 1,
        UsbStage::Release { .. } => 2,
        UsbStage::Send { next, .. } => if next < packets {
            2 + (packets - next) as nat
        } else {
            3
        },
        UsbStage::ClearHalt { .. } => 3 + packets,
        UsbStage::Claim { .. } => 4 + packets,
        UsbStage::Detach => 5 + packets,
        UsbStage::Detect => 6 + packets,
        UsbStage::Open => 7 + packets,
    }
}

/// A session ends, whatever becomes of its steps: each leaves fewer.
pub proof fn law_session_ends(
    stage: UsbStage<Seq<char>>,
    packets: usize,
    result: Result<(), Seq<char>>,
)
    requires
        !(stage is Finished),
    ensures
        steps_left(usb_after(stage, packets as int, result), packets as nat) < steps_left(
            stage,
            packets as nat,
        ),
{
}

/// The colour that was asked for is the one that is staged: red, green and blue at bytes 3, 4
/// and 5 of the second packet, for a solid colour as for an effect.
pub proof fn law_asked_colour_is_staged(
    opcode: u8,
    speed: u8,
    brightness: u8,
    red: u8,
    green: u8,
    blue: u8,
    direction: u8,
)
    ensures
        ({
            let packets = effect_packets(opcode, speed, brightness, red, green, blue, direction);
            &&& packets.len() == 3
            &&& packets[1].len() == 8
            &&& packets[1][0] == 0x14
            &&& packets[1][3] == red
            &&& packets[1][4] == green
            &&& packets[1][5] == blue
        }),
{
}

/// The third packet carries the effect: its opcode at byte 2, its speed at byte 3, its
/// brightness at byte 4 and its direction at byte 6. The controller counts speed down from 9 to
/// 1 as the percentage goes up, and brightness up to fifty.
pub proof fn law_asked_effect_is_applied(
    opcode: u8,
    speed: u8,
    brightness: u8,
    red: u8,
    green: u8,
    blue: u8,
    direction: u8,
)
    requires
        speed <= 100,
        brightness <= 100,
    ensures
        ({
            let packets = effect_packets(opcode, speed, brightness, red, green, blue, direction);
            let last = packets[2];
            &&& last.len() == 8
            &&& last[0] == 0x08 && last[1] == 0x02
            &&& last[2] == opcode
            &&& (9 - last[3]) * 100 <= speed * 8 < (10 - last[3]) * 100
            &&& last[4] * 100 <= brightness * 50 < (last[4] + 1) * 100
            &&& 1 <= last[6] <= 2
            &&& 1 <= direction <= 2 ==> last[6] == direction
        }),
{
}

/// Every effect begins with the same preamble, and a solid colour is the static effect at the
/// slowest speed.
pub proof fn law_effects_begin_with_the_preamble(
    opcode: u8,
    speed: u8,
    brightness: u8,
    red: u8,
    green: u8,
    blue: u8,
    direction: u8,
)
    ensures
        ({
            let first = effect_packets(opcode, speed, brightness, red, green, blue, direction)[0];
            &&& first.len() == 8 && first[0] == 0xB1 && first[7] == 0x4E
            &&& forall|i: int| 0 < i < 7 ==> #[trigger] first[i] == 0
        }),
        CHICONY_EFFECT_STATIC == 1,
{
}

/// The effect engine's packet holds the effect, the speed, the brightness and the palette's
/// colour at bytes 2, 3, 4 and 5.
pub proof fn law_palette_effect_is_sent_as_asked(effect: u8, brightness: u8, color: u8, speed: u8)
    ensures
        ({
            let packet = palette_packet(effect, brightness, color, speed);
            &&& packet.len() == 8
            &&& packet[0] == 0x08 && packet[1] == 0x00
            &&& packet[2] == effect
            &&& packet[3] == speed
            &&& packet[4] == brightness
            &&& packet[5] == color
            &&& packet[7] == 0xBE
        }),
{
}

/// Two hexadecimal digits denote sixteen times the first and the second.
pub proof fn law_hex_digits_denote_their_byte(a: char, b: char, high: nat, low: nat)
    requires
        digit_value(a, 16) == Some(high),
        digit_value(b, 16) == Some(low),
    ensures
        hex_byte(a, b) matches Some(byte) && byte == 16 * high + low,
{
}

/// A raw sequence is sent byte for byte: each pair of digits is one byte, in order.
pub proof fn law_raw_bytes_are_sent_in_order(text: Seq<u8>, k: int)
    requires
        hex_bytes(text) is Ok,
        text.len() % 2 == 0,
        0 <= k < text.len() / 2,
    ensures
        hex_bytes(text)->Ok_0.len() == text.len() / 2,
        pair_byte(text[2 * k], text[2 * k + 1]) == Some(hex_bytes(text)->Ok_0[k]),
    decreases text.len(),
{
    let rest = text.skip(2);
    if rest.len() > 0 {
        let j: int = if k > 0 {
            k - 1
        } else {
            0
        };
        law_raw_bytes_are_sent_in_order(rest, j);
        if k > 0 {
            assert(rest[2 * (k - 1)] == text[2 * k]);
            assert(rest[2 * (k - 1) + 1] == text[2 * k + 1]);
        }
    } else {
        assert(hex_bytes(rest)->Ok_0.len() == 0);
    }
}

/// A packet sequence is taken where its text is whole packets of sixteen digits and every
/// pair denotes a byte, and only there.
pub proof fn law_only_whole_packets_are_taken(value: Seq<char>)
    ensures
        ({
            let text = encode_utf8(trimmed(value));
            &&& packet_bytes(value) is Ok <==> text.len() > 0 && text.len() % 16 == 0 && hex_bytes(
                text,
            ) is Ok
            &&& packet_bytes(value) is Ok ==> packet_bytes(value) == hex_bytes(text)
        }),
{
}

/// The stages of a session are seen as they are.
pub proof fn law_sessions_are_seen_as_they_are(detached: bool, next: usize, cause: String)
    ensures
        usb_view((UsbStage::Claim { detached })) == (UsbStage::<Seq<char>>::Claim { detached }),
        usb_view((UsbStage::ClearHalt { detached })) == (UsbStage::<Seq<char>>::ClearHalt {
            detached,
        }),
        usb_view((UsbStage::Send { next, detached })) == (UsbStage::<Seq<char>>::Send {
            next,
            detached,
        }),
        usb_view((UsbStage::Release { detached, failure: Some(cause) })) == (UsbStage::Release {
            detached,
            failure: Some(cause@),
        }),
        usb_view((UsbStage::Release { detached, failure: None::<String> })) == (UsbStage::<
            Seq<char>,
        >::Release { detached, failure: None }),
        usb_view((UsbStage::Attach { failure: Some(cause) })) == (UsbStage::Attach {
            failure: Some(cause@),
        }),
{
}

/// A session whose every packet was sent succeeded, and one that failed says why.
pub proof fn law_sessions_end_as_they_went(cause: Seq<char>)
    ensures
        sent(None) is Ok,
        sent(Some(cause)) is Err,
{
}

/// How the keyboard is addressed.
pub proof fn law_keyboard_is_addressed_as_its_interface()
    ensures
        CHICONY_INTERFACE == 3 && CHICONY_ENDPOINT == 4,
        CHICONY_REQUEST_TYPE == 0x21 && CHICONY_SET_REPORT == 0x09 && CHICONY_REPORT_VALUE
            == 0x0300,
        CHICONY_BRIGHT_MAX == 50 && CHICONY_SPEED_FAST == 1 && CHICONY_SPEED_SLOW == 9,
{
}

} // verus!
