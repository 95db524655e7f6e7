//! What the helper reports where the embedded controller cannot be reached.

use vstd::prelude::*;

use crate::privileged::constants::EcRegister;
use crate::privileged::messages::{fail, failure};
use crate::text::cat4;

verus! {

/// A register's place, as messages give it.
pub open spec fn offset_text(register: EcRegister) -> Seq<char> {
    match register {
        EcRegister::CoolBoost => "0x10"@,
        EcRegister::BootAnimation => "0x1a"@,
        EcRegister::UsbCharging => "0x1b"@,
        EcRegister::CpuFanMode => "0x21"@,
        EcRegister::GpuFanMode => "0x22"@,
        EcRegister::LcdOverdrive => "0x29"@,
    }
}

fn offset_name(register: EcRegister) -> (r: &'static str)
    ensures
        r@ == offset_text(register),
{
    match register {
        EcRegister::CoolBoost => "0x10",
        EcRegister::BootAnimation => "0x1a",
        EcRegister::UsbCharging => "0x1b",
        EcRegister::CpuFanMode => "0x21",
        EcRegister::GpuFanMode => "0x22",
        EcRegister::LcdOverdrive => "0x29",
    }
}

/// The error where the controller's device cannot be opened.
pub fn ec_open_failed(path: &str, error: &str) -> (r: String)
    ensures
        r@ == failure("cannot open "@ + path@ + ": "@ + error@),
{
    fail(cat4("cannot open ", path, ": ", error).as_str())
}

/// The error where a register cannot be written.
pub fn ec_write_failed(register: EcRegister, error: &str) -> (r: String)
    ensures
        r@ == failure("cannot write EC offset "@ + offset_text(register) + ": "@ + error@),
{
    fail(cat4("cannot write EC offset ", offset_name(register), ": ", error).as_str())
}

/// The error where a register cannot be read.
pub fn ec_read_failed(register: EcRegister, error: &str) -> (r: String)
    ensures
        r@ == failure("cannot read EC offset "@ + offset_text(register) + ": "@ + error@),
{
    fail(cat4("cannot read EC offset ", offset_name(register), ": ", error).as_str())
}

/// A register's place in a message is its address, in hexadecimal.
pub proof fn law_message_gives_the_address(register: EcRegister)
    ensures
        ({
            let text = offset_text(register);
            &&& text.len() == 4
            &&& text[0] == '0' && text[1] == 'x'
            &&& crate::number::unsigned_value(text.skip(2), 16, 255) == Some(
                register.address() as nat,
            )
        }),
{
    reveal_strlit("0x10");
    reveal_strlit("0x1a");
    reveal_strlit("0x1b");
    reveal_strlit("0x21");
    reveal_strlit("0x22");
    reveal_strlit("0x29");
    let digits = offset_text(register).skip(2);
    assert(digits.len() == 2);
    assert(digits.drop_last().drop_last() == Seq::<char>::empty());
    reveal_with_fuel(crate::number::digits_value, 3);
    assert(digits.last() == offset_text(register)[3]);
    assert(digits.drop_last().last() == offset_text(register)[2]);
}

} // verus!
