//! The helper's error texts, and the arguments that more than one action takes.

use vstd::prelude::*;

use crate::number::{decimal, decimal_text, decimal_value, parse_u16_text};
use crate::protocol::helper::Action;
use crate::text::{cat2, cat3, cat5, outcome, reading, same, trim, trimmed};

verus! {

/// An error as the helper reports it.
pub open spec fn failure(message: Seq<char>) -> Seq<char> {
    "predator-sense-helper: "@ + message
}

/// An error as the helper reports it.
pub fn fail(message: &str) -> (r: String)
    ensures
        r@ == failure(message@),
{
    cat2("predator-sense-helper: ", message)
}

/// `before`, `value` in quotes, and `after`.
pub open spec fn quoting(before: Seq<char>, value: Seq<char>, after: Seq<char>) -> Seq<char> {
    before + "'"@ + value + "'"@ + after
}

/// The error that names a value it cannot take.
pub fn fail_quoting(before: &str, value: &str, after: &str) -> (r: String)
    ensures
        r@ == failure(quoting(before@, value@, after@)),
{
    fail(cat5(before, "'", value, "'", after).as_str())
}

/// What a switch argument means.
pub open spec fn switch_value(value: Seq<char>) -> Result<bool, Seq<char>> {
    if value == "0"@ {
        Ok(false)
    } else if value == "1"@ {
        Ok(true)
    } else {
        Err(failure(quoting("expected 0 or 1, got "@, value, ""@)))
    }
}

/// Reads a switch argument.
pub fn parse_bool(value: &str) -> (r: Result<bool, String>)
    ensures
        outcome(r) == switch_value(value@),
{
    if same(value, "0") {
        Ok(false)
    } else if same(value, "1") {
        Ok(true)
    } else {
        Err(fail_quoting("expected 0 or 1, got ", value, ""))
    }
}

/// A switch as an attribute holds it.
pub open spec fn switch_text(value: bool) -> Seq<char> {
    if value {
        "1"@
    } else {
        "0"@
    }
}

/// A switch as an attribute holds it.
pub fn bool_str(value: bool) -> (r: &'static str)
    ensures
        r@ == switch_text(value),
{
    if value {
        "1"
    } else {
        "0"
    }
}

/// What a number argument between `min` and `max` means.
pub open spec fn number_value(
    label: Seq<char>,
    value: Seq<char>,
    min: u16,
    max: u16,
) -> Result<u16, Seq<char>> {
    match decimal_value(value, 0xffff) {
        None => Err(failure(quoting("invalid "@ + label + " "@, value, ""@))),
        Some(n) => if min <= n <= max {
            Ok(n as u16)
        } else {
            Err(
                failure(
                    quoting(
                        "invalid "@ + label + " "@,
                        value,
                        " (expected "@ + decimal_text(min as nat) + "..="@ + decimal_text(
                            max as nat,
                        ) + ")"@,
                    ),
                ),
            )
        },
    }
}

/// Reads a number argument between `min` and `max`.
pub fn parse_u16(label: &str, value: &str, min: u16, max: u16) -> (r: Result<u16, String>)
    ensures
        outcome(r) == number_value(label@, value@, min, max),
        r is Ok ==> min <= r->Ok_0 <= max,
{
    match parse_u16_text(value) {
        None => Err(fail_quoting(cat3("invalid ", label, " ").as_str(), value, "")),
        Some(n) => if min <= n && n <= max {
            Ok(n)
        } else {
            let range = cat5(
                " (expected ",
                decimal(min as u64).as_str(),
                "..=",
                decimal(max as u64).as_str(),
                ")",
            );
            Err(fail_quoting(cat3("invalid ", label, " ").as_str(), value, range.as_str()))
        },
    }
}

/// The error for a command line with the wrong number of arguments.
pub open spec fn usage_error(action: Action) -> Seq<char> {
    failure("usage: "@ + action.usage_text())
}

/// Checks that a command line (the action's word and its arguments) has as many words as
/// the action takes.
pub fn ensure_arity(action: Action, args: &Vec<String>) -> (r: Result<(), String>)
    ensures
        outcome(r) == (if args@.len() == action.arity() + 1 {
            Ok(())
        } else {
            Err(usage_error(action))
        }),
{
    if args.len() == action.argument_count() + 1 {
        Ok(())
    } else {
        Err(fail(cat2("usage: ", action.usage()).as_str()))
    }
}

/// The error for an attribute that could not be written.
pub open spec fn write_error(
    label: Seq<char>,
    value: Seq<char>,
    path: Seq<char>,
    cause: Seq<char>,
) -> Seq<char> {
    failure(
        label + ": cannot write "@ + quoting(""@, value, " to "@ + path + ": "@ + cause),
    )
}

/// The error for an attribute that could not be written.
pub fn write_failed(label: &str, value: &str, path: &str, cause: &str) -> (r: String)
    ensures
        r@ == write_error(label@, value@, path@, cause@),
{
    let tail = cat3(" to ", path, cat2(": ", cause).as_str());
    assert(tail@ == " to "@ + path@ + ": "@ + cause@);
    let quoted = cat5("", "'", value, "'", tail.as_str());
    fail(cat3(label, ": cannot write ", quoted.as_str()).as_str())
}

/// The error for an attribute that could not be read.
pub open spec fn read_error(label: Seq<char>, path: Seq<char>, cause: Seq<char>) -> Seq<char> {
    failure(label + ": cannot read "@ + path + ": "@ + cause)
}

/// The error for an attribute that could not be read.
pub fn read_failed(label: &str, path: &str, cause: &str) -> (r: String)
    ensures
        r@ == read_error(label@, path@, cause@),
{
    fail(cat5(label, ": cannot read ", path, ": ", cause).as_str())
}

/// What an attribute holds, without the white space around it; a reading that failed is
/// reported under `label`.
pub open spec fn attribute_value(
    label: Seq<char>,
    path: Seq<char>,
    contents: Result<Seq<char>, Seq<char>>,
) -> Result<Seq<char>, Seq<char>> {
    match contents {
        Ok(text) => Ok(trimmed(text)),
        Err(cause) => Err(read_error(label, path, cause)),
    }
}

/// What an attribute holds, given what reading its file gave.
pub fn read_attr(label: &str, path: &str, contents: &Result<String, String>) -> (r: Result<
    String,
    String,
>)
    ensures
        reading(r) == attribute_value(label@, path@, reading(*contents)),
{
    match contents {
        Ok(text) => Ok(trim(text.as_str())),
        Err(cause) => Err(read_failed(label, path, cause.as_str())),
    }
}

/// A switch that is on is a one and a switch that is off a zero, in an argument as in an
/// attribute, and no other argument is a switch.
pub proof fn law_switches_are_ones_and_zeros(value: Seq<char>)
    ensures
        switch_value(value) == Ok::<bool, Seq<char>>(true) <==> value == "1"@,
        switch_value(value) == Ok::<bool, Seq<char>>(false) <==> value == "0"@,
        switch_text(true) == "1"@,
        switch_text(false) == "0"@,
        switch_value(switch_text(true)) == Ok::<bool, Seq<char>>(true),
        switch_value(switch_text(false)) == Ok::<bool, Seq<char>>(false),
{
    reveal_strlit("1");
    reveal_strlit("0");
    assert("1"@[0] == '1' && "0"@[0] == '0');
}

/// A number argument is taken where it lies between the two limits, which are in the range
/// themselves, and stands for itself.
pub proof fn law_number_arguments_keep_their_range(label: Seq<char>, n: u16, min: u16, max: u16)
    ensures
        number_value(label, decimal_text(n as nat), min, max) is Ok <==> min <= n <= max,
        min <= n <= max ==> number_value(label, decimal_text(n as nat), min, max) == Ok::<
            u16,
            Seq<char>,
        >(n),
{
    crate::number::law_decimal_round_trip(n as nat, 0xffff);
}

/// What an attribute holds is its text without the white space around it; a reading that
/// failed is reported with its label, its path and its cause.
pub proof fn law_attribute_is_its_line(label: Seq<char>, path: Seq<char>, text: Seq<char>)
    requires
        text.len() > 0,
        !crate::text::is_space(text[0]),
        !crate::text::is_space(text.last()),
    ensures
        attribute_value(label, path, Ok(text.push('\n'))) == Ok::<Seq<char>, Seq<char>>(text),
        attribute_value(label, path, Err(text)) == Err::<Seq<char>, Seq<char>>(
            "predator-sense-helper: "@ + (label + ": cannot read "@ + path + ": "@ + text),
        ),
{
    crate::text::lemma_trimmed_line(text);
}

} // verus!
