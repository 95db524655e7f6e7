//! The CPU temperature ceiling: finding the kernel's control, reading what it allows, and
//! setting it so that it is confirmed or put back.

use vstd::prelude::*;

use crate::number::{
    decimal, decimal_text, decimal_value, number_error, number_fault, octal, octal_text, parse_i64,
    parse_u8, signed_within,
};
use crate::paths::{is_absolute, is_absolute_path, join_path, joined_path};
use crate::privileged::messages::{
    attribute_value, fail, fail_quoting, failure, quoting, read_attr,
};
use crate::protocol::temp_limit::{
    monus, recorded, remembered, Bound, Capability, COOLING_DEVICE_TYPE, CORETEMP_NAME,
    FACTORY_OFFSET_FILE, HWMON_CLASS, THERMAL_CLASS,
};
use crate::text::{cat4, cat5, outcome, reading, same, text_of, trim, trimmed};

verus! {

/// One entry of a class directory, and what its identifying attribute (`type` or `name`)
/// holds where it can be read.
pub struct ClassEntry {
    pub name: String,
    pub identity: Option<String>,
}

/// Whether an entry identifies itself as `expected`.
pub open spec fn identifies(entry: ClassEntry, expected: Seq<char>) -> bool {
    entry.identity is Some && trimmed(entry.identity->0@) == expected
}

/// The first entry that identifies itself as `expected`.
pub open spec fn first_identified(entries: Seq<ClassEntry>, expected: Seq<char>) -> Option<int>
    decreases entries.len(),
{
    if entries.len() == 0 {
        None
    } else if identifies(entries[0], expected) {
        Some(0)
    } else {
        match first_identified(entries.drop_first(), expected) {
            Some(i) => Some(i + 1),
            None => None,
        }
    }
}

/// Finds the first entry that identifies itself as `expected`. One that cannot be read says
/// nothing about the others.
pub fn find_identified(entries: &Vec<ClassEntry>, expected: &str) -> (r: Option<usize>)
    ensures
        match r {
            Some(i) => i < entries@.len() && first_identified(entries@, expected@) == Some(i as int)
                && identifies(entries@[i as int], expected@),
            None => first_identified(entries@, expected@) is None,
        },
{
    let mut i: usize = 0;
    assert(entries@.skip(0) == entries@);
    while i < entries.len()
        invariant
            i <= entries@.len(),
            first_identified(entries@, expected@) == (match first_identified(
                entries@.skip(i as int),
                expected@,
            ) {
                Some(k) => Some(k + i),
                None => None,
            }),
        decreases entries@.len() - i,
    {
        let ghost rest = entries@.skip(i as int);
        assert(rest[0] == entries@[i as int]);
        assert(rest.drop_first() == entries@.skip(i + 1));
        match &entries[i].identity {
            Some(text) => {
                if same(trim(text.as_str()).as_str(), expected) {
                    return Some(i);
                }
            },
            None => {},
        }
        i = i + 1;
    }
    None
}

/// The error for a class directory that cannot be listed.
pub open spec fn class_error(directory: Seq<char>, cause: Seq<char>) -> Seq<char> {
    failure("temp-limit: cannot read "@ + directory + ": "@ + cause)
}

fn class_failed(directory: &str, cause: &str) -> (r: String)
    ensures
        r@ == class_error(directory@, cause@),
{
    fail(cat4("temp-limit: cannot read ", directory, ": ", cause).as_str())
}

/// The TCC offset cooling device among the entries of the thermal class.
pub open spec fn cooling_device(
    sysfs: Seq<char>,
    listing: Result<Vec<ClassEntry>, String>,
) -> Result<Option<Seq<char>>, Seq<char>> {
    let directory = joined_path(sysfs, THERMAL_CLASS@);
    match listing {
        Err(cause) => Err(class_error(directory, cause@)),
        Ok(entries) => match first_identified(entries@, COOLING_DEVICE_TYPE@) {
            Some(i) => Ok(Some(joined_path(directory, entries@[i].name@))),
            None => Ok(None),
        },
    }
}

/// An optional path or an error, taken as characters.
pub open spec fn found(r: Result<Option<String>, String>) -> Result<Option<Seq<char>>, Seq<char>> {
    match r {
        Ok(path) => Ok(text_of(path)),
        Err(e) => Err(e@),
    }
}

/// The TCC offset cooling device, if the kernel published one: found by its type, since
/// its number moves between machines and even between boots.
pub fn tcc_cooling_device(sysfs: &str, listing: &Result<Vec<ClassEntry>, String>) -> (r: Result<
    Option<String>,
    String,
>)
    ensures
        found(r) == cooling_device(sysfs@, *listing),
{
    let directory = join_path(sysfs, THERMAL_CLASS);
    match listing {
        Err(cause) => Err(class_failed(directory.as_str(), cause.as_str())),
        Ok(entries) => match find_identified(entries, COOLING_DEVICE_TYPE) {
            Some(i) => Ok(Some(join_path(directory.as_str(), entries[i].name.as_str()))),
            None => Ok(None),
        },
    }
}

/// The hardware monitor that `coretemp` publishes, among the entries of its class.
pub open spec fn coretemp(sysfs: Seq<char>, listing: Result<Vec<ClassEntry>, String>) -> Result<
    Option<Seq<char>>,
    Seq<char>,
> {
    let directory = joined_path(sysfs, HWMON_CLASS@);
    match listing {
        Err(cause) => Err(class_error(directory, cause@)),
        Ok(entries) => match first_identified(entries@, CORETEMP_NAME@) {
            Some(i) => Ok(Some(joined_path(directory, entries@[i].name@))),
            None => Ok(None),
        },
    }
}

/// The hardware monitor that `coretemp` publishes.
pub fn coretemp_device(sysfs: &str, listing: &Result<Vec<ClassEntry>, String>) -> (r: Result<
    Option<String>,
    String,
>)
    ensures
        found(r) == coretemp(sysfs@, *listing),
{
    let directory = join_path(sysfs, HWMON_CLASS);
    match listing {
        Err(cause) => Err(class_failed(directory.as_str(), cause.as_str())),
        Ok(entries) => match find_identified(entries, CORETEMP_NAME) {
            Some(i) => Ok(Some(join_path(directory.as_str(), entries[i].name.as_str()))),
            None => Ok(None),
        },
    }
}

/// Whole degrees from millidegrees, towards zero, where they fit a byte.
pub open spec fn whole_degrees(millicelsius: int) -> Option<u8> {
    if millicelsius <= -1000 || millicelsius >= 256_000 {
        None
    } else if millicelsius < 0 {
        Some(0)
    } else {
        Some((millicelsius / 1000) as u8)
    }
}

/// What a temperature attribute in millidegrees shows, in whole degrees.
pub open spec fn degrees(path: Seq<char>, contents: Result<Seq<char>, Seq<char>>) -> Result<
    Option<u8>,
    Seq<char>,
> {
    match attribute_value("coretemp"@, path, contents) {
        Err(e) => Err(e),
        Ok(text) => match signed_within(trimmed(text), 0x7fff_ffff_ffff_ffff) {
            None => Err(
                failure(
                    "temp-limit: unreadable "@ + path + ": "@ + number_fault(
                        trimmed(text),
                        true,
                        0x7fff_ffff_ffff_ffff,
                    ),
                ),
            ),
            Some(millicelsius) => Ok(whole_degrees(millicelsius)),
        },
    }
}

/// What a `coretemp` attribute in millidegrees shows, in whole degrees.
pub fn coretemp_celsius(path: &str, contents: &Result<String, String>) -> (r: Result<
    Option<u8>,
    String,
>)
    ensures
        outcome(r) == degrees(path@, reading(*contents)),
{
    match read_attr("coretemp", path, contents) {
        Err(e) => Err(e),
        Ok(text) => {
            let number = trim(text.as_str());
            match parse_i64(number.as_str()) {
                None => Err(
                    fail(
                        cat4(
                            "temp-limit: unreadable ",
                            path,
                            ": ",
                            number_error(number.as_str(), true, 0x7fff_ffff_ffff_ffff),
                        ).as_str(),
                    ),
                ),
                Some(millicelsius) => if millicelsius <= -1000 || millicelsius >= 256_000 {
                    Ok(None)
                } else if millicelsius < 0 {
                    Ok(Some(0))
                } else {
                    Ok(Some((millicelsius / 1000) as u8))
                },
            }
        },
    }
}

/// What a state attribute of the cooling device shows.
pub open spec fn state_value(
    label: Seq<char>,
    name: Seq<char>,
    path: Seq<char>,
    contents: Result<Seq<char>, Seq<char>>,
) -> Result<u8, Seq<char>> {
    match attribute_value(label, path, contents) {
        Err(e) => Err(e),
        Ok(text) => match decimal_value(trimmed(text), 255) {
            Some(n) => Ok(n as u8),
            None => Err(
                failure(
                    "temp-limit: unreadable "@ + name + ": "@ + number_fault(
                        trimmed(text),
                        false,
                        255,
                    ),
                ),
            ),
        },
    }
}

fn read_state(label: &str, name: &str, path: &str, contents: &Result<String, String>) -> (r: Result<
    u8,
    String,
>)
    ensures
        outcome(r) == state_value(label@, name@, path@, reading(*contents)),
{
    match read_attr(label, path, contents) {
        Err(e) => Err(e),
        Ok(text) => {
            let number = trim(text.as_str());
            match parse_u8(number.as_str()) {
                Some(n) => Ok(n),
                None => Err(
                    fail(
                        cat4(
                            "temp-limit: unreadable ",
                            name,
                            ": ",
                            number_error(number.as_str(), false, 255),
                        ).as_str(),
                    ),
                ),
            }
        },
    }
}

/// What the kernel shows of the offset: its range and its current value.
#[derive(Debug, Clone, Copy, PartialEq, Eq, Structural)]
pub struct Offsets {
    pub max: u8,
    pub current: u8,
}

/// What the cooling device's two state attributes show.
pub open spec fn offsets_of(
    device: Seq<char>,
    max_state: Result<Seq<char>, Seq<char>>,
    cur_state: Result<Seq<char>, Seq<char>>,
) -> Result<Offsets, Seq<char>> {
    match state_value(
        "tcc max_state"@,
        "max_state"@,
        joined_path(device, "max_state"@),
        max_state,
    ) {
        Err(e) => Err(e),
        Ok(max) => match state_value(
            "tcc cur_state"@,
            "cur_state"@,
            joined_path(device, "cur_state"@),
            cur_state,
        ) {
            Err(e) => Err(e),
            Ok(current) => Ok(Offsets { max, current }),
        },
    }
}

/// Reads the cooling device's two state attributes.
pub fn read_offsets(
    device: &str,
    max_state: &Result<String, String>,
    cur_state: &Result<String, String>,
) -> (r: Result<Offsets, String>)
    ensures
        outcome(r) == offsets_of(device@, reading(*max_state), reading(*cur_state)),
{
    match read_state(
        "tcc max_state",
        "max_state",
        join_path(device, "max_state").as_str(),
        max_state,
    ) {
        Err(e) => Err(e),
        Ok(max) => match read_state(
            "tcc cur_state",
            "cur_state",
            join_path(device, "cur_state").as_str(),
            cur_state,
        ) {
            Err(e) => Err(e),
            Ok(current) => Ok(Offsets { max, current }),
        },
    }
}

/// What the record of the offset this boot started with shows.
pub enum FactoryRecord {
    /// There is none yet: this is the first privileged call of the boot.
    Missing,
    /// It is there but cannot be read, for this reason.
    Unreadable(String),
    Contents(String),
}

/// The offset this boot started with, and whether it still has to be recorded.
#[derive(Debug, Clone, Copy, PartialEq, Eq, Structural)]
pub struct FactoryOffset {
    pub offset: u8,
    pub record: bool,
}

/// The offset this boot started with. A record that cannot be read or makes no sense is an
/// error and no reason to record anew: the register may have been changed since.
pub open spec fn factory(record: FactoryRecord, current: u8) -> Result<FactoryOffset, Seq<char>> {
    match record {
        FactoryRecord::Missing => Ok(FactoryOffset { offset: current, record: true }),
        FactoryRecord::Unreadable(cause) => Err(
            failure("temp-limit: cannot read "@ + FACTORY_OFFSET_FILE@ + ": "@ + cause@),
        ),
        FactoryRecord::Contents(text) => match decimal_value(trimmed(text@), 255) {
            Some(n) => Ok(FactoryOffset { offset: n as u8, record: false }),
            None => Err(
                failure(
                    "temp-limit: unreadable "@ + FACTORY_OFFSET_FILE@ + ": "@ + number_fault(
                        trimmed(text@),
                        false,
                        255,
                    ) + " (delete it to re-snapshot)"@,
                ),
            ),
        },
    }
}

/// The offset this boot started with: what the record says, or the current offset where
/// there is no record yet.
pub fn tcc_factory_offset(record: &FactoryRecord, current: u8) -> (r: Result<FactoryOffset, String>)
    ensures
        outcome(r) == factory(*record, current),
{
    match record {
        FactoryRecord::Missing => Ok(FactoryOffset { offset: current, record: true }),
        FactoryRecord::Unreadable(cause) => Err(
            fail(
                cat4("temp-limit: cannot read ", FACTORY_OFFSET_FILE, ": ", cause.as_str()).as_str(),
            ),
        ),
        FactoryRecord::Contents(text) => {
            let number = trim(text.as_str());
            match parse_u8(number.as_str()) {
                Some(n) => Ok(FactoryOffset { offset: n, record: false }),
                None => Err(
                    fail(
                        cat5(
                            "temp-limit: unreadable ",
                            FACTORY_OFFSET_FILE,
                            ": ",
                            number_error(number.as_str(), false, 255),
                            " (delete it to re-snapshot)",
                        ).as_str(),
                    ),
                ),
            }
        },
    }
}

/// The record once written gives back the offset it was made of, whatever the register has
/// been set to since: a lowered ceiling is never taken for the factory one.
pub proof fn law_factory_offset_is_kept(text: String, first: u8, later: u8)
    requires
        text@ == crate::protocol::thermal_profile::record_text(first),
    ensures
        factory(FactoryRecord::Contents(text), later) == Ok::<FactoryOffset, Seq<char>>(
            FactoryOffset { offset: first, record: false },
        ),
{
    crate::protocol::thermal_profile::law_record_round_trip(first);
}

/// What a mode grants to everyone else.
pub open spec fn others(mode: u32) -> u32 {
    mode & 7
}

/// Whether a file whose mode was to be `mode` and came out as `actual` can be read by the
/// desktop session; an error otherwise.
pub fn ensure_readable(path: &str, mode: u32, actual: u32) -> (r: Result<(), String>)
    ensures
        outcome(r) == (if actual & others(mode) == others(mode) {
            Ok(())
        } else {
            Err(
                failure(
                    "temp-limit: "@ + path@ + " is mode "@ + octal_text((actual & 511) as nat)
                        + ", which the desktop session cannot read"@,
                ),
            )
        }),
        // A file that others were to read and cannot is no use, whatever its owner may do.
        mode == actual ==> r is Ok,
        mode & 4 == 4 && actual & 4 == 0 ==> r is Err,
        mode & 4 == 4 && mode & 3 == 0 && actual & 4 == 4 ==> r is Ok,
{
    proof {
        assert(mode & (mode & 7) == mode & 7) by (bit_vector);
        assert(mode & 4 == 4 && actual & 4 == 0 ==> actual & (mode & 7) != mode & 7) by (bit_vector);
        assert(mode & 4 == 4 && mode & 3 == 0 && actual & 4 == 4 ==> actual & (mode & 7) == mode
            & 7) by (bit_vector);
    }
    let needed: u32 = mode & 7;
    if actual & needed == needed {
        Ok(())
    } else {
        Err(
            fail(
                cat5(
                    "temp-limit: ",
                    path,
                    " is mode ",
                    octal(actual & 511).as_str(),
                    ", which the desktop session cannot read",
                ).as_str(),
            ),
        )
    }
}

/// What the helper prints of a capability.
pub open spec fn caps_text(capability: Option<Capability>) -> Seq<char> {
    match capability {
        None => "unsupported"@,
        Some(c) => if c.max_offset == 0 {
            "locked"@
        } else {
            "ok "@ + decimal_text(c.tjmax_c as nat) + " "@ + decimal_text(c.max_offset as nat)
                + " "@ + decimal_text(monus(c.tjmax_c as int, c.current_c as int) as nat)
        },
    }
}

/// The offset in effect.
fn current_offset(c: &Capability) -> (r: u8)
    ensures
        r == monus(c.tjmax_c as int, c.current_c as int),
{
    if c.tjmax_c >= c.current_c {
        c.tjmax_c - c.current_c
    } else {
        0
    }
}

/// What the helper prints of a capability: `ok TJMAX MAX_OFFSET CURRENT_OFFSET`, `locked`,
/// or `unsupported`.
pub fn temp_limit_caps(capability: &Option<Capability>) -> (r: String)
    ensures
        r@ == caps_text(*capability),
{
    match capability {
        None => "unsupported".to_owned(),
        Some(c) => {
            if c.max_offset == 0 {
                "locked".to_owned()
            } else {
                let mut out = cat4(
                    "ok ",
                    decimal(c.tjmax_c as u64).as_str(),
                    " ",
                    decimal(c.max_offset as u64).as_str(),
                );
                out.append(" ");
                out.append(decimal(current_offset(c) as u64).as_str());
                out
            }
        },
    }
}

/// What the arguments of a ceiling request mean. An unknown bound is refused, so that a
/// typo never widens the range.
pub open spec fn ceiling_request(value: Seq<char>, bound: Seq<char>) -> Result<
    (u8, Bound),
    Seq<char>,
> {
    match decimal_value(value, 255) {
        None => Err(failure(quoting("temp-limit: invalid temperature "@, value, ""@))),
        Some(celsius) => match Bound::named(bound) {
            None => Err(failure(quoting("temp-limit: invalid bound "@, bound, ""@))),
            Some(b) => Ok((celsius as u8, b)),
        },
    }
}

/// Reads the arguments of a ceiling request.
pub fn temp_limit_request(value: &str, bound: &str) -> (r: Result<(u8, Bound), String>)
    ensures
        outcome(r) == ceiling_request(value@, bound@),
{
    match parse_u8(value) {
        None => Err(fail_quoting("temp-limit: invalid temperature ", value, "")),
        Some(celsius) => match Bound::parse(bound) {
            None => Err(fail_quoting("temp-limit: invalid bound ", bound, "")),
            Some(b) => Ok((celsius, b)),
        },
    }
}

/// The offset that a request needs on this machine, or why it cannot be met. A ceiling out
/// of range is rejected, never clamped.
pub open spec fn needed_offset(capability: Option<Capability>, celsius: u8, bound: Bound) -> Result<
    u8,
    Seq<char>,
> {
    match capability {
        None => Err(failure("temp-limit: this machine has no TCC offset control"@)),
        Some(c) => if c.max_offset == 0 {
            Err(
                failure(
                    "temp-limit: the firmware locks the TCC offset (look for a 'HwP Lock' style option in the BIOS)"@,
                ),
            )
        } else {
            match c.offset(celsius, bound) {
                Some(offset) => Ok(offset),
                None => Err(
                    failure(
                        "temp-limit: "@ + decimal_text(celsius as nat) + " C is outside "@
                            + decimal_text(c.floor(bound) as nat) + "..="@ + decimal_text(
                            c.top() as nat,
                        ) + " C for this CPU under the "@ + bound.wire_name() + " bound"@,
                    ),
                ),
            }
        },
    }
}

/// The offset that a request needs on this machine, or why it cannot be met.
pub fn temp_limit_offset(capability: &Option<Capability>, celsius: u8, bound: Bound) -> (r: Result<
    u8,
    String,
>)
    ensures
        outcome(r) == needed_offset(*capability, celsius, bound),
{
    match capability {
        None => Err(fail("temp-limit: this machine has no TCC offset control")),
        Some(c) => {
            if c.max_offset == 0 {
                return Err(
                    fail(
                        "temp-limit: the firmware locks the TCC offset (look for a 'HwP Lock' style option in the BIOS)",
                    ),
                );
            }
            match c.offset_for_within(celsius, bound) {
                Some(offset) => Ok(offset),
                None => {
                    let mut text = cat5(
                        "temp-limit: ",
                        decimal(celsius as u64).as_str(),
                        " C is outside ",
                        decimal(c.min_c_within(bound) as u64).as_str(),
                        "..=",
                    );
                    text.append(decimal(c.max_c() as u64).as_str());
                    text.append(" C for this CPU under the ");
                    text.append(bound.as_str());
                    text.append(" bound");
                    Err(fail(text.as_str()))
                },
            }
        },
    }
}

/// Whether the machine shows the ceiling that was asked for.
pub open spec fn confirmation(applied: Result<Option<Capability>, Seq<char>>, celsius: u8) -> Result<
    (),
    Seq<char>,
> {
    match applied {
        Err(e) => Err(e),
        Ok(None) => Err(failure("temp-limit: cannot confirm the ceiling"@)),
        Ok(Some(c)) => if c.current_c == celsius {
            Ok(())
        } else {
            Err(
                failure(
                    "temp-limit: kernel kept "@ + decimal_text(c.current_c as nat)
                        + " C after asking for "@ + decimal_text(celsius as nat) + " C"@,
                ),
            )
        },
    }
}

/// Checks, after a write, that the machine shows the ceiling that was asked for: the kernel
/// rejects some values with a write that appears to succeed.
pub fn temp_limit_confirm(applied: Result<Option<Capability>, String>, celsius: u8) -> (r: Result<
    (),
    String,
>)
    ensures
        outcome(r) == confirmation(outcome(applied), celsius),
{
    match applied {
        Err(e) => Err(e),
        Ok(None) => Err(fail("temp-limit: cannot confirm the ceiling")),
        Ok(Some(c)) => if c.current_c == celsius {
            Ok(())
        } else {
            Err(
                fail(
                    cat5(
                        "temp-limit: kernel kept ",
                        decimal(c.current_c as u64).as_str(),
                        " C after asking for ",
                        decimal(celsius as u64).as_str(),
                        " C",
                    ).as_str(),
                ),
            )
        },
    }
}

/// The course of setting a ceiling: write it, confirm it, and where that fails write the
/// previous one back and confirm that too.
#[derive(Debug)]
pub enum CeilingStage {
    /// The new offset is to be written.
    Write,
    /// The new ceiling is to be confirmed.
    Confirm,
    /// The change failed for this reason; the previous offset is to be written back.
    WriteBack(String),
    /// The previous ceiling is to be confirmed.
    ConfirmBack(String),
    Finished(Result<(), String>),
}

/// The course of setting a ceiling, as contracts speak of it.
pub enum CeilingStanding {
    Write,
    Confirm,
    WriteBack(Seq<char>),
    ConfirmBack(Seq<char>),
    Finished(Result<(), Seq<char>>),
}

impl CeilingStage {
    pub open spec fn standing(self) -> CeilingStanding {
        match self {
            CeilingStage::Write => CeilingStanding::Write,
            CeilingStage::Confirm => CeilingStanding::Confirm,
            CeilingStage::WriteBack(cause) => CeilingStanding::WriteBack(cause@),
            CeilingStage::ConfirmBack(cause) => CeilingStanding::ConfirmBack(cause@),
            CeilingStage::Finished(r) => CeilingStanding::Finished(outcome(r)),
        }
    }
}

/// What a change ends in whose previous ceiling could not be put back either.
pub open spec fn stranded(cause: Seq<char>, previous: u8, rollback: Seq<char>) -> Seq<char> {
    failure(
        cause + "; and the previous "@ + decimal_text(previous as nat)
            + " C ceiling could not be put back: "@ + rollback,
    )
}

/// How setting a ceiling goes on after the step that was due ended in `result`.
pub open spec fn ceiling_after(
    standing: CeilingStanding,
    previous: u8,
    result: Result<(), Seq<char>>,
) -> CeilingStanding {
    match standing {
        CeilingStanding::Write => match result {
            Ok(()) => CeilingStanding::Confirm,
            Err(e) => CeilingStanding::Finished(Err(e)),
        },
        CeilingStanding::Confirm => match result {
            Ok(()) => CeilingStanding::Finished(Ok(())),
            Err(cause) => CeilingStanding::WriteBack(cause),
        },
        CeilingStanding::WriteBack(cause) => match result {
            Ok(()) => CeilingStanding::ConfirmBack(cause),
            Err(e) => CeilingStanding::Finished(Err(stranded(cause, previous, e))),
        },
        CeilingStanding::ConfirmBack(cause) => match result {
            Ok(()) => CeilingStanding::Finished(Err(cause)),
            Err(e) => CeilingStanding::Finished(Err(stranded(cause, previous, e))),
        },
        CeilingStanding::Finished(r) => CeilingStanding::Finished(r),
    }
}

fn stranded_error(cause: &str, previous: u8, rollback: &str) -> (r: String)
    ensures
        r@ == stranded(cause@, previous, rollback@),
{
    fail(
        cat5(
            cause,
            "; and the previous ",
            decimal(previous as u64).as_str(),
            " C ceiling could not be put back: ",
            rollback,
        ).as_str(),
    )
}

/// Takes note of how the step that was due went. `previous` is the ceiling that was in
/// effect before.
pub fn ceiling_step(stage: CeilingStage, previous: u8, result: Result<(), String>) -> (r:
    CeilingStage)
    ensures
        r.standing() == ceiling_after(stage.standing(), previous, outcome(result)),
{
    match stage {
        CeilingStage::Write => match result {
            Ok(()) => CeilingStage::Confirm,
            Err(e) => CeilingStage::Finished(Err(e)),
        },
        CeilingStage::Confirm => match result {
            Ok(()) => CeilingStage::Finished(Ok(())),
            Err(cause) => CeilingStage::WriteBack(cause),
        },
        CeilingStage::WriteBack(cause) => match result {
            Ok(()) => CeilingStage::ConfirmBack(cause),
            Err(e) => CeilingStage::Finished(
                Err(stranded_error(cause.as_str(), previous, e.as_str())),
            ),
        },
        CeilingStage::ConfirmBack(cause) => match result {
            Ok(()) => CeilingStage::Finished(Err(cause)),
            Err(e) => CeilingStage::Finished(
                Err(stranded_error(cause.as_str(), previous, e.as_str())),
            ),
        },
        CeilingStage::Finished(r) => CeilingStage::Finished(r),
    }
}

/// The offset under which the ceiling that is in effect stands: what is written back where a
/// new one cannot be confirmed.
pub open spec fn previous_offset(capability: Capability) -> int {
    monus(capability.tjmax_c as int, capability.current_c as int)
}

/// The offset to write back where a new ceiling cannot be confirmed.
pub fn offset_to_put_back(capability: &Capability) -> (r: u8)
    ensures
        r == previous_offset(*capability),
        r == (if capability.tjmax_c >= capability.current_c {
            capability.tjmax_c - capability.current_c
        } else {
            0
        }),
{
    if capability.tjmax_c >= capability.current_c {
        capability.tjmax_c - capability.current_c
    } else {
        0
    }
}

/// Writing back the offset of a machine that was read gives it the ceiling it had: the
/// register holds what it held, as far as it was in range, and the read-back that follows is
/// confirmed, whatever is known by then of the offset this boot started with.
pub proof fn law_put_back_offset_restores_the_ceiling(
    tjmax_c: u8,
    max_offset: u8,
    current_offset: u8,
    factory_offset: u8,
    factory_then: u8,
)
    ensures
        ({
            let before = Capability::made(tjmax_c, max_offset, current_offset, factory_offset);
            let offset = previous_offset(before);
            let after = Capability::made(tjmax_c, max_offset, offset as u8, factory_then);
            &&& 0 <= offset <= max_offset
            &&& current_offset <= max_offset && current_offset <= tjmax_c ==> offset
                == current_offset
            &&& after.current_c == before.current_c
            &&& confirmation(Ok(Some(after)), before.current_c) is Ok
        }),
{
}

/// Setting a ceiling succeeds only where it was confirmed, and once the write went through
/// it never ends without either that or an attempt to put the previous ceiling back.
pub proof fn law_ceiling_is_confirmed_or_put_back(
    previous: u8,
    wrote: Result<(), Seq<char>>,
    confirmed: Result<(), Seq<char>>,
    wrote_back: Result<(), Seq<char>>,
    confirmed_back: Result<(), Seq<char>>,
)
    ensures
        ({
            let s1 = ceiling_after(CeilingStanding::Write, previous, wrote);
            let s2 = ceiling_after(s1, previous, confirmed);
            let s3 = ceiling_after(s2, previous, wrote_back);
            let s4 = ceiling_after(s3, previous, confirmed_back);
            &&& wrote is Err ==> s4 == CeilingStanding::Finished(wrote)
            &&& wrote is Ok && confirmed is Ok ==> s4 == CeilingStanding::Finished(Ok(()))
            &&& wrote is Ok && confirmed is Err ==> s2 == CeilingStanding::WriteBack(
                confirmed->Err_0,
            )
            &&& wrote is Ok && confirmed is Err && wrote_back is Ok && confirmed_back is Ok ==> s4
                == CeilingStanding::Finished(confirmed)
            &&& s4 matches CeilingStanding::Finished(Ok(())) ==> wrote is Ok && confirmed is Ok
        }),
{
}

/// What restoring the recorded ceiling at boot comes to.
pub enum Restore {
    /// There is nothing to restore.
    Nothing,
    /// This ceiling is to be set, under this bound.
    Ceiling(u8, Bound),
    Refused(String),
}

/// What restoring comes to, as contracts speak of it.
pub open spec fn restored(
    home: Seq<char>,
    record: Option<Seq<char>>,
    capability: Result<Option<Capability>, Seq<char>>,
) -> Result<Option<(u8, Bound)>, Seq<char>> {
    if !is_absolute_path(home) {
        Err(failure("USER_HOME must be an absolute path"@))
    } else {
        let asked = match record {
            Some(contents) => recorded(contents),
            None => None,
        };
        match asked {
            None => Ok(None),
            Some(request) => match capability {
                Err(e) => Err(e),
                Ok(Some(c)) if c.max_offset > 0 => Ok(Some(request)),
                Ok(_) => Ok(None),
            },
        }
    }
}

/// The same of the executable result.
pub open spec fn restore_view(r: Restore) -> Result<Option<(u8, Bound)>, Seq<char>> {
    match r {
        Restore::Nothing => Ok(None),
        Restore::Ceiling(celsius, bound) => Ok(Some((celsius, bound))),
        Restore::Refused(e) => Err(e@),
    }
}

/// What restoring the recorded ceiling at boot comes to, given the record (if it can be
/// read) and what the machine allows. A machine without the control has nothing to
/// restore; a reading that failed is reported.
pub fn reapply_temp_limit(
    home: &str,
    record: &Option<String>,
    capability: Result<Option<Capability>, String>,
) -> (r: Restore)
    ensures
        restore_view(r) == restored(home@, text_of(*record), outcome(capability)),
{
    if !is_absolute(home) {
        return Restore::Refused(fail("USER_HOME must be an absolute path"));
    }
    let (celsius, bound) = match record {
        Some(contents) => match remembered(contents.as_str()) {
            Some(request) => request,
            None => {
                return Restore::Nothing;
            },
        },
        None => {
            return Restore::Nothing;
        },
    };
    match capability {
        Err(e) => Restore::Refused(e),
        Ok(Some(c)) => if c.max_offset > 0 {
            Restore::Ceiling(celsius, bound)
        } else {
            Restore::Nothing
        },
        Ok(None) => Restore::Nothing,
    }
}

/// What a device is told by: the first entry whose own word for itself is the one that is
/// looked for, and none where no entry says so.
pub proof fn law_first_entry_of_that_name_is_found(entries: Seq<ClassEntry>, expected: Seq<char>)
    ensures
        match first_identified(entries, expected) {
            Some(i) => 0 <= i < entries.len() && entries[i].identity is Some && trimmed(
                entries[i].identity->0@,
            ) == expected && (forall|k: int|
                0 <= k < i ==> (#[trigger] entries[k]).identity is None || trimmed(
                    entries[k].identity->0@,
                ) != expected),
            None => forall|k: int|
                0 <= k < entries.len() ==> (#[trigger] entries[k]).identity is None || trimmed(
                    entries[k].identity->0@,
                ) != expected,
        },
    decreases entries.len(),
{
    if entries.len() > 0 && !identifies(entries[0], expected) {
        let rest = entries.drop_first();
        law_first_entry_of_that_name_is_found(rest, expected);
        assert forall|k: int| 0 < k < entries.len() implies #[trigger] entries[k] == rest[k - 1] by {}
        assert(forall|k: int| 0 <= k < rest.len() ==> rest[k] == #[trigger] entries[k + 1]);
    }
}

/// The control is the thermal class's device of type `TCC Offset`, and `Tjmax` comes from the
/// hardware monitor named `coretemp`.
pub proof fn law_devices_stand_in_their_classes(sysfs: Seq<char>, entries: Vec<ClassEntry>, i: int)
    requires
        0 <= i < entries@.len(),
        entries@[i].identity is Some,
        forall|k: int| 0 <= k < i ==> (#[trigger] entries@[k]).identity is None,
    ensures
        trimmed(entries@[i].identity->0@) == "TCC Offset"@ ==> cooling_device(sysfs, Ok(entries))
            == Ok::<Option<Seq<char>>, Seq<char>>(
            Some(joined_path(joined_path(sysfs, "class/thermal"@), entries@[i].name@)),
        ),
        trimmed(entries@[i].identity->0@) == "coretemp"@ ==> coretemp(sysfs, Ok(entries)) == Ok::<
            Option<Seq<char>>,
            Seq<char>,
        >(Some(joined_path(joined_path(sysfs, "class/hwmon"@), entries@[i].name@))),
{
    law_first_entry_of_that_name_is_found(entries@, "TCC Offset"@);
    law_first_entry_of_that_name_is_found(entries@, "coretemp"@);
}

/// Whole degrees are the millidegrees without their thousandths; a temperature below zero
/// that has none is zero, and one that a byte cannot hold is none at all.
pub proof fn law_whole_degrees_drop_the_thousandths(millicelsius: int)
    ensures
        whole_degrees(millicelsius) is Some <==> -1000 < millicelsius < 256 * 1000,
        0 <= millicelsius < 256 * 1000 ==> 1000 * whole_degrees(millicelsius)->0 <= millicelsius
            < 1000 * whole_degrees(millicelsius)->0 + 1000,
        -1000 < millicelsius < 0 ==> whole_degrees(millicelsius) == Some(0u8),
{
}

proof fn lemma_written_number_reads_back(n: nat, max: nat)
    requires
        n <= max,
    ensures
        trimmed(decimal_text(n).push('\n')) == decimal_text(n),
        trimmed(decimal_text(n)) == decimal_text(n),
        decimal_value(decimal_text(n), max) == Some(n),
{
    let digits = decimal_text(n);
    crate::number::lemma_decimal_text(n);
    crate::number::lemma_digits_not_space(digits, 10);
    crate::number::law_decimal_round_trip(n, max);
    crate::text::lemma_trimmed_line(digits);
    assert(crate::text::trim_front(digits) == digits);
    assert(crate::text::trim_back(digits) == digits);
}

/// The range of the offset is what `max_state` holds, and its value what `cur_state` holds.
pub proof fn law_offsets_are_what_the_attributes_hold(device: Seq<char>, max: u8, current: u8)
    ensures
        offsets_of(
            device,
            Ok(decimal_text(max as nat).push('\n')),
            Ok(decimal_text(current as nat).push('\n')),
        ) == Ok::<Offsets, Seq<char>>(Offsets { max, current }),
{
    lemma_written_number_reads_back(max as nat, 255);
    lemma_written_number_reads_back(current as nat, 255);
}

/// `Tjmax` is what the attribute holds in millidegrees.
pub proof fn law_millidegrees_read_as_degrees(path: Seq<char>, celsius: u8, thousandths: nat)
    requires
        thousandths < 1000,
    ensures
        degrees(path, Ok(decimal_text((1000 * celsius + thousandths) as nat).push('\n'))) == Ok::<
            Option<u8>,
            Seq<char>,
        >(Some(celsius)),
{
    let n = (1000 * celsius + thousandths) as nat;
    lemma_written_number_reads_back(n, 0x7fff_ffff_ffff_ffff);
    crate::number::law_signed_numbers_round_trip(n, 0x7fff_ffff_ffff_ffff);
}

/// Where nothing is recorded yet the offset in effect is the one this boot started with, and
/// is to be recorded; a record that cannot be read is not made anew.
pub proof fn law_factory_offset_is_recorded_once(current: u8, cause: String)
    ensures
        factory(FactoryRecord::Missing, current) == Ok::<FactoryOffset, Seq<char>>(
            FactoryOffset { offset: current, record: true },
        ),
        factory(FactoryRecord::Unreadable(cause), current) is Err,
{
}

/// What the helper prints of a machine whose control works: its `Tjmax`, the largest offset
/// and the offset in effect, in this order. One whose offset has no range is locked.
pub proof fn law_capability_is_printed_as_reported(
    tjmax_c: u8,
    max_offset: u8,
    current_offset: u8,
    factory_offset: u8,
)
    requires
        current_offset <= max_offset,
        current_offset <= tjmax_c,
    ensures
        ({
            let printed = caps_text(
                Some(Capability::made(tjmax_c, max_offset, current_offset, factory_offset)),
            );
            &&& max_offset > 0 ==> printed == "ok "@ + decimal_text(tjmax_c as nat) + " "@
                + decimal_text(max_offset as nat) + " "@ + decimal_text(current_offset as nat)
            &&& max_offset == 0 ==> printed == "locked"@
        }),
        caps_text(None) == "unsupported"@,
{
}

/// A request asks for the ceiling and the bound that its arguments name, and for nothing
/// where the bound is not known.
pub proof fn law_request_asks_for_what_it_names(celsius: u8, bound: Bound, word: Seq<char>)
    ensures
        ceiling_request(
            decimal_text(celsius as nat),
            match bound {
                Bound::Safe => "safe"@,
                Bound::Hardware => "hardware"@,
            },
        ) == Ok::<(u8, Bound), Seq<char>>((celsius, bound)),
        word != "safe"@ && word != "hardware"@ ==> ceiling_request(
            decimal_text(celsius as nat),
            word,
        ) is Err,
{
    lemma_written_number_reads_back(celsius as nat, 255);
    crate::protocol::temp_limit::law_bound_round_trip(bound);
}

/// The offset that is written puts the machine at exactly the ceiling that was asked for,
/// within the range the kernel accepts, and the read-back that follows confirms it.
pub proof fn law_written_offset_gives_the_ceiling(
    tjmax_c: u8,
    max_offset: u8,
    current_offset: u8,
    factory_offset: u8,
    celsius: u8,
    bound: Bound,
)
    requires
        needed_offset(
            Some(Capability::made(tjmax_c, max_offset, current_offset, factory_offset)),
            celsius,
            bound,
        ) is Ok,
    ensures
        ({
            let before = Capability::made(tjmax_c, max_offset, current_offset, factory_offset);
            let offset = needed_offset(Some(before), celsius, bound)->Ok_0;
            let after = Capability::made(tjmax_c, max_offset, offset, factory_offset);
            &&& tjmax_c - offset == celsius
            &&& offset <= max_offset
            &&& factory_offset <= max_offset && factory_offset <= tjmax_c ==> offset
                >= factory_offset
            &&& confirmation(Ok(Some(after)), celsius) is Ok
        }),
{
}

/// A request is met wherever the machine has the control and the ceiling lies in its range.
pub proof fn law_request_in_range_is_met(capability: Capability, celsius: u8, bound: Bound)
    requires
        capability.factory_offset <= capability.max_offset <= capability.tjmax_c,
    ensures
        needed_offset(Some(capability), celsius, Bound::Hardware) is Ok <==> capability.max_offset
            > 0 && capability.tjmax_c - capability.max_offset <= celsius <= capability.tjmax_c
            - capability.factory_offset,
        needed_offset(Some(capability), celsius, Bound::Safe) is Ok <==> capability.max_offset > 0
            && capability.tjmax_c - capability.max_offset <= celsius <= capability.tjmax_c
            - capability.factory_offset && (celsius >= 70 || celsius == capability.tjmax_c
            - capability.factory_offset),
        needed_offset(None, celsius, bound) is Err,
{
}

/// A ceiling is confirmed where the machine shows it, and only there.
pub proof fn law_only_the_shown_ceiling_is_confirmed(capability: Capability, celsius: u8)
    ensures
        confirmation(Ok(Some(capability)), celsius) is Ok <==> capability.current_c == celsius,
        confirmation(Ok(None), celsius) is Err,
{
}

/// At boot the ceiling comes back that was recorded, under the bound it was set under,
/// wherever the machine has a control that is not locked.
pub proof fn law_recorded_ceiling_comes_back(
    home: Seq<char>,
    celsius: u8,
    bound: Bound,
    capability: Capability,
)
    requires
        home.len() > 0 && home[0] == '/',
    ensures
        ({
            let record = Some(crate::protocol::temp_limit::record_text(celsius, bound));
            &&& capability.max_offset > 0 ==> restored(home, record, Ok(Some(capability))) == Ok::<
                Option<(u8, Bound)>,
                Seq<char>,
            >(Some((celsius, bound)))
            &&& capability.max_offset == 0 ==> restored(home, record, Ok(Some(capability))) == Ok::<
                Option<(u8, Bound)>,
                Seq<char>,
            >(None)
            &&& restored(home, record, Ok(None)) == Ok::<Option<(u8, Bound)>, Seq<char>>(None)
        }),
        restored(home, None, Ok(Some(capability))) == Ok::<Option<(u8, Bound)>, Seq<char>>(None),
{
    crate::protocol::temp_limit::law_record_round_trip(celsius, bound);
}

/// What restoring comes to is seen as it is.
pub proof fn law_restores_are_seen_as_they_are(celsius: u8, bound: Bound, e: String)
    ensures
        restore_view(Restore::Nothing) == Ok::<Option<(u8, Bound)>, Seq<char>>(None),
        restore_view(Restore::Ceiling(celsius, bound)) == Ok::<Option<(u8, Bound)>, Seq<char>>(
            Some((celsius, bound)),
        ),
        restore_view(Restore::Refused(e)) == Err::<Option<(u8, Bound)>, Seq<char>>(e@),
{
}

} // verus!
