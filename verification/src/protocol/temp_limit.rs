//! CPU temperature ceiling, through the kernel's TCC offset cooling device.
//!
//! Intel CPUs throttle at `Tjmax` minus the TCC offset. `intel_tcc_cooling` publishes the
//! offset as a thermal cooling device, and `coretemp` publishes `Tjmax` as the critical
//! temperature. The offset field is not a fixed width, so its range is read from the
//! kernel rather than assumed.

use vstd::prelude::*;

use crate::number::{
    decimal, decimal_text, decimal_value, law_decimal_round_trip, lemma_decimal_text,
    lemma_digits_not_space, parse_u8,
};
use crate::paths::{join_bytes, path_of, under};
use crate::text::{is_space, lemma_words_of_word, same, words, words_from, words_of};

verus! {

/// Thermal class root, relative to a sysfs root.
pub const THERMAL_CLASS: &'static str = "class/thermal";

/// `type` of the cooling device published by `intel_tcc_cooling`.
pub const COOLING_DEVICE_TYPE: &'static str = "TCC Offset";

/// hwmon class root, where `coretemp` reports `Tjmax`.
pub const HWMON_CLASS: &'static str = "class/hwmon";

/// hwmon device whose critical temperature is `Tjmax`.
pub const CORETEMP_NAME: &'static str = "coretemp";

/// Module that publishes the cooling device; the helper loads it on demand.
pub const KERNEL_MODULE: &'static str = "intel_tcc_cooling";

/// Module that publishes `Tjmax`; the helper loads it on demand too.
pub const CORETEMP_MODULE: &'static str = "coretemp";

/// Where the offset this boot started with is recorded: under `/run`, so whatever is
/// found there describes the current boot. The factory ceiling is not always `Tjmax`:
/// firmware can boot with a nonzero offset.
pub const FACTORY_OFFSET_FILE: &'static str = "/run/predator-sense/tcc-factory-offset";

/// Lowest ceiling accepted by default, in Celsius. A value far below it is not a cooler
/// machine but a permanently throttled one, so going lower has to be asked for with
/// [`Bound::Hardware`].
pub const SAFETY_FLOOR_C: u8 = 70;

/// Last ceiling the user asked for, relative to the config directory.
pub const LAST_LIMIT_FILE: &'static str = "predator-sense/temp_limit";

/// How far down a caller is allowed to go.
#[derive(Debug, Clone, Copy, PartialEq, Eq, Structural)]
pub enum Bound {
    /// Stop at [`SAFETY_FLOOR_C`].
    Safe,
    /// Go as low as the silicon allows. Only ever from an explicit opt-in.
    Hardware,
}

impl Default for Bound {
    fn default() -> (r: Self)
        ensures
            r == Bound::Safe,
    {
        Bound::Safe
    }
}

impl Bound {
    /// The word that stands for the bound on the wire and in the record.
    pub open spec fn wire_name(self) -> Seq<char> {
        match self {
            Bound::Safe => "safe"@,
            Bound::Hardware => "hardware"@,
        }
    }

    /// The word that stands for the bound on the wire and in the record.
    pub fn as_str(self) -> (r: &'static str)
        ensures
            r@ == self.wire_name(),
    {
        match self {
            Bound::Safe => "safe",
            Bound::Hardware => "hardware",
        }
    }

    /// The bound a word names.
    pub open spec fn named(value: Seq<char>) -> Option<Bound> {
        if value == "safe"@ {
            Some(Bound::Safe)
        } else if value == "hardware"@ {
            Some(Bound::Hardware)
        } else {
            None
        }
    }

    /// The bound a word names.
    pub fn parse(value: &str) -> (r: Option<Self>)
        ensures
            r == Bound::named(value@),
    {
        if same(value, "safe") {
            Some(Bound::Safe)
        } else if same(value, "hardware") {
            Some(Bound::Hardware)
        } else {
            None
        }
    }
}

/// A bound reads back from the word it is written as.
pub proof fn law_bound_round_trip(bound: Bound)
    ensures
        Bound::named(bound.wire_name()) == Some(bound),
{
    reveal_strlit("safe");
    reveal_strlit("hardware");
    assert("safe"@.len() == 4);
    assert("hardware"@.len() == 8);
}

/// Why the ceiling cannot be set, when it cannot.
#[derive(Debug, Clone, PartialEq, Eq)]
pub enum Unavailable {
    /// No TCC cooling device, or nothing to count the offset from. Stable: worth caching.
    Unsupported,
    /// The device is there but its range is empty, which is how a locked offset surfaces.
    /// Stable: worth caching.
    Locked,
    /// Something failed this time. Not stable: the caller should be able to retry.
    Error(String),
}

/// What this CPU allows, all of it read from the kernel.
#[derive(Debug, Clone, Copy, PartialEq, Eq, Structural)]
pub struct Capability {
    /// Thermal junction maximum, in Celsius.
    pub tjmax_c: u8,
    /// Largest offset the running kernel accepts for this part.
    pub max_offset: u8,
    /// Ceiling in effect right now, in Celsius.
    pub current_c: u8,
    /// Offset the firmware booted with. Usually zero, but not always.
    pub factory_offset: u8,
}

/// `a - b`, or zero where that is negative.
pub open spec fn monus(a: int, b: int) -> int {
    if a >= b {
        a - b
    } else {
        0
    }
}

pub open spec fn smaller(a: int, b: int) -> int {
    if a <= b {
        a
    } else {
        b
    }
}

pub open spec fn larger(a: int, b: int) -> int {
    if a >= b {
        a
    } else {
        b
    }
}

fn min_u8(a: u8, b: u8) -> (r: u8)
    ensures
        r == smaller(a as int, b as int),
{
    if a <= b {
        a
    } else {
        b
    }
}

fn max_u8(a: u8, b: u8) -> (r: u8)
    ensures
        r == larger(a as int, b as int),
{
    if a >= b {
        a
    } else {
        b
    }
}

fn sub_u8(a: u8, b: u8) -> (r: u8)
    ensures
        r == monus(a as int, b as int),
{
    if a >= b {
        a - b
    } else {
        0
    }
}

impl Capability {
    /// The factory offset lies in the range the kernel accepts, as [`Capability::new`]
    /// makes it.
    pub open spec fn wf(self) -> bool {
        self.factory_offset <= self.max_offset
    }

    /// The capability that sysfs and the offset this boot started with describe. Offsets
    /// beyond the field are read as its end.
    pub open spec fn made(
        tjmax_c: u8,
        max_offset: u8,
        current_offset: u8,
        factory_offset: u8,
    ) -> Capability {
        Capability {
            tjmax_c,
            max_offset,
            current_c: monus(
                tjmax_c as int,
                smaller(current_offset as int, max_offset as int),
            ) as u8,
            factory_offset: smaller(factory_offset as int, max_offset as int) as u8,
        }
    }

    /// Builds a capability from what sysfs reports, plus the offset this boot started
    /// with. Offsets beyond the field are read as its end.
    pub fn new(tjmax_c: u8, max_offset: u8, current_offset: u8, factory_offset: u8) -> (r: Self)
        ensures
            r.wf(),
            r == Capability::made(tjmax_c, max_offset, current_offset, factory_offset),
    {
        Capability {
            tjmax_c,
            max_offset,
            current_c: sub_u8(tjmax_c, min_u8(current_offset, max_offset)),
            factory_offset: min_u8(factory_offset, max_offset),
        }
    }

    /// The lowest ceiling the silicon can express.
    pub open spec fn hardware_floor(self) -> int {
        monus(self.tjmax_c as int, self.max_offset as int)
    }

    /// The ceiling the firmware booted with.
    pub open spec fn top(self) -> int {
        monus(self.tjmax_c as int, self.factory_offset as int)
    }

    /// The lowest ceiling allowed under a bound.
    pub open spec fn floor(self, bound: Bound) -> int {
        match bound {
            Bound::Safe => smaller(larger(self.hardware_floor(), SAFETY_FLOOR_C as int), self.top()),
            Bound::Hardware => smaller(self.hardware_floor(), self.top()),
        }
    }

    /// Whether a ceiling may be set under a bound.
    pub open spec fn allows(self, celsius: u8, bound: Bound) -> bool {
        self.floor(bound) <= celsius <= self.top()
    }

    /// Lowest ceiling allowed under `bound`: the safety floor where the part can reach it,
    /// the hardware floor otherwise, and never above the factory ceiling.
    pub fn min_c_within(&self, bound: Bound) -> (r: u8)
        ensures
            r == self.floor(bound),
    {
        match bound {
            Bound::Safe => min_u8(max_u8(self.hardware_min_c(), SAFETY_FLOOR_C), self.max_c()),
            Bound::Hardware => min_u8(self.hardware_min_c(), self.max_c()),
        }
    }

    /// Lowest ceiling under the default bound.
    pub fn min_c(&self) -> (r: u8)
        ensures
            r == self.floor(Bound::Safe),
    {
        self.min_c_within(Bound::Safe)
    }

    /// Lowest ceiling the silicon can express, ignoring the safety floor.
    pub fn hardware_min_c(&self) -> (r: u8)
        ensures
            r == self.hardware_floor(),
    {
        sub_u8(self.tjmax_c, self.max_offset)
    }

    /// Whether lifting the safety floor would actually widen the range on this part.
    pub fn can_go_below_floor(&self) -> (r: bool)
        ensures
            r == (self.hardware_floor() < self.floor(Bound::Safe)),
    {
        self.hardware_min_c() < self.min_c_within(Bound::Safe)
    }

    /// Highest ceiling this control will set: the one the firmware booted with, which is
    /// not always `Tjmax`.
    pub fn max_c(&self) -> (r: u8)
        ensures
            r == self.top(),
    {
        sub_u8(self.tjmax_c, self.factory_offset)
    }

    /// Whether `celsius` is a ceiling this CPU can be set to under `bound`. Callers reject
    /// what is outside rather than clamp it.
    pub fn accepts_within(&self, celsius: u8, bound: Bound) -> (r: bool)
        ensures
            r == self.allows(celsius, bound),
    {
        self.min_c_within(bound) <= celsius && celsius <= self.max_c()
    }

    /// Whether `celsius` is allowed under the default bound.
    pub fn accepts(&self, celsius: u8) -> (r: bool)
        ensures
            r == self.allows(celsius, Bound::Safe),
    {
        self.accepts_within(celsius, Bound::Safe)
    }

    /// The offset that produces `celsius` under `bound`, or `None` if out of range.
    pub open spec fn offset(self, celsius: u8, bound: Bound) -> Option<u8> {
        if self.allows(celsius, bound) {
            Some(monus(self.tjmax_c as int, celsius as int) as u8)
        } else {
            None
        }
    }

    /// The offset that produces `celsius` under `bound`, or `None` if out of range.
    pub fn offset_for_within(&self, celsius: u8, bound: Bound) -> (r: Option<u8>)
        ensures
            r == self.offset(celsius, bound),
    {
        if self.accepts_within(celsius, bound) {
            Some(sub_u8(self.tjmax_c, celsius))
        } else {
            None
        }
    }

    /// The offset that produces `celsius` under the default bound.
    pub fn offset_for(&self, celsius: u8) -> (r: Option<u8>)
        ensures
            r == self.offset(celsius, Bound::Safe),
    {
        self.offset_for_within(celsius, Bound::Safe)
    }
}

/// The range is never inverted, under either bound: there is always a ceiling to choose,
/// the factory one among them.
pub proof fn law_range_is_never_inverted(capability: Capability, bound: Bound)
    ensures
        0 <= capability.floor(bound) <= capability.top() <= capability.tjmax_c,
        capability.allows(capability.top() as u8, bound),
{
}

/// The opt-in only ever widens the range.
pub proof fn law_hardware_bound_only_widens(capability: Capability, celsius: u8)
    requires
        capability.allows(celsius, Bound::Safe),
    ensures
        capability.allows(celsius, Bound::Hardware),
{
}

/// Under the default bound no ceiling below the safety floor is accepted, but for the
/// factory ceiling itself where that lies below it.
pub proof fn law_safe_ceilings_respect_the_floor(capability: Capability, celsius: u8)
    requires
        capability.allows(celsius, Bound::Safe),
    ensures
        celsius >= SAFETY_FLOOR_C || celsius == capability.top(),
{
}

/// An accepted ceiling has an offset that the kernel accepts, that produces exactly this
/// ceiling, and that is no smaller than the one the firmware booted with: the control
/// never raises the factory ceiling.
pub proof fn law_accepted_offsets_fit(capability: Capability, celsius: u8, bound: Bound)
    requires
        capability.wf(),
        capability.allows(celsius, bound),
    ensures
        capability.offset(celsius, bound) is Some,
        capability.offset(celsius, bound)->0 <= capability.max_offset,
        capability.tjmax_c - capability.offset(celsius, bound)->0 == celsius,
        capability.factory_offset <= capability.tjmax_c ==> capability.offset(celsius, bound)->0
            >= capability.factory_offset,
{
}

/// A rejected ceiling is not replaced by another one.
pub proof fn law_rejected_ceilings_have_no_offset(
    capability: Capability,
    celsius: u8,
    bound: Bound,
)
    requires
        celsius < capability.floor(bound) || celsius > capability.top(),
    ensures
        capability.offset(celsius, bound) is None,
{
}

/// The recorded ceiling under an explicit config directory.
pub fn last_limit_path_under(config_home: &[u8]) -> (r: Vec<u8>)
    ensures
        r@ == under(config_home@, LAST_LIMIT_FILE@),
{
    join_bytes(config_home, LAST_LIMIT_FILE)
}

/// The recorded ceiling of the user whose home directory is given: always below
/// `.config`, because the boot service knows no more of that user's environment.
pub fn last_limit_path(home: &Option<Vec<u8>>) -> (r: Option<Vec<u8>>)
    ensures
        path_of(r) == (match path_of(*home) {
            Some(h) => Some(under(under(h, ".config"@), LAST_LIMIT_FILE@)),
            None => None,
        }),
{
    match home {
        Some(h) => Some(last_limit_path_under(join_bytes(h.as_slice(), ".config").as_slice())),
        None => None,
    }
}

/// The record of a ceiling and of the bound it was allowed under.
pub open spec fn record_text(celsius: u8, bound: Bound) -> Seq<char> {
    decimal_text(celsius as nat) + " "@ + bound.wire_name() + "\n"@
}

/// The record that lets the boot service restore a ceiling on the terms it was set. The
/// bound is stored and not derived from the value, so that no number in the file
/// authorises itself.
pub fn remember(celsius: u8, bound: Bound) -> (r: String)
    ensures
        r@ == record_text(celsius, bound),
{
    let mut out = decimal(celsius as u64);
    out.append(" ");
    out.append(bound.as_str());
    out.append("\n");
    out
}

/// What a record says. One without a bound is read as [`Bound::Safe`]; a bound that is
/// there but not known invalidates the whole record.
pub open spec fn recorded(contents: Seq<char>) -> Option<(u8, Bound)> {
    let fields = words_of(contents);
    if fields.len() == 0 {
        None
    } else {
        match decimal_value(fields[0], 255) {
            None => None,
            Some(n) => if fields.len() == 1 {
                Some((n as u8, Bound::Safe))
            } else {
                match Bound::named(fields[1]) {
                    Some(bound) => Some((n as u8, bound)),
                    None => None,
                }
            },
        }
    }
}

/// Reads back a record.
pub fn remembered(contents: &str) -> (r: Option<(u8, Bound)>)
    ensures
        r == recorded(contents@),
{
    let fields = words(contents);
    let ghost t = words_of(contents@);
    if fields.len() == 0 {
        return None;
    }
    assert(t[0] == fields@[0]@);
    match parse_u8(fields[0].as_str()) {
        None => None,
        Some(celsius) => {
            if fields.len() == 1 {
                Some((celsius, Bound::Safe))
            } else {
                assert(t[1] == fields@[1]@);
                match Bound::parse(fields[1].as_str()) {
                    Some(bound) => Some((celsius, bound)),
                    None => None,
                }
            }
        },
    }
}

/// What was recorded is what the boot service reads: the same ceiling, on the same terms.
pub proof fn law_record_round_trip(celsius: u8, bound: Bound)
    ensures
        recorded(record_text(celsius, bound)) == Some((celsius, bound)),
{
    let digits = decimal_text(celsius as nat);
    let word = bound.wire_name();
    lemma_decimal_text(celsius as nat);
    lemma_digits_not_space(digits, 10);
    law_decimal_round_trip(celsius as nat, 255);
    law_bound_round_trip(bound);
    reveal_strlit("safe");
    reveal_strlit("hardware");
    reveal_strlit(" ");
    reveal_strlit("\n");
    assert(forall|i: int| 0 <= i < word.len() ==> !is_space(#[trigger] word[i]));
    let end = "\n"@;
    let tail = " "@ + word + end;
    assert(record_text(celsius, bound) == digits + tail);
    lemma_words_of_word(seq![], digits, tail);
    assert(Seq::<char>::empty() + digits == digits);
    assert(tail[0] == ' ');
    assert(tail.drop_first() == word + end);
    lemma_words_of_word(seq![], word, end);
    assert(Seq::<char>::empty() + word == word);
    assert(end[0] == '\n');
    assert(end.drop_first() == Seq::<char>::empty());
    assert(words_from(seq![], end.drop_first()) == Seq::<Seq<char>>::empty());
    assert(words_from(word, end) == seq![word] + words_from(seq![], end.drop_first()));
    assert(words_of(record_text(celsius, bound)) == seq![digits] + (seq![word] + seq![]));
}

/// What the kernel reports is kept: the ceiling in effect lies below `Tjmax` by the offset in
/// effect, and the factory offset is the one this boot started with, as far as either is in
/// the field's range; one beyond it is taken as the end of the range.
pub proof fn law_capability_is_what_was_reported(
    tjmax_c: u8,
    max_offset: u8,
    current_offset: u8,
    factory_offset: u8,
)
    ensures
        ({
            let c = Capability::made(tjmax_c, max_offset, current_offset, factory_offset);
            &&& c.tjmax_c == tjmax_c
            &&& c.max_offset == max_offset
            &&& current_offset <= max_offset && current_offset <= tjmax_c ==> c.tjmax_c
                - c.current_c == current_offset
            &&& max_offset <= current_offset && max_offset <= tjmax_c ==> c.tjmax_c - c.current_c
                == max_offset
            &&& factory_offset <= max_offset ==> c.factory_offset == factory_offset
            &&& max_offset <= factory_offset ==> c.factory_offset == max_offset
        }),
{
}

/// Which ceilings are allowed: between what the silicon can express and what the firmware
/// booted with, and by default from seventy degrees on, but for the factory ceiling itself.
pub proof fn law_allowed_ceilings(capability: Capability, celsius: u8)
    requires
        capability.factory_offset <= capability.max_offset <= capability.tjmax_c,
    ensures
        capability.allows(celsius, Bound::Hardware) <==> capability.tjmax_c - capability.max_offset
            <= celsius <= capability.tjmax_c - capability.factory_offset,
        capability.allows(celsius, Bound::Safe) <==> capability.tjmax_c - capability.max_offset
            <= celsius <= capability.tjmax_c - capability.factory_offset && (celsius >= 70
            || celsius == capability.tjmax_c - capability.factory_offset),
{
}

/// A bound is named by its word and by nothing else.
pub proof fn law_bounds_are_named_by_their_words(word: Seq<char>)
    ensures
        Bound::named(word) == Some(Bound::Safe) <==> word == "safe"@,
        Bound::named(word) == Some(Bound::Hardware) <==> word == "hardware"@,
{
    law_bound_round_trip(Bound::Safe);
    law_bound_round_trip(Bound::Hardware);
}

/// A record without a bound is on the default terms, and one whose bound is not known says
/// nothing, whatever ceiling it names.
pub proof fn law_records_without_a_known_bound(celsius: u8, word: Seq<char>)
    requires
        word.len() > 0,
        forall|i: int| 0 <= i < word.len() ==> !is_space(#[trigger] word[i]),
        word != "safe"@ && word != "hardware"@,
    ensures
        recorded(decimal_text(celsius as nat)) == Some((celsius, Bound::Safe)),
        recorded(decimal_text(celsius as nat) + (seq![' '] + word)) is None,
{
    let digits = decimal_text(celsius as nat);
    lemma_decimal_text(celsius as nat);
    lemma_digits_not_space(digits, 10);
    law_decimal_round_trip(celsius as nat, 255);
    crate::text::law_words_stand_between_spaces(digits, ' ', word);
    crate::text::law_words_stand_between_spaces(word, ' ', seq![]);
}

/// Where the kernel publishes the control and where the ceilings are kept.
pub proof fn law_control_is_looked_for_by_its_names()
    ensures
        THERMAL_CLASS@ == "class/thermal"@,
        COOLING_DEVICE_TYPE@ == "TCC Offset"@,
        HWMON_CLASS@ == "class/hwmon"@,
        CORETEMP_NAME@ == "coretemp"@,
        KERNEL_MODULE@ == "intel_tcc_cooling"@,
        CORETEMP_MODULE@ == "coretemp"@,
        FACTORY_OFFSET_FILE@ == "/run/predator-sense/tcc-factory-offset"@,
        LAST_LIMIT_FILE@ == "predator-sense/temp_limit"@,
{
}

} // verus!
