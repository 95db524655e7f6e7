//! What is put back at boot: the battery settings and the thermal profile.

use vstd::prelude::*;

use crate::number::{decimal, decimal_text};
use crate::paths::{is_absolute, is_absolute_path};
use crate::privileged::cpu_apply::{CpuWrite, Write};
use crate::privileged::messages::{fail, failure};
use crate::protocol::battery::CHARGE_LIMIT_ATTRIBUTE;
use crate::protocol::thermal_profile::{
    bit_set, indices_from_mask, mask_value, parse_mask, recorded, remembered, MAX_INDICES,
};
use crate::text::{cat3, cat4, cat5, join, joined, outcome, text_of, texts};

verus! {

/// What became of the user's configuration.
pub enum SavedBattery {
    /// There is none that can be read.
    Missing,
    /// It does not parse, for this reason.
    Invalid(String),
    Settings { limiter: bool, health_mode: bool },
}

/// An attribute of this machine, and whether it is there.
pub struct Place {
    pub path: String,
    pub exists: bool,
}

/// One setting that is put back.
#[derive(Debug)]
pub enum RestoreStep {
    Write(CpuWrite),
    /// The setting is left out, and this says why.
    Skip(String),
}

/// A step as contracts speak of it.
pub enum Step {
    Write(Write),
    Skip(Seq<char>),
}

/// A step as contracts speak of it.
pub open spec fn step_view(step: RestoreStep) -> Step {
    match step {
        RestoreStep::Write(write) => Step::Write(write.as_write()),
        RestoreStep::Skip(note) => Step::Skip(note@),
    }
}

/// Steps as contracts speak of them.
pub open spec fn steps_view(steps: Seq<RestoreStep>) -> Seq<Step> {
    Seq::new(steps.len(), |i: int| step_view(steps[i]))
}

/// What putting one setting back comes to. A setting that the running kernel does not
/// expose is no failure: most machines have only one of the two mechanisms.
pub open spec fn setting_step(label: Seq<char>, value: Seq<char>, place: Option<Place>) -> Step {
    match place {
        Some(p) => if p.exists {
            Step::Write(Write { label, value, path: p.path@ })
        } else {
            Step::Skip(
                failure("skipping unavailable "@ + label + " attribute "@ + p.path@),
            )
        },
        None => Step::Skip(
            failure(
                "skipping "@ + label + ": this machine exposes no battery "@
                    + CHARGE_LIMIT_ATTRIBUTE@,
            ),
        ),
    }
}

fn restore_setting(label: &str, value: &str, place: &Option<Place>) -> (r: RestoreStep)
    ensures
        step_view(r) == setting_step(label@, value@, *place),
{
    match place {
        Some(p) => if p.exists {
            RestoreStep::Write(
                CpuWrite {
                    label: label.to_owned(),
                    value: value.to_owned(),
                    path: p.path.clone(),
                },
            )
        } else {
            RestoreStep::Skip(
                fail(
                    cat4("skipping unavailable ", label, " attribute ", p.path.as_str()).as_str(),
                ),
            )
        },
        None => RestoreStep::Skip(
            fail(
                cat4(
                    "skipping ",
                    label,
                    ": this machine exposes no battery ",
                    CHARGE_LIMIT_ATTRIBUTE,
                ).as_str(),
            ),
        ),
    }
}

/// What putting the battery settings back comes to: one step for every setting that is
/// enabled, the charge limit first.
pub open spec fn battery_steps(
    home: Seq<char>,
    config_path: Seq<char>,
    saved: SavedBattery,
    limit: Option<Place>,
    health: Option<Place>,
) -> Result<Seq<Step>, Seq<char>> {
    if !is_absolute_path(home) {
        Err(failure("USER_HOME must be an absolute path"@))
    } else {
        match saved {
            SavedBattery::Missing => Ok(seq![]),
            SavedBattery::Invalid(cause) => Err(
                failure("invalid "@ + config_path + ": "@ + cause@),
            ),
            SavedBattery::Settings { limiter, health_mode } => {
                let first = if limiter {
                    seq![setting_step("battery-limit"@, "80"@, limit)]
                } else {
                    seq![]
                };
                let second = if health_mode {
                    seq![setting_step("battery-health"@, "1"@, health)]
                } else {
                    seq![]
                };
                Ok(first + second)
            },
        }
    }
}

/// Steps or an error, as contracts speak of them.
pub open spec fn plan_view(r: Result<Vec<RestoreStep>, String>) -> Result<Seq<Step>, Seq<char>> {
    match r {
        Ok(steps) => Ok(steps_view(steps@)),
        Err(e) => Err(e@),
    }
}

/// Works out what putting the battery settings back comes to.
pub fn reapply_battery(
    home: &str,
    config_path: &str,
    saved: &SavedBattery,
    limit: &Option<Place>,
    health: &Option<Place>,
) -> (r: Result<Vec<RestoreStep>, String>)
    ensures
        plan_view(r) == battery_steps(home@, config_path@, *saved, *limit, *health),
{
    if !is_absolute(home) {
        return Err(fail("USER_HOME must be an absolute path"));
    }
    let mut steps: Vec<RestoreStep> = Vec::new();
    match saved {
        SavedBattery::Missing => {
            assert(steps_view(steps@) == Seq::<Step>::empty());
            Ok(steps)
        },
        SavedBattery::Invalid(cause) => Err(
            fail(cat4("invalid ", config_path, ": ", cause.as_str()).as_str()),
        ),
        SavedBattery::Settings { limiter, health_mode } => {
            if *limiter {
                steps.push(restore_setting("battery-limit", "80", limit));
            }
            let ghost first = steps_view(steps@);
            if *health_mode {
                steps.push(restore_setting("battery-health", "1", health));
            }
            proof {
                let one = if *limiter {
                    seq![setting_step("battery-limit"@, "80"@, *limit)]
                } else {
                    seq![]
                };
                let two = if *health_mode {
                    seq![setting_step("battery-health"@, "1"@, *health)]
                } else {
                    seq![]
                };
                assert(first == one);
                assert(steps_view(steps@) == one + two);
            }
            Ok(steps)
        },
    }
}

/// What a run in which these writes failed ends in. Every setting is tried; the errors are
/// reported together.
pub open spec fn settled(errors: Seq<Seq<char>>) -> Result<(), Seq<char>> {
    if errors.len() == 0 {
        Ok(())
    } else {
        Err(joined(errors, "; "@))
    }
}

/// What a run in which these writes failed ends in.
pub fn settle(errors: &Vec<String>) -> (r: Result<(), String>)
    ensures
        outcome(r) == settled(texts(errors@)),
{
    if errors.len() == 0 {
        Ok(())
    } else {
        Err(join(errors, "; "))
    }
}

/// What putting the thermal profile back comes to.
#[derive(Debug)]
pub enum ThermalRestore {
    /// There is nothing to put back, or nowhere to put it.
    Nothing,
    /// This index is to be written.
    Index(u8),
    Refused(String),
}

/// A list of indices as errors show it.
pub open spec fn list_text(indices: Seq<u8>) -> Seq<char> {
    "["@ + joined(Seq::new(indices.len(), |i: int| decimal_text(indices[i] as nat)), ", "@) + "]"@
}

fn show_list(indices: &Vec<u8>) -> (r: String)
    ensures
        r@ == list_text(indices@),
{
    let mut parts: Vec<String> = Vec::new();
    let mut i: usize = 0;
    while i < indices.len()
        invariant
            i <= indices@.len(),
            parts@.len() == i,
            forall|k: int| 0 <= k < i ==> (#[trigger] parts@[k])@ == decimal_text(
                indices@[k] as nat,
            ),
        decreases indices@.len() - i,
    {
        parts.push(decimal(indices[i] as u64));
        i = i + 1;
    }
    assert(texts(parts@) == Seq::new(
        indices@.len(),
        |i: int| decimal_text(indices@[i] as nat),
    ));
    cat3("[", join(&parts, ", ").as_str(), "]")
}

/// The indices that a mask's text names, in increasing order; none where it cannot be read.
pub open spec fn names_indices(mask: Option<Seq<char>>, indices: Seq<u8>) -> bool {
    let value = match mask {
        Some(text) => mask_value(text),
        None => None,
    };
    match value {
        None => indices.len() == 0,
        Some(m) => {
            &&& forall|n: u8|
                #[trigger] indices.contains(n) <==> n < MAX_INDICES && bit_set(m as u8, n)
            &&& forall|i: int, j: int| 0 <= i < j < indices.len() ==> indices[i] < indices[j]
        },
    }
}

/// Works out what putting the thermal profile back comes to, given the record and the mask
/// of supported profiles (each where it can be read), and whether the firmware's attribute
/// is there. An index that the firmware no longer supports is refused with a clear message.
pub fn reapply_thermal(
    home: &str,
    record: &Option<String>,
    attribute_exists: bool,
    mask: &Option<String>,
) -> (r: ThermalRestore)
    ensures
        ({
            let index = match text_of(*record) {
                Some(text) => recorded(text),
                None => None,
            };
            if !is_absolute_path(home@) {
                r is Refused && r->Refused_0@ == failure("USER_HOME must be an absolute path"@)
            } else if index is None || !attribute_exists {
                r is Nothing
            } else {
                exists|supported: Seq<u8>|
                    {
                        &&& #[trigger] names_indices(text_of(*mask), supported)
                        &&& if supported.len() > 0 && !supported.contains(index->0 as u8) {
                            r is Refused && r->Refused_0@ == failure(
                                "recorded thermal profile "@ + decimal_text(index->0)
                                    + " is not supported by this firmware ("@ + list_text(
                                    supported,
                                ) + ")"@,
                            )
                        } else {
                            r is Index && r->Index_0 == index->0
                        }
                    }
            }
        }),
        // What is put back was recorded, and the firmware does not rule it out.
        r is Index ==> record is Some && recorded(record->0@) == Some(r->Index_0 as nat),
        r is Index && mask is Some && mask_value(mask->0@) is Some && mask_value(mask->0@)->0 > 0
            ==> bit_set(mask_value(mask->0@)->0 as u8, r->Index_0),
{
    if !is_absolute(home) {
        return ThermalRestore::Refused(fail("USER_HOME must be an absolute path"));
    }
    let index: u8 = match record {
        Some(text) => match remembered(text.as_str()) {
            Some(index) => index,
            None => {
                return ThermalRestore::Nothing;
            },
        },
        None => {
            return ThermalRestore::Nothing;
        },
    };
    if !attribute_exists {
        return ThermalRestore::Nothing;
    }
    let supported: Vec<u8> = match mask {
        Some(text) => match parse_mask(text.as_str()) {
            Some(m) => indices_from_mask(m),
            None => Vec::new(),
        },
        None => Vec::new(),
    };
    assert(names_indices(text_of(*mask), supported@));
    let mut known = false;
    let mut i: usize = 0;
    while i < supported.len()
        invariant
            i <= supported@.len(),
            known <==> exists|k: int| 0 <= k < i && supported@[k] == index,
        decreases supported@.len() - i,
    {
        if supported[i] == index {
            known = true;
        }
        i = i + 1;
    }
    assert(known == supported@.contains(index));
    proof {
        if mask is Some && mask_value(mask->0@) is Some && mask_value(mask->0@)->0 > 0 {
            let m = mask_value(mask->0@)->0 as u8;
            let n = lemma_some_bit_is_set(m);
            assert(supported@.contains(n));
        }
    }
    if supported.len() > 0 && !known {
        ThermalRestore::Refused(
            fail(
                cat5(
                    "recorded thermal profile ",
                    decimal(index as u64).as_str(),
                    " is not supported by this firmware (",
                    show_list(&supported).as_str(),
                    ")",
                ).as_str(),
            ),
        )
    } else {
        ThermalRestore::Index(index)
    }
}

/// Each battery setting that is enabled is put back where the machine has it: the charge
/// limit as eighty percent into its own attribute, before the health mode as a one into its
/// own. A setting that is not enabled is not touched.
pub proof fn law_enabled_settings_are_put_back(
    home: Seq<char>,
    config_path: Seq<char>,
    limiter: bool,
    health_mode: bool,
    limit: Place,
    health: Place,
)
    requires
        home.len() > 0 && home[0] == '/',
        limit.exists && health.exists,
    ensures
        ({
            let steps = battery_steps(
                home,
                config_path,
                SavedBattery::Settings { limiter, health_mode },
                Some(limit),
                Some(health),
            );
            let last = steps->Ok_0.len() - 1;
            &&& steps is Ok
            &&& steps->Ok_0.len() == (if limiter {
                1int
            } else {
                0
            }) + (if health_mode {
                1int
            } else {
                0
            })
            &&& limiter ==> steps->Ok_0[0] == Step::Write(
                Write { label: "battery-limit"@, value: "80"@, path: limit.path@ },
            )
            &&& health_mode ==> steps->Ok_0[last] == Step::Write(
                Write { label: "battery-health"@, value: "1"@, path: health.path@ },
            )
        }),
{
}

/// A setting that the machine does not expose is left out with a note and is no error; a
/// configuration that does not parse is one, and a missing one is not.
pub proof fn law_missing_settings_are_skipped(
    home: Seq<char>,
    config_path: Seq<char>,
    limiter: bool,
    health_mode: bool,
    cause: String,
    i: int,
)
    requires
        home.len() > 0 && home[0] == '/',
    ensures
        ({
            let steps = battery_steps(
                home,
                config_path,
                SavedBattery::Settings { limiter, health_mode },
                None,
                None,
            );
            steps is Ok && (0 <= i < steps->Ok_0.len() ==> steps->Ok_0[i] is Skip)
        }),
        battery_steps(home, config_path, SavedBattery::Missing, None, None) == Ok::<
            Seq<Step>,
            Seq<char>,
        >(seq![]),
        battery_steps(home, config_path, SavedBattery::Invalid(cause), None, None) is Err,
{
}

/// A run without a failed write succeeded; one failure is reported as it is, and each
/// further one behind it.
pub proof fn law_every_failure_is_reported(errors: Seq<Seq<char>>, error: Seq<char>)
    ensures
        settled(seq![]) is Ok,
        settled(errors.push(error)) is Err,
        settled(seq![error]) == Err::<(), Seq<char>>(error),
        errors.len() > 0 ==> settled(errors.push(error)) == Err::<(), Seq<char>>(
            settled(errors)->Err_0 + "; "@ + error,
        ),
{
    assert(errors.push(error).drop_last() =~= errors);
}

proof fn lemma_some_bit_is_set(mask: u8) -> (n: u8)
    requires
        mask > 0,
    ensures
        n < MAX_INDICES,
        bit_set(mask, n),
{
    assert(mask > 0 ==> mask & (1u8 << 0u8) != 0 || mask & (1u8 << 1u8) != 0 || mask & (1u8 << 2u8)
        != 0 || mask & (1u8 << 3u8) != 0 || mask & (1u8 << 4u8) != 0 || mask & (1u8 << 5u8) != 0
        || mask & (1u8 << 6u8) != 0 || mask & (1u8 << 7u8) != 0) by (bit_vector);
    if bit_set(mask, 0) {
        0
    } else if bit_set(mask, 1) {
        1
    } else if bit_set(mask, 2) {
        2
    } else if bit_set(mask, 3) {
        3
    } else if bit_set(mask, 4) {
        4
    } else if bit_set(mask, 5) {
        5
    } else if bit_set(mask, 6) {
        6
    } else {
        7
    }
}

/// A step is seen as it is: a write with its parts in their places, or a note.
pub proof fn law_steps_are_seen_as_they_are(write: CpuWrite, note: String)
    ensures
        step_view(RestoreStep::Write(write)) == Step::Write(
            (Write { label: write.label@, value: write.value@, path: write.path@ }),
        ),
        step_view(RestoreStep::Skip(note)) == Step::Skip(note@),
{
}

} // verus!
