//! The five power modes.

use vstd::prelude::*;

use crate::text::same;

verus! {

/// The power modes, from the weakest to the strongest.
#[derive(Debug, Clone, Copy, PartialEq, Eq, Structural)]
pub enum PowerProfile {
    Eco,
    Quiet,
    Balanced,
    Performance,
    Turbo,
}

impl PowerProfile {
    /// The mode's place on the power ladder.
    pub open spec fn tier(self) -> int {
        match self {
            PowerProfile::Eco => 0,
            PowerProfile::Quiet => 1,
            PowerProfile::Balanced => 2,
            PowerProfile::Performance => 3,
            PowerProfile::Turbo => 4,
        }
    }

    /// The mode's place on the power ladder.
    pub fn index(self) -> (r: i8)
        ensures
            r == self.tier(),
            0 <= r <= 4,
    {
        match self {
            PowerProfile::Eco => 0,
            PowerProfile::Quiet => 1,
            PowerProfile::Balanced => 2,
            PowerProfile::Performance => 3,
            PowerProfile::Turbo => 4,
        }
    }

    /// The mode's name in the configuration.
    pub open spec fn id(self) -> Seq<char> {
        match self {
            PowerProfile::Eco => "eco"@,
            PowerProfile::Quiet => "quiet"@,
            PowerProfile::Balanced => "balanced"@,
            PowerProfile::Performance => "performance"@,
            PowerProfile::Turbo => "turbo"@,
        }
    }

    /// The mode's name in the configuration.
    pub fn to_id(self) -> (r: &'static str)
        ensures
            r@ == self.id(),
    {
        match self {
            PowerProfile::Eco => "eco",
            PowerProfile::Quiet => "quiet",
            PowerProfile::Balanced => "balanced",
            PowerProfile::Performance => "performance",
            PowerProfile::Turbo => "turbo",
        }
    }

    /// The mode that a name stands for.
    pub open spec fn named(id: Seq<char>) -> Option<PowerProfile> {
        if id == "eco"@ {
            Some(PowerProfile::Eco)
        } else if id == "quiet"@ {
            Some(PowerProfile::Quiet)
        } else if id == "balanced"@ {
            Some(PowerProfile::Balanced)
        } else if id == "performance"@ {
            Some(PowerProfile::Performance)
        } else if id == "turbo"@ {
            Some(PowerProfile::Turbo)
        } else {
            None
        }
    }

    /// The mode that a name stands for.
    pub fn from_id(id: &str) -> (r: Option<Self>)
        ensures
            r == PowerProfile::named(id@),
    {
        if same(id, "eco") {
            Some(PowerProfile::Eco)
        } else if same(id, "quiet") {
            Some(PowerProfile::Quiet)
        } else if same(id, "balanced") {
            Some(PowerProfile::Balanced)
        } else if same(id, "performance") {
            Some(PowerProfile::Performance)
        } else if same(id, "turbo") {
            Some(PowerProfile::Turbo)
        } else {
            None
        }
    }
}

/// A mode reads back from its name.
pub proof fn law_mode_name_round_trip(mode: PowerProfile)
    ensures
        PowerProfile::named(mode.id()) == Some(mode),
{
    reveal_strlit("eco");
    reveal_strlit("quiet");
    reveal_strlit("balanced");
    reveal_strlit("performance");
    reveal_strlit("turbo");
    assert("eco"@.len() == 3);
    assert("quiet"@.len() == 5 && "quiet"@[0] == 'q');
    assert("balanced"@.len() == 8);
    assert("performance"@.len() == 11);
    assert("turbo"@.len() == 5 && "turbo"@[0] == 't');
}

/// The modes climb in this order: Eco, Quiet, Balanced, Performance, Turbo.
pub proof fn law_modes_climb()
    ensures
        PowerProfile::Eco.tier() < PowerProfile::Quiet.tier(),
        PowerProfile::Quiet.tier() < PowerProfile::Balanced.tier(),
        PowerProfile::Balanced.tier() < PowerProfile::Performance.tier(),
        PowerProfile::Performance.tier() < PowerProfile::Turbo.tier(),
        forall|mode: PowerProfile| 0 <= #[trigger] mode.tier() <= 4,
{
}

/// A mode is kept under its own name.
pub proof fn law_modes_are_kept_under_their_names(mode: PowerProfile)
    ensures
        mode is Eco <==> mode.id() == "eco"@,
        mode is Quiet <==> mode.id() == "quiet"@,
        mode is Balanced <==> mode.id() == "balanced"@,
        mode is Performance <==> mode.id() == "performance"@,
        mode is Turbo <==> mode.id() == "turbo"@,
{
    law_mode_name_round_trip(mode);
    law_mode_name_round_trip(PowerProfile::Eco);
    law_mode_name_round_trip(PowerProfile::Quiet);
    law_mode_name_round_trip(PowerProfile::Balanced);
    law_mode_name_round_trip(PowerProfile::Performance);
    law_mode_name_round_trip(PowerProfile::Turbo);
}

} // verus!
