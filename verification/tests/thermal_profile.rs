use predator_sense::protocol::thermal_profile::{
    calibration_path, config_home, firmware_identity, indices_from_mask, last_profile_path,
    last_profile_path_under, parse_mask, remember, remembered, Calibration, Measured, TIERS,
};

fn measured(index: u8, pl1: u64, pl2: u64) -> Measured {
    Measured {
        index,
        pl1_uw: Some(pl1),
        pl2_uw: Some(pl2),
    }
}

fn ranked(mut profiles: Vec<Measured>) -> Calibration {
    profiles.sort_by_key(Measured::rank);
    // In bit order, which is how supported() reports it - not in the
    // ranked order the profiles end up in.
    let mut advertised: Vec<u8> = profiles.iter().map(|p| p.index).collect();
    advertised.sort_unstable();
    Calibration {
        profiles,
        measured: true,
        advertised,
        firmware: "V1.26".to_string(),
    }
}

/// The ordering that matters: the real PHN16-73 numbers, where the index
/// order and the power order disagree at both ends.
fn phn16_73() -> Calibration {
    ranked(vec![
        measured(0, 55_000_000, 160_000_000),
        measured(1, 70_000_000, 160_000_000),
        measured(4, 95_000_000, 160_000_000),
        measured(5, 115_000_000, 160_000_000),
        measured(6, 45_000_000, 50_000_000),
    ])
}

#[test]
fn ranks_by_sustained_then_burst() {
    let c = phn16_73();
    let order: Vec<u8> = c.profiles.iter().map(|p| p.index).collect();
    // Sorted by PL1: 45 / 55 / 70 / 95 / 115 W. Index order and power
    // order disagree, which is the whole reason this is measured.
    assert_eq!(order, vec![6, 0, 1, 4, 5]);
    assert_eq!(c.weakest(), Some(6));
    assert_eq!(c.strongest(), Some(5));
}

#[test]
fn identical_burst_limits_still_rank_by_sustained() {
    // Four of the five profiles on this machine allow the same 160 W burst
    // and differ only in PL1. Ranking on burst first would tie them all.
    let c = ranked(vec![
        measured(5, 115_000_000, 160_000_000),
        measured(0, 55_000_000, 160_000_000),
        measured(4, 95_000_000, 160_000_000),
        measured(1, 70_000_000, 160_000_000),
    ]);
    let order: Vec<u8> = c.profiles.iter().map(|p| p.index).collect();
    assert_eq!(order, vec![0, 1, 4, 5]);
}

#[test]
fn unmeasurable_profiles_never_rank_as_strongest() {
    let c = ranked(vec![
        Measured {
            index: 3,
            pl1_uw: None,
            pl2_uw: None,
        },
        measured(0, 55_000_000, 160_000_000),
    ]);
    assert_eq!(c.strongest(), Some(0));
}

#[test]
fn tiers_anchor_on_the_real_extremes() {
    let c = phn16_73();
    assert_eq!(c.index_for_tier(0), Some(6), "Eco -> weakest");
    assert_eq!(c.index_for_tier(4), Some(5), "Turbo -> strongest");
    // Five tiers over five profiles: with the tier count matching the
    // profile count exactly, every tier lands on a distinct firmware
    // index, none skipped and none shared. This also happens to
    // reproduce the fixed OPERATING_MODE wire values from the official
    // app exactly (Eco=6, Quiet=0, Balanced=1, Performance=4, Turbo=5)
    // purely from measured wattage - nothing about those wire values is
    // hard-coded anywhere in this math.
    let all: Vec<u8> = (0..TIERS).map(|t| c.index_for_tier(t).unwrap()).collect();
    assert_eq!(all, vec![6, 0, 1, 4, 5]);
    // Whatever the spread, tiers must never go backwards in power.
    let watts: Vec<u64> = all
        .iter()
        .map(|i| {
            c.profiles
                .iter()
                .find(|p| p.index == *i)
                .unwrap()
                .pl1_uw
                .unwrap()
        })
        .collect();
    assert!(
        watts.windows(2).all(|w| w[0] <= w[1]),
        "tiers not monotonic: {watts:?}"
    );
}

#[test]
fn tiers_still_reach_both_ends_with_fewer_profiles() {
    let two = ranked(vec![
        measured(0, 45_000_000, 45_000_000),
        measured(1, 95_000_000, 160_000_000),
    ]);
    assert_eq!(two.index_for_tier(0), Some(0));
    assert_eq!(
        two.index_for_tier(3),
        Some(1),
        "strongest must stay reachable"
    );
}

#[test]
fn tier_round_trips_through_the_firmware_index() {
    let c = phn16_73();
    for tier in 0..TIERS {
        let index = c.index_for_tier(tier).unwrap();
        assert_eq!(
            c.tier_for_index(index, None),
            Some(tier),
            "tier {tier} -> index {index} -> tier"
        );
    }
}

/// With fewer firmware profiles than tiers, one index stands for two tiers
/// and cannot be inverted on its own. Answering with the lower tier every
/// time reports a Balanced selection back as Quiet: the UI shows the wrong
/// card, and the AC/battery policy sees a mismatch it re-enforces on every
/// tick without ever resolving it.
#[test]
fn a_shared_index_keeps_the_tier_the_caller_already_believes() {
    let two = ranked(vec![
        measured(0, 45_000_000, 45_000_000),
        measured(1, 95_000_000, 160_000_000),
    ]);
    // Five tiers, two profiles: the three weak tiers write index 0, the
    // two strong tiers write index 1.
    assert_eq!(two.index_for_tier(0), Some(0));
    assert_eq!(two.index_for_tier(1), Some(0));
    assert_eq!(two.index_for_tier(2), Some(0));
    assert_eq!(two.index_for_tier(3), Some(1));
    assert_eq!(two.index_for_tier(4), Some(1));

    // Every tier must survive the round trip when the caller says which
    // one it applied.
    for tier in 0..TIERS {
        let index = two.index_for_tier(tier).unwrap();
        assert_eq!(
            two.tier_for_index(index, Some(tier)),
            Some(tier),
            "tier {tier} -> index {index} -> tier"
        );
    }

    // A belief the index cannot support is not honoured - the firmware
    // really did move, and the answer has to reflect that.
    assert_eq!(two.tier_for_index(1, Some(0)), Some(3));
    // With no belief to go on, the lowest matching tier is the answer.
    assert_eq!(two.tier_for_index(0, None), Some(0));
}

/// The preference only ever breaks ties: an index that unambiguously
/// belongs to one tier must not be reported as another just because the
/// caller expected it.
#[test]
fn a_preference_never_overrides_an_unambiguous_index() {
    let c = phn16_73();
    // Tier 3 is Performance on this 5-profile fixture (see
    // tiers_anchor_on_the_real_extremes), not Turbo - the point of this
    // test is the round trip, not which named tier it is.
    let tier_3_index = c.index_for_tier(3).unwrap();
    assert_eq!(c.tier_for_index(tier_3_index, Some(0)), Some(3));
}

#[test]
fn tier_is_clamped_and_an_empty_calibration_maps_nothing() {
    assert_eq!(phn16_73().index_for_tier(9), Some(5));
    assert_eq!(Calibration::default().index_for_tier(0), None);
    assert_eq!(Calibration::default().next_after(0), None);
}

/// A machine without readable RAPL is never steered by an unmeasured order:
/// index order can put the weakest profile last, and would map Turbo onto it.
#[test]
fn an_unmeasured_calibration_drives_nothing() {
    let unranked = Calibration {
        profiles: vec![
            Measured {
                index: 0,
                pl1_uw: None,
                pl2_uw: None,
            },
            Measured {
                index: 6,
                pl1_uw: None,
                pl2_uw: None,
            },
        ],
        measured: false,
        advertised: vec![0, 6],
        firmware: String::new(),
    };
    assert!(!unranked.is_ranked());
    for tier in 0..TIERS {
        assert_eq!(unranked.index_for_tier(tier), None);
    }
    assert_eq!(unranked.tier_for_index(0, None), None);
    assert_eq!(unranked.strongest(), None);
    assert_eq!(unranked.weakest(), None);
    // Cycling still works: it reaches every profile, it just does not
    // claim to step through power.
    assert_eq!(unranked.next_after(0), Some(6));
    assert_eq!(unranked.next_after(6), Some(0));
}

/// A single supported profile is not a ranking either - there is nothing
/// to compare it against, so it must not be spread across four tiers.
#[test]
fn a_lone_profile_is_not_a_ranking() {
    let one = Calibration {
        profiles: vec![measured(4, 95_000_000, 160_000_000)],
        measured: true,
        advertised: vec![4],
        firmware: String::new(),
    };
    assert!(!one.is_ranked());
    assert_eq!(one.index_for_tier(3), None);
    assert_eq!(one.next_after(4), Some(4), "cycling a single profile stays");
}

#[test]
fn cycles_through_power_order_and_wraps() {
    let c = phn16_73();
    assert_eq!(c.next_after(6), Some(0));
    assert_eq!(c.next_after(4), Some(5));
    assert_eq!(c.next_after(5), Some(6), "strongest wraps to weakest");
    // The firmware boots into index 2 on this model and then refuses to be
    // set back to it, so it is never part of the calibration.
    assert_eq!(c.next_after(2), Some(6));
}

#[test]
fn the_bitmask_maps_bit_n_to_index_n() {
    // 0x73 is what a PHN16-73 reports: bits 0, 1, 4, 5, 6 - exactly the
    // indices that firmware accepts on a write.
    assert_eq!(indices_from_mask(0x73), vec![0, 1, 4, 5, 6]);
    assert_eq!(indices_from_mask(0), Vec::<u8>::new());
    assert_eq!(indices_from_mask(0xff), (0..8).collect::<Vec<u8>>());
}

#[test]
fn the_mask_parses_the_format_the_kernel_prints() {
    assert_eq!(parse_mask("0x73\n"), Some(0x73));
    assert_eq!(parse_mask("  0X73  "), Some(0x73));
    assert_eq!(parse_mask("115"), Some(0x73), "plain decimal is accepted");
    assert_eq!(parse_mask(""), None);
    assert_eq!(parse_mask("nonsense"), None);
}

/// A BIOS update can drop a profile; reusing a stale ranking would write an
/// index the firmware now rejects.
#[test]
fn a_calibration_that_lost_a_profile_is_rejected() {
    let c = phn16_73();
    assert!(c.matches_firmware(&indices_from_mask(0x73), "V1.26"));
    assert!(!c.matches_firmware(&indices_from_mask(0x03), "V1.26"));
    assert!(!Calibration::default().matches_firmware(&indices_from_mask(0x73), "V1.26"));
}

/// The other direction, which the subset rule alone cannot see: every old
/// index is still supported, so the stale ranking would keep being used
/// and the profile the update added would never appear anywhere.
#[test]
fn a_calibration_that_gained_a_profile_is_rejected_too() {
    let c = phn16_73();
    assert_eq!(c.advertised, vec![0, 1, 4, 5, 6]);
    assert!(
        !c.matches_firmware(&indices_from_mask(0xff), "V1.26"),
        "a firmware advertising more profiles than were measured must force a recalibration"
    );
}

/// Probing skips indices the bitmask advertises but the firmware then
/// refuses, so those calibrations must survive - it is the *advertised*
/// set that has to match, not the measured one.
#[test]
fn a_profile_the_firmware_refused_during_probing_does_not_invalidate_it() {
    let mut c = phn16_73();
    // Index 2 is advertised on this machine's firmware but rejected on
    // every write, so it never became a measured profile.
    c.advertised = vec![0, 1, 2, 4, 5, 6];
    assert!(c.matches_firmware(&indices_from_mask(0x77), "V1.26"));
    assert!(
        !c.matches_firmware(&indices_from_mask(0x73), "V1.26"),
        "0x77 -> 0x73 is a real change"
    );
}

/// The advertised set cannot see a BIOS update that keeps the same indices
/// and changes what they deliver - and the power those indices deliver is
/// the entire content of this file.
#[test]
fn a_calibration_from_another_firmware_revision_is_rejected() {
    let c = phn16_73();
    assert!(c.matches_firmware(&indices_from_mask(0x73), "V1.26"));
    assert!(!c.matches_firmware(&indices_from_mask(0x73), "V1.30"));
}

/// Unknown on either side is "cannot tell", never a mismatch: DMI may be
/// unreadable, and calibrations written before the field existed have none.
#[test]
fn an_unknown_firmware_identity_never_throws_a_calibration_away() {
    let c = phn16_73();
    assert!(c.matches_firmware(&indices_from_mask(0x73), ""));

    let mut older = phn16_73();
    older.firmware.clear();
    assert!(older.matches_firmware(&indices_from_mask(0x73), "V1.30"));
}

/// Calibrations written before the advertised set was recorded have
/// nothing to compare, and must not all be thrown away.
#[test]
fn a_calibration_without_an_advertised_set_falls_back_to_the_subset_rule() {
    let mut legacy = phn16_73();
    legacy.advertised.clear();
    assert!(legacy.matches_firmware(&indices_from_mask(0x73), "V1.26"));
    assert!(legacy.matches_firmware(&indices_from_mask(0xff), "V1.26"));
    assert!(!legacy.matches_firmware(&indices_from_mask(0x03), "V1.26"));
}

#[test]
fn the_remembered_index_round_trips_and_tolerates_junk() {
    assert_eq!(remember(5), "5\n");
    assert_eq!(remembered(&remember(5)), Some(5));
    for index in 0..=255u8 {
        assert_eq!(remembered(&remember(index)), Some(index));
    }

    // Whatever else may end up in there, a boot reapply must not act on it.
    assert_eq!(remembered("turbo\n"), None);
    assert_eq!(remembered(""), None);
    assert_eq!(remembered("256"), None);
}

#[test]
fn enough_profiles_keep_the_tiers_apart() {
    let six = ranked(vec![
        measured(0, 10, 10),
        measured(1, 20, 20),
        measured(2, 30, 30),
        measured(3, 40, 40),
        measured(4, 50, 50),
        measured(5, 60, 60),
    ]);
    let all: Vec<u8> = (0..TIERS).map(|t| six.index_for_tier(t).unwrap()).collect();
    assert_eq!(all, vec![0, 1, 2, 4, 5]);
}

#[test]
fn the_cycle_visits_every_profile_and_comes_back() {
    let c = phn16_73();
    let mut index = 6;
    let mut visited = Vec::new();
    for _ in 0..c.profiles.len() {
        visited.push(index);
        index = c.next_after(index).unwrap();
    }
    assert_eq!(visited, vec![6, 0, 1, 4, 5]);
    assert_eq!(index, 6);
}

#[test]
fn paths_follow_the_users_own_config_home() {
    let home = Some(b"/home/ann".to_vec());
    let xdg = Some(b"/srv/config".to_vec());
    assert_eq!(config_home(&xdg, &home).as_deref(), Some(&b"/srv/config"[..]));
    assert_eq!(config_home(&None, &home).as_deref(), Some(&b"/home/ann/.config"[..]));
    let relative = Some(b"config".to_vec());
    assert_eq!(config_home(&relative, &home).as_deref(), Some(&b"/home/ann/.config"[..]));
    let odd = Some(b"/srv/\xff".to_vec());
    assert_eq!(config_home(&odd, &None).as_deref(), Some(&b"/srv/\xff"[..]));
    assert_eq!(config_home(&None, &None), None);
    assert!(calibration_path(&xdg, &home)
        .unwrap()
        .starts_with(b"/srv/config/"));
    assert!(last_profile_path(&home).unwrap().starts_with(b"/home/ann/"));
    assert_eq!(last_profile_path(&None), None);
    assert!(last_profile_path_under(b"/home/ann/.config").starts_with(b"/home/ann/.config/"));
}

#[test]
fn the_firmware_identity_is_trimmed() {
    assert_eq!(firmware_identity(&Some("V1.26\n".to_string())), "V1.26");
    assert_eq!(firmware_identity(&None), "");
}
