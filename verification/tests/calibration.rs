use predator_sense::hardware::calibration::{
    conclude, current, index_path, is_available, load_uncached, package_limits,
    readings_are_meaningful, restore_fallback, sample_limit, supported, supported_path, Probe,
    ProbeEvent, ProbeStage, StoredCalibration, Zone,
};
use predator_sense::hardware::calibration_cache::CalibrationCache;
use predator_sense::protocol::helper::Action;
use predator_sense::protocol::thermal_profile::{indices_from_mask, Calibration, Measured};

fn unreadable(index: u8) -> Measured {
    Measured {
        index,
        pl1_uw: None,
        pl2_uw: None,
    }
}

fn measured(index: u8, pl1: u64, pl2: u64) -> Measured {
    Measured {
        index,
        pl1_uw: Some(pl1),
        pl2_uw: Some(pl2),
    }
}

#[test]
fn identical_readings_are_not_a_measured_ranking() {
    // A machine where only plain intel-rapl is readable samples the same
    // unchanged ceiling for every profile. Treating that as measured would
    // rank by raw index while claiming otherwise.
    let same = vec![
        measured(0, 55_000_000, 160_000_000),
        measured(1, 55_000_000, 160_000_000),
        measured(4, 55_000_000, 160_000_000),
    ];
    assert!(!readings_are_meaningful(&same));

    let mut mixed = same.clone();
    mixed.push(measured(5, 115_000_000, 160_000_000));
    assert!(readings_are_meaningful(&mixed));
}

#[test]
fn unreadable_rapl_is_not_meaningful() {
    assert!(!readings_are_meaningful(&[unreadable(0), unreadable(1)]));
}

/// One transient RAPL read failure among otherwise good samples: `rank()`
/// reads a missing limit as zero watts, so that profile would sort below every
/// real reading and Quiet would inherit whatever the firmware's strongest
/// profile happens to be.
#[test]
fn one_unreadable_sample_disqualifies_the_whole_ranking() {
    let partial = vec![
        measured(0, 55_000_000, 160_000_000),
        measured(5, 115_000_000, 160_000_000),
        unreadable(4),
    ];
    assert!(!readings_are_meaningful(&partial));

    // Without the incomplete one, the same samples are a valid ranking.
    assert!(readings_are_meaningful(&partial[..2]));
}

/// A lone profile has nothing to be ranked against, whatever it reported.
#[test]
fn a_single_sample_is_never_a_ranking() {
    assert!(!readings_are_meaningful(&[measured(
        4,
        95_000_000,
        160_000_000
    )]));
    assert!(!readings_are_meaningful(&[]));
}

/// The safety net has to cover the case where the *original* index was
/// never readable, not just the one where writing it back fails.
#[test]
fn an_unreadable_original_still_picks_a_fallback() {
    let probed = vec![
        measured(5, 115_000_000, 160_000_000),
        measured(6, 45_000_000, 50_000_000),
    ];
    assert_eq!(restore_fallback(&probed), Some(6));
}

/// `rank()` scores a missing limit as zero watts, which would make the
/// unreadable profile look like the weakest one available.
#[test]
fn the_restore_fallback_ignores_profiles_it_could_not_read() {
    let probed = vec![
        measured(0, 55_000_000, 160_000_000),
        unreadable(5),
        measured(6, 45_000_000, 50_000_000),
    ];
    assert_eq!(restore_fallback(&probed), Some(6), "the weakest *read* one");

    // Nothing complete to compare: the lowest index is a neutral guess
    // rather than a wrong claim about which profile is weakest.
    let none_readable = vec![unreadable(5), unreadable(0)];
    assert_eq!(restore_fallback(&none_readable), Some(0));
    assert_eq!(restore_fallback(&[]), None);
}

/// A sample that lost only its PL2 would beat a complete one they tie with on
/// sustained power, and be left active while actually being the stronger
/// profile.
#[test]
fn the_restore_fallback_also_rejects_partial_burst_samples() {
    let probed = vec![
        measured(0, 55_000_000, 90_000_000),
        Measured {
            index: 5,
            pl1_uw: Some(55_000_000),
            pl2_uw: None,
        },
    ];
    assert_eq!(restore_fallback(&probed), Some(0));
}

/// PL2 is the tie-breaker in `rank`, so a missing one among real ones is
/// the same zero-watt trap as a missing PL1, just one field over.
#[test]
fn a_missing_burst_reading_among_real_ones_disqualifies_the_ranking() {
    let mixed = vec![
        measured(0, 55_000_000, 160_000_000),
        Measured {
            index: 5,
            pl1_uw: Some(55_000_000),
            pl2_uw: None,
        },
    ];
    assert!(!readings_are_meaningful(&mixed));
}

/// But a machine that exposes no burst limit at all still ranks fine on
/// sustained power alone - the rule is all-or-nothing, not mandatory.
#[test]
fn sustained_only_readings_are_still_a_ranking() {
    let sustained_only = vec![
        Measured {
            index: 0,
            pl1_uw: Some(55_000_000),
            pl2_uw: None,
        },
        Measured {
            index: 5,
            pl1_uw: Some(115_000_000),
            pl2_uw: None,
        },
    ];
    assert!(readings_are_meaningful(&sustained_only));
}

#[test]
fn a_profile_differing_only_in_burst_still_counts_as_measured() {
    // The weakest profile may be the one that pins PL2 down to the sustained
    // value; a machine whose profiles differ only there is still being
    // tracked by the samples.
    let profiles = vec![
        measured(0, 45_000_000, 160_000_000),
        measured(6, 45_000_000, 50_000_000),
    ];
    assert!(readings_are_meaningful(&profiles));
}

#[test]
fn a_conclusion_is_ranked_by_power() {
    let samples = vec![
        measured(5, 115_000_000, 160_000_000),
        measured(0, 55_000_000, 160_000_000),
        measured(6, 45_000_000, 50_000_000),
    ];
    let calibration = conclude(&samples, vec![0, 5, 6], "V1.26".to_string());
    let order: Vec<u8> = calibration.profiles.iter().map(|p| p.index).collect();
    assert_eq!(order, vec![6, 0, 5]);
    assert!(calibration.measured);
    assert_eq!(calibration.weakest(), Some(6));
    assert_eq!(calibration.strongest(), Some(5));
}

#[test]
fn the_firmware_index_is_read_and_set() {
    assert!(index_path().ends_with("thermal_profile"));
    assert!(supported_path().ends_with("thermal_profile_supported"));
    assert!(is_available(true, true));
    assert!(!is_available(true, false));
    assert_eq!(current(&Some("5\n".to_string())), Some(5));
    assert_eq!(current(&None), None);
    assert_eq!(supported(&Some("0x73\n".to_string())), vec![0, 1, 4, 5, 6]);
    assert!(supported(&None).is_empty());
    let request = predator_sense::hardware::calibration::set(5);
    assert_eq!(request.action, Action::ThermalProfile);
    assert_eq!(request.args, ["5"]);
    assert_eq!(sample_limit(&Some("55000000\n".to_string())), Some(55_000_000));
    assert_eq!(sample_limit(&Some("fast".to_string())), None);
}

#[test]
fn the_package_zone_is_found_by_its_name() {
    let zone = |name: &str, label: &str| Zone {
        name: name.to_string(),
        label: Some(format!("{label}\n")),
    };
    let zones = vec![
        zone("intel-rapl:0", "psys"),
        zone("intel-rapl:1", "package-0"),
    ];
    assert_eq!(package_limits(&zones).as_deref(), Some("intel-rapl:1"));
    assert_eq!(package_limits(&Vec::new()), None);
}

/// Drives a probe over a machine whose limits follow the active index.
fn probe(original: Option<u8>, refused: &[u8]) -> (Probe, Vec<u8>) {
    let mut probe = Probe::start(true, vec![0, 2, 5], original).unwrap();
    let mut active = original.unwrap_or(9);
    let mut written = Vec::new();
    for _ in 0..200 {
        let event = match (&probe.stage, probe.pending_write()) {
            (ProbeStage::Finished(_), _) => break,
            (_, Some(index)) => {
                written.push(index);
                if refused.contains(&index) {
                    ProbeEvent::Rejected
                } else {
                    active = index;
                    ProbeEvent::Applied
                }
            }
            (_, None) => ProbeEvent::Settled {
                active: Some(active),
                pl1_uw: Some(u64::from(active) * 10_000_000 + 45_000_000),
                pl2_uw: Some(160_000_000),
            },
        };
        probe = probe.step(event);
    }
    (probe, written)
}

#[test]
fn probing_samples_every_accepted_index_and_restores_the_original() {
    let (done, written) = probe(Some(2), &[]);
    assert!(matches!(done.stage, ProbeStage::Finished(Ok(()))));
    let sampled: Vec<u8> = done.samples.iter().map(|s| s.index).collect();
    assert_eq!(sampled, vec![0, 2, 5]);
    assert_eq!(written.last(), Some(&2));
    assert_eq!(done.samples[2].pl1_uw, Some(95_000_000));
}

#[test]
fn a_refused_index_is_left_out() {
    let (done, _) = probe(Some(5), &[0]);
    let sampled: Vec<u8> = done.samples.iter().map(|s| s.index).collect();
    assert_eq!(sampled, vec![2, 5]);
}

#[test]
fn an_unknown_original_ends_on_the_weakest_sample() {
    let (done, written) = probe(None, &[]);
    assert!(matches!(done.stage, ProbeStage::Finished(_)));
    assert_eq!(written.last(), Some(&0));
}

#[test]
fn probing_needs_an_available_firmware() {
    assert!(Probe::start(false, vec![0, 1], None).is_err());
    assert!(Probe::start(true, Vec::new(), None).is_err());
}

fn stored() -> Calibration {
    conclude(
        &vec![
            measured(0, 55_000_000, 160_000_000),
            measured(5, 115_000_000, 160_000_000),
        ],
        vec![0, 5],
        "V1.26".to_string(),
    )
}

#[test]
fn a_stored_calibration_is_judged_against_the_firmware() {
    let good = load_uncached(
        StoredCalibration::Parsed(stored()),
        &indices_from_mask(0x21),
        "V1.26",
    );
    assert_eq!(good.0, Some(stored()));
    assert!(good.1);
    let stale = load_uncached(
        StoredCalibration::Parsed(stored()),
        &indices_from_mask(0x23),
        "V1.26",
    );
    assert_eq!(stale, (None, true));
    let unread = load_uncached(StoredCalibration::Parsed(stored()), &Vec::new(), "V1.26");
    assert_eq!(unread, (None, false), "no verdict without the firmware");
    assert_eq!(
        load_uncached(StoredCalibration::Missing, &Vec::new(), ""),
        (None, true)
    );
    assert_eq!(
        load_uncached(StoredCalibration::Corrupt, &Vec::new(), ""),
        (None, true)
    );
}

#[test]
fn only_a_verdict_is_remembered() {
    let mut cache = CalibrationCache::new();
    assert_eq!(cache.cached(), None);
    assert_eq!(cache.load((None, false)), None);
    assert_eq!(cache.cached(), None, "asked again next time");
    assert_eq!(cache.load((Some(stored()), true)), Some(stored()));
    assert_eq!(cache.cached(), Some(Some(stored())));
    let mut other = CalibrationCache::new();
    other.save(&stored());
    assert_eq!(other.cached(), Some(Some(stored())));
}

#[test]
fn a_probe_gives_up_on_an_index_that_keeps_moving() {
    let mut probe = Probe::start(true, vec![3, 4], Some(1)).unwrap();
    let mut rounds = 0;
    while !matches!(probe.stage, ProbeStage::Finished(_)) {
        let event = match probe.pending_write() {
            Some(_) => ProbeEvent::Applied,
            None => ProbeEvent::Settled {
                active: Some(9),
                pl1_uw: None,
                pl2_uw: None,
            },
        };
        probe = probe.step(event);
        rounds += 1;
        assert!(rounds < 40, "a calibration has to end");
    }
    match probe.stage {
        ProbeStage::Finished(Err(error)) => assert!(error.contains("would not stay set")),
        other => panic!("{other:?}"),
    }
}

#[test]
fn a_dismissed_dialog_ends_the_probe_with_its_reason() {
    let probe = Probe::start(true, vec![3, 4], Some(1)).unwrap();
    let probe = probe.step(ProbeEvent::NotAuthorized("dismissed".to_string()));
    assert_eq!(probe.pending_write(), Some(1), "the original is put back");
    let probe = probe.step(ProbeEvent::Applied);
    match probe.stage {
        ProbeStage::Finished(Err(error)) => {
            assert_eq!(error, "thermal profile 3 could not be applied: dismissed")
        }
        other => panic!("{other:?}"),
    }
}
