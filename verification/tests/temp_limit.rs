use predator_sense::protocol::temp_limit::{
    last_limit_path, last_limit_path_under, remember, remembered, Bound, Capability, Unavailable,
    SAFETY_FLOOR_C,
};

/// Offset field widths Linux's `intel_tcc` actually uses, as `max_state`
/// would report them. The whole point of reading the kernel's value instead
/// of hard-coding one is that this column is not constant across models.
const WIDTHS: [(&str, u8); 3] = [("4-bit", 15), ("6-bit", 63), ("7-bit", 127)];

#[test]
fn the_hardware_range_follows_whatever_width_the_kernel_reports() {
    for (label, max_offset) in WIDTHS {
        let cap = Capability::new(105, max_offset, 0, 0);
        assert_eq!(cap.max_c(), 105, "{label}: top is always Tjmax");
        assert_eq!(
            cap.hardware_min_c(),
            105u8.saturating_sub(max_offset),
            "{label}: silicon floor follows max_state"
        );
    }
}

/// Some parts report a 7-bit field. Assuming six would silently offer a shallower range than the hardware
/// allows.
#[test]
fn a_seven_bit_part_reaches_deeper_than_six_bits_would() {
    assert_eq!(Capability::new(105, 127, 25, 0).hardware_min_c(), 0);
    assert_eq!(Capability::new(105, 63, 25, 0).hardware_min_c(), 42);
}

#[test]
fn the_default_bound_stops_at_the_safety_floor() {
    let cap = Capability::new(105, 127, 25, 0);
    assert_eq!(cap.min_c(), SAFETY_FLOOR_C);
    assert!(!cap.accepts(SAFETY_FLOOR_C - 1));
    assert!(cap.accepts(SAFETY_FLOOR_C));
    // the silicon could go to 0, but only if asked
    assert_eq!(cap.min_c_within(Bound::Hardware), 0);
    assert!(cap.accepts_within(10, Bound::Hardware));
    assert_eq!(cap.offset_for_within(10, Bound::Hardware), Some(95));
}

/// A part whose silicon stops above the floor gains nothing from the
/// opt-in, so the UI should not offer it.
#[test]
fn the_opt_in_is_only_offered_when_it_widens_the_range() {
    assert!(Capability::new(105, 127, 0, 0).can_go_below_floor());
    // 4-bit part: floor is 90, already above the safety floor
    let narrow = Capability::new(105, 15, 0, 0);
    assert_eq!(narrow.min_c(), 90);
    assert!(!narrow.can_go_below_floor());
    assert_eq!(narrow.min_c_within(Bound::Hardware), narrow.min_c());
}

/// The floor must never invert the range on a part whose Tjmax is already
/// at or below it.
#[test]
fn a_low_tjmax_keeps_a_valid_range() {
    let cap = Capability::new(65, 63, 0, 0);
    assert_eq!(cap.max_c(), 65);
    assert_eq!(cap.min_c(), 65);
    assert!(cap.min_c() <= cap.max_c());
    assert!(cap.accepts(65));
    assert!(!cap.accepts(64));
}

#[test]
fn a_different_tjmax_shifts_the_whole_range() {
    let cap = Capability::new(100, 63, 10, 0);
    assert_eq!(cap.tjmax_c, 100);
    assert_eq!(cap.current_c, 90);
    assert_eq!(cap.hardware_min_c(), 37);
    assert_eq!(cap.offset_for(80), Some(20));
}

#[test]
fn out_of_range_is_rejected_rather_than_clamped() {
    let cap = Capability::new(105, 63, 5, 0);
    // Silently turning this into the deepest offset is exactly how a
    // hand-edited record becomes permanent throttling with no error.
    assert_eq!(cap.offset_for(0), None);
    assert_eq!(cap.offset_for(200), None);
    assert_eq!(cap.offset_for(105), Some(0));
    // even the hardware bound refuses what the silicon cannot express
    assert_eq!(cap.offset_for_within(41, Bound::Hardware), None);
    assert_eq!(cap.offset_for_within(42, Bound::Hardware), Some(63));
}

/// `max_state` of zero is how a locked offset surfaces: the device exists
/// but has no usable range.
#[test]
fn a_zero_width_field_offers_nothing() {
    let cap = Capability::new(105, 0, 0, 0);
    assert_eq!(cap.hardware_min_c(), 105);
    assert_eq!(cap.min_c(), 105);
    assert!(cap.accepts(105));
    assert!(!cap.accepts(104));
}

/// A current offset larger than the field can hold means something else
/// wrote the register.
#[test]
fn a_current_offset_beyond_the_field_is_clamped_when_reading() {
    assert_eq!(Capability::new(105, 63, 200, 0).current_c, 42);
}

/// Firmware can boot with a nonzero, unlocked offset: 5 is common, so 100 C
/// rather than 105 C. Treating Tjmax as
/// the top would let a control advertised as lowering the ceiling raise it
/// above what the vendor configured.
#[test]
fn the_factory_ceiling_is_the_top_not_tjmax() {
    let cap = Capability::new(105, 127, 5, 5);
    assert_eq!(cap.tjmax_c, 105);
    assert_eq!(cap.current_c, 100);
    assert_eq!(cap.max_c(), 100, "restore default must not go above 100");
    assert!(
        !cap.accepts(105),
        "raising past the factory ceiling is refused"
    );
    assert_eq!(cap.offset_for(101), None);
    assert_eq!(cap.offset_for(100), Some(5));
}

#[test]
fn the_safety_floor_never_exceeds_the_factory_ceiling() {
    // A factory ceiling already at or below the floor collapses the range
    // rather than inverting it.
    let cap = Capability::new(105, 127, 40, 40);
    assert_eq!(cap.max_c(), 65);
    assert_eq!(cap.min_c(), 65);
    assert!(cap.min_c() <= cap.max_c());
    // the opt-in still reaches deeper
    assert_eq!(cap.min_c_within(Bound::Hardware), 0);
}

#[test]
fn unavailable_separates_stable_answers_from_transient_ones() {
    // Caching an Error is what turns a cancelled auth dialog into a
    // permanent "unsupported", so the two must not compare equal.
    assert_ne!(Unavailable::Unsupported, Unavailable::Error("x".into()));
    assert_ne!(Unavailable::Locked, Unavailable::Unsupported);
}

#[test]
fn the_bound_round_trips_through_its_wire_name() {
    for bound in [Bound::Safe, Bound::Hardware] {
        assert_eq!(Bound::parse(bound.as_str()), Some(bound));
    }
    // an unknown spelling must not silently widen the range
    assert_eq!(Bound::parse("hardwarE"), None);
    assert_eq!(Bound::parse(""), None);
    assert_eq!(Bound::default(), Bound::Safe);
}

#[test]
fn the_record_keeps_the_bound_it_was_allowed_under() {
    assert_eq!(remembered(""), None);
    assert_eq!(remembered(&remember(85, Bound::Safe)), Some((85, Bound::Safe)));
    assert_eq!(
        remembered(&remember(40, Bound::Hardware)),
        Some((40, Bound::Hardware))
    );

    // A bare number reads as the safe bound, so it cannot authorise itself
    // past the floor.
    assert_eq!(remembered("40\n"), Some((40, Bound::Safe)));
    // A bound field that is present but unrecognised invalidates the whole
    // record. Defaulting it to Safe here would be the one path that lets a
    // typo through, since the helper refuses unknown spellings.
    assert_eq!(remembered("85 saf\n"), None);
    assert_eq!(remembered("not a number\n"), None);
}

#[test]
fn the_hardware_bound_only_widens() {
    for max_offset in [0u8, 15, 63, 127] {
        for factory in [0u8, 5, 40] {
            let cap = Capability::new(105, max_offset, 0, factory);
            assert!(cap.min_c_within(Bound::Hardware) <= cap.min_c());
            for celsius in 0..=255u8 {
                if cap.accepts(celsius) {
                    assert!(cap.accepts_within(celsius, Bound::Hardware));
                    assert_eq!(cap.offset_for(celsius), Some(105 - celsius));
                } else {
                    assert_eq!(cap.offset_for(celsius), None);
                }
            }
        }
    }
}

#[test]
fn the_record_lives_under_the_users_config_home() {
    assert!(last_limit_path_under(b"/home/ann/.config").starts_with(b"/home/ann/.config/"));
    assert!(last_limit_path(&Some(b"/home/ann".to_vec()))
        .unwrap()
        .starts_with(b"/home/ann/"));
    assert_eq!(last_limit_path(&None), None);
}
