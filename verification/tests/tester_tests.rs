use flashrom_tester::flash::{FlashChip, Flashrom};
use flashrom_tester::sim::SimFlash;
use flashrom_tester::tester::TestConclusion::{Fail, Pass, UnexpectedFail, UnexpectedPass};
use flashrom_tester::tester::{decode_test_result as classify_result, OutputFormat, RootGuard, WriteProtectState};

#[test]
fn decode_test_result() {
    let (result, err) = classify_result(Ok(()), Pass);
    assert_eq!(result, Pass);
    assert!(err.is_none());

    let (result, err) = classify_result(Ok(()), Fail);
    assert_eq!(result, UnexpectedPass);
    assert!(err.is_none());

    let (result, err) = classify_result(Err("broken".into()), Pass);
    assert_eq!(result, UnexpectedFail);
    assert!(err.is_some());

    let (result, err) = classify_result(Err("broken".into()), Fail);
    assert_eq!(result, Pass);
    assert!(err.is_none());
}

#[test]
fn output_format_round_trip() {
    assert_eq!(
        format!("{:?}", OutputFormat::Pretty).parse::<OutputFormat>(),
        Ok(OutputFormat::Pretty)
    );
    assert_eq!(
        format!("{:?}", OutputFormat::Json).parse::<OutputFormat>(),
        Ok(OutputFormat::Json)
    );
}

#[test]
fn output_format_rejects_unknown_names() {
    assert_eq!("yaml".parse::<OutputFormat>(), Err(()));
    assert_eq!("PRETTY".parse::<OutputFormat>(), Ok(OutputFormat::Pretty));
    assert_eq!("Json".parse::<OutputFormat>(), Ok(OutputFormat::Json));
}

/// A second root scope while one is live fails with the liveness error;
/// after the first is disposed, a new root scope succeeds.
#[test]
fn second_root_scope_is_refused_while_live() {
    let mut sim = SimFlash::new(FlashChip::INTERNAL, 0x1000, 0xAA);
    let mut guard = RootGuard::new();

    let scope = WriteProtectState::from_hardware(&sim, FlashChip::INTERNAL, &mut guard)
        .expect("first root scope");

    let second = WriteProtectState::from_hardware(&sim, FlashChip::INTERNAL, &mut guard);
    match second {
        Err(e) => assert_eq!(
            e.msg,
            "cannot create a second root write-protect scope while one is live"
        ),
        Ok(_) => panic!("a second root scope must be refused"),
    }

    scope.close(&mut sim, &mut guard).expect("restore");

    let third = WriteProtectState::from_hardware(&sim, FlashChip::INTERNAL, &mut guard);
    assert!(third.is_ok());
}

/// Nested push/pop sequences restore the bits observed at each scope's
/// creation; after the outermost disposal the hardware reads as before
/// creation.
#[test]
fn nested_scopes_restore_lifo() {
    let mut sim = SimFlash::new(FlashChip::INTERNAL, 0x1000, 0xAA);
    let mut guard = RootGuard::new();

    let mut outer = WriteProtectState::from_hardware(&sim, FlashChip::INTERNAL, &mut guard)
        .expect("outer scope");
    outer.set_sw(&mut sim, true).expect("enable sw");

    let before_push = sim.wp_status(true);
    outer.push();
    outer.set_sw(&mut sim, false).expect("child changes sw");
    outer.push();
    outer.set_hw(&mut sim, true).expect("grandchild changes hw");

    outer.pop(&mut sim).expect("grandchild restore");
    assert!(!sim.get_hardware_wp());
    assert!(sim.wp_status(false));

    outer.pop(&mut sim).expect("child restore");
    assert_eq!(sim.wp_status(true), before_push);

    outer.close(&mut sim, &mut guard).expect("outer restore");
    // The outer scope was created with software WP off on fresh hardware.
    assert!(sim.wp_status(false));
    assert!(!sim.get_hardware_wp());
}

/// Popping with no nested scope open is refused.
#[test]
fn pop_without_push_is_refused() {
    let mut sim = SimFlash::new(FlashChip::INTERNAL, 0x1000, 0xAA);
    let mut guard = RootGuard::new();
    let mut scope = WriteProtectState::from_hardware(&sim, FlashChip::INTERNAL, &mut guard)
        .expect("root scope");
    assert!(scope.pop(&mut sim).is_err());
    scope.close(&mut sim, &mut guard).expect("restore");
}

/// Closing while a nested scope is open is refused.
#[test]
fn close_with_open_child_is_refused() {
    let mut sim = SimFlash::new(FlashChip::INTERNAL, 0x1000, 0xAA);
    let mut guard = RootGuard::new();
    let mut scope = WriteProtectState::from_hardware(&sim, FlashChip::INTERNAL, &mut guard)
        .expect("root scope");
    scope.push();
    assert!(scope.close(&mut sim, &mut guard).is_err());
}

/// Enabling hardware WP then software WP, then attempting to disable
/// software WP, must fail and leave software WP enabled.
#[test]
fn hardware_wp_locks_software_wp() {
    let mut sim = SimFlash::new(FlashChip::INTERNAL, 0x1000, 0xAA);
    let mut guard = RootGuard::new();
    let mut scope = WriteProtectState::from_hardware(&sim, FlashChip::INTERNAL, &mut guard)
        .expect("root scope");

    scope.set_sw(&mut sim, true).expect("software WP on");
    scope.set_hw(&mut sim, true).expect("hardware WP on");

    assert!(scope.set_sw(&mut sim, false).is_err());
    assert!(sim.wp_status(true), "software WP must still be enabled");

    // Restoration still works: hardware is released first, then software.
    scope.close(&mut sim, &mut guard).expect("restore");
    assert!(sim.wp_status(false));
    assert!(!sim.get_hardware_wp());
}
