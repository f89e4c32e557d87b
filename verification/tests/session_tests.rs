use flashrom_tester::cases::{
    elog_sanity_test, erase_write_test, hwwp_locks_swwp_test, partial_lock_test, verify_fail_test,
    wp_region_list_test, BuiltinTest, ScriptedTest,
};
use flashrom_tester::flash::{FlashChip, Flashrom};
use flashrom_tester::sim::SimFlash;
use flashrom_tester::tester::{
    run_all_tests, CancelToken, NeverCancel, RootGuard, TestConclusion, TestEnv,
};
use flashrom_tester::utils::LayoutNames;

const CHIP_SIZE: i64 = 0x10000;

/// A simulated chip with the session's named regions declared: the four
/// layout sections, the event log and one firmware section.
fn sim_with_regions(fill: u8) -> SimFlash {
    let mut sim = SimFlash::new(FlashChip::INTERNAL, CHIP_SIZE, fill);
    sim.add_region("BOTTOM_QUAD", 0, 0x4000).unwrap();
    sim.add_region("BOTTOM_HALF", 0, 0x8000).unwrap();
    sim.add_region("TOP_HALF", 0x8000, 0x8000).unwrap();
    sim.add_region("TOP_QUAD", 0xC000, 0x4000).unwrap();
    sim.add_region("RW_ELOG", 0x100, 0x40).unwrap();
    sim.add_region("FW_MAIN_B", 0x2000, 0x1000).unwrap();
    sim
}

/// Write the event-log magic number into the chip's RW_ELOG region so the
/// event-log check can pass.
fn stamp_elog_magic(sim: &mut SimFlash) {
    let mut image = sim.contents();
    image[0x100] = 0x45;
    image[0x101] = 0x4c;
    image[0x102] = 0x4f;
    image[0x103] = 0x47;
    sim.write_host_file("/tmp/stamp.bin", &image).unwrap();
    sim.write_from_file("/tmp/stamp.bin").unwrap();
}

/// `ensure_golden` followed by `is_golden` yields true, regardless of the
/// write-protect state beforehand.
#[test]
fn ensure_golden_then_is_golden() {
    let sim = sim_with_regions(0xAA);
    let mut guard = RootGuard::new();
    let mut env = TestEnv::create(FlashChip::INTERNAL, sim, &mut guard).expect("environment");

    // Scramble the chip and protect it in both ways.
    env.erase().expect("erase unprotected chip");
    assert!(!env.is_golden());
    env.wp.set_range(&mut env.cmd, (0, CHIP_SIZE), true).expect("software WP");
    env.wp.set_hw(&mut env.cmd, true).expect("hardware WP");

    env.ensure_golden().expect("recovery");
    assert!(env.is_golden());

    // Idempotent: calling it again when already golden keeps it golden.
    env.ensure_golden().expect("recovery again");
    assert!(env.is_golden());

    let (_, golden, closed) = env.finish(&mut guard);
    assert!(golden);
    closed.expect("scope restoration");
}

/// A case that writes non-golden data and then fails must leave the chip
/// restored to the golden snapshot by environment disposal, verified by
/// `is_golden` in a subsequent session.
#[test]
fn failing_case_is_recovered_by_disposal() {
    let sim = sim_with_regions(0x5A);
    let mut guard = RootGuard::new();
    let mut env = TestEnv::create(FlashChip::INTERNAL, sim, &mut guard).expect("environment");

    // The case body: write non-golden data, then report failure.
    env.erase().expect("erase unprotected chip");
    assert!(!env.is_golden());
    let failed: Result<(), String> = Err("deliberate failure".to_string());
    assert!(failed.is_err());

    // Disposal restores the golden contents and the write-protect bits.
    let (sim, golden, closed) = env.finish(&mut guard);
    assert!(golden);
    closed.expect("scope restoration");

    // A subsequent session sees the chip golden from its own snapshot.
    let mut env = TestEnv::create(FlashChip::INTERNAL, sim, &mut guard).expect("second session");
    assert!(env.is_golden());
    let (_, golden, closed) = env.finish(&mut guard);
    assert!(golden);
    closed.expect("scope restoration");
}

/// The write-protect bits observed after a whole session equal the bits
/// observed before it, whatever the cases did.
#[test]
fn session_restores_initial_wp_bits() {
    let mut sim = sim_with_regions(0x11);
    let mut guard = RootGuard::new();

    // Start from a distinctive state: software WP enabled.
    assert!(sim.wp_toggle(true).unwrap());
    assert!(sim.wp_status(true));

    let mut env = TestEnv::create(FlashChip::INTERNAL, sim, &mut guard).expect("environment");
    // Cases flip both bits (hardware off first so software can change).
    env.wp.set_hw(&mut env.cmd, false).expect("hw off");
    env.wp.set_sw(&mut env.cmd, false).expect("sw off");
    env.wp.set_hw(&mut env.cmd, true).expect("hw on");

    let (sim, _, closed) = env.finish(&mut guard);
    closed.expect("scope restoration");
    assert!(sim.wp_status(true), "software WP restored to enabled");
    assert!(!sim.get_hardware_wp(), "hardware WP restored to released");
}

/// The built-in cases pass against the simulated backend.
#[test]
fn builtin_cases_pass_on_simulator() {
    let mut sim = sim_with_regions(0xAA);
    stamp_elog_magic(&mut sim);
    let mut guard = RootGuard::new();
    let mut env = TestEnv::create(FlashChip::INTERNAL, sim, &mut guard).expect("environment");

    assert_eq!(wp_region_list_test(&mut env), Ok(()));
    assert_eq!(erase_write_test(&mut env), Ok(()));
    assert_eq!(hwwp_locks_swwp_test(&mut env), Ok(()));
    assert_eq!(elog_sanity_test(&mut env), Ok(()));
    assert_eq!(verify_fail_test(&mut env), Ok(()));
    assert_eq!(partial_lock_test(LayoutNames::TopQuad, &mut env), Ok(()));
    assert_eq!(partial_lock_test(LayoutNames::BottomQuad, &mut env), Ok(()));
    assert_eq!(partial_lock_test(LayoutNames::BottomHalf, &mut env), Ok(()));
    assert_eq!(partial_lock_test(LayoutNames::TopHalf, &mut env), Ok(()));

    let (_, golden, closed) = env.finish(&mut guard);
    assert!(golden);
    closed.expect("scope restoration");
}

/// A full sequencer run: every result is named after its case, outcomes are
/// reconciled against expectations, and the guard is released at the end.
#[test]
fn run_all_tests_reports_each_case() {
    let mut sim = sim_with_regions(0x77);
    stamp_elog_magic(&mut sim);
    let mut guard = RootGuard::new();

    let tests = vec![
        BuiltinTest::GetDeviceName,
        BuiltinTest::WpRegionList,
        BuiltinTest::EraseAndWrite,
        BuiltinTest::HwwpLocksSwwp,
        BuiltinTest::PartialLock(LayoutNames::TopQuad),
    ];
    let (results, sim) = run_all_tests(
        FlashChip::INTERNAL,
        sim,
        &tests,
        None::<&NeverCancel>,
        &mut guard,
    )
    .expect("run");

    let names: Vec<&str> = results.iter().map(|r| r.0.as_str()).collect();
    assert_eq!(
        names,
        vec![
            "Get_device_name",
            "WP_Region_List",
            "Erase_and_Write",
            "HWWP_Locks_SWWP",
            "Lock_top_quad",
        ]
    );
    for (name, (conclusion, err)) in &results {
        assert_eq!(*conclusion, TestConclusion::Pass, "{name}: {err:?}");
    }

    // Disposal restored the chip: a new session sees it golden.
    let mut env = TestEnv::create(FlashChip::INTERNAL, sim, &mut guard).expect("environment");
    assert!(env.is_golden());
    let (_, _, closed) = env.finish(&mut guard);
    closed.expect("scope restoration");
}

/// Unexpected outcomes are classified: a scripted failure under an expected
/// pass is an unexpected failure, and a scripted pass under an expected
/// failure is an unexpected pass.
#[test]
fn run_all_tests_classifies_outcomes() {
    let sim = sim_with_regions(0x42);
    let mut guard = RootGuard::new();

    let tests = vec![
        ScriptedTest {
            name: "expected pass".to_string(),
            expected: TestConclusion::Pass,
            failure: None,
        },
        ScriptedTest {
            name: "unexpected failure".to_string(),
            expected: TestConclusion::Pass,
            failure: Some("scripted".to_string()),
        },
        ScriptedTest {
            name: "unexpected pass".to_string(),
            expected: TestConclusion::Fail,
            failure: None,
        },
        ScriptedTest {
            name: "expected failure".to_string(),
            expected: TestConclusion::Fail,
            failure: Some("scripted".to_string()),
        },
    ];
    let (results, _) = run_all_tests(
        FlashChip::INTERNAL,
        sim,
        &tests,
        None::<&NeverCancel>,
        &mut guard,
    )
    .expect("run");

    assert_eq!(results.len(), 4);
    assert_eq!(results[0].1 .0, TestConclusion::Pass);
    assert_eq!(results[1].1 .0, TestConclusion::UnexpectedFail);
    assert_eq!(results[1].1 .1.as_deref(), Some("scripted"));
    assert_eq!(results[2].1 .0, TestConclusion::UnexpectedPass);
    assert_eq!(results[3].1 .0, TestConclusion::Pass);
}

struct AlwaysCancel;

impl CancelToken for AlwaysCancel {
    fn is_cancelled(&self) -> bool {
        true
    }
}

/// A cancellation request before the first case stops the schedule, but the
/// environment is still disposed of: the guard is released and the chip
/// restored.
#[test]
fn cancellation_stops_scheduling_but_not_recovery() {
    let sim = sim_with_regions(0x2B);
    let mut guard = RootGuard::new();

    let tests = vec![BuiltinTest::GetDeviceName, BuiltinTest::EraseAndWrite];
    let (results, sim) = run_all_tests(
        FlashChip::INTERNAL,
        sim,
        &tests,
        Some(&AlwaysCancel),
        &mut guard,
    )
    .expect("run");
    assert_eq!(results.len(), 0);

    // The guard was released, so a new session can start at once.
    let mut env = TestEnv::create(FlashChip::INTERNAL, sim, &mut guard).expect("environment");
    assert!(env.is_golden());
    let (_, _, closed) = env.finish(&mut guard);
    closed.expect("scope restoration");
}

/// The simulator refuses to erase a protected chip and leaves its contents
/// alone.
#[test]
fn erase_is_blocked_while_protected() {
    let mut sim = sim_with_regions(0x3C);
    assert!(sim.wp_toggle(true).unwrap());
    assert!(sim.erase().is_err());
    assert_eq!(sim.contents(), vec![0x3C; CHIP_SIZE as usize]);

    assert!(sim.wp_toggle(false).unwrap());
    sim.erase().expect("erase released chip");
    assert_eq!(sim.contents(), vec![0xFF; CHIP_SIZE as usize]);
}
