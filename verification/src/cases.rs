//! The built-in qualification test cases, name-based test filtering, and
//! the parse of os-release data.

use vstd::prelude::*;
use crate::flash::{lemma_file_preserved, FlashChip, Flashrom};
use crate::strutil::{lower_eq, spec_lower, spec_starts_with, starts_with, str_eq};
use crate::tester::{env_stable, TestCase, TestConclusion, TestEnv, TestResult};
use crate::utils::{layout_section, LayoutNames};

verus! {

/// The scratch paths the cases write are distinct from the session's
/// artifact paths.
proof fn lemma_case_paths_distinct()
    ensures
        "/tmp/elog.file"@ != "/tmp/flashrom_tester_golden.bin"@,
        "/tmp/elog.file"@ != "/tmp/random_content.bin"@,
        "/tmp/FW_MAIN_B.bin"@ != "/tmp/flashrom_tester_golden.bin"@,
        "/tmp/FW_MAIN_B.bin"@ != "/tmp/random_content.bin"@,
{
    reveal_strlit("/tmp/elog.file");
    reveal_strlit("/tmp/FW_MAIN_B.bin");
    reveal_strlit("/tmp/flashrom_tester_golden.bin");
    reveal_strlit("/tmp/random_content.bin");
    assert("/tmp/elog.file"@.len() == 14);
    assert("/tmp/FW_MAIN_B.bin"@.len() == 18);
    assert("/tmp/flashrom_tester_golden.bin"@.len() == 31);
    assert("/tmp/random_content.bin"@.len() == 23);
}

/// Query the programmer and chip name.
/// Success means we got something back, which is good enough.
pub fn get_device_name_test<F: Flashrom>(env: &mut TestEnv<F>) -> (r: TestResult)
    requires
        old(env).wf(),
    ensures
        env_stable(old(env), final(env)),
{
    match env.cmd.name() {
        Ok(_) => Ok(()),
        Err(e) => Err(e.to_string()),
    }
}

/// List the write-protectable regions of flash.
/// This is allowed to fail on some platforms; a failure is reported by the
/// caller, not by the case.
pub fn wp_region_list_test<F: Flashrom>(env: &mut TestEnv<F>) -> (r: TestResult)
    requires
        old(env).wf(),
    ensures
        env_stable(old(env), final(env)),
        r is Ok,
{
    match env.cmd.wp_list() {
        Ok(_) => Ok(()),
        Err(_) => Ok(()),
    }
}

/// Verify that enabling hardware and software write protect prevents chip
/// erase: under both protections an erase must not take, and with both
/// released it must. On success the chip is left erased.
pub fn erase_write_test<F: Flashrom>(env: &mut TestEnv<F>) -> (r: TestResult)
    requires
        old(env).wf(),
    ensures
        env_stable(old(env), final(env)),
        r is Ok ==> final(env).cmd.chip().contents == final(env).cmd.chip().erased(),
{
    if !env.is_golden() {
        match env.ensure_golden() {
            Ok(_) => {},
            Err(e) => {
                return Err(e.to_string());
            },
        }
    }

    // With write protect enabled erase should fail.
    match env.wp.set_sw(&mut env.cmd, true) {
        Ok(_) => {},
        Err(m) => {
            return Err(m);
        },
    }
    match env.wp.set_hw(&mut env.cmd, true) {
        Ok(_) => {},
        Err(m) => {
            return Err(m);
        },
    }
    let erased = match env.erase() {
        Ok(_) => true,
        Err(_) => false,
    };
    if erased {
        if !env.is_golden() {
            return Err(
                String::from_str("Hardware write protect asserted however can still erase!"),
            );
        }
        // Erase claimed to succeed but the contents still verify; assume
        // the erase failed.
    }

    // With write protect disabled erase should succeed.
    match env.wp.set_hw(&mut env.cmd, false) {
        Ok(_) => {},
        Err(m) => {
            return Err(m);
        },
    }
    match env.wp.set_sw(&mut env.cmd, false) {
        Ok(_) => {},
        Err(m) => {
            return Err(m);
        },
    }
    match env.erase() {
        Ok(_) => {},
        Err(e) => {
            return Err(e.to_string());
        },
    }
    if env.is_golden() {
        return Err(String::from_str("Successful erase didn't modify memory"));
    }
    Ok(())
}

/// Verify that enabling hardware write protect prevents disabling software
/// write protect. On success both protections are left asserted.
pub fn hwwp_locks_swwp_test<F: Flashrom>(env: &mut TestEnv<F>) -> (r: TestResult)
    requires
        old(env).wf(),
    ensures
        env_stable(old(env), final(env)),
        r is Ok ==> final(env).cmd.chip().sw_mode && final(env).cmd.chip().hw_wp,
{
    if !env.wp.can_control_hw_wp(&env.cmd) {
        return Err(
            String::from_str("Lock test requires ability to control hardware write protect"),
        );
    }

    match env.wp.set_hw(&mut env.cmd, false) {
        Ok(_) => {},
        Err(m) => {
            return Err(m);
        },
    }
    match env.wp.set_sw(&mut env.cmd, true) {
        Ok(_) => {},
        Err(m) => {
            return Err(m);
        },
    }
    // Toggling software WP off should work when hardware WP is off.
    // Then enable software WP again for the next step.
    match env.wp.set_sw(&mut env.cmd, false) {
        Ok(_) => {},
        Err(m) => {
            return Err(m);
        },
    }
    match env.wp.set_sw(&mut env.cmd, true) {
        Ok(_) => {},
        Err(m) => {
            return Err(m);
        },
    }

    // Toggling software WP off should not work when hardware WP is on.
    match env.wp.set_hw(&mut env.cmd, true) {
        Ok(_) => {},
        Err(m) => {
            return Err(m);
        },
    }
    match env.wp.set_sw(&mut env.cmd, false) {
        Ok(_) => Err(
            String::from_str("Software WP was reset despite hardware WP being enabled"),
        ),
        Err(_) => Ok(()),
    }
}

/// The little-endian 32-bit value at the head of a byte sequence.
pub open spec fn spec_le32(d: Seq<u8>) -> int {
    d[0] + 256 * (d[1] + 256 * (d[2] + 256 * d[3]))
}

/// Check event-log data for the log's magic number.
pub fn check_elog_data(data: &Vec<u8>) -> (r: TestResult)
    ensures
        r is Ok <==> data@.len() >= 4 && spec_le32(data@) == 0x474f4c45,
{
    if data.len() < 4 {
        return Err(String::from_str("ELOG contained no data"));
    }
    let b0 = data[0] as u32;
    let b1 = data[1] as u32;
    let b2 = data[2] as u32;
    let b3 = data[3] as u32;
    let v: u32 = b0 + 256 * (b1 + 256 * (b2 + 256 * b3));
    if v != 0x474f4c45 {
        return Err(String::from_str("ELOG had bad magic number"));
    }
    Ok(())
}

/// Check that the event log contains *something*, as an indication that the
/// boot firmware is actually able to write to the flash. This only makes
/// sense for chips hosting that firmware, which we assume is the internal
/// one.
pub fn elog_sanity_test<F: Flashrom>(env: &mut TestEnv<F>) -> (r: TestResult)
    requires
        old(env).wf(),
    ensures
        env_stable(old(env), final(env)),
{
    if !(env.chip_type() == FlashChip::INTERNAL) {
        return Ok(());
    }
    // Flash should be back in the golden state.
    match env.ensure_golden() {
        Ok(_) => {},
        Err(e) => {
            return Err(e.to_string());
        },
    }
    let ghost pre_files = env.cmd.files();
    let res = env.cmd.read_region_into_file("/tmp/elog.file", "RW_ELOG");
    proof {
        lemma_case_paths_distinct();
        crate::tester::lemma_session_paths_distinct();
        lemma_file_preserved(
            pre_files,
            env.cmd.files(),
            "/tmp/elog.file"@,
            "/tmp/flashrom_tester_golden.bin"@,
        );
        lemma_file_preserved(
            pre_files,
            env.cmd.files(),
            "/tmp/elog.file"@,
            "/tmp/random_content.bin"@,
        );
    }
    match res {
        Ok(_) => {},
        Err(e) => {
            return Err(e.to_string());
        },
    }
    let data = match env.cmd.read_host_file("/tmp/elog.file") {
        Ok(d) => d,
        Err(e) => {
            return Err(e.to_string());
        },
    };
    check_elog_data(&data)
}

/// Verify that software write protect for a range protects only the
/// requested range. On success the range protection is left asserted.
pub fn partial_lock_test<F: Flashrom>(section: LayoutNames, env: &mut TestEnv<F>) -> (r:
    TestResult)
    requires
        old(env).wf(),
    ensures
        env_stable(old(env), final(env)),
        r is Ok ==> final(env).cmd.chip().sw_mode && (final(env).cmd.hw_controllable()
            ==> final(env).cmd.chip().hw_wp),
{
    // Need a clean image for verification.
    match env.ensure_golden() {
        Ok(_) => {},
        Err(e) => {
            return Err(e.to_string());
        },
    }

    let (wp_section_name, start, len) = layout_section(env.layout(), section);
    // Disable hardware WP so we can modify the protected range.
    match env.wp.set_hw(&mut env.cmd, false) {
        Ok(_) => {},
        Err(m) => {
            return Err(m);
        },
    }
    // Then enable software WP so the range is enforced and enable hardware
    // WP so that the backend does not disable software WP during the
    // operation.
    match env.wp.set_range(&mut env.cmd, (start, len), true) {
        Ok(_) => {},
        Err(m) => {
            return Err(m);
        },
    }
    match env.wp.set_hw(&mut env.cmd, true) {
        Ok(_) => {},
        Err(m) => {
            return Err(m);
        },
    }

    let random_file = String::from_str(env.random_data_file());
    let layout_file = env.layout_file.clone();

    // Check that we cannot write to the protected region.
    let locked_write = env.cmd.write_from_file_region(
        random_file.as_str(),
        wp_section_name,
        layout_file.as_str(),
    );
    match locked_write {
        Ok(_) => {
            return Err(
                String::from_str(
                    "Section should be locked, should not have been overwritable with random data",
                ),
            );
        },
        Err(_) => {},
    }
    if !env.is_golden() {
        return Err(
            String::from_str("Section didn't lock, has been overwritten with random data!"),
        );
    }

    // Check that we can write to the non protected region.
    let (non_wp_section_name, _, _) = layout_section(
        env.layout(),
        section.get_non_overlapping_section(),
    );
    match env.cmd.write_from_file_region(
        random_file.as_str(),
        non_wp_section_name,
        layout_file.as_str(),
    ) {
        Ok(_) => Ok(()),
        Err(e) => Err(e.to_string()),
    }
}

/// Check that backend verification fails if the provided data does not
/// match the chip data.
pub fn verify_fail_test<F: Flashrom>(env: &mut TestEnv<F>) -> (r: TestResult)
    requires
        old(env).wf(),
    ensures
        env_stable(old(env), final(env)),
{
    match env.ensure_golden() {
        Ok(_) => {},
        Err(e) => {
            return Err(e.to_string());
        },
    }
    // Verification must succeed when the data matches. We verify only a
    // region and not the whole chip because coprocessors or firmware may
    // have written some data in other regions.
    let ghost pre_files = env.cmd.files();
    let res = env.cmd.read_region_into_file("/tmp/FW_MAIN_B.bin", "FW_MAIN_B");
    proof {
        lemma_case_paths_distinct();
        crate::tester::lemma_session_paths_distinct();
        lemma_file_preserved(
            pre_files,
            env.cmd.files(),
            "/tmp/FW_MAIN_B.bin"@,
            "/tmp/flashrom_tester_golden.bin"@,
        );
        lemma_file_preserved(
            pre_files,
            env.cmd.files(),
            "/tmp/FW_MAIN_B.bin"@,
            "/tmp/random_content.bin"@,
        );
    }
    match res {
        Ok(_) => {},
        Err(e) => {
            return Err(e.to_string());
        },
    }
    match env.cmd.verify_region_from_file("/tmp/FW_MAIN_B.bin", "FW_MAIN_B") {
        Ok(_) => {},
        Err(e) => {
            return Err(e.to_string());
        },
    }

    // Verification must fail when the data does not match.
    let random_file = String::from_str(env.random_data_file());
    match env.verify(random_file.as_str()) {
        Ok(_) => Err(String::from_str("Verification says flash is full of random data")),
        Err(_) => Ok(()),
    }
}

/// The built-in qualification cases, dispatchable by name.
#[derive(Clone, Copy, PartialEq, Eq, Debug, Structural)]
pub enum BuiltinTest {
    GetDeviceName,
    CorebootElogSanity,
    WpRegionList,
    EraseAndWrite,
    FailToVerify,
    HwwpLocksSwwp,
    PartialLock(LayoutNames),
}

/// The registry name of a built-in case.
pub open spec fn spec_builtin_name(t: BuiltinTest) -> Seq<char> {
    match t {
        BuiltinTest::GetDeviceName => "Get_device_name"@,
        BuiltinTest::CorebootElogSanity => "Coreboot_ELOG_sanity"@,
        BuiltinTest::WpRegionList => "WP_Region_List"@,
        BuiltinTest::EraseAndWrite => "Erase_and_Write"@,
        BuiltinTest::FailToVerify => "Fail_to_verify"@,
        BuiltinTest::HwwpLocksSwwp => "HWWP_Locks_SWWP"@,
        BuiltinTest::PartialLock(LayoutNames::TopQuad) => "Lock_top_quad"@,
        BuiltinTest::PartialLock(LayoutNames::BottomQuad) => "Lock_bottom_quad"@,
        BuiltinTest::PartialLock(LayoutNames::BottomHalf) => "Lock_bottom_half"@,
        BuiltinTest::PartialLock(LayoutNames::TopHalf) => "Lock_top_half"@,
    }
}

impl<F: Flashrom> TestCase<F> for BuiltinTest {
    open spec fn spec_name(&self) -> Seq<char> {
        spec_builtin_name(*self)
    }

    open spec fn spec_expected(&self) -> TestConclusion {
        TestConclusion::Pass
    }

    fn get_name(&self) -> (r: &str) {
        match self {
            BuiltinTest::GetDeviceName => "Get_device_name",
            BuiltinTest::CorebootElogSanity => "Coreboot_ELOG_sanity",
            BuiltinTest::WpRegionList => "WP_Region_List",
            BuiltinTest::EraseAndWrite => "Erase_and_Write",
            BuiltinTest::FailToVerify => "Fail_to_verify",
            BuiltinTest::HwwpLocksSwwp => "HWWP_Locks_SWWP",
            BuiltinTest::PartialLock(LayoutNames::TopQuad) => "Lock_top_quad",
            BuiltinTest::PartialLock(LayoutNames::BottomQuad) => "Lock_bottom_quad",
            BuiltinTest::PartialLock(LayoutNames::BottomHalf) => "Lock_bottom_half",
            BuiltinTest::PartialLock(LayoutNames::TopHalf) => "Lock_top_half",
        }
    }

    fn expected_result(&self) -> (r: TestConclusion) {
        TestConclusion::Pass
    }

    fn run(&self, env: &mut TestEnv<F>) -> (r: TestResult) {
        match self {
            BuiltinTest::GetDeviceName => get_device_name_test(env),
            BuiltinTest::CorebootElogSanity => elog_sanity_test(env),
            BuiltinTest::WpRegionList => wp_region_list_test(env),
            BuiltinTest::EraseAndWrite => erase_write_test(env),
            BuiltinTest::FailToVerify => verify_fail_test(env),
            BuiltinTest::HwwpLocksSwwp => hwwp_locks_swwp_test(env),
            BuiltinTest::PartialLock(section) => partial_lock_test(*section, env),
        }
    }
}

/// A case defined by plain data: a name, an expected conclusion, and a
/// fixed outcome. It touches nothing in the environment.
pub struct ScriptedTest {
    pub name: String,
    pub expected: TestConclusion,
    pub failure: Option<String>,
}

impl<F: Flashrom> TestCase<F> for ScriptedTest {
    open spec fn spec_name(&self) -> Seq<char> {
        self.name@
    }

    open spec fn spec_expected(&self) -> TestConclusion {
        self.expected
    }

    fn get_name(&self) -> (r: &str) {
        self.name.as_str()
    }

    fn expected_result(&self) -> (r: TestConclusion) {
        self.expected
    }

    fn run(&self, env: &mut TestEnv<F>) -> (r: TestResult) {
        match &self.failure {
            None => Ok(()),
            Some(m) => Err(m.clone()),
        }
    }
}

/// The ChromeOS release-description line of lsb-release data: the first
/// line that starts with `CHROMEOS_RELEASE_DESCRIPTION`.
pub fn release_description(lines: &Vec<String>) -> (r: Option<String>)
    ensures
        match r {
            Some(v) => exists|i: int|
                0 <= i < lines.deep_view().len() && v@ == #[trigger] lines.deep_view()[i]
                    && spec_starts_with(lines.deep_view()[i], "CHROMEOS_RELEASE_DESCRIPTION"@),
            None => forall|i: int|
                0 <= i < lines.deep_view().len() ==> !spec_starts_with(
                    #[trigger] lines.deep_view()[i],
                    "CHROMEOS_RELEASE_DESCRIPTION"@,
                ),
        },
{
    let n = lines.len();
    let mut i: usize = 0;
    while i < n
        invariant
            n == lines@.len(),
            0 <= i <= n,
            forall|j: int|
                0 <= j < i ==> !spec_starts_with(
                    #[trigger] lines.deep_view()[j],
                    "CHROMEOS_RELEASE_DESCRIPTION"@,
                ),
        decreases n - i,
    {
        let line = &lines[i];
        if starts_with(line.as_str(), "CHROMEOS_RELEASE_DESCRIPTION") {
            proof {
                assert(lines.deep_view()[i as int] == line@);
            }
            return Some(line.clone());
        }
        proof {
            assert(lines.deep_view()[i as int] == line@);
        }
        i += 1;
    }
    None
}

/// The first index of `x` in `filter`, at or after `k`.
pub open spec fn spec_index_of(filter: Seq<Seq<char>>, x: Seq<char>, k: int) -> Option<int>
    decreases filter.len() - k,
{
    if k < 0 || k >= filter.len() {
        None
    } else if filter[k] == x {
        Some(k)
    } else {
        spec_index_of(filter, x, k + 1)
    }
}

proof fn lemma_index_of_found(filter: Seq<Seq<char>>, x: Seq<char>, k: int, i: int)
    requires
        0 <= k <= i < filter.len(),
        filter[i] == x,
        forall|j: int| k <= j < i ==> filter[j] != x,
    ensures
        spec_index_of(filter, x, k) == Some(i),
    decreases i - k,
{
    if k < i {
        lemma_index_of_found(filter, x, k + 1, i);
    }
}

proof fn lemma_index_of_none(filter: Seq<Seq<char>>, x: Seq<char>, k: int)
    requires
        0 <= k,
        forall|j: int| k <= j < filter.len() ==> filter[j] != x,
    ensures
        spec_index_of(filter, x, k) is None,
    decreases filter.len() - k,
{
    if k < filter.len() {
        lemma_index_of_none(filter, x, k + 1);
    }
}

/// Which tests a filter keeps, and what is left of the filter afterwards:
/// scanning tests from `i`, a test whose lower-cased name has a first match
/// in the filter is kept and consumes that entry.
pub open spec fn spec_filter_tests(names: Seq<Seq<char>>, filter: Seq<Seq<char>>, i: int) -> (
    Seq<int>,
    Seq<Seq<char>>,
)
    decreases names.len() - i,
{
    if i < 0 || i >= names.len() {
        (Seq::<int>::empty(), filter)
    } else {
        match spec_index_of(filter, spec_lower(names[i]), 0) {
            Some(j) => {
                let r = spec_filter_tests(names, filter.remove(j), i + 1);
                (seq![i] + r.0, r.1)
            },
            None => spec_filter_tests(names, filter, i + 1),
        }
    }
}

/// The names of a sequence of test cases.
pub open spec fn spec_names_of<F: Flashrom, T: TestCase<F>>(ts: Seq<T>) -> Seq<Seq<char>> {
    Seq::new(ts.len(), |i: int| ts[i].spec_name())
}

fn find_entry(filter: &Vec<String>, name: &str) -> (r: Option<usize>)
    ensures
        match r {
            Some(j) => 0 <= j < filter@.len() && spec_index_of(
                filter.deep_view(),
                spec_lower(name@),
                0,
            ) == Some(j as int),
            None => spec_index_of(filter.deep_view(), spec_lower(name@), 0) is None,
        },
{
    let n = filter.len();
    let mut j: usize = 0;
    while j < n
        invariant
            n == filter@.len(),
            0 <= j <= n,
            forall|k: int| 0 <= k < j ==> filter.deep_view()[k] != spec_lower(name@),
        decreases n - j,
    {
        if lower_eq(name, filter[j].as_str()) {
            proof {
                assert(filter.deep_view()[j as int] == spec_lower(name@));
                lemma_index_of_found(filter.deep_view(), spec_lower(name@), 0, j as int);
            }
            return Some(j);
        }
        proof {
            assert(filter.deep_view()[j as int] == filter@[j as int]@);
        }
        j += 1;
    }
    proof {
        lemma_index_of_none(filter.deep_view(), spec_lower(name@), 0);
    }
    None
}

/// Yield the indices of the tests to run, by name filter.
///
/// With no filter every test runs. None is distinct from an empty set: the
/// empty set runs no tests. Name comparisons are performed in lower-case:
/// values in the filter must be converted to lowercase specifically. When
/// an entry in the filter matches a test, it is removed from the filter, so
/// the caller can determine whether any entries failed to match any test,
/// which may be user error.
pub fn filter_tests<F: Flashrom, T: TestCase<F>>(
    tests: &Vec<T>,
    filter_names: &mut Option<Vec<String>>,
) -> (r: Vec<usize>)
    ensures
        *old(filter_names) is None ==> *final(filter_names) is None && r@.len() == tests@.len()
            && (forall|k: int| 0 <= k < r@.len() ==> r@[k] == k),
        *old(filter_names) matches Some(f0) ==> *final(filter_names) matches Some(f1) && ({
            let (ks, rem) = spec_filter_tests(spec_names_of::<F, T>(tests@), f0.deep_view(), 0);
            &&& f1.deep_view() == rem
            &&& r@.len() == ks.len()
            &&& (forall|k: int| 0 <= k < ks.len() ==> r@[k] == ks[k])
        }),
{
    let n = tests.len();
    let mut out: Vec<usize> = Vec::new();
    match filter_names {
        None => {
            let mut i: usize = 0;
            while i < n
                invariant
                    0 <= i <= n,
                    out@.len() == i,
                    forall|k: int| 0 <= k < i ==> out@[k] == k,
                decreases n - i,
            {
                out.push(i);
                i += 1;
            }
            out
        },
        Some(f) => {
            let ghost names = spec_names_of::<F, T>(tests@);
            let ghost f0dv = f.deep_view();
            let mut i: usize = 0;
            proof {
                assert(out@.map_values(|u: usize| u as int) =~= Seq::<int>::empty());
            }
            while i < n
                invariant
                    n == tests@.len(),
                    0 <= i <= n,
                    names == spec_names_of::<F, T>(tests@),
                    spec_filter_tests(names, f0dv, 0).0 =~= out@.map_values(|u: usize| u as int)
                        + spec_filter_tests(names, f.deep_view(), i as int).0,
                    spec_filter_tests(names, f0dv, 0).1 == spec_filter_tests(
                        names,
                        f.deep_view(),
                        i as int,
                    ).1,
                decreases n - i,
            {
                let ghost pre_out = out@.map_values(|u: usize| u as int);
                let ghost pre_f = f.deep_view();
                let t = &tests[i];
                let name = t.get_name();
                proof {
                    assert(names[i as int] == t.spec_name());
                }
                match find_entry(f, name) {
                    Some(j) => {
                        f.remove(j);
                        out.push(i);
                        proof {
                            assert(f.deep_view() =~~= pre_f.remove(j as int));
                            assert(out@.map_values(|u: usize| u as int) =~= pre_out.push(i as int));
                            let rest = spec_filter_tests(names, f.deep_view(), i + 1 as int);
                            assert(spec_filter_tests(names, pre_f, i as int).0 =~= seq![i as int]
                                + rest.0);
                            assert(pre_out + (seq![i as int] + rest.0) =~= pre_out.push(i as int)
                                + rest.0);
                        }
                    },
                    None => {},
                }
                i += 1;
            }
            proof {
                assert(spec_filter_tests(names, f.deep_view(), n as int).0 =~= Seq::<int>::empty());
                assert(out@.map_values(|u: usize| u as int) + Seq::<int>::empty() =~= out@.map_values(
                    |u: usize| u as int,
                ));
            }
            out
        },
    }
}

/// The first index of the character `c` in `s`, at or after `k`.
pub open spec fn spec_char_index(s: Seq<char>, c: char, k: int) -> Option<int>
    decreases s.len() - k,
{
    if k < 0 || k >= s.len() {
        None
    } else if s[k] == c {
        Some(k)
    } else {
        spec_char_index(s, c, k + 1)
    }
}

proof fn lemma_char_index_found(s: Seq<char>, c: char, k: int, i: int)
    requires
        0 <= k <= i < s.len(),
        s[i] == c,
        forall|j: int| k <= j < i ==> s[j] != c,
    ensures
        spec_char_index(s, c, k) == Some(i),
    decreases i - k,
{
    if k < i {
        lemma_char_index_found(s, c, k + 1, i);
    }
}

proof fn lemma_char_index_none(s: Seq<char>, c: char, k: int)
    requires
        0 <= k,
        forall|j: int| k <= j < s.len() ==> s[j] != c,
    ensures
        spec_char_index(s, c, k) is None,
    decreases s.len() - k,
{
    if k < s.len() {
        lemma_char_index_none(s, c, k + 1);
    }
}

/// One line's entry, `KEY=VALUE`: comment lines, empty lines and lines
/// without `=` yield nothing; the first `=` splits key from value.
pub open spec fn spec_parse_line(line: Seq<char>) -> Option<(Seq<char>, Seq<char>)> {
    if line.len() == 0 || line[0] == '#' {
        None
    } else {
        match spec_char_index(line, '=', 0) {
            Some(d) => Some((line.take(d), line.skip(d + 1))),
            None => None,
        }
    }
}

/// The entries of the lines from `k` on, in order.
pub open spec fn spec_os_entries(lines: Seq<Seq<char>>, k: int) -> Seq<(Seq<char>, Seq<char>)>
    decreases lines.len() - k,
{
    if k < 0 || k >= lines.len() {
        Seq::<(Seq<char>, Seq<char>)>::empty()
    } else {
        match spec_parse_line(lines[k]) {
            Some(e) => seq![e] + spec_os_entries(lines, k + 1),
            None => spec_os_entries(lines, k + 1),
        }
    }
}

/// The value under `key`: of several entries with the same key, the last
/// wins, as when collecting pairs into a map.
pub open spec fn spec_os_lookup(entries: Seq<(Seq<char>, Seq<char>)>, key: Seq<char>) -> Option<
    Seq<char>,
>
    decreases entries.len(),
{
    if entries.len() == 0 {
        None
    } else if entries.last().0 == key {
        Some(entries.last().1)
    } else {
        spec_os_lookup(entries.drop_last(), key)
    }
}

/// The key-value view of an entry list.
pub open spec fn spec_entries_view(v: Seq<(String, String)>) -> Seq<(Seq<char>, Seq<char>)> {
    Seq::new(v.len(), |i: int| (v[i].0@, v[i].1@))
}

/// The key-value pairs read from os-release data.
pub struct OsReleaseInfo {
    pub entries: Vec<(String, String)>,
}

impl OsReleaseInfo {
    /// The entries as sequences of characters.
    pub open spec fn view_entries(&self) -> Seq<(Seq<char>, Seq<char>)> {
        spec_entries_view(self.entries@)
    }

    /// The value under `key`, if any; the last entry for a key wins.
    pub fn get(&self, key: &str) -> (r: Option<&str>)
        ensures
            match r {
                Some(v) => spec_os_lookup(self.view_entries(), key@) == Some(v@),
                None => spec_os_lookup(self.view_entries(), key@) is None,
            },
    {
        let mut i: usize = self.entries.len();
        proof {
            assert(self.view_entries().take(i as int) =~= self.view_entries());
        }
        while i > 0
            invariant
                0 <= i <= self.entries@.len(),
                spec_os_lookup(self.view_entries(), key@) == spec_os_lookup(
                    self.view_entries().take(i as int),
                    key@,
                ),
            decreases i,
        {
            let e = &self.entries[i - 1];
            proof {
                assert(self.view_entries().take(i as int).drop_last() =~= self.view_entries().take(
                    i - 1,
                ));
                assert(self.view_entries().take(i as int).last() == (e.0@, e.1@));
            }
            if str_eq(e.0.as_str(), key) {
                return Some(e.1.as_str());
            }
            i -= 1;
        }
        proof {
            assert(self.view_entries().take(0) =~= Seq::<(Seq<char>, Seq<char>)>::empty());
        }
        None
    }
}

/// Decide the ChromeOS host check from parsed os-release data: the host
/// passes exactly when `ID` is `chromeos` or `chromiumos`; otherwise the
/// failure names the ID found, or `UNKNOWN` when there is none.
pub fn check_host_os_release(info: &OsReleaseInfo) -> (r: TestResult)
    ensures
        r is Ok <==> spec_os_lookup(info.view_entries(), "ID"@) == Some("chromeos"@)
            || spec_os_lookup(info.view_entries(), "ID"@) == Some("chromiumos"@),
        r is Err ==> r->Err_0@ == "Test host os-release \""@ + (match spec_os_lookup(
            info.view_entries(),
            "ID"@,
        ) {
            Some(v) => v,
            None => "UNKNOWN"@,
        }) + "\" should be but is not chromeos"@,
{
    match info.get("ID") {
        Some(id) => {
            if str_eq(id, "chromeos") || str_eq(id, "chromiumos") {
                Ok(())
            } else {
                let mut msg = String::from_str("Test host os-release \"");
                msg.append(id);
                msg.append("\" should be but is not chromeos");
                proof {
                    assert(msg@ =~= "Test host os-release \""@ + id@
                        + "\" should be but is not chromeos"@);
                }
                Err(msg)
            }
        },
        None => {
            let mut msg = String::from_str("Test host os-release \"");
            msg.append("UNKNOWN");
            msg.append("\" should be but is not chromeos");
            proof {
                assert(msg@ =~= "Test host os-release \""@ + "UNKNOWN"@
                    + "\" should be but is not chromeos"@);
            }
            Err(msg)
        },
    }
}

/// Ad-hoc parsing of os-release data; mostly according to its format
/// description, but ignores quotes and escaping.
pub fn parse_os_release(lines: &Vec<String>) -> (r: OsReleaseInfo)
    ensures
        r.view_entries() == spec_os_entries(lines.deep_view(), 0),
{
    let ghost dv = lines.deep_view();
    let n = lines.len();
    let mut entries: Vec<(String, String)> = Vec::new();
    let mut i: usize = 0;
    proof {
        assert(spec_entries_view(entries@) =~= Seq::<(Seq<char>, Seq<char>)>::empty());
    }
    while i < n
        invariant
            n == lines@.len(),
            dv == lines.deep_view(),
            0 <= i <= n,
            spec_os_entries(dv, 0) =~= spec_entries_view(entries@) + spec_os_entries(dv, i as int),
        decreases n - i,
    {
        let ghost pre = spec_entries_view(entries@);
        let line = &lines[i];
        proof {
            assert(dv[i as int] == line@);
        }
        let len = line.as_str().unicode_len();
        if len == 0 || line.as_str().get_char(0) == '#' {
            proof {
                assert(spec_parse_line(dv[i as int]) is None);
            }
        } else {
            match crate::strutil::find_char(line.as_str(), '=') {
                Some(d) => {
                    proof {
                        lemma_char_index_found(line@, '=', 0, d as int);
                    }
                    let key = crate::strutil::substring(line.as_str(), 0, d);
                    let value = crate::strutil::substring(line.as_str(), d + 1, len);
                    entries.push((key, value));
                    proof {
                        assert(line@.take(d as int) == line@.subrange(0, d as int));
                        assert(line@.skip(d + 1) == line@.subrange(d + 1, line@.len() as int));
                        assert(spec_parse_line(dv[i as int]) == Some(
                            (line@.take(d as int), line@.skip(d + 1)),
                        ));
                        assert(spec_entries_view(entries@) =~= pre.push(
                            (line@.take(d as int), line@.skip(d + 1)),
                        ));
                        assert(pre + (seq![(line@.take(d as int), line@.skip(d + 1))]
                            + spec_os_entries(dv, i + 1 as int)) =~= pre.push(
                            (line@.take(d as int), line@.skip(d + 1)),
                        ) + spec_os_entries(dv, i + 1 as int));
                    }
                },
                None => {
                    proof {
                        lemma_char_index_none(line@, '=', 0);
                        assert(spec_parse_line(dv[i as int]) is None);
                    }
                },
            }
        }
        i += 1;
    }
    proof {
        assert(spec_os_entries(dv, n as int) =~= Seq::<(Seq<char>, Seq<char>)>::empty());
        assert(spec_entries_view(entries@) + Seq::<(Seq<char>, Seq<char>)>::empty()
            =~= spec_entries_view(entries@));
    }
    OsReleaseInfo { entries }
}

} // verus!
