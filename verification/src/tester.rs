//! The write-protect scope machine and the test-environment invariant
//! manager: nested write-protect states with LIFO restoration, a golden
//! snapshot of chip contents that every session returns to, and the
//! sequencer that runs named test cases and classifies their outcomes.

use vstd::prelude::*;
use vstd::utf8::encode_utf8;
use crate::flash::{lemma_file_preserved, FlashChip, Flashrom, FlashromError, FlashromFlags};
use crate::strutil::eq_ignore_case;
use crate::utils::{LayoutSizes, get_layout_sizes, construct_layout_file, spec_layout_sizes,
    spec_layout_text, spec_valid_rom_size};

verus! {

/// A test failure description.
pub type TestError = String;

/// What a test case returns: success, or a descriptive failure.
pub type TestResult = Result<(), TestError>;

/// A pair of observed or requested write-protect bits.
#[derive(Clone, Copy, PartialEq, Eq, Debug, Structural)]
pub struct WriteProtect {
    pub hw: bool,
    pub sw: bool,
}

/// The process-wide liveness guard: at most one root write-protect scope
/// may be live per guard. The orchestrator mints one guard and threads it
/// through every root-scope creation and disposal.
pub struct RootGuard {
    live: bool,
}

impl RootGuard {
    /// Whether a root scope is currently live under this guard.
    pub closed spec fn is_live(&self) -> bool {
        self.live
    }

    /// A fresh guard with no live root scope.
    pub fn new() -> (r: RootGuard)
        ensures
            !r.is_live(),
    {
        RootGuard { live: false }
    }
}

/// A restoration failure: leaving physical write-protect in an unknown
/// state is worse than crashing loudly, so the top-level driver must treat
/// this error as non-recoverable.
#[derive(Debug, PartialEq, Eq)]
pub struct FatalRestoreError {
    pub msg: String,
}

/// Every recorded hardware bit in the frame stack is `false`.
pub open spec fn frames_hw_clear(frames: Seq<WriteProtect>) -> bool {
    forall|i: int| 0 <= i < frames.len() ==> (#[trigger] frames[i]).hw == false
}

/// A stack of nested write-protect states over one backend.
///
/// The root state captures the bits read from hardware at creation;
/// `push` opens a nested scope whose initial bits are the current bits, and
/// `pop` restores them, strictly LIFO. `close` disposes the root scope,
/// restoring the creation-time bits — software before hardware, because
/// asserted hardware write-protect freezes the software setting — and only
/// then releases the liveness guard.
pub struct WriteProtectState {
    fc: FlashChip,
    initial: WriteProtect,
    current: WriteProtect,
    pushed: Vec<WriteProtect>,
}

impl WriteProtectState {
    /// The bits captured when the root scope was created.
    pub closed spec fn spec_initial(&self) -> WriteProtect {
        self.initial
    }

    /// The bits this scope believes are on the hardware now.
    pub closed spec fn spec_current(&self) -> WriteProtect {
        self.current
    }

    /// The initial bits of the open nested scopes, oldest first.
    pub closed spec fn spec_frames(&self) -> Seq<WriteProtect> {
        self.pushed@
    }

    pub closed spec fn spec_fc(&self) -> FlashChip {
        self.fc
    }

    /// The scope's belief matches the backend: the software bit is the
    /// backend's mode, and the hardware bit is the line state where it is
    /// controllable and `false` where it is not.
    pub open spec fn tracks<F: Flashrom>(&self, cmd: &F) -> bool {
        &&& self.spec_current().sw == cmd.chip().sw_mode
        &&& (cmd.hw_controllable() ==> self.spec_current().hw == cmd.chip().hw_wp)
        &&& (!cmd.hw_controllable() ==> self.spec_current().hw == false)
    }

    /// Scope well-formedness over its backend: it tracks the backend, and
    /// on a target without hardware write-protect control every recorded
    /// hardware bit is `false`, so restoration never attempts a hardware
    /// toggle there.
    pub open spec fn wf<F: Flashrom>(&self, cmd: &F) -> bool {
        &&& self.tracks(cmd)
        &&& (!cmd.hw_controllable() ==> self.spec_initial().hw == false && frames_hw_clear(
            self.spec_frames(),
        ))
    }

    /// Get the actual hardware write protect state; a target that cannot
    /// control it reads as unprotected.
    fn get_hw<F: Flashrom>(cmd: &F) -> (r: bool)
        requires
            cmd.inv(),
        ensures
            cmd.hw_controllable() ==> r == cmd.chip().hw_wp,
            !cmd.hw_controllable() ==> r == false,
    {
        if cmd.can_control_hw_wp() {
            cmd.get_hardware_wp()
        } else {
            false
        }
    }

    /// Get the actual software write protect state.
    fn get_sw<F: Flashrom>(cmd: &F) -> (r: bool)
        requires
            cmd.inv(),
        ensures
            r == cmd.chip().sw_mode,
    {
        cmd.wp_status(true)
    }

    /// Initialize a root state from the current state of the hardware.
    /// Fails — with a liveness error, the hardware untouched — while
    /// another root scope is live under the same guard.
    pub fn from_hardware<F: Flashrom>(cmd: &F, fc: FlashChip, guard: &mut RootGuard) -> (r: Result<
        WriteProtectState,
        FlashromError,
    >)
        requires
            cmd.inv(),
        ensures
            old(guard).is_live() ==> r is Err && r->Err_0.msg@
                == "cannot create a second root write-protect scope while one is live"@
                && final(guard).is_live(),
            !old(guard).is_live() ==> r is Ok && final(guard).is_live() && {
                let s = r->Ok_0;
                &&& s.wf(cmd)
                &&& s.spec_current() == s.spec_initial()
                &&& s.spec_initial().sw == cmd.chip().sw_mode
                &&& (cmd.hw_controllable() ==> s.spec_initial().hw == cmd.chip().hw_wp)
                &&& s.spec_frames().len() == 0
                &&& s.spec_fc() == fc
            },
    {
        if guard.live {
            return Err(
                FlashromError::new("cannot create a second root write-protect scope while one is live"),
            );
        }
        guard.live = true;
        let hw = Self::get_hw(cmd);
        let sw = Self::get_sw(cmd);
        Ok(
            WriteProtectState {
                fc,
                initial: WriteProtect { hw, sw },
                current: WriteProtect { hw, sw },
                pushed: Vec::new(),
            },
        )
    }

    /// Return true if the current programmer supports setting the hardware
    /// write protect.
    pub fn can_control_hw_wp<F: Flashrom>(&self, cmd: &F) -> (r: bool)
        ensures
            r == cmd.hw_controllable(),
    {
        cmd.can_control_hw_wp()
    }

    /// Open a nested scope: its initial bits are the current bits at the
    /// moment of the call, and it must be popped before any enclosing scope
    /// is restored.
    pub fn push(&mut self)
        ensures
            final(self).spec_frames() == old(self).spec_frames().push(old(self).spec_current()),
            final(self).spec_current() == old(self).spec_current(),
            final(self).spec_initial() == old(self).spec_initial(),
            final(self).spec_fc() == old(self).spec_fc(),
    {
        let cur = self.current;
        self.pushed.push(cur);
    }

    /// Set the software write protect and check that the state is as
    /// expected. Succeeds exactly when the backend ends in the requested
    /// state; while hardware write-protect is asserted the software setting
    /// cannot change, so a change request then fails and leaves it as it
    /// was.
    pub fn set_sw<F: Flashrom>(&mut self, cmd: &mut F, enable: bool) -> (r: Result<(), String>)
        requires
            old(self).wf(old(cmd)),
            old(cmd).inv(),
        ensures
            final(cmd).inv(),
            final(self).wf(final(cmd)),
            final(self).spec_initial() == old(self).spec_initial(),
            final(self).spec_frames() == old(self).spec_frames(),
            final(self).spec_fc() == old(self).spec_fc(),
            final(self).spec_current().hw == old(self).spec_current().hw,
            final(cmd).files() == old(cmd).files(),
            final(cmd).regions() == old(cmd).regions(),
            final(cmd).hw_controllable() == old(cmd).hw_controllable(),
            final(cmd).chip().contents == old(cmd).chip().contents,
            final(cmd).chip().size == old(cmd).chip().size,
            final(cmd).chip().hw_wp == old(cmd).chip().hw_wp,
            r is Ok <==> final(cmd).chip().sw_mode == enable,
            old(cmd).chip().hw_wp ==> final(cmd).chip().sw_mode == old(cmd).chip().sw_mode,
            r is Err ==> final(cmd).chip() == old(cmd).chip() && final(self).spec_current().sw
                == old(self).spec_current().sw,
    {
        if self.current.sw != enable {
            match cmd.wp_toggle(enable) {
                Ok(_) => {},
                Err(e) => {
                    return Err(e.to_string());
                },
            }
        }
        // Record the state the backend actually reports, so the scope's
        // belief stays true on every exit path.
        let actual = Self::get_sw(cmd);
        self.current.sw = actual;
        if actual != enable {
            if enable {
                Err(String::from_str("Software write protect did not change state to true when requested"))
            } else {
                Err(String::from_str("Software write protect did not change state to false when requested"))
            }
        } else {
            Ok(())
        }
    }

    /// Set software write protect over a custom byte range and check that
    /// the protection mode took the requested state.
    pub fn set_range<F: Flashrom>(&mut self, cmd: &mut F, range: (i64, i64), enable: bool) -> (r:
        Result<(), String>)
        requires
            old(self).wf(old(cmd)),
            old(cmd).inv(),
        ensures
            final(cmd).inv(),
            final(self).wf(final(cmd)),
            final(self).spec_initial() == old(self).spec_initial(),
            final(self).spec_frames() == old(self).spec_frames(),
            final(self).spec_fc() == old(self).spec_fc(),
            final(self).spec_current().hw == old(self).spec_current().hw,
            final(cmd).files() == old(cmd).files(),
            final(cmd).regions() == old(cmd).regions(),
            final(cmd).hw_controllable() == old(cmd).hw_controllable(),
            final(cmd).chip().contents == old(cmd).chip().contents,
            final(cmd).chip().size == old(cmd).chip().size,
            final(cmd).chip().hw_wp == old(cmd).chip().hw_wp,
            !old(cmd).chip().hw_wp && r is Ok ==> final(cmd).chip() == old(cmd).chip().with_sw(
                (range.0 as int, range.1 as int),
                enable,
            ),
            r is Ok ==> final(cmd).chip().sw_mode == enable,
            old(cmd).chip().hw_wp ==> final(cmd).chip().sw_mode == old(cmd).chip().sw_mode,
            r is Err ==> final(cmd).chip() == old(cmd).chip() && final(self).spec_current().sw
                == old(self).spec_current().sw,
    {
        match cmd.wp_range(range, enable) {
            Ok(_) => {},
            Err(e) => {
                let actual = Self::get_sw(cmd);
                self.current.sw = actual;
                return Err(e.to_string());
            },
        }
        let actual = Self::get_sw(cmd);
        self.current.sw = actual;
        if actual != enable {
            if enable {
                Err(String::from_str("set_range request=true, real=false"))
            } else {
                Err(String::from_str("set_range request=false, real=true"))
            }
        } else {
            Ok(())
        }
    }

    /// Set the hardware write protect if supported and check that the state
    /// is as expected; on a target that cannot control it, silently do
    /// nothing and record no state change. On every exit path the scope
    /// records the line state it observed, so its belief stays true even
    /// when the toggle failed.
    pub fn set_hw<F: Flashrom>(&mut self, cmd: &mut F, enable: bool) -> (r: Result<(), String>)
        requires
            old(self).wf(old(cmd)),
            old(cmd).inv(),
        ensures
            final(cmd).inv(),
            final(self).wf(final(cmd)),
            final(self).spec_initial() == old(self).spec_initial(),
            final(self).spec_frames() == old(self).spec_frames(),
            final(self).spec_fc() == old(self).spec_fc(),
            final(self).spec_current().sw == old(self).spec_current().sw,
            final(cmd).files() == old(cmd).files(),
            final(cmd).regions() == old(cmd).regions(),
            final(cmd).hw_controllable() == old(cmd).hw_controllable(),
            final(cmd).chip().contents == old(cmd).chip().contents,
            final(cmd).chip().size == old(cmd).chip().size,
            final(cmd).chip().sw_mode == old(cmd).chip().sw_mode,
            final(cmd).chip().sw_start == old(cmd).chip().sw_start,
            final(cmd).chip().sw_len == old(cmd).chip().sw_len,
            r is Ok && old(cmd).hw_controllable() ==> final(cmd).chip().hw_wp == enable
                && final(self).spec_current().hw == enable,
            !old(cmd).hw_controllable() ==> r is Ok && final(cmd).chip() == old(cmd).chip(),
            old(cmd).hw_controllable() && old(cmd).chip().hw_wp == enable ==> r is Ok,
            final(cmd).chip().hw_wp == enable || final(cmd).chip().hw_wp == old(cmd).chip().hw_wp,
            old(cmd).hw_controllable() ==> final(self).spec_current().hw
                == final(cmd).chip().hw_wp,
    {
        if cmd.can_control_hw_wp() {
            let mut toggle_err: Option<String> = None;
            if self.current.hw != enable {
                match cmd.toggle_hw_wp(enable) {
                    Ok(_) => {},
                    Err(e) => {
                        toggle_err = Some(e.to_string());
                    },
                }
            }
            let b = cmd.get_hardware_wp();
            self.current.hw = b;
            if b != enable {
                if enable {
                    return Err(
                        String::from_str("Hardware write protect did not change state to true when requested"),
                    );
                } else {
                    return Err(
                        String::from_str("Hardware write protect did not change state to false when requested"),
                    );
                }
            }
            match toggle_err {
                Some(m) => Err(m),
                None => Ok(()),
            }
        } else {
            Ok(())
        }
    }

    /// Restore both write protects to `target`, software first; if asserted
    /// hardware write-protect blocks the software change, release hardware
    /// write-protect, set software, then restore hardware last.
    fn restore_to<F: Flashrom>(&mut self, cmd: &mut F, target: WriteProtect) -> (r: Result<
        (),
        String,
    >)
        requires
            old(self).wf(old(cmd)),
            old(cmd).inv(),
            !old(cmd).hw_controllable() ==> target.hw == false,
        ensures
            final(cmd).inv(),
            final(self).wf(final(cmd)),
            final(self).spec_initial() == old(self).spec_initial(),
            final(self).spec_frames() == old(self).spec_frames(),
            final(self).spec_fc() == old(self).spec_fc(),
            final(cmd).files() == old(cmd).files(),
            final(cmd).regions() == old(cmd).regions(),
            final(cmd).hw_controllable() == old(cmd).hw_controllable(),
            final(cmd).chip().contents == old(cmd).chip().contents,
            final(cmd).chip().size == old(cmd).chip().size,
            r is Ok ==> final(cmd).chip().sw_mode == target.sw && (old(cmd).hw_controllable()
                ==> final(cmd).chip().hw_wp == target.hw) && final(self).spec_current().sw
                == target.sw,
    {
        // Software first, because it cannot change once hardware is
        // enabled.
        let first = self.set_sw(cmd, target.sw);
        if first.is_err() {
            match self.set_hw(cmd, false) {
                Ok(_) => {},
                Err(m) => {
                    return Err(m);
                },
            }
            match self.set_sw(cmd, target.sw) {
                Ok(_) => {},
                Err(m) => {
                    return Err(m);
                },
            }
        }
        match self.set_hw(cmd, target.hw) {
            Ok(_) => {},
            Err(m) => {
                return Err(m);
            },
        }
        Ok(())
    }

    /// Restore the bits of the innermost nested scope and discard it.
    /// Fails — restoring nothing — when no nested scope is open; a
    /// restoration failure is fatal.
    pub fn pop<F: Flashrom>(&mut self, cmd: &mut F) -> (r: Result<(), FatalRestoreError>)
        requires
            old(self).wf(old(cmd)),
            old(cmd).inv(),
        ensures
            final(cmd).inv(),
            final(self).wf(final(cmd)),
            final(self).spec_initial() == old(self).spec_initial(),
            final(self).spec_fc() == old(self).spec_fc(),
            final(cmd).files() == old(cmd).files(),
            final(cmd).regions() == old(cmd).regions(),
            final(cmd).hw_controllable() == old(cmd).hw_controllable(),
            final(cmd).chip().contents == old(cmd).chip().contents,
            final(cmd).chip().size == old(cmd).chip().size,
            old(self).spec_frames().len() == 0 ==> r is Err && *final(self) == *old(self)
                && *final(cmd) == *old(cmd),
            r is Ok ==> old(self).spec_frames().len() > 0
                && final(self).spec_frames() == old(self).spec_frames().drop_last()
                && final(self).spec_current() == old(self).spec_frames().last()
                && final(cmd).chip().sw_mode == old(self).spec_frames().last().sw
                && (old(cmd).hw_controllable() ==> final(cmd).chip().hw_wp == old(self).spec_frames().last().hw),
            r is Err ==> final(self).spec_frames() == old(self).spec_frames(),
    {
        if self.pushed.len() == 0 {
            return Err(
                FatalRestoreError { msg: String::from_str("no nested write-protect scope is open") },
            );
        }
        let target = self.pushed[self.pushed.len() - 1];
        match self.restore_to(cmd, target) {
            Ok(_) => {
                self.pushed.pop();
                Ok(())
            },
            Err(m) => Err(FatalRestoreError { msg: m }),
        }
    }

    /// Reset the hardware to what it was when this root state was created
    /// and release the liveness guard — only after every restoration step
    /// has succeeded. Fails, fatally, if a nested scope is still open or a
    /// restoration step fails.
    pub fn close<F: Flashrom>(self, cmd: &mut F, guard: &mut RootGuard) -> (r: Result<
        (),
        FatalRestoreError,
    >)
        requires
            self.wf(old(cmd)),
            old(cmd).inv(),
        ensures
            final(cmd).inv(),
            final(cmd).files() == old(cmd).files(),
            final(cmd).regions() == old(cmd).regions(),
            final(cmd).hw_controllable() == old(cmd).hw_controllable(),
            final(cmd).chip().contents == old(cmd).chip().contents,
            final(cmd).chip().size == old(cmd).chip().size,
            self.spec_frames().len() > 0 ==> r is Err && *final(cmd) == *old(cmd),
            r is Ok ==> final(cmd).chip().sw_mode == self.spec_initial().sw
                && (old(cmd).hw_controllable() ==> final(cmd).chip().hw_wp == self.spec_initial().hw)
                && !final(guard).is_live(),
            r is Err ==> final(guard).is_live() == old(guard).is_live(),
    {
        let mut s = self;
        if s.pushed.len() > 0 {
            return Err(
                FatalRestoreError {
                    msg: String::from_str("cannot close a write-protect scope while a nested scope is open"),
                },
            );
        }
        let target = s.initial;
        match s.restore_to(cmd, target) {
            Ok(_) => {
                guard.live = false;
                Ok(())
            },
            Err(m) => Err(FatalRestoreError { msg: m }),
        }
    }
}

/// The test environment: one backend, one root write-protect scope, a
/// golden snapshot of the chip contents taken at setup, and a chip-sized
/// file of random probe data.
pub struct TestEnv<F: Flashrom> {
    pub chip_type: FlashChip,
    pub cmd: F,
    pub layout: LayoutSizes,
    pub wp: WriteProtectState,
    pub original_flash_contents: String,
    pub random_data: String,
    pub layout_file: String,
}

impl<F: Flashrom> TestEnv<F> {
    /// The path of the golden snapshot file.
    pub open spec fn golden_path(&self) -> Seq<char> {
        self.original_flash_contents@
    }

    /// The path of the random probe-data file.
    pub open spec fn random_path(&self) -> Seq<char> {
        self.random_data@
    }

    /// The path of the layout artifact.
    pub open spec fn layout_path(&self) -> Seq<char> {
        self.layout_file@
    }

    /// The golden snapshot: the bytes the chip held at session start.
    pub open spec fn golden(&self) -> Seq<u8> {
        self.cmd.files()[self.golden_path()]
    }

    pub open spec fn spec_layout(&self) -> LayoutSizes {
        self.layout
    }

    pub open spec fn spec_chip_type(&self) -> FlashChip {
        self.chip_type
    }

    /// Environment well-formedness: the backend invariant, the scope
    /// tracking the backend, and the session artifacts in place.
    pub open spec fn wf(&self) -> bool {
        &&& self.cmd.inv()
        &&& self.cmd.chip().wf()
        &&& self.wp.wf(&self.cmd)
        &&& self.cmd.files().contains_key(self.golden_path())
        &&& self.golden().len() == self.cmd.chip().size
        &&& self.cmd.files().contains_key(self.random_path())
        &&& self.golden_path() == "/tmp/flashrom_tester_golden.bin"@
        &&& self.random_path() == "/tmp/random_content.bin"@
        &&& self.layout_path() == "/tmp/layout.file"@
    }

    /// Set up an environment: size the chip, plan and persist the layout,
    /// open the root write-protect scope, stash and re-verify the golden
    /// image, and generate random probe data. Fails while another root
    /// scope is live under the same guard.
    pub fn create(chip_type: FlashChip, cmd: F, guard: &mut RootGuard) -> (r: Result<
        TestEnv<F>,
        FlashromError,
    >)
        requires
            cmd.inv(),
            cmd.chip().wf(),
        ensures
            old(guard).is_live() ==> r is Err,
            r is Err ==> final(guard).is_live() == old(guard).is_live(),
            r is Ok ==> final(guard).is_live() && {
                let env = r->Ok_0;
                &&& env.wf()
                &&& env.golden() == cmd.chip().contents
                &&& env.cmd.chip().contents == cmd.chip().contents
                &&& env.cmd.chip().size == cmd.chip().size
                &&& env.cmd.regions() == cmd.regions()
                &&& env.cmd.hw_controllable() == cmd.hw_controllable()
                &&& env.spec_chip_type() == chip_type
                &&& env.wp.spec_frames().len() == 0
                &&& env.wp.spec_initial().sw == cmd.chip().sw_mode
                &&& (cmd.hw_controllable() ==> env.wp.spec_initial().hw == cmd.chip().hw_wp)
                &&& spec_valid_rom_size(cmd.chip().size as i64) && cmd.chip().size >= 4
                &&& env.spec_layout() == spec_layout_sizes(cmd.chip().size)
                &&& env.cmd.files().contains_key(env.layout_path())
                &&& env.cmd.files()[env.layout_path()] == encode_utf8(
                    spec_layout_text(spec_layout_sizes(cmd.chip().size)),
                )
                &&& env.cmd.files()[env.random_path()].len() == cmd.chip().size
            },
    {
        let mut cmd = cmd;
        let rom_sz = match cmd.get_size() {
            Ok(v) => v,
            Err(e) => {
                return Err(e);
            },
        };
        let layout = match get_layout_sizes(rom_sz) {
            Ok(l) => l,
            Err(m) => {
                return Err(FlashromError { msg: m });
            },
        };
        if rom_sz < 4 {
            return Err(FlashromError::new("invalid rom size provided"));
        }
        let wp = match WriteProtectState::from_hardware(&cmd, chip_type, guard) {
            Ok(w) => w,
            Err(e) => {
                return Err(e);
            },
        };
        let flags = FlashromFlags::default();
        cmd.set_flags(&flags);
        let text = construct_layout_file(&layout);
        let bytes = text.as_str().as_bytes_vec();
        match cmd.write_host_file("/tmp/layout.file", &bytes) {
            Ok(_) => {},
            Err(e) => {
                // The scope has changed nothing yet; release the guard.
                guard.live = false;
                return Err(e);
            },
        }
        let ghost files_after_layout = cmd.files();
        match cmd.read_into_file("/tmp/flashrom_tester_golden.bin") {
            Ok(_) => {},
            Err(e) => {
                guard.live = false;
                return Err(e);
            },
        }
        proof {
            lemma_session_paths_distinct();
            lemma_file_preserved(
                files_after_layout,
                cmd.files(),
                "/tmp/flashrom_tester_golden.bin"@,
                "/tmp/layout.file"@,
            );
        }
        match cmd.verify_from_file("/tmp/flashrom_tester_golden.bin") {
            Ok(_) => {},
            Err(e) => {
                guard.live = false;
                return Err(e);
            },
        }
        let ghost files_before_rand = cmd.files();
        match cmd.write_random_file("/tmp/random_content.bin", rom_sz) {
            Ok(_) => {},
            Err(e) => {
                guard.live = false;
                return Err(e);
            },
        }
        proof {
            lemma_session_paths_distinct();
            lemma_file_preserved(
                files_before_rand,
                cmd.files(),
                "/tmp/random_content.bin"@,
                "/tmp/flashrom_tester_golden.bin"@,
            );
            lemma_file_preserved(
                files_before_rand,
                cmd.files(),
                "/tmp/random_content.bin"@,
                "/tmp/layout.file"@,
            );
        }
        let env = TestEnv {
            chip_type,
            cmd,
            layout,
            wp,
            original_flash_contents: String::from_str("/tmp/flashrom_tester_golden.bin"),
            random_data: String::from_str("/tmp/random_content.bin"),
            layout_file: String::from_str("/tmp/layout.file"),
        };
        proof {
            lemma_session_paths_distinct();
        }
        Ok(env)
    }

    /// The chip type under test; immutable for the session.
    pub fn chip_type(&self) -> (r: FlashChip)
        ensures
            r == self.spec_chip_type(),
    {
        self.chip_type
    }

    /// The path of a file that contains random data and is the same size
    /// as the flash chip.
    pub fn random_data_file(&self) -> (r: &str)
        ensures
            r@ == self.random_path(),
    {
        self.random_data.as_str()
    }

    /// The layout plan for this chip.
    pub fn layout(&self) -> (r: &LayoutSizes)
        ensures
            *r == self.spec_layout(),
    {
        &self.layout
    }

    /// Return true if the current flash contents are the same as the golden
    /// image that was present at the start of testing.
    pub fn is_golden(&self) -> (r: bool)
        requires
            self.wf(),
        ensures
            r == (self.cmd.chip().contents == self.golden()),
    {
        match self.cmd.verify_from_file(self.original_flash_contents.as_str()) {
            Ok(_) => true,
            Err(_) => false,
        }
    }

    /// Make the current flash contents the same as they were at the start
    /// of testing: disable both write-protects, then write the golden
    /// snapshot back. Idempotent; safe to call when already golden.
    pub fn ensure_golden(&mut self) -> (r: Result<(), FlashromError>)
        requires
            old(self).wf(),
        ensures
            final(self).wf(),
            env_stable(old(self), final(self)),
            r is Ok ==> final(self).cmd.chip().contents == final(self).golden(),
            r is Ok ==> !final(self).cmd.chip().sw_mode,
            r is Ok && final(self).cmd.hw_controllable() ==> !final(self).cmd.chip().hw_wp,
            final(self).cmd.chip().contents == old(self).cmd.chip().contents
                || final(self).cmd.chip().contents == old(self).golden(),
    {
        match self.wp.set_hw(&mut self.cmd, false) {
            Ok(_) => {},
            Err(m) => {
                return Err(FlashromError { msg: m });
            },
        }
        match self.wp.set_sw(&mut self.cmd, false) {
            Ok(_) => {},
            Err(m) => {
                return Err(FlashromError { msg: m });
            },
        }
        let r = self.cmd.write_from_file(self.original_flash_contents.as_str());
        proof {
            lemma_session_paths_distinct();
        }
        match r {
            Ok(_) => Ok(()),
            Err(e) => Err(e),
        }
    }

    /// Attempt to erase the flash; software-protected bytes never change.
    pub fn erase(&mut self) -> (r: Result<(), FlashromError>)
        requires
            old(self).wf(),
        ensures
            final(self).wf(),
            env_stable(old(self), final(self)),
            final(self).cmd.chip().same_wp(old(self).cmd.chip()),
            forall|i: int|
                0 <= i < old(self).cmd.chip().size && old(self).cmd.chip().protected(i)
                    ==> final(self).cmd.chip().contents[i] == old(self).cmd.chip().contents[i],
            r is Ok && !old(self).cmd.chip().any_protected() ==> final(self).cmd.chip().contents
                == old(self).cmd.chip().erased(),
            r is Err ==> final(self).cmd.chip() == old(self).cmd.chip(),
    {
        match self.cmd.erase() {
            Ok(_) => Ok(()),
            Err(e) => Err(e),
        }
    }

    /// Verify that the current flash contents are the same as the file at
    /// the given path; an error means they differ or the file is missing.
    pub fn verify(&self, contents_path: &str) -> (r: Result<(), FlashromError>)
        requires
            self.wf(),
        ensures
            r is Ok <==> self.cmd.files().contains_key(contents_path@) && self.cmd.files()[
                contents_path@] == self.cmd.chip().contents,
    {
        self.cmd.verify_from_file(contents_path)
    }

    /// Run one test case against this environment, returning its result
    /// untouched; recovery is deferred to disposal.
    pub fn run_test<T: TestCase<F>>(&mut self, test: &T) -> (r: TestResult)
        requires
            old(self).wf(),
        ensures
            env_stable(old(self), final(self)),
    {
        test.run(self)
    }

    /// Dispose of the environment: restore the golden contents if they
    /// changed (best effort), then close the root scope and release the
    /// guard. Returns the backend, whether the chip ends golden, and the
    /// scope-restoration outcome; a restoration failure is fatal.
    pub fn finish(self, guard: &mut RootGuard) -> (r: (F, bool, Result<(), FatalRestoreError>))
        requires
            self.wf(),
        ensures
            r.0.inv(),
            r.1 == (r.0.chip().contents == r.0.files()[self.golden_path()]),
            r.0.files().contains_key(self.golden_path()),
            r.0.files()[self.golden_path()] == self.golden(),
            r.0.chip().contents == self.cmd.chip().contents || r.0.chip().contents
                == self.golden(),
            r.2 is Ok ==> r.0.chip().sw_mode == self.wp.spec_initial().sw && (
            self.cmd.hw_controllable() ==> r.0.chip().hw_wp == self.wp.spec_initial().hw)
                && !final(guard).is_live(),
            r.2 is Err ==> final(guard).is_live() == old(guard).is_live(),
    {
        let mut env = self;
        if !env.is_golden() {
            let recovery = env.ensure_golden();
            match recovery {
                Ok(_) => {},
                Err(_) => {},
            }
        }
        let golden_now = env.is_golden();
        let TestEnv { cmd: mut cmd, wp, .. } = env;
        let res = wp.close(&mut cmd, guard);
        (cmd, golden_now, res)
    }
}

/// What a test case leaves alone: the environment stays well-formed, on the
/// same chip, with the same session artifacts, the same golden snapshot,
/// and the root scope's creation-time bits and frame stack intact.
pub open spec fn env_stable<F: Flashrom>(pre: &TestEnv<F>, post: &TestEnv<F>) -> bool {
    &&& post.wf()
    &&& post.golden() == pre.golden()
    &&& post.golden_path() == pre.golden_path()
    &&& post.random_path() == pre.random_path()
    &&& post.layout_path() == pre.layout_path()
    &&& post.spec_layout() == pre.spec_layout()
    &&& post.spec_chip_type() == pre.spec_chip_type()
    &&& post.cmd.regions() == pre.cmd.regions()
    &&& post.cmd.hw_controllable() == pre.cmd.hw_controllable()
    &&& post.cmd.chip().size == pre.cmd.chip().size
    &&& post.wp.spec_initial() == pre.wp.spec_initial()
    &&& post.wp.spec_frames() == pre.wp.spec_frames()
}

/// The session's three artifact paths are pairwise distinct.
pub proof fn lemma_session_paths_distinct()
    ensures
        "/tmp/flashrom_tester_golden.bin"@ != "/tmp/random_content.bin"@,
        "/tmp/flashrom_tester_golden.bin"@ != "/tmp/layout.file"@,
        "/tmp/random_content.bin"@ != "/tmp/layout.file"@,
{
    reveal_strlit("/tmp/flashrom_tester_golden.bin");
    reveal_strlit("/tmp/random_content.bin");
    reveal_strlit("/tmp/layout.file");
    assert("/tmp/flashrom_tester_golden.bin"@.len() == 31);
    assert("/tmp/random_content.bin"@.len() == 23);
    assert("/tmp/layout.file"@.len() == 16);
}

/// A named test case with an expected conclusion.
pub trait TestCase<F: Flashrom> {
    /// The case's name.
    spec fn spec_name(&self) -> Seq<char>;

    /// The conclusion the case is expected to reach.
    spec fn spec_expected(&self) -> TestConclusion;

    fn get_name(&self) -> (r: &str)
        ensures
            r@ == self.spec_name(),
    ;

    fn expected_result(&self) -> (r: TestConclusion)
        ensures
            r == self.spec_expected(),
    ;

    /// Run the case body; it must leave the environment stable (golden
    /// snapshot, artifacts and root scope intact).
    fn run(&self, env: &mut TestEnv<F>) -> (r: TestResult)
        requires
            old(env).wf(),
        ensures
            env_stable(old(env), final(env)),
    ;
}

/// How a test run ended, reconciled against its expectation.
#[derive(Copy, Clone, PartialEq, Eq, Debug, Structural)]
pub enum TestConclusion {
    Pass,
    Fail,
    UnexpectedPass,
    UnexpectedFail,
}

/// Free-form information attached to a report.
pub struct ReportMetaData {
    pub chip_name: String,
    pub os_release: String,
    pub cros_release: String,
    pub system_info: String,
    pub bios_info: String,
}

/// Reconcile a test's actual result against its expected conclusion:
/// an unexpected success or failure is flagged as such, everything else
/// counts as a pass; only an unexpected failure carries the error along.
pub fn decode_test_result(res: TestResult, con: TestConclusion) -> (r: (
    TestConclusion,
    Option<TestError>,
))
    ensures
        res is Ok && con == TestConclusion::Fail ==> r.0 == TestConclusion::UnexpectedPass && r.1
            is None,
        res is Err && con == TestConclusion::Pass ==> r.0 == TestConclusion::UnexpectedFail && r.1
            == Some(res->Err_0),
        res is Ok && con != TestConclusion::Fail ==> r.0 == TestConclusion::Pass && r.1 is None,
        res is Err && con != TestConclusion::Pass ==> r.0 == TestConclusion::Pass && r.1 is None,
{
    match (res, con) {
        (Ok(_), TestConclusion::Fail) => (TestConclusion::UnexpectedPass, None),
        (Err(e), TestConclusion::Pass) => (TestConclusion::UnexpectedFail, Some(e)),
        _ => (TestConclusion::Pass, None),
    }
}

/// A cooperative cancellation flag, polled only between test cases.
/// Nothing is promised of its answer: it reports an outside decision.
pub trait CancelToken {
    fn is_cancelled(&self) -> bool;
}

/// A token that never cancels.
pub struct NeverCancel;

impl CancelToken for NeverCancel {
    fn is_cancelled(&self) -> bool {
        false
    }
}

/// Why a test run ended without results.
#[derive(Debug)]
pub enum RunError {
    /// The environment could not be set up.
    Setup(FlashromError),
    /// A write-protect restoration step failed on disposal; the caller
    /// must treat this as non-recoverable.
    FatalRestore(FatalRestoreError),
}

/// Construct one test environment, run the cases in order against it —
/// checking the cancellation flag between cases, never mid-case — and
/// reconcile each outcome with its expectation. The environment is
/// disposed of before returning: the chip is restored to the golden
/// snapshot (best effort) and the write-protect bits to their
/// creation-time values.
pub fn run_all_tests<F: Flashrom, T: TestCase<F>, C: CancelToken>(
    chip: FlashChip,
    cmd: F,
    ts: &Vec<T>,
    terminate_flag: Option<&C>,
    guard: &mut RootGuard,
) -> (r: Result<(Vec<(String, (TestConclusion, Option<TestError>))>, F), RunError>)
    requires
        cmd.inv(),
        cmd.chip().wf(),
    ensures
        old(guard).is_live() ==> r is Err,
        r matches Err(RunError::Setup(_)) ==> final(guard).is_live() == old(guard).is_live(),
        r matches Err(RunError::FatalRestore(_)) ==> final(guard).is_live(),
        r is Ok && terminate_flag is None ==> r->Ok_0.0@.len() == ts@.len(),
        r is Ok ==> {
            let (results, out) = r->Ok_0;
            &&& out.inv()
            &&& !final(guard).is_live()
            &&& results@.len() <= ts@.len()
            &&& (forall|i: int|
                0 <= i < results@.len() ==> (#[trigger] results@[i]).0@ == ts@[i].spec_name())
            &&& (forall|i: int|
                0 <= i < results@.len() ==> (#[trigger] results@[i]).1.0 == TestConclusion::Pass
                    || (ts@[i].spec_expected() == TestConclusion::Pass && results@[i].1.0
                    == TestConclusion::UnexpectedFail) || (ts@[i].spec_expected()
                    == TestConclusion::Fail && results@[i].1.0 == TestConclusion::UnexpectedPass))
            &&& (forall|i: int|
                0 <= i < results@.len() ==> ((#[trigger] results@[i]).1.1 is Some
                    ==> results@[i].1.0 == TestConclusion::UnexpectedFail))
        },
{
    let mut env = match TestEnv::create(chip, cmd, guard) {
        Ok(e) => e,
        Err(e) => {
            return Err(RunError::Setup(e));
        },
    };
    let mut results: Vec<(String, (TestConclusion, Option<TestError>))> = Vec::new();
    let n = ts.len();
    let mut i: usize = 0;
    let mut cancelled = false;
    while i < n && !cancelled
        invariant
            env.wf(),
            n == ts@.len(),
            0 <= i <= n,
            results@.len() == i,
            terminate_flag is None ==> !cancelled,
            forall|j: int|
                0 <= j < i ==> (#[trigger] results@[j]).0@ == ts@[j].spec_name(),
            forall|j: int|
                0 <= j < i ==> (#[trigger] results@[j]).1.0 == TestConclusion::Pass || (
                ts@[j].spec_expected() == TestConclusion::Pass && results@[j].1.0
                    == TestConclusion::UnexpectedFail) || (ts@[j].spec_expected()
                    == TestConclusion::Fail && results@[j].1.0 == TestConclusion::UnexpectedPass),
            forall|j: int|
                0 <= j < i ==> ((#[trigger] results@[j]).1.1 is Some ==> results@[j].1.0
                    == TestConclusion::UnexpectedFail),
        decreases n - i + (if cancelled { 0int } else { 1int }),
    {
        let polled = match terminate_flag {
            Some(c) => c.is_cancelled(),
            None => false,
        };
        if polled {
            cancelled = true;
        } else {
            let t = &ts[i];
            let res = env.run_test(t);
            let conclusion = decode_test_result(res, t.expected_result());
            results.push((String::from_str(t.get_name()), conclusion));
            i += 1;
        }
    }
    let (out, _golden, res) = env.finish(guard);
    match res {
        Ok(_) => Ok((results, out)),
        Err(e) => Err(RunError::FatalRestore(e)),
    }
}

/// The report format a run was asked for.
#[derive(Debug, PartialEq, Eq, Clone, Copy, Structural)]
pub enum OutputFormat {
    Pretty,
    Json,
}

impl core::str::FromStr for OutputFormat {
    type Err = ();

    /// Parse a format name, ignoring ASCII case.
    fn from_str(s: &str) -> Result<OutputFormat, ()> {
        if eq_ignore_case(s, "pretty") {
            Ok(OutputFormat::Pretty)
        } else if eq_ignore_case(s, "json") {
            Ok(OutputFormat::Json)
        } else {
            Err(())
        }
    }
}

} // verus!
