//! The flash backend capability contract: the model of a chip (size,
//! write-protect state, contents), of the host files the session exchanges
//! with the backend, and the trait every backend satisfies. The in-memory
//! simulator in `sim` proves these contracts; process-external backends
//! implement the same interface outside the library.

use vstd::prelude::*;
use crate::strutil::str_eq;

verus! {

/// Which physical chip a session addresses. Determines whether the hardware
/// write-protect line can be controlled at all.
#[derive(Copy, Clone, PartialEq, Eq, Debug, Structural)]
pub enum FlashChip {
    INTERNAL,
}

/// Whether the hardware write-protect signal of this target can be
/// controlled.
pub open spec fn spec_can_control_hw_wp(fc: FlashChip) -> bool {
    match fc {
        FlashChip::INTERNAL => true,
    }
}

impl FlashChip {
    /// Parse a target name.
    pub fn from(s: &str) -> (r: Result<FlashChip, &'static str>)
        ensures
            s@ == "internal"@ ==> r == Ok::<FlashChip, &'static str>(FlashChip::INTERNAL),
            s@ != "internal"@ ==> r is Err && r->Err_0@ == "cannot convert str to enum"@,
    {
        if str_eq(s, "internal") {
            Ok(FlashChip::INTERNAL)
        } else {
            Err("cannot convert str to enum")
        }
    }

    /// The programmer name for a target.
    pub fn to(fc: FlashChip) -> (r: &'static str)
        ensures
            r@ == "internal"@,
    {
        match fc {
            FlashChip::INTERNAL => "internal",
        }
    }

    /// The programmer name and its optional options suffix (after a `:`).
    pub fn to_split(fc: FlashChip) -> (r: (&'static str, Option<&'static str>))
        ensures
            r.0@ == "internal"@,
            r.1 is None,
    {
        match fc {
            FlashChip::INTERNAL => ("internal", None),
        }
    }

    /// Return whether the hardware write protect signal can be controlled.
    pub fn can_control_hw_wp(&self) -> (r: bool)
        ensures
            r == spec_can_control_hw_wp(*self),
    {
        match self {
            FlashChip::INTERNAL => true,
        }
    }
}

/// An error reported by a backend operation.
#[derive(Debug, PartialEq, Eq)]
pub struct FlashromError {
    pub msg: String,
}

impl FlashromError {
    pub fn new(msg: &str) -> (r: FlashromError)
        ensures
            r.msg@ == msg@,
    {
        FlashromError { msg: String::from_str(msg) }
    }

    /// The error text.
    pub fn to_string(&self) -> (r: String)
        ensures
            r@ == self.msg@,
    {
        self.msg.clone()
    }
}

/// Behavioral toggles handed to a backend.
#[derive(Debug, Clone, Copy, PartialEq, Eq, Structural)]
pub struct FlashromFlags {
    pub force: bool,
    pub force_boardmismatch: bool,
    pub verify_after_write: bool,
    pub verify_whole_chip: bool,
    pub skip_unreadable_regions: bool,
    pub skip_unwritable_regions: bool,
}

impl Default for FlashromFlags {
    /// The default flags: verify after every write, over the whole chip.
    fn default() -> (r: FlashromFlags)
        ensures
            r == (FlashromFlags {
                force: false,
                force_boardmismatch: false,
                verify_after_write: true,
                verify_whole_chip: true,
                skip_unreadable_regions: false,
                skip_unwritable_regions: false,
            }),
    {
        FlashromFlags {
            force: false,
            force_boardmismatch: false,
            verify_after_write: true,
            verify_whole_chip: true,
            skip_unreadable_regions: false,
            skip_unwritable_regions: false,
        }
    }
}

/// The model of a flash chip: its size, write-protect state and contents.
///
/// Software write-protect is a mode bit plus a byte range; a byte is
/// protected when the mode is on and the byte lies in the range. The
/// hardware write-protect line does not block data writes by itself: it
/// freezes the software write-protect configuration.
#[verifier::ext_equal]
pub struct ChipModel {
    pub size: int,
    pub hw_wp: bool,
    pub sw_mode: bool,
    pub sw_start: int,
    pub sw_len: int,
    pub contents: Seq<u8>,
}

impl ChipModel {
    /// The byte at offset `i` is software-protected.
    pub open spec fn protected(self, i: int) -> bool {
        self.sw_mode && self.sw_start <= i < self.sw_start + self.sw_len
    }

    /// Some byte of the chip is software-protected.
    pub open spec fn any_protected(self) -> bool {
        exists|i: int| 0 <= i < self.size && self.protected(i)
    }

    /// A structurally sound chip: contents match the size, and the size is
    /// positive and addressable.
    pub open spec fn wf(self) -> bool {
        &&& self.contents.len() == self.size
        &&& 0 < self.size <= i64::MAX
        &&& self.size <= usize::MAX
    }

    /// The write-protect configuration of the two models is the same.
    pub open spec fn same_wp(self, other: ChipModel) -> bool {
        &&& self.hw_wp == other.hw_wp
        &&& self.sw_mode == other.sw_mode
        &&& self.sw_start == other.sw_start
        &&& self.sw_len == other.sw_len
    }

    /// The chip contents after a full erase.
    pub open spec fn erased(self) -> Seq<u8> {
        Seq::new(self.contents.len(), |i: int| 0xffu8)
    }

    /// The model after setting software write-protect to `en` over `range`.
    pub open spec fn with_sw(self, range: (int, int), en: bool) -> ChipModel {
        ChipModel { sw_mode: en, sw_start: range.0, sw_len: range.1, ..self }
    }

    /// The model after setting the hardware write-protect line to `en`.
    pub open spec fn with_hw(self, en: bool) -> ChipModel {
        ChipModel { hw_wp: en, ..self }
    }
}

/// The backend's environment other than the chip is unchanged: host files,
/// named regions, and hardware-controllability.
pub open spec fn same_env<F: Flashrom>(pre: &F, post: &F) -> bool {
    &&& post.files() == pre.files()
    &&& post.regions() == pre.regions()
    &&& post.hw_controllable() == pre.hw_controllable()
}

/// The host-file store is unchanged at `q` when only `p` was touched.
pub proof fn lemma_file_preserved(
    m1: Map<Seq<char>, Seq<u8>>,
    m2: Map<Seq<char>, Seq<u8>>,
    p: Seq<char>,
    q: Seq<char>,
)
    requires
        m2.remove(p) == m1.remove(p),
        q != p,
    ensures
        m2.contains_key(q) == m1.contains_key(q),
        m1.contains_key(q) ==> m2[q] == m1[q],
{
    if m1.contains_key(q) {
        assert(m1.remove(p).contains_key(q));
        assert(m2.remove(p).contains_key(q));
        assert(m2.contains_key(q));
        assert(m2[q] == m2.remove(p)[q]);
        assert(m2.remove(p)[q] == m1.remove(p)[q]);
        assert(m1.remove(p)[q] == m1[q]);
    } else {
        if m2.contains_key(q) {
            assert(m2.remove(p).contains_key(q));
            assert(m1.remove(p).contains_key(q));
            assert(false);
        }
    }
}

/// The host-file store is unchanged except possibly at `path`.
pub open spec fn files_confined<F: Flashrom>(pre: &F, post: &F, path: Seq<char>) -> bool {
    &&& post.regions() == pre.regions()
    &&& post.hw_controllable() == pre.hw_controllable()
    &&& post.files().remove(path) == pre.files().remove(path)
}

/// A flash backend: the capability contract every implementation satisfies.
///
/// The model exposes the chip, the host files the session exchanges with
/// the backend, and the backend's named-region table (established from the
/// chip's flash map or the session's layout artifact).
pub trait Flashrom: Sized {
    /// The modeled chip.
    ///
    /// The model spec functions carry defaults so that a process-external
    /// backend, which the verifier never sees, can implement the trait;
    /// with the defaults the invariant is never satisfiable, so verified
    /// code can rely on the model only for backends that define it.
    open spec fn chip(&self) -> ChipModel {
        arbitrary()
    }

    /// The modeled host-file store: a path's contents.
    open spec fn files(&self) -> Map<Seq<char>, Seq<u8>> {
        arbitrary()
    }

    /// The named regions the backend can address: name to `(start, len)`.
    open spec fn regions(&self) -> Map<Seq<char>, (int, int)> {
        arbitrary()
    }

    /// Whether the hardware write-protect line of this target is
    /// controllable.
    open spec fn hw_controllable(&self) -> bool {
        arbitrary()
    }

    /// The backend's invariant, preserved by every operation.
    open spec fn inv(&self) -> bool {
        false
    }

    /// The size of the flash in bytes.
    fn get_size(&self) -> (r: Result<i64, FlashromError>)
        requires
            self.inv(),
        ensures
            r is Ok ==> r->Ok_0 == self.chip().size,
    ;

    /// The vendor name and the chip name.
    fn name(&self) -> (r: Result<(String, String), FlashromError>)
        requires
            self.inv(),
    ;

    /// Set software write-protect to `wp_enable` over the byte range
    /// `(start, len)`. Blocked while hardware write-protect is asserted.
    fn wp_range(&mut self, range: (i64, i64), wp_enable: bool) -> (r: Result<bool, FlashromError>)
        requires
            old(self).inv(),
        ensures
            final(self).inv(),
            final(self).files() == old(self).files(),
            final(self).regions() == old(self).regions(),
            final(self).hw_controllable() == old(self).hw_controllable(),
            final(self).chip().contents == old(self).chip().contents,
            final(self).chip().size == old(self).chip().size,
            final(self).chip().hw_wp == old(self).chip().hw_wp,
            old(self).chip().hw_wp ==> final(self).chip() == old(self).chip(),
            !old(self).chip().hw_wp && r is Ok ==> final(self).chip() == old(self).chip().with_sw(
                (range.0 as int, range.1 as int),
                wp_enable,
            ),
            r is Err ==> final(self).chip() == old(self).chip(),
            r is Ok ==> r->Ok_0 == true,
    ;

    /// Read the write-protectable regions of the flash. May fail where the
    /// platform driver does not support listing; callers treat that as
    /// non-fatal.
    fn wp_list(&self) -> (r: Result<String, FlashromError>)
        requires
            self.inv(),
        ensures
            r is Ok ==> r->Ok_0@.len() > 0,
    ;

    /// True iff the software write-protect mode matches `en`.
    fn wp_status(&self, en: bool) -> (r: bool)
        requires
            self.inv(),
        ensures
            r == (self.chip().sw_mode == en),
    ;

    /// Set software write-protect over the whole chip (`en` true) or clear
    /// it with the empty range (`en` false). Blocked while hardware
    /// write-protect is asserted.
    fn wp_toggle(&mut self, en: bool) -> (r: Result<bool, FlashromError>)
        requires
            old(self).inv(),
        ensures
            final(self).inv(),
            final(self).files() == old(self).files(),
            final(self).regions() == old(self).regions(),
            final(self).hw_controllable() == old(self).hw_controllable(),
            final(self).chip().contents == old(self).chip().contents,
            final(self).chip().size == old(self).chip().size,
            final(self).chip().hw_wp == old(self).chip().hw_wp,
            old(self).chip().hw_wp ==> final(self).chip() == old(self).chip(),
            !old(self).chip().hw_wp && r is Ok ==> final(self).chip() == old(self).chip().with_sw(
                if en {
                    (0int, old(self).chip().size)
                } else {
                    (0int, 0int)
                },
                en,
            ),
            r is Err ==> final(self).chip() == old(self).chip(),
            r is Ok ==> r->Ok_0 == true,
    ;

    /// The state of the hardware write-protect line.
    fn get_hardware_wp(&self) -> (r: bool)
        requires
            self.inv(),
            self.hw_controllable(),
        ensures
            r == self.chip().hw_wp,
    ;

    /// Drive the hardware write-protect line to `en`; may require
    /// out-of-band action and block until it happens. On failure the line
    /// is either already at `en` or untouched.
    fn toggle_hw_wp(&mut self, en: bool) -> (r: Result<(), FlashromError>)
        requires
            old(self).inv(),
            old(self).hw_controllable(),
        ensures
            final(self).inv(),
            final(self).files() == old(self).files(),
            final(self).regions() == old(self).regions(),
            final(self).hw_controllable() == old(self).hw_controllable(),
            final(self).chip() == old(self).chip() || final(self).chip() == old(self).chip().with_hw(en),
            r is Ok ==> final(self).chip() == old(self).chip().with_hw(en),
    ;

    /// Read the whole flash into the file at `path`.
    fn read_into_file(&mut self, path: &str) -> (r: Result<(), FlashromError>)
        requires
            old(self).inv(),
        ensures
            final(self).inv(),
            final(self).chip() == old(self).chip(),
            final(self).regions() == old(self).regions(),
            final(self).hw_controllable() == old(self).hw_controllable(),
            final(self).files().remove(path@) == old(self).files().remove(path@),
            r is Ok ==> final(self).files().contains_key(path@) && final(self).files()[path@]
                == old(self).chip().contents,
    ;

    /// Read one named region of the flash into the file at `path`; the
    /// first byte written is the first byte of the region.
    fn read_region_into_file(&mut self, path: &str, region: &str) -> (r: Result<
        (),
        FlashromError,
    >)
        requires
            old(self).inv(),
        ensures
            final(self).inv(),
            final(self).chip() == old(self).chip(),
            final(self).regions() == old(self).regions(),
            final(self).hw_controllable() == old(self).hw_controllable(),
            final(self).files().remove(path@) == old(self).files().remove(path@),
            r is Ok ==> old(self).regions().contains_key(region@) && {
                let (s, l) = old(self).regions()[region@];
                final(self).files().contains_key(path@) && final(self).files()[path@] == old(self).chip().contents.subrange(s, s + l)
            },
    ;

    /// Write the whole flash from the file at `path` (which must be
    /// chip-sized). Software-protected bytes never change.
    fn write_from_file(&mut self, path: &str) -> (r: Result<(), FlashromError>)
        requires
            old(self).inv(),
        ensures
            final(self).inv(),
            final(self).files() == old(self).files(),
            final(self).regions() == old(self).regions(),
            final(self).hw_controllable() == old(self).hw_controllable(),
            final(self).chip().same_wp(old(self).chip()),
            final(self).chip().size == old(self).chip().size,
            final(self).chip().contents.len() == old(self).chip().contents.len(),
            forall|i: int|
                0 <= i < old(self).chip().size && old(self).chip().protected(i) ==> final(self).chip().contents[i] == old(self).chip().contents[i],
            r is Ok && !old(self).chip().any_protected() ==> old(self).files().contains_key(path@)
                && old(self).files()[path@].len() == old(self).chip().size && final(self).chip().contents == old(self).files()[path@],
            r is Err ==> final(self).chip() == old(self).chip(),
    ;

    /// Write one named region of the flash from the chip-sized file at
    /// `path`, locating the region through the layout artifact at
    /// `layout`. Software-protected bytes never change; success means the
    /// region held no protected byte and was written.
    fn write_from_file_region(&mut self, path: &str, region: &str, layout: &str) -> (r: Result<
        bool,
        FlashromError,
    >)
        requires
            old(self).inv(),
        ensures
            final(self).inv(),
            final(self).files() == old(self).files(),
            final(self).regions() == old(self).regions(),
            final(self).hw_controllable() == old(self).hw_controllable(),
            final(self).chip().same_wp(old(self).chip()),
            final(self).chip().size == old(self).chip().size,
            final(self).chip().contents.len() == old(self).chip().contents.len(),
            forall|i: int|
                0 <= i < old(self).chip().size && old(self).chip().protected(i) ==> final(self).chip().contents[i] == old(self).chip().contents[i],
            r is Ok ==> old(self).regions().contains_key(region@) && {
                let (s, l) = old(self).regions()[region@];
                &&& old(self).files().contains_key(path@)
                &&& old(self).files()[path@].len() == old(self).chip().size
                &&& (forall|i: int| s <= i < s + l ==> !old(self).chip().protected(i))
                &&& (forall|i: int|
                    0 <= i < old(self).chip().size ==> final(self).chip().contents[i] == if s <= i
                        < s + l {
                        old(self).files()[path@][i]
                    } else {
                        old(self).chip().contents[i]
                    })
            },
            r is Err ==> final(self).chip() == old(self).chip(),
            r is Ok ==> r->Ok_0 == true,
    ;

    /// Verify the whole flash against the file at `path`: succeeds exactly
    /// when the file exists and equals the chip contents.
    fn verify_from_file(&self, path: &str) -> (r: Result<(), FlashromError>)
        requires
            self.inv(),
        ensures
            r is Ok <==> self.files().contains_key(path@) && self.files()[path@]
                == self.chip().contents,
    ;

    /// Verify one named region against the file at `path` (region-sized):
    /// succeeds exactly when the region is known and the file equals the
    /// region's bytes.
    fn verify_region_from_file(&self, path: &str, region: &str) -> (r: Result<(), FlashromError>)
        requires
            self.inv(),
        ensures
            r is Ok <==> self.regions().contains_key(region@) && {
                let (s, l) = self.regions()[region@];
                self.files().contains_key(path@) && self.files()[path@]
                    == self.chip().contents.subrange(s, s + l)
            },
    ;

    /// Erase the whole flash. Software-protected bytes never change; with
    /// no byte protected, success leaves every byte `0xff`.
    fn erase(&mut self) -> (r: Result<(), FlashromError>)
        requires
            old(self).inv(),
        ensures
            final(self).inv(),
            final(self).files() == old(self).files(),
            final(self).regions() == old(self).regions(),
            final(self).hw_controllable() == old(self).hw_controllable(),
            final(self).chip().same_wp(old(self).chip()),
            final(self).chip().size == old(self).chip().size,
            final(self).chip().contents.len() == old(self).chip().contents.len(),
            forall|i: int|
                0 <= i < old(self).chip().size && old(self).chip().protected(i) ==> final(self).chip().contents[i] == old(self).chip().contents[i],
            r is Ok && !old(self).chip().any_protected() ==> final(self).chip().contents == old(self).chip().erased(),
            r is Err ==> final(self).chip() == old(self).chip(),
    ;

    /// Whether the hardware write protect of this flash can be controlled.
    fn can_control_hw_wp(&self) -> (r: bool)
        ensures
            r == self.hw_controllable(),
    ;

    /// Set the backend's behavioral flags; does not touch the chip.
    fn set_flags(&mut self, flags: &FlashromFlags)
        requires
            old(self).inv(),
        ensures
            final(self).inv(),
            final(self).files() == old(self).files(),
            final(self).regions() == old(self).regions(),
            final(self).hw_controllable() == old(self).hw_controllable(),
            final(self).chip() == old(self).chip(),
    ;

    /// Write `data` to the host file at `path`.
    fn write_host_file(&mut self, path: &str, data: &Vec<u8>) -> (r: Result<(), FlashromError>)
        requires
            old(self).inv(),
        ensures
            final(self).inv(),
            final(self).chip() == old(self).chip(),
            final(self).regions() == old(self).regions(),
            final(self).hw_controllable() == old(self).hw_controllable(),
            final(self).files().remove(path@) == old(self).files().remove(path@),
            r is Ok ==> final(self).files().contains_key(path@) && final(self).files()[path@]
                == data@,
    ;

    /// Fill the host file at `path` with `size` bytes of fresh random data.
    /// Nothing is promised of the bytes but their number.
    fn write_random_file(&mut self, path: &str, size: i64) -> (r: Result<(), FlashromError>)
        requires
            old(self).inv(),
            0 <= size <= usize::MAX,
        ensures
            final(self).inv(),
            final(self).chip() == old(self).chip(),
            final(self).regions() == old(self).regions(),
            final(self).hw_controllable() == old(self).hw_controllable(),
            final(self).files().remove(path@) == old(self).files().remove(path@),
            r is Ok ==> final(self).files().contains_key(path@) && final(self).files()[path@].len()
                == size,
    ;

    /// Read the host file at `path`.
    fn read_host_file(&self, path: &str) -> (r: Result<Vec<u8>, FlashromError>)
        requires
            self.inv(),
        ensures
            r is Ok ==> self.files().contains_key(path@) && r->Ok_0@ == self.files()[path@],
    ;
}

} // verus!
