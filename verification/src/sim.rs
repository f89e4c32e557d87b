//! An in-memory flash backend: a simulated chip, host-file store and region
//! table. Every contract of the [`crate::flash::Flashrom`] trait is proved
//! against this implementation; it also serves the library's tests.

use vstd::prelude::*;
use crate::flash::{ChipModel, FlashChip, Flashrom, FlashromError, FlashromFlags,
    spec_can_control_hw_wp};
use crate::strutil::str_eq;

verus! {

/// The host-file store as a map, built from an append-only entry list;
/// a later entry for the same path shadows an earlier one.
pub closed spec fn files_of(entries: Seq<(String, Vec<u8>)>) -> Map<Seq<char>, Seq<u8>>
    decreases entries.len(),
{
    if entries.len() == 0 {
        Map::empty()
    } else {
        files_of(entries.drop_last()).insert(entries.last().0@, entries.last().1@)
    }
}

/// The region table as a map, built the same way.
pub closed spec fn regions_of(entries: Seq<(String, i64, i64)>) -> Map<Seq<char>, (int, int)>
    decreases entries.len(),
{
    if entries.len() == 0 {
        Map::empty()
    } else {
        regions_of(entries.drop_last()).insert(
            entries.last().0@,
            (entries.last().1 as int, entries.last().2 as int),
        )
    }
}

proof fn lemma_regions_of_bounds(entries: Seq<(String, i64, i64)>, size: int)
    requires
        forall|i: int|
            0 <= i < entries.len() ==> 0 <= (#[trigger] entries[i]).1 && 0 <= entries[i].2
                && entries[i].1 + entries[i].2 <= size,
    ensures
        forall|k: Seq<char>| #[trigger]
            regions_of(entries).contains_key(k) ==> {
                let (s, l) = regions_of(entries)[k];
                0 <= s && 0 <= l && s + l <= size
            },
    decreases entries.len(),
{
    if entries.len() > 0 {
        assert(forall|i: int|
            0 <= i < entries.len() - 1 ==> (#[trigger] entries.drop_last()[i]) == entries[i]);
        lemma_regions_of_bounds(entries.drop_last(), size);
        let last = entries.last();
        assert forall|k: Seq<char>| #[trigger] regions_of(entries).contains_key(k) implies {
            let (s, l) = regions_of(entries)[k];
            0 <= s && 0 <= l && s + l <= size
        } by {
            if k == last.0@ {
                assert(entries[entries.len() - 1] == last);
            } else {
                assert(regions_of(entries.drop_last()).contains_key(k));
                assert(regions_of(entries)[k] == regions_of(entries.drop_last())[k]);
            }
        }
    }
}

/// Copy the bytes of `v` from `from` (inclusive) to `to` (exclusive).
fn copy_range(v: &Vec<u8>, from: usize, to: usize) -> (r: Vec<u8>)
    requires
        from <= to <= v@.len(),
    ensures
        r@ == v@.subrange(from as int, to as int),
{
    let mut out: Vec<u8> = Vec::new();
    let mut i: usize = from;
    while i < to
        invariant
            from <= i <= to <= v@.len(),
            out@ =~= v@.subrange(from as int, i as int),
        decreases to - i,
    {
        out.push(v[i]);
        assert(out@ =~= v@.subrange(from as int, i + 1 as int));
        i += 1;
    }
    proof {
        assert(out@ =~= v@.subrange(from as int, to as int));
    }
    out
}

/// True iff the two byte vectors hold the same bytes.
fn bytes_eq(a: &Vec<u8>, b: &Vec<u8>) -> (r: bool)
    ensures
        r == (a@ == b@),
{
    if a.len() != b.len() {
        return false;
    }
    let n = a.len();
    let mut i: usize = 0;
    while i < n
        invariant
            n == a@.len() == b@.len(),
            0 <= i <= n,
            forall|j: int| 0 <= j < i ==> a@[j] == b@[j],
        decreases n - i,
    {
        if a[i] != b[i] {
            return false;
        }
        i += 1;
    }
    proof {
        assert(a@ =~= b@);
    }
    true
}

/// `i` lies in the half-open range `[start, start + len)`.
pub open spec fn spec_in_range(i: int, start: int, len: int) -> bool {
    start <= i < start + len
}

/// True iff the half-open ranges `[a_start, a_start + a_len)` and
/// `[b_start, b_start + b_len)` share a point.
fn ranges_intersect(a_start: i64, a_len: i64, b_start: i64, b_len: i64) -> (r: bool)
    ensures
        r == exists|i: int|
            #[trigger] spec_in_range(i, a_start as int, a_len as int) && spec_in_range(
                i,
                b_start as int,
                b_len as int,
            ),
{
    if a_len <= 0 || b_len <= 0 {
        return false;
    }
    let lo: i64 = if a_start >= b_start {
        a_start
    } else {
        b_start
    };
    let hit = ((lo as i128) < (a_start as i128) + (a_len as i128)) && ((lo as i128) < (
    b_start as i128) + (b_len as i128));
    proof {
        if hit {
            assert(spec_in_range(lo as int, a_start as int, a_len as int) && spec_in_range(
                lo as int,
                b_start as int,
                b_len as int,
            ));
        } else {
            assert forall|i: int|
                !(#[trigger] spec_in_range(i, a_start as int, a_len as int) && spec_in_range(
                    i,
                    b_start as int,
                    b_len as int,
                )) by {}
        }
    }
    hit
}

/// The simulated backend: a chip image plus the session's host files and
/// named regions, all in memory.
pub struct SimFlash {
    fc: FlashChip,
    size: i64,
    hw_wp: bool,
    sw_mode: bool,
    sw_start: i64,
    sw_len: i64,
    contents: Vec<u8>,
    files: Vec<(String, Vec<u8>)>,
    regions: Vec<(String, i64, i64)>,
    rand_state: u64,
}

impl SimFlash {
    /// A fresh simulated chip of `size` bytes, every byte `fill`, with no
    /// host files and no regions, write-protects off.
    pub fn new(fc: FlashChip, size: i64, fill: u8) -> (r: SimFlash)
        requires
            0 < size <= usize::MAX,
        ensures
            r.inv(),
            r.chip() == (ChipModel {
                size: size as int,
                hw_wp: false,
                sw_mode: false,
                sw_start: 0,
                sw_len: 0,
                contents: Seq::new(size as nat, |i: int| fill),
            }),
            r.files() == Map::<Seq<char>, Seq<u8>>::empty(),
            r.regions() == Map::<Seq<char>, (int, int)>::empty(),
            r.hw_controllable() == spec_can_control_hw_wp(fc),
    {
        let n = size as usize;
        let mut contents: Vec<u8> = Vec::new();
        let mut i: usize = 0;
        while i < n
            invariant
                0 <= i <= n,
                contents@ =~= Seq::new(i as nat, |k: int| fill),
            decreases n - i,
        {
            contents.push(fill);
            assert(contents@ =~= Seq::new((i + 1) as nat, |k: int| fill));
            i += 1;
        }
        let r = SimFlash {
            fc,
            size,
            hw_wp: false,
            sw_mode: false,
            sw_start: 0,
            sw_len: 0,
            contents,
            files: Vec::new(),
            regions: Vec::new(),
            rand_state: 12345,
        };
        proof {
            assert(r.chip().contents =~= Seq::new(size as nat, |i: int| fill));
        }
        r
    }

    /// Declare a named region; rejects a range that does not lie inside the
    /// chip.
    pub fn add_region(&mut self, name: &str, start: i64, len: i64) -> (r: Result<
        (),
        FlashromError,
    >)
        requires
            old(self).inv(),
        ensures
            final(self).inv(),
            final(self).chip() == old(self).chip(),
            final(self).files() == old(self).files(),
            final(self).hw_controllable() == old(self).hw_controllable(),
            r is Ok ==> final(self).regions() == old(self).regions().insert(
                name@,
                (start as int, len as int),
            ),
            r is Err ==> final(self).regions() == old(self).regions(),
    {
        if start < 0 || len < 0 || start > self.size || self.size - start < len {
            return Err(FlashromError::new("region does not fit the chip"));
        }
        let ghost pre = self.regions@;
        self.regions.push((String::from_str(name), start, len));
        proof {
            assert(self.regions@.drop_last() =~= pre);
        }
        Ok(())
    }

    /// The bytes currently on the simulated chip.
    pub fn contents(&self) -> (r: Vec<u8>)
        ensures
            r@ == self.chip().contents,
    {
        copy_range(&self.contents, 0, self.contents.len())
    }

    fn lookup_file<'a>(entries: &'a Vec<(String, Vec<u8>)>, path: &str) -> (r: Option<&'a Vec<u8>>)
        ensures
            match r {
                Some(v) => files_of(entries@).contains_key(path@) && v@ == files_of(entries@)[path@],
                None => !files_of(entries@).contains_key(path@),
            },
    {
        let mut i: usize = entries.len();
        proof {
            assert(entries@.take(i as int) =~= entries@);
        }
        while i > 0
            invariant
                0 <= i <= entries@.len(),
                files_of(entries@).contains_key(path@) == files_of(
                    entries@.take(i as int),
                ).contains_key(path@),
                files_of(entries@).contains_key(path@) ==> files_of(entries@)[path@] == files_of(
                    entries@.take(i as int),
                )[path@],
            decreases i,
        {
            let e = &entries[i - 1];
            proof {
                assert(entries@.take(i as int).drop_last() =~= entries@.take(i - 1));
                assert(entries@.take(i as int).last() == entries@[i - 1]);
            }
            if str_eq(e.0.as_str(), path) {
                return Some(&e.1);
            }
            i -= 1;
        }
        proof {
            assert(entries@.take(0) =~= Seq::<(String, Vec<u8>)>::empty());
        }
        None
    }

    fn lookup_region(entries: &Vec<(String, i64, i64)>, name: &str) -> (r: Option<(i64, i64)>)
        ensures
            match r {
                Some(v) => regions_of(entries@).contains_key(name@) && (v.0 as int, v.1 as int)
                    == regions_of(entries@)[name@],
                None => !regions_of(entries@).contains_key(name@),
            },
    {
        let mut i: usize = entries.len();
        proof {
            assert(entries@.take(i as int) =~= entries@);
        }
        while i > 0
            invariant
                0 <= i <= entries@.len(),
                regions_of(entries@).contains_key(name@) == regions_of(
                    entries@.take(i as int),
                ).contains_key(name@),
                regions_of(entries@).contains_key(name@) ==> regions_of(entries@)[name@]
                    == regions_of(entries@.take(i as int))[name@],
            decreases i,
        {
            let e = &entries[i - 1];
            proof {
                assert(entries@.take(i as int).drop_last() =~= entries@.take(i - 1));
                assert(entries@.take(i as int).last() == entries@[i - 1]);
            }
            if str_eq(e.0.as_str(), name) {
                return Some((e.1, e.2));
            }
            i -= 1;
        }
        proof {
            assert(entries@.take(0) =~= Seq::<(String, i64, i64)>::empty());
        }
        None
    }

    fn store_file(&mut self, path: &str, data: Vec<u8>)
        requires
            old(self).inv(),
        ensures
            final(self).inv(),
            final(self).chip() == old(self).chip(),
            final(self).regions() == old(self).regions(),
            final(self).hw_controllable() == old(self).hw_controllable(),
            final(self).files() == old(self).files().insert(path@, data@),
            final(self).files().remove(path@) == old(self).files().remove(path@),
    {
        let ghost pre = self.files@;
        let ghost d = data@;
        self.files.push((String::from_str(path), data));
        proof {
            assert(self.files@.drop_last() =~= pre);
            assert(files_of(self.files@) == files_of(pre).insert(path@, d));
            assert(files_of(pre).insert(path@, d).remove(path@) =~= files_of(pre).remove(path@));
        }
    }

    /// True iff some byte of the chip is software-protected.
    fn some_byte_protected(&self) -> (r: bool)
        requires
            self.inv(),
        ensures
            r == self.chip().any_protected(),
    {
        let r = self.sw_mode && ranges_intersect(self.sw_start, self.sw_len, 0, self.size);
        proof {
            if r {
                let i = choose|i: int|
                    #[trigger] spec_in_range(i, self.sw_start as int, self.sw_len as int)
                        && spec_in_range(i, 0, self.size as int);
                assert(self.chip().protected(i) && 0 <= i < self.chip().size);
            }
            if self.chip().any_protected() {
                let i = choose|i: int| 0 <= i < self.chip().size && self.chip().protected(i);
                assert(spec_in_range(i, self.sw_start as int, self.sw_len as int) && spec_in_range(
                    i,
                    0,
                    self.size as int,
                ));
            }
        }
        r
    }
}

impl Flashrom for SimFlash {
    closed spec fn chip(&self) -> ChipModel {
        ChipModel {
            size: self.size as int,
            hw_wp: self.hw_wp,
            sw_mode: self.sw_mode,
            sw_start: self.sw_start as int,
            sw_len: self.sw_len as int,
            contents: self.contents@,
        }
    }

    closed spec fn files(&self) -> Map<Seq<char>, Seq<u8>> {
        files_of(self.files@)
    }

    closed spec fn regions(&self) -> Map<Seq<char>, (int, int)> {
        regions_of(self.regions@)
    }

    closed spec fn hw_controllable(&self) -> bool {
        spec_can_control_hw_wp(self.fc)
    }

    closed spec fn inv(&self) -> bool {
        &&& self.contents@.len() == self.size
        &&& 0 < self.size
        &&& self.size <= usize::MAX
        &&& forall|i: int|
            0 <= i < self.regions@.len() ==> 0 <= (#[trigger] self.regions@[i]).1 && 0
                <= self.regions@[i].2 && self.regions@[i].1 + self.regions@[i].2 <= self.size
    }

    fn get_size(&self) -> (r: Result<i64, FlashromError>) {
        Ok(self.size)
    }

    fn name(&self) -> (r: Result<(String, String), FlashromError>) {
        Ok((String::from_str("simulated"), String::from_str("chip")))
    }

    fn wp_range(&mut self, range: (i64, i64), wp_enable: bool) -> (r: Result<bool, FlashromError>) {
        if self.hw_wp {
            return Err(
                FlashromError::new(
                    "software write-protect is frozen by hardware write-protect",
                ),
            );
        }
        self.sw_mode = wp_enable;
        self.sw_start = range.0;
        self.sw_len = range.1;
        Ok(true)
    }

    fn wp_list(&self) -> (r: Result<String, FlashromError>) {
        let s = String::from_str("write-protect range registry\n");
        proof {
            reveal_strlit("write-protect range registry\n");
        }
        Ok(s)
    }

    fn wp_status(&self, en: bool) -> (r: bool) {
        self.sw_mode == en
    }

    fn wp_toggle(&mut self, en: bool) -> (r: Result<bool, FlashromError>) {
        if self.hw_wp {
            return Err(
                FlashromError::new(
                    "software write-protect is frozen by hardware write-protect",
                ),
            );
        }
        if en {
            self.sw_mode = true;
            self.sw_start = 0;
            self.sw_len = self.size;
        } else {
            self.sw_mode = false;
            self.sw_start = 0;
            self.sw_len = 0;
        }
        Ok(true)
    }

    fn get_hardware_wp(&self) -> (r: bool) {
        self.hw_wp
    }

    fn toggle_hw_wp(&mut self, en: bool) -> (r: Result<(), FlashromError>) {
        self.hw_wp = en;
        Ok(())
    }

    fn read_into_file(&mut self, path: &str) -> (r: Result<(), FlashromError>) {
        let data = copy_range(&self.contents, 0, self.contents.len());
        self.store_file(path, data);
        Ok(())
    }

    fn read_region_into_file(&mut self, path: &str, region: &str) -> (r: Result<
        (),
        FlashromError,
    >) {
        let (s, l) = match Self::lookup_region(&self.regions, region) {
            Some(v) => v,
            None => {
                return Err(FlashromError::new("no such region"));
            },
        };
        proof {
            lemma_regions_of_bounds(self.regions@, self.size as int);
        }
        let data = copy_range(&self.contents, s as usize, (s + l) as usize);
        self.store_file(path, data);
        Ok(())
    }

    fn write_from_file(&mut self, path: &str) -> (r: Result<(), FlashromError>) {
        if self.some_byte_protected() {
            return Err(FlashromError::new("chip is write-protected"));
        }
        let data = match Self::lookup_file(&self.files, path) {
            Some(v) => copy_range(v, 0, v.len()),
            None => {
                return Err(FlashromError::new("no such file"));
            },
        };
        if data.len() != self.contents.len() {
            return Err(FlashromError::new("image size does not match the chip"));
        }
        self.contents = data;
        Ok(())
    }

    fn write_from_file_region(&mut self, path: &str, region: &str, layout: &str) -> (r: Result<
        bool,
        FlashromError,
    >) {
        let (s, l) = match Self::lookup_region(&self.regions, region) {
            Some(v) => v,
            None => {
                return Err(FlashromError::new("no such region"));
            },
        };
        proof {
            lemma_regions_of_bounds(self.regions@, self.size as int);
        }
        if self.sw_mode && ranges_intersect(self.sw_start, self.sw_len, s, l) {
            return Err(FlashromError::new("region is write-protected"));
        }
        proof {
            assert forall|i: int| s <= i < s + l implies !self.chip().protected(i) by {
                if self.chip().protected(i) {
                    assert(spec_in_range(i, self.sw_start as int, self.sw_len as int)
                        && spec_in_range(i, s as int, l as int));
                }
            }
        }
        let data = match Self::lookup_file(&self.files, path) {
            Some(v) => copy_range(v, 0, v.len()),
            None => {
                return Err(FlashromError::new("no such file"));
            },
        };
        if data.len() != self.contents.len() {
            return Err(FlashromError::new("image size does not match the chip"));
        }
        let s_us = s as usize;
        let l_us = l as usize;
        let mut k: usize = 0;
        while k < l_us
            invariant
                old(self).inv(),
                self.inv(),
                s_us == s as int,
                l_us == l as int,
                0 <= s_us,
                s_us + l_us <= self.contents@.len(),
                0 <= k <= l_us,
                data@.len() == self.contents@.len(),
                self.size == old(self).size,
                self.fc == old(self).fc,
                self.hw_wp == old(self).hw_wp,
                self.sw_mode == old(self).sw_mode,
                self.sw_start == old(self).sw_start,
                self.sw_len == old(self).sw_len,
                self.files@ == old(self).files@,
                self.regions@ == old(self).regions@,
                self.rand_state == old(self).rand_state,
                forall|j: int|
                    0 <= j < self.contents@.len() ==> self.contents@[j] == if s_us <= j < s_us + k {
                        data@[j]
                    } else {
                        old(self).contents@[j]
                    },
            decreases l_us - k,
        {
            let b = data[s_us + k];
            self.contents[s_us + k] = b;
            k += 1;
        }
        proof {
            let fc = final(self).chip().contents;
            let (rs, rl) = old(self).regions()[region@];
            assert(forall|i: int|
                0 <= i < old(self).chip().size ==> fc[i] == if rs <= i < rs + rl {
                    old(self).files()[path@][i]
                } else {
                    old(self).chip().contents[i]
                });
        }
        Ok(true)
    }

    fn verify_from_file(&self, path: &str) -> (r: Result<(), FlashromError>) {
        match Self::lookup_file(&self.files, path) {
            Some(v) => {
                if bytes_eq(v, &self.contents) {
                    Ok(())
                } else {
                    Err(FlashromError::new("contents do not match the image"))
                }
            },
            None => Err(FlashromError::new("no such file")),
        }
    }

    fn verify_region_from_file(&self, path: &str, region: &str) -> (r: Result<
        (),
        FlashromError,
    >) {
        let (s, l) = match Self::lookup_region(&self.regions, region) {
            Some(v) => v,
            None => {
                return Err(FlashromError::new("no such region"));
            },
        };
        proof {
            lemma_regions_of_bounds(self.regions@, self.size as int);
            assert(regions_of(self.regions@).contains_key(region@));
        }
        let data = match Self::lookup_file(&self.files, path) {
            Some(v) => v,
            None => {
                return Err(FlashromError::new("no such file"));
            },
        };
        let slice = copy_range(&self.contents, s as usize, (s + l) as usize);
        if bytes_eq(data, &slice) {
            Ok(())
        } else {
            Err(FlashromError::new("region contents do not match the image"))
        }
    }

    fn erase(&mut self) -> (r: Result<(), FlashromError>) {
        if self.some_byte_protected() {
            return Err(FlashromError::new("chip is write-protected"));
        }
        let n = self.contents.len();
        let mut k: usize = 0;
        while k < n
            invariant
                old(self).inv(),
                self.inv(),
                n == self.contents@.len(),
                0 <= k <= n,
                self.size == old(self).size,
                self.fc == old(self).fc,
                self.hw_wp == old(self).hw_wp,
                self.sw_mode == old(self).sw_mode,
                self.sw_start == old(self).sw_start,
                self.sw_len == old(self).sw_len,
                self.files@ == old(self).files@,
                self.regions@ == old(self).regions@,
                self.rand_state == old(self).rand_state,
                forall|j: int|
                    0 <= j < n ==> self.contents@[j] == if j < k {
                        0xffu8
                    } else {
                        old(self).contents@[j]
                    },
            decreases n - k,
        {
            self.contents[k] = 0xff;
            k += 1;
        }
        proof {
            assert(final(self).chip().contents =~= old(self).chip().erased());
        }
        Ok(())
    }

    fn can_control_hw_wp(&self) -> (r: bool) {
        self.fc.can_control_hw_wp()
    }

    fn set_flags(&mut self, flags: &FlashromFlags) {
    }

    fn write_host_file(&mut self, path: &str, data: &Vec<u8>) -> (r: Result<(), FlashromError>) {
        let copy = copy_range(data, 0, data.len());
        self.store_file(path, copy);
        Ok(())
    }

    fn write_random_file(&mut self, path: &str, size: i64) -> (r: Result<(), FlashromError>) {
        let n = size as usize;
        let mut buf: Vec<u8> = Vec::new();
        let mut st: u64 = self.rand_state % 0x8000_0000;
        let mut k: usize = 0;
        while k < n
            invariant
                0 <= k <= n,
                buf@.len() == k,
                st < 0x8000_0000,
            decreases n - k,
        {
            proof {
                assert(st * 1103515245 + 12345 <= u64::MAX) by (nonlinear_arith)
                    requires
                        st < 0x8000_0000,
                ;
            }
            st = (st * 1103515245 + 12345) % 0x8000_0000;
            buf.push(((st / 65536) % 256) as u8);
            k += 1;
        }
        self.rand_state = st;
        self.store_file(path, buf);
        Ok(())
    }

    fn read_host_file(&self, path: &str) -> (r: Result<Vec<u8>, FlashromError>) {
        match Self::lookup_file(&self.files, path) {
            Some(v) => Ok(copy_range(v, 0, v.len())),
            None => Err(FlashromError::new("no such file")),
        }
    }
}

} // verus!
