//! The command-line surface of the `flashrom` binary: option records, their
//! encoding into an argument vector, and the parse of the binary's output
//! (chip size, chip name, write-protect status).

use vstd::prelude::*;
use crate::flash::{FlashChip, FlashromError};
use crate::strutil::{all_digits, contains_sub, find_first, hex_str, spec_all_digits,
    spec_contains_sub, spec_digits_val, spec_hex, spec_lines, spec_match_at, spec_starts_with,
    spec_trim_end_char, spec_trim_start_matches, spec_zero_pad, split_lines, starts_with,
    substring, trim_end_char, trim_start_matches, zero_pad, parse_digits_i64};

verus! {

/// Software write-protect options: a range and one of the four verbs.
pub struct WPOpt {
    /// `--wp-range <start>,<len>`
    pub range: Option<(i64, i64)>,
    /// `--wp-status`
    pub status: bool,
    /// `--wp-list`
    pub list: bool,
    /// `--wp-enable`
    pub enable: bool,
    /// `--wp-disable`
    pub disable: bool,
}

impl Default for WPOpt {
    /// No range and no verb.
    fn default() -> (r: WPOpt)
        ensures
            r.range is None,
            !r.status,
            !r.list,
            !r.enable,
            !r.disable,
    {
        WPOpt { range: None, status: false, list: false, enable: false, disable: false }
    }
}

/// What file and region an I/O operation addresses.
pub enum OperationArgs {
    /// The file is the whole chip.
    EntireChip(String),
    /// The file is the size of the full chip, limited to a single named
    /// region: region name, file path, optional layout-file path.
    FullFileRegion(String, String, Option<String>),
    /// The file is the size of the single named region only: region name,
    /// file path, optional layout-file path.
    RegionFileRegion(String, String, Option<String>),
}

/// An I/O operation.
pub enum IOOpt {
    /// `-r <file>`
    Read(OperationArgs),
    /// `-w <file>`
    Write(OperationArgs),
    /// `-v <file>`
    Verify(OperationArgs),
    /// `-E`
    Erase,
}

/// One invocation's worth of options.
pub struct FlashromOpt {
    pub wp_opt: WPOpt,
    pub io_opt: Option<IOOpt>,
    /// `--flash-name`
    pub flash_name: bool,
    /// `-V`
    pub verbose: bool,
}

impl Default for FlashromOpt {
    /// No write-protect options, no I/O operation, no flags.
    fn default() -> (r: FlashromOpt)
        ensures
            r.wp_opt.range is None,
            !r.wp_opt.status,
            !r.wp_opt.list,
            !r.wp_opt.enable,
            !r.wp_opt.disable,
            r.io_opt is None,
            !r.flash_name,
            !r.verbose,
    {
        FlashromOpt {
            wp_opt: WPOpt::default(),
            io_opt: None,
            flash_name: false,
            verbose: false,
        }
    }
}

/// A session driving the `flashrom` binary at `path` against one target.
#[derive(PartialEq, Eq, Debug)]
pub struct FlashromCmd {
    pub path: String,
    pub fc: FlashChip,
}

/// The text of `--wp-range`'s argument: both numbers in `0x`-prefixed
/// upper-case hexadecimal, zero-padded to at least six digits.
pub open spec fn spec_hex_range(s: int, l: int) -> Seq<char> {
    "0x"@ + spec_zero_pad(spec_hex(s, true), 6) + ",0x"@ + spec_zero_pad(spec_hex(l, true), 6)
}

/// Render a `--wp-range` argument from a start offset and a length.
pub fn hex_range_string(s: i64, l: i64) -> (r: String)
    requires
        s >= 0,
        l >= 0,
    ensures
        r@ == spec_hex_range(s as int, l as int),
{
    let mut out = String::from_str("0x");
    out.append(zero_pad(hex_str(s as u64, true).as_str(), 6).as_str());
    out.append(",0x");
    out.append(zero_pad(hex_str(l as u64, true).as_str(), 6).as_str());
    proof {
        assert(out@ =~= spec_hex_range(s as int, l as int));
    }
    out
}

/// The arguments encoding the write-protect options.
pub open spec fn spec_wp_args(w: WPOpt) -> Seq<Seq<char>> {
    (match w.range {
        Some((s, l)) => seq!["--wp-range"@, spec_hex_range(s as int, l as int)],
        None => Seq::<Seq<char>>::empty(),
    }) + (if w.status {
        seq!["--wp-status"@]
    } else if w.list {
        seq!["--wp-list"@]
    } else if w.enable {
        seq!["--wp-enable"@]
    } else if w.disable {
        seq!["--wp-disable"@]
    } else {
        Seq::<Seq<char>>::empty()
    })
}

/// The arguments locating an operation's file, region and layout.
pub open spec fn spec_op_args(o: OperationArgs) -> Seq<Seq<char>> {
    match o {
        OperationArgs::EntireChip(file) => seq![file@],
        OperationArgs::FullFileRegion(region, file, layout) => seq![file@, "--include"@, region@]
            + spec_layout_args(layout),
        OperationArgs::RegionFileRegion(region, file, layout) => seq![
            "--include"@,
            region@ + ":"@ + file@,
        ] + spec_layout_args(layout),
    }
}

pub open spec fn spec_layout_args(layout: Option<String>) -> Seq<Seq<char>> {
    match layout {
        Some(l) => seq!["--layout"@, l@],
        None => Seq::<Seq<char>>::empty(),
    }
}

/// The arguments encoding the I/O operation.
pub open spec fn spec_io_args(io: IOOpt) -> Seq<Seq<char>> {
    match io {
        IOOpt::Read(args) => seq!["-r"@] + spec_op_args(args),
        IOOpt::Write(args) => seq!["-w"@] + spec_op_args(args),
        IOOpt::Verify(args) => seq!["-v"@] + spec_op_args(args),
        IOOpt::Erase => seq!["-E"@],
    }
}

/// The whole argument vector an option record encodes to.
pub open spec fn spec_decode_opts(opts: FlashromOpt) -> Seq<Seq<char>> {
    spec_wp_args(opts.wp_opt) + (match opts.io_opt {
        Some(io) => spec_io_args(io),
        None => Seq::<Seq<char>>::empty(),
    }) + (if opts.flash_name {
        seq!["--flash-name"@]
    } else {
        Seq::<Seq<char>>::empty()
    }) + (if opts.verbose {
        seq!["-V"@]
    } else {
        Seq::<Seq<char>>::empty()
    })
}

fn push_op_args(params: &mut Vec<String>, args: OperationArgs)
    ensures
        final(params).deep_view() == old(params).deep_view() + spec_op_args(args),
{
    let ghost pre = params.deep_view();
    let ghost args0 = args;
    match args {
        OperationArgs::EntireChip(file) => {
            params.push(file);
            assert(params.deep_view() =~~= pre + spec_op_args(args0));
        },
        OperationArgs::FullFileRegion(region, file, layout) => {
            params.push(file);
            params.push(String::from_str("--include"));
            params.push(region);
            match layout {
                Some(l) => {
                    params.push(String::from_str("--layout"));
                    params.push(l);
                },
                None => {},
            }
            assert(params.deep_view() =~~= pre + spec_op_args(args0));
        },
        OperationArgs::RegionFileRegion(region, file, layout) => {
            params.push(String::from_str("--include"));
            let mut region_file = region;
            region_file.append(":");
            region_file.append(file.as_str());
            params.push(region_file);
            match layout {
                Some(l) => {
                    params.push(String::from_str("--layout"));
                    params.push(l);
                },
                None => {},
            }
            assert(params.deep_view() =~~= pre + spec_op_args(args0));
        },
    }
}

/// Encode an option record into the argument vector handed to the binary.
/// Range offsets must be non-negative, as on a real chip.
#[verifier::rlimit(60)]
pub fn flashrom_decode_opts(opts: FlashromOpt) -> (r: Vec<String>)
    requires
        opts.wp_opt.range matches Some(range) ==> range.0 >= 0 && range.1 >= 0,
    ensures
        r.deep_view() == spec_decode_opts(opts),
{
    let ghost opts0 = opts;
    let mut params: Vec<String> = Vec::new();

    // wp_opt
    match opts.wp_opt.range {
        Some((x0, x1)) => {
            params.push(String::from_str("--wp-range"));
            params.push(hex_range_string(x0, x1));
        },
        None => {},
    }
    if opts.wp_opt.status {
        params.push(String::from_str("--wp-status"));
    } else if opts.wp_opt.list {
        params.push(String::from_str("--wp-list"));
    } else if opts.wp_opt.enable {
        params.push(String::from_str("--wp-enable"));
    } else if opts.wp_opt.disable {
        params.push(String::from_str("--wp-disable"));
    }
    proof {
        assert(params.deep_view() =~~= spec_wp_args(opts0.wp_opt));
    }

    // io_opt
    let ghost after_wp = params.deep_view();
    match opts.io_opt {
        Some(io) => {
            let ghost io0 = io;
            match io {
                IOOpt::Read(args) => {
                    params.push(String::from_str("-r"));
                    push_op_args(&mut params, args);
                },
                IOOpt::Write(args) => {
                    params.push(String::from_str("-w"));
                    push_op_args(&mut params, args);
                },
                IOOpt::Verify(args) => {
                    params.push(String::from_str("-v"));
                    push_op_args(&mut params, args);
                },
                IOOpt::Erase => {
                    params.push(String::from_str("-E"));
                },
            }
            proof {
                assert(params.deep_view() =~~= after_wp + spec_io_args(io0));
            }
        },
        None => {},
    }

    // misc_opt
    let ghost after_io = params.deep_view();
    if opts.flash_name {
        params.push(String::from_str("--flash-name"));
    }
    if opts.verbose {
        params.push(String::from_str("-V"));
    }
    proof {
        assert(params.deep_view() =~~= spec_decode_opts(opts0));
    }
    params
}

impl FlashromCmd {
    /// The full argument vector for one invocation: the programmer
    /// selector, then the encoded options.
    pub fn dispatch_args(&self, opts: FlashromOpt) -> (r: Vec<String>)
        requires
            opts.wp_opt.range matches Some(range) ==> range.0 >= 0 && range.1 >= 0,
        ensures
            r.deep_view() == seq!["-p"@, "internal"@] + spec_decode_opts(opts),
    {
        let mut args: Vec<String> = Vec::new();
        args.push(String::from_str("-p"));
        args.push(String::from_str(FlashChip::to(self.fc)));
        let params = flashrom_decode_opts(opts);
        let n = params.len();
        let mut i: usize = 0;
        while i < n
            invariant
                n == params@.len(),
                0 <= i <= n,
                args.deep_view() =~~= seq!["-p"@, "internal"@] + params.deep_view().take(i as int),
            decreases n - i,
        {
            let ghost pre_dv = args.deep_view();
            let entry = params[i].clone();
            args.push(entry);
            proof {
                assert(args.deep_view() =~~= pre_dv.push(params.deep_view()[i as int]));
                assert(params.deep_view().take(i + 1 as int) =~~= params.deep_view().take(
                    i as int,
                ).push(params.deep_view()[i as int]));
                assert(args.deep_view() =~~= seq!["-p"@, "internal"@] + params.deep_view().take(
                    i + 1 as int,
                ));
            }
            i += 1;
        }
        proof {
            assert(params.deep_view().take(n as int) =~~= params.deep_view());
            assert(args.deep_view() =~~= seq!["-p"@, "internal"@] + spec_decode_opts(opts));
        }
        args
    }
}

/// The last all-digit line, scanning from the end.
pub open spec fn spec_last_numeric(lines: Seq<Seq<char>>) -> Option<Seq<char>>
    decreases lines.len(),
{
    if lines.len() == 0 {
        None
    } else if spec_all_digits(lines.last()) {
        Some(lines.last())
    } else {
        spec_last_numeric(lines.drop_last())
    }
}

/// Determine the flash size from the output of `flashrom --flash-size`:
/// the last line of output holding only digits, read as a number. The
/// binary writes additional messages to its standard output, so every
/// other line is ignored.
pub fn flashrom_extract_size(stdout: &str) -> (r: Result<i64, FlashromError>)
    ensures
        spec_last_numeric(spec_lines(stdout@)) is None ==> r is Err && r->Err_0.msg@
            == "Found no purely-numeric lines in flashrom output"@,
        spec_last_numeric(spec_lines(stdout@)) matches Some(line) ==> if line.len() > 0
            && spec_digits_val(line) <= i64::MAX {
            r is Ok && r->Ok_0 == spec_digits_val(line)
        } else {
            r is Err && r->Err_0.msg@ == "Failed to parse flashrom size output as integer"@
        },
{
    let lines = split_lines(stdout);
    let ghost dv = lines.deep_view();
    let mut i: usize = lines.len();
    proof {
        assert(dv.take(i as int) =~~= dv);
    }
    while i > 0
        invariant
            i <= lines@.len(),
            dv == lines.deep_view(),
            dv == spec_lines(stdout@),
            spec_last_numeric(dv) == spec_last_numeric(dv.take(i as int)),
        decreases i,
    {
        let line = &lines[i - 1];
        proof {
            assert(dv.take(i as int).drop_last() =~~= dv.take(i - 1));
            assert(dv.take(i as int).last() == line@);
        }
        if all_digits(line.as_str()) {
            proof {
                assert(spec_last_numeric(dv.take(i as int)) == Some(line@));
            }
            match parse_digits_i64(line.as_str()) {
                Some(v) => {
                    return Ok(v);
                },
                None => {
                    return Err(
                        FlashromError::new("Failed to parse flashrom size output as integer"),
                    );
                },
            }
        }
        i -= 1;
    }
    proof {
        assert(dv.take(0) =~~= Seq::<Seq<char>>::empty());
    }
    Err(FlashromError::new("Found no purely-numeric lines in flashrom output"))
}

/// The first position at or after `k` where `sub` occurs in `s`.
pub open spec fn spec_find_from(s: Seq<char>, sub: Seq<char>, k: int) -> Option<int>
    decreases s.len() - k,
{
    if k < 0 || sub.len() <= 0 || k + sub.len() > s.len() {
        None
    } else if spec_match_at(s, sub, k) {
        Some(k)
    } else {
        spec_find_from(s, sub, k + 1)
    }
}

proof fn lemma_find_from_step(s: Seq<char>, sub: Seq<char>, k: int, i: int)
    requires
        sub.len() > 0,
        0 <= k <= i,
        spec_match_at(s, sub, i),
        forall|j: int| k <= j < i ==> !spec_match_at(s, sub, j),
    ensures
        spec_find_from(s, sub, k) == Some(i),
    decreases i - k,
{
    if k < i {
        lemma_find_from_step(s, sub, k + 1, i);
    }
}

proof fn lemma_find_from_none(s: Seq<char>, sub: Seq<char>, k: int)
    requires
        sub.len() > 0,
        0 <= k,
        forall|j: int| j >= k ==> !spec_match_at(s, sub, j),
    ensures
        spec_find_from(s, sub, k) is None,
    decreases s.len() - k + 1,
{
    if !(k + sub.len() > s.len()) {
        lemma_find_from_none(s, sub, k + 1);
    }
}


/// What one line of `--flash-name` output yields: for a line of the shape
/// `vendor="foo" name="bar"`, the vendor and the name; otherwise nothing.
pub open spec fn spec_extract_line(line: Seq<char>) -> Option<(Seq<char>, Seq<char>)> {
    if spec_starts_with(line, "vendor=\""@) {
        let tail = spec_trim_start_matches(line, "vendor=\""@);
        match spec_find_from(tail, "\" name=\""@, 0) {
            Some(i) => Some(
                (tail.take(i), spec_trim_end_char(tail.skip(i + "\" name=\""@.len()), '"')),
            ),
            None => None,
        }
    } else {
        None
    }
}

/// What the whole output yields: the first line that matches, scanning from
/// line `k` on.
pub open spec fn spec_extract_name(lines: Seq<Seq<char>>, k: int) -> Option<(Seq<char>, Seq<char>)>
    decreases lines.len() - k,
{
    if k < 0 || k >= lines.len() {
        None
    } else {
        match spec_extract_line(lines[k]) {
            Some(v) => Some(v),
            None => spec_extract_name(lines, k + 1),
        }
    }
}

/// Get a flash vendor and name from the first matching line of flashrom
/// output.
///
/// The target line looks like `vendor="foo" name="bar"`, as output by
/// `flashrom --flash-name`. This is usually the last line of output.
pub fn extract_flash_name(stdout: &str) -> (r: Option<(String, String)>)
    ensures
        match r {
            Some(v) => spec_extract_name(spec_lines(stdout@), 0) == Some((v.0@, v.1@)),
            None => spec_extract_name(spec_lines(stdout@), 0) is None,
        },
{
    let lines = split_lines(stdout);
    let ghost dv = lines.deep_view();
    let n = lines.len();
    let mut k: usize = 0;
    while k < n
        invariant
            n == lines@.len(),
            dv == lines.deep_view(),
            dv == spec_lines(stdout@),
            0 <= k <= n,
            spec_extract_name(dv, 0) == spec_extract_name(dv, k as int),
        decreases n - k,
    {
        let line = &lines[k];
        proof {
            assert(dv[k as int] == line@);
        }
        if starts_with(line.as_str(), "vendor=\"") {
            proof {
                reveal_strlit("vendor=\"");
            }
            let tail = trim_start_matches(line.as_str(), "vendor=\"");
            match find_first(tail.as_str(), "\" name=\"") {
                Some(i) => {
                    proof {
                        reveal_strlit("\" name=\"");
                        lemma_find_from_step(tail@, "\" name=\""@, 0, i as int);
                    }
                    let m = tail.unicode_len();
                    let vendor = substring(tail.as_str(), 0, i);
                    let rest = substring(tail.as_str(), i + 8, m);
                    let name = trim_end_char(rest.as_str(), '"');
                    proof {
                        assert(tail@.take(i as int) == vendor@);
                        assert(tail@.skip(i + 8) == rest@);
                        assert(spec_extract_line(dv[k as int]) == Some((vendor@, name@)));
                        assert(spec_extract_name(dv, k as int) == Some((vendor@, name@)));
                    }
                    return Some((vendor, name));
                },
                None => {
                    proof {
                        reveal_strlit("\" name=\"");
                        lemma_find_from_none(tail@, "\" name=\""@, 0);
                        assert(spec_extract_line(dv[k as int]) is None);
                    }
                },
            }
        } else {
            proof {
                assert(spec_extract_line(dv[k as int]) is None);
            }
        }
        proof {
            assert(spec_extract_name(dv, k as int) == spec_extract_name(dv, k + 1 as int));
        }
        k += 1;
    }
    None
}

/// Whether the status output reports the queried protection mode:
/// `hardware` when asking for enabled, `disable` when asking for disabled.
pub fn parse_wp_status(stdout: &str, en: bool) -> (r: bool)
    ensures
        en ==> r == spec_contains_sub(stdout@, "Protection mode: hardware"@),
        !en ==> r == spec_contains_sub(stdout@, "Protection mode: disable"@),
{
    let needle = if en {
        "Protection mode: hardware"
    } else {
        "Protection mode: disable"
    };
    contains_sub(stdout, needle)
}

} // verus!
