//! Verified character and string helpers: ASCII class tests, case folding,
//! line splitting, decimal parsing and hexadecimal rendering.

use vstd::prelude::*;

verus! {

/// A character is an ASCII decimal digit.
pub open spec fn spec_is_digit(c: char) -> bool {
    '0' <= c && c <= '9'
}

/// Every character of the sequence is an ASCII decimal digit.
pub open spec fn spec_all_digits(s: Seq<char>) -> bool {
    forall|i: int| 0 <= i < s.len() ==> spec_is_digit(#[trigger] s[i])
}

/// The numeric value of a digit sequence read left to right, base 10.
pub open spec fn spec_digits_val(s: Seq<char>) -> int
    decreases s.len(),
{
    if s.len() == 0 {
        0
    } else {
        spec_digits_val(s.drop_last()) * 10 + (s.last() as int - '0' as int)
    }
}

pub fn is_ascii_digit_char(c: char) -> (r: bool)
    ensures
        r == spec_is_digit(c),
{
    '0' <= c && c <= '9'
}

/// True iff every character of `s` is an ASCII decimal digit.
pub fn all_digits(s: &str) -> (r: bool)
    ensures
        r == spec_all_digits(s@),
{
    let n = s.unicode_len();
    let mut i: usize = 0;
    while i < n
        invariant
            n == s@.len(),
            0 <= i <= n,
            forall|j: int| 0 <= j < i ==> spec_is_digit(#[trigger] s@[j]),
        decreases n - i,
    {
        if !is_ascii_digit_char(s.get_char(i)) {
            return false;
        }
        i += 1;
    }
    true
}

/// The ASCII lower-case image of one character.
pub open spec fn spec_lower_char(c: char) -> char {
    if 'A' <= c && c <= 'Z' {
        ((c as u8) + 32) as char
    } else {
        c
    }
}

/// The ASCII lower-case image of a character sequence.
pub open spec fn spec_lower(s: Seq<char>) -> Seq<char> {
    s.map_values(|c: char| spec_lower_char(c))
}

pub fn lower_char(c: char) -> (r: char)
    ensures
        r == spec_lower_char(c),
{
    if 'A' <= c && c <= 'Z' {
        ((c as u8) + 32) as char
    } else {
        c
    }
}

/// True iff the ASCII lower-case image of `name` equals `entry` as given.
pub fn lower_eq(name: &str, entry: &str) -> (r: bool)
    ensures
        r == (spec_lower(name@) == entry@),
{
    let n = name.unicode_len();
    let m = entry.unicode_len();
    if n != m {
        proof {
            assert(spec_lower(name@).len() == name@.len());
        }
        return false;
    }
    let mut i: usize = 0;
    while i < n
        invariant
            n == name@.len(),
            n == entry@.len(),
            0 <= i <= n,
            forall|j: int| 0 <= j < i ==> spec_lower(name@)[j] == entry@[j],
        decreases n - i,
    {
        let c = lower_char(name.get_char(i));
        if c != entry.get_char(i) {
            assert(spec_lower(name@)[i as int] != entry@[i as int]);
            return false;
        }
        i += 1;
    }
    proof {
        assert(spec_lower(name@) =~= entry@);
    }
    true
}

/// True iff the two strings are equal up to ASCII case.
pub fn eq_ignore_case(a: &str, b: &str) -> (r: bool)
    ensures
        r == (spec_lower(a@) == spec_lower(b@)),
{
    let n = a.unicode_len();
    let m = b.unicode_len();
    if n != m {
        proof {
            assert(spec_lower(a@).len() == a@.len() && spec_lower(b@).len() == b@.len());
        }
        return false;
    }
    let mut i: usize = 0;
    while i < n
        invariant
            n == a@.len(),
            n == b@.len(),
            0 <= i <= n,
            forall|j: int| 0 <= j < i ==> spec_lower(a@)[j] == spec_lower(b@)[j],
        decreases n - i,
    {
        if lower_char(a.get_char(i)) != lower_char(b.get_char(i)) {
            assert(spec_lower(a@)[i as int] != spec_lower(b@)[i as int]);
            return false;
        }
        i += 1;
    }
    proof {
        assert(spec_lower(a@) =~= spec_lower(b@));
    }
    true
}

/// The segments of `s` between `'\n'` separators; one segment more than
/// there are separators.
pub open spec fn spec_split_nl(s: Seq<char>) -> Seq<Seq<char>>
    decreases s.len(),
{
    if s.len() == 0 {
        seq![Seq::<char>::empty()]
    } else if s.last() == '\n' {
        spec_split_nl(s.drop_last()).push(Seq::<char>::empty())
    } else {
        let r = spec_split_nl(s.drop_last());
        r.drop_last().push(r.last().push(s.last()))
    }
}

proof fn lemma_split_nl_len(s: Seq<char>)
    ensures
        spec_split_nl(s).len() >= 1,
    decreases s.len(),
{
    if s.len() != 0 {
        lemma_split_nl_len(s.drop_last());
    }
}

/// A newline-terminated segment with one trailing carriage return removed.
pub open spec fn spec_strip_cr(seg: Seq<char>) -> Seq<char> {
    if seg.len() > 0 && seg.last() == '\r' {
        seg.drop_last()
    } else {
        seg
    }
}

/// The lines of `s`: `'\n'`-separated segments, each newline-terminated
/// segment with a trailing carriage return removed (so both LF and CRLF
/// endings are accepted); no final empty segment when `s` ends in a
/// separator, and no segment at all when `s` is empty. A final segment
/// without a separator keeps any trailing carriage return.
pub open spec fn spec_lines(s: Seq<char>) -> Seq<Seq<char>> {
    if s.len() == 0 {
        Seq::<Seq<char>>::empty()
    } else if s.last() == '\n' {
        spec_split_nl(s).drop_last().map_values(|seg: Seq<char>| spec_strip_cr(seg))
    } else {
        let sp = spec_split_nl(s);
        sp.drop_last().map_values(|seg: Seq<char>| spec_strip_cr(seg)).push(sp.last())
    }
}

proof fn lemma_map_strip_push(a: Seq<Seq<char>>, x: Seq<char>)
    ensures
        a.push(x).map_values(|seg: Seq<char>| spec_strip_cr(seg)) =~~= a.map_values(
            |seg: Seq<char>| spec_strip_cr(seg),
        ).push(spec_strip_cr(x)),
{
}

/// Split a string into its lines, accepting LF and CRLF line endings.
pub fn split_lines(s: &str) -> (r: Vec<String>)
    ensures
        r.deep_view() == spec_lines(s@),
{
    let n = s.unicode_len();
    let mut lines: Vec<String> = Vec::new();
    let mut start: usize = 0;
    let mut i: usize = 0;
    proof {
        assert(s@.subrange(0, 0) =~= Seq::<char>::empty());
        assert(spec_split_nl(s@.subrange(0, 0)).last() =~= s@.subrange(0, 0));
        assert(spec_split_nl(s@.subrange(0, 0)).drop_last().map_values(
            |seg: Seq<char>| spec_strip_cr(seg),
        ) =~~= lines.deep_view());
    }
    while i < n
        invariant
            n == s@.len(),
            0 <= start <= i <= n,
            start == i ==> (i == 0 || s@[i - 1] == '\n'),
            spec_split_nl(s@.subrange(0, i as int)).last() == s@.subrange(
                start as int,
                i as int,
            ),
            spec_split_nl(s@.subrange(0, i as int)).drop_last().map_values(
                |seg: Seq<char>| spec_strip_cr(seg),
            ) == lines.deep_view(),
        decreases n - i,
    {
        let ghost pre = s@.subrange(0, i as int);
        let ghost cur = s@.subrange(start as int, i as int);
        let c = s.get_char(i);
        proof {
            lemma_split_nl_len(pre);
            assert(s@.subrange(0, i + 1 as int).drop_last() =~= pre);
            assert(s@.subrange(0, i + 1 as int).last() == c);
        }
        if c == '\n' {
            let line = if i > start && s.get_char(i - 1) == '\r' {
                proof {
                    assert(cur.last() == '\r');
                    assert(cur.drop_last() =~= s@.subrange(start as int, i - 1));
                }
                String::from_str(s.substring_char(start, i - 1))
            } else {
                String::from_str(s.substring_char(start, i))
            };
            proof {
                assert(line@ == spec_strip_cr(cur));
            }
            lines.push(line);
            proof {
                let sp_pre = spec_split_nl(pre);
                let sp_new = spec_split_nl(s@.subrange(0, i + 1 as int));
                assert(sp_new.drop_last() =~= sp_pre);
                assert(sp_pre =~= sp_pre.drop_last().push(cur));
                lemma_map_strip_push(sp_pre.drop_last(), cur);
                assert(sp_new.drop_last().map_values(|seg: Seq<char>| spec_strip_cr(seg))
                    =~~= lines.deep_view());
                assert(sp_new.last() =~= Seq::<char>::empty());
            }
            start = i + 1;
            proof {
                assert(s@.subrange(start as int, i + 1 as int) =~= Seq::<char>::empty());
            }
        } else {
            proof {
                let sp_pre = spec_split_nl(pre);
                let sp_new = spec_split_nl(s@.subrange(0, i + 1 as int));
                assert(sp_new =~~= sp_pre.drop_last().push(cur.push(c)));
                assert(sp_new.drop_last() =~= sp_pre.drop_last());
                assert(s@.subrange(start as int, i + 1 as int) =~= cur.push(c));
            }
        }
        i += 1;
    }
    proof {
        assert(s@.subrange(0, n as int) =~= s@);
    }
    if start < n {
        let line = String::from_str(s.substring_char(start, n));
        lines.push(line);
        proof {
            assert(s@.len() > 0 && s@.last() != '\n');
            assert(lines.deep_view() =~~= spec_lines(s@));
        }
    } else {
        if n == 0 {
            proof {
                assert(lines.deep_view() =~~= spec_lines(s@));
            }
        } else {
            proof {
                assert(s@.last() == '\n');
                assert(lines.deep_view() =~~= spec_lines(s@));
            }
        }
    }
    lines
}

/// True iff the two strings hold the same characters.
pub fn str_eq(a: &str, b: &str) -> (r: bool)
    ensures
        r == (a@ == b@),
{
    let n = a.unicode_len();
    let m = b.unicode_len();
    if n != m {
        return false;
    }
    let mut i: usize = 0;
    while i < n
        invariant
            n == a@.len(),
            n == b@.len(),
            0 <= i <= n,
            forall|j: int| 0 <= j < i ==> a@[j] == b@[j],
        decreases n - i,
    {
        if a.get_char(i) != b.get_char(i) {
            return false;
        }
        i += 1;
    }
    proof {
        assert(a@ =~= b@);
    }
    true
}

proof fn lemma_digits_val_nonneg(s: Seq<char>)
    requires
        spec_all_digits(s),
    ensures
        spec_digits_val(s) >= 0,
    decreases s.len(),
{
    if s.len() > 0 {
        assert(spec_all_digits(s.drop_last())) by {
            assert(forall|i: int|
                0 <= i < s.len() - 1 ==> spec_is_digit(#[trigger] s.drop_last()[i]) == spec_is_digit(
                    s[i],
                ));
        }
        lemma_digits_val_nonneg(s.drop_last());
    }
}

/// Extending a digit string can only increase its value.
proof fn lemma_digits_val_prefix_le(s: Seq<char>, i: int)
    requires
        spec_all_digits(s),
        0 <= i <= s.len(),
    ensures
        spec_digits_val(s.subrange(0, i)) <= spec_digits_val(s),
    decreases s.len() - i,
{
    if i < s.len() {
        let t = s.subrange(0, i + 1);
        assert(t.drop_last() =~= s.subrange(0, i));
        assert(spec_all_digits(s.subrange(0, i)));
        lemma_digits_val_nonneg(s.subrange(0, i));
        assert(spec_digits_val(t) == spec_digits_val(s.subrange(0, i)) * 10 + (t.last() as int
            - '0' as int));
        assert(spec_digits_val(s.subrange(0, i)) * 10 >= spec_digits_val(s.subrange(0, i))) by (
        nonlinear_arith)
            requires
                spec_digits_val(s.subrange(0, i)) >= 0,
        ;
        lemma_digits_val_prefix_le(s, i + 1);
    } else {
        assert(s.subrange(0, i) =~= s);
    }
}

/// Parse a non-empty, all-digit string as a non-negative `i64`.
/// Fails exactly when the string is empty, holds a non-digit, or the value
/// does not fit.
pub fn parse_digits_i64(s: &str) -> (r: Option<i64>)
    ensures
        match r {
            Some(v) => spec_all_digits(s@) && s@.len() > 0 && v == spec_digits_val(s@),
            None => s@.len() == 0 || !spec_all_digits(s@) || spec_digits_val(s@) > i64::MAX,
        },
{
    let n = s.unicode_len();
    if n == 0 {
        return None;
    }
    let mut acc: i64 = 0;
    let mut i: usize = 0;
    while i < n
        invariant
            n == s@.len(),
            0 <= i <= n,
            spec_all_digits(s@.subrange(0, i as int)),
            0 <= acc,
            acc == spec_digits_val(s@.subrange(0, i as int)),
        decreases n - i,
    {
        let ghost pre = s@.subrange(0, i as int);
        let c = s.get_char(i);
        assert(s@.subrange(0, i + 1 as int).drop_last() =~= pre);
        if !is_ascii_digit_char(c) {
            assert(!spec_all_digits(s@));
            return None;
        }
        let d: i64 = (c as u8 - 48) as i64;
        assert(0 <= d <= 9);
        if acc > (i64::MAX - d) / 10 {
            proof {
                assert(acc * 10 + d > i64::MAX) by (nonlinear_arith)
                    requires
                        acc > (i64::MAX - d) / 10,
                        0 <= d <= 9,
                        acc >= 0,
                ;
                assert(spec_digits_val(s@.subrange(0, i + 1 as int)) == acc * 10 + d);
                assert(spec_all_digits(s@.subrange(0, i + 1 as int)));
                if spec_all_digits(s@) {
                    lemma_digits_val_prefix_le(s@, i + 1);
                }
            }
            return None;
        }
        proof {
            assert(acc * 10 + d <= i64::MAX) by (nonlinear_arith)
                requires
                    acc <= (i64::MAX - d) / 10,
                    0 <= d <= 9,
                    acc >= 0,
            ;
        }
        acc = acc * 10 + d;
        i += 1;
    }
    proof {
        assert(s@.subrange(0, n as int) =~= s@);
    }
    Some(acc)
}

/// The hexadecimal digit for a value below 16, lower- or upper-case.
pub open spec fn spec_hex_digit(d: int, upper: bool) -> char {
    let digits = if upper {
        seq!['0', '1', '2', '3', '4', '5', '6', '7', '8', '9', 'A', 'B', 'C', 'D', 'E', 'F']
    } else {
        seq!['0', '1', '2', '3', '4', '5', '6', '7', '8', '9', 'a', 'b', 'c', 'd', 'e', 'f']
    };
    digits[d]
}

/// The hexadecimal rendering of a non-negative number, no leading zeros.
pub open spec fn spec_hex(n: int, upper: bool) -> Seq<char>
    decreases n,
{
    if n < 16 {
        seq![spec_hex_digit(n, upper)]
    } else {
        spec_hex(n / 16, upper).push(spec_hex_digit(n % 16, upper))
    }
}

fn hex_digit_str(d: u8, upper: bool) -> (r: &'static str)
    requires
        d < 16,
    ensures
        r@ =~= seq![spec_hex_digit(d as int, upper)],
{
    if upper {
        match d {
            0 => { proof { reveal_strlit("0"); } "0" },
            1 => { proof { reveal_strlit("1"); } "1" },
            2 => { proof { reveal_strlit("2"); } "2" },
            3 => { proof { reveal_strlit("3"); } "3" },
            4 => { proof { reveal_strlit("4"); } "4" },
            5 => { proof { reveal_strlit("5"); } "5" },
            6 => { proof { reveal_strlit("6"); } "6" },
            7 => { proof { reveal_strlit("7"); } "7" },
            8 => { proof { reveal_strlit("8"); } "8" },
            9 => { proof { reveal_strlit("9"); } "9" },
            10 => { proof { reveal_strlit("A"); } "A" },
            11 => { proof { reveal_strlit("B"); } "B" },
            12 => { proof { reveal_strlit("C"); } "C" },
            13 => { proof { reveal_strlit("D"); } "D" },
            14 => { proof { reveal_strlit("E"); } "E" },
            _ => { proof { reveal_strlit("F"); } "F" },
        }
    } else {
        match d {
            0 => { proof { reveal_strlit("0"); } "0" },
            1 => { proof { reveal_strlit("1"); } "1" },
            2 => { proof { reveal_strlit("2"); } "2" },
            3 => { proof { reveal_strlit("3"); } "3" },
            4 => { proof { reveal_strlit("4"); } "4" },
            5 => { proof { reveal_strlit("5"); } "5" },
            6 => { proof { reveal_strlit("6"); } "6" },
            7 => { proof { reveal_strlit("7"); } "7" },
            8 => { proof { reveal_strlit("8"); } "8" },
            9 => { proof { reveal_strlit("9"); } "9" },
            10 => { proof { reveal_strlit("a"); } "a" },
            11 => { proof { reveal_strlit("b"); } "b" },
            12 => { proof { reveal_strlit("c"); } "c" },
            13 => { proof { reveal_strlit("d"); } "d" },
            14 => { proof { reveal_strlit("e"); } "e" },
            _ => { proof { reveal_strlit("f"); } "f" },
        }
    }
}

/// Render a number in hexadecimal, without a prefix or leading zeros.
pub fn hex_str(n: u64, upper: bool) -> (r: String)
    ensures
        r@ == spec_hex(n as int, upper),
    decreases n,
{
    if n < 16 {
        let digit = hex_digit_str(n as u8, upper);
        let s = String::from_str(digit);
        proof {
            assert(s@ =~= spec_hex(n as int, upper));
        }
        s
    } else {
        let mut s = hex_str(n / 16, upper);
        let digit = hex_digit_str((n % 16) as u8, upper);
        s.append(digit);
        proof {
            assert(s@ =~= spec_hex(n as int, upper));
        }
        s
    }
}

/// A run of `k` zeros.
pub open spec fn spec_zeros(k: int) -> Seq<char> {
    Seq::new(if k > 0 { k as nat } else { 0 }, |i: int| '0')
}

/// `s` left-padded with zeros to at least `width` characters.
pub open spec fn spec_zero_pad(s: Seq<char>, width: int) -> Seq<char> {
    spec_zeros(width - s.len()) + s
}

/// Left-pad a string with zeros to at least `width` characters.
pub fn zero_pad(s: &str, width: usize) -> (r: String)
    ensures
        r@ == spec_zero_pad(s@, width as int),
{
    let n = s.unicode_len();
    let mut out = String::new();
    let mut k: usize = 0;
    let pad: usize = if n < width {
        width - n
    } else {
        0
    };
    while k < pad
        invariant
            0 <= k <= pad,
            out@ =~= spec_zeros(k as int),
        decreases pad - k,
    {
        proof {
            reveal_strlit("0");
        }
        out.append("0");
        assert(out@ =~= spec_zeros(k + 1 as int));
        k += 1;
    }
    out.append(s);
    proof {
        assert(out@ =~= spec_zero_pad(s@, width as int));
    }
    out
}

/// `sub` occurs in `s` at position `i`.
pub open spec fn spec_match_at(s: Seq<char>, sub: Seq<char>, i: int) -> bool {
    0 <= i && i + sub.len() <= s.len() && s.subrange(i, i + sub.len()) == sub
}

/// `sub` occurs somewhere in `s`.
pub open spec fn spec_contains_sub(s: Seq<char>, sub: Seq<char>) -> bool {
    exists|i: int| spec_match_at(s, sub, i)
}

fn match_at(s: &str, n: usize, sub: &str, m: usize, i: usize) -> (r: bool)
    requires
        n == s@.len(),
        m == sub@.len(),
        0 <= i,
        i + m <= n,
    ensures
        r == spec_match_at(s@, sub@, i as int),
{
    let mut k: usize = 0;
    while k < m
        invariant
            n == s@.len(),
            m == sub@.len(),
            i + m <= n,
            0 <= k <= m,
            forall|j: int| 0 <= j < k ==> s@[i + j] == sub@[j],
        decreases m - k,
    {
        if s.get_char(i + k) != sub.get_char(k) {
            assert(s@.subrange(i as int, i + m) != sub@) by {
                assert(s@.subrange(i as int, i + m)[k as int] != sub@[k as int]);
            }
            return false;
        }
        k += 1;
    }
    proof {
        assert(s@.subrange(i as int, i + m) =~= sub@);
    }
    true
}

/// The first position where `sub` occurs in `s`, if any.
pub fn find_first(s: &str, sub: &str) -> (r: Option<usize>)
    ensures
        match r {
            Some(i) => spec_match_at(s@, sub@, i as int) && forall|j: int|
                0 <= j < i ==> !spec_match_at(s@, sub@, j),
            None => !spec_contains_sub(s@, sub@),
        },
{
    let n = s.unicode_len();
    let m = sub.unicode_len();
    if m > n {
        return None;
    }
    if m == 0 {
        proof {
            assert(s@.subrange(0, 0) =~= sub@);
        }
        return Some(0);
    }
    let mut i: usize = 0;
    while i <= n - m
        invariant
            n == s@.len(),
            m == sub@.len(),
            0 < m <= n,
            0 <= i <= n - m + 1,
            forall|j: int| 0 <= j < i ==> !spec_match_at(s@, sub@, j),
        decreases n - i,
    {
        if match_at(s, n, sub, m, i) {
            return Some(i);
        }
        i += 1;
    }
    proof {
        assert(forall|j: int| j > n - m ==> !spec_match_at(s@, sub@, j));
    }
    None
}

/// Whether `sub` occurs in `s`.
pub fn contains_sub(s: &str, sub: &str) -> (r: bool)
    ensures
        r == spec_contains_sub(s@, sub@),
{
    match find_first(s, sub) {
        Some(_) => true,
        None => false,
    }
}

/// `s` begins with `prefix`.
pub open spec fn spec_starts_with(s: Seq<char>, prefix: Seq<char>) -> bool {
    prefix.len() <= s.len() && s.subrange(0, prefix.len() as int) == prefix
}

pub fn starts_with(s: &str, prefix: &str) -> (r: bool)
    ensures
        r == spec_starts_with(s@, prefix@),
{
    let n = s.unicode_len();
    let m = prefix.unicode_len();
    if m > n {
        return false;
    }
    match_at(s, n, prefix, m, 0)
}

/// `s` with every leading repetition of the non-empty `pat` removed.
pub open spec fn spec_trim_start_matches(s: Seq<char>, pat: Seq<char>) -> Seq<char>
    decreases s.len(),
{
    if pat.len() > 0 && spec_starts_with(s, pat) {
        spec_trim_start_matches(s.skip(pat.len() as int), pat)
    } else {
        s
    }
}

/// Remove every leading repetition of `pat` from `s`.
pub fn trim_start_matches(s: &str, pat: &str) -> (r: String)
    requires
        pat@.len() > 0,
    ensures
        r@ == spec_trim_start_matches(s@, pat@),
{
    let n = s.unicode_len();
    let m = pat.unicode_len();
    let mut pos: usize = 0;
    proof {
        assert(s@.subrange(0, n as int) =~= s@);
    }
    while n - pos >= m && match_at(s, n, pat, m, pos)
        invariant
            n == s@.len(),
            m == pat@.len(),
            m > 0,
            0 <= pos <= n,
            spec_trim_start_matches(s@, pat@) == spec_trim_start_matches(
                s@.subrange(pos as int, n as int),
                pat@,
            ),
        decreases n - pos,
    {
        let ghost t = s@.subrange(pos as int, n as int);
        proof {
            assert(spec_starts_with(t, pat@)) by {
                assert(t.subrange(0, m as int) =~= s@.subrange(pos as int, pos + m));
            }
            assert(t.skip(m as int) =~= s@.subrange(pos + m, n as int));
        }
        pos += m;
    }
    proof {
        let t = s@.subrange(pos as int, n as int);
        if pat@.len() <= t.len() {
            if spec_starts_with(t, pat@) {
                assert(spec_match_at(s@, pat@, pos as int)) by {
                    assert(s@.subrange(pos as int, pos + m) =~= t.subrange(0, m as int));
                }
                assert(false);
            }
        }
    }
    String::from_str(s.substring_char(pos, n))
}

/// `s` with every trailing occurrence of the character `c` removed.
pub open spec fn spec_trim_end_char(s: Seq<char>, c: char) -> Seq<char>
    decreases s.len(),
{
    if s.len() > 0 && s.last() == c {
        spec_trim_end_char(s.drop_last(), c)
    } else {
        s
    }
}

/// Remove every trailing occurrence of the character `c` from `s`.
pub fn trim_end_char(s: &str, c: char) -> (r: String)
    ensures
        r@ == spec_trim_end_char(s@, c),
{
    let n = s.unicode_len();
    let mut end: usize = n;
    proof {
        assert(s@.subrange(0, n as int) =~= s@);
    }
    while end > 0 && s.get_char(end - 1) == c
        invariant
            n == s@.len(),
            0 <= end <= n,
            spec_trim_end_char(s@, c) == spec_trim_end_char(s@.subrange(0, end as int), c),
        decreases end,
    {
        proof {
            let t = s@.subrange(0, end as int);
            assert(t.last() == c);
            assert(t.drop_last() =~= s@.subrange(0, end - 1));
        }
        end -= 1;
    }
    proof {
        assert(s@.subrange(0, n as int) =~= s@);
    }
    String::from_str(s.substring_char(0, end))
}

/// The first position of the character `c` in `s`, if any.
pub fn find_char(s: &str, c: char) -> (r: Option<usize>)
    ensures
        match r {
            Some(i) => i < s@.len() && s@[i as int] == c && forall|j: int|
                0 <= j < i ==> s@[j] != c,
            None => forall|j: int| 0 <= j < s@.len() ==> s@[j] != c,
        },
{
    let n = s.unicode_len();
    let mut i: usize = 0;
    while i < n
        invariant
            n == s@.len(),
            0 <= i <= n,
            forall|j: int| 0 <= j < i ==> s@[j] != c,
        decreases n - i,
    {
        if s.get_char(i) == c {
            return Some(i);
        }
        i += 1;
    }
    None
}

/// A copy of the characters of `s` from `from` (inclusive) to `to`
/// (exclusive).
pub fn substring(s: &str, from: usize, to: usize) -> (r: String)
    requires
        from <= to <= s@.len(),
    ensures
        r@ == s@.subrange(from as int, to as int),
{
    String::from_str(s.substring_char(from, to))
}

} // verus!
