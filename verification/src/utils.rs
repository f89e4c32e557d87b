//! Layout planning: named byte-range partitions (quarters and halves) of a
//! power-of-two chip, their rendering into the layout-file text format, and
//! the parse of a hardware write-protect probe value.

use vstd::prelude::*;
use crate::strutil::{hex_str, spec_hex, parse_digits_i64, spec_all_digits, spec_digits_val};

verus! {

#[derive(Debug, PartialEq, Eq, Clone, Copy, Structural)]
pub enum LayoutNames {
    TopQuad,
    TopHalf,
    BottomHalf,
    BottomQuad,
}

/// The sibling section that shares no byte with the given one.
pub open spec fn spec_non_overlapping(ln: LayoutNames) -> LayoutNames {
    match ln {
        LayoutNames::TopQuad => LayoutNames::BottomQuad,
        LayoutNames::TopHalf => LayoutNames::BottomHalf,
        LayoutNames::BottomHalf => LayoutNames::TopHalf,
        LayoutNames::BottomQuad => LayoutNames::TopQuad,
    }
}

impl LayoutNames {
    /// Return a section that does not overlap this one.
    pub fn get_non_overlapping_section(&self) -> (r: LayoutNames)
        ensures
            r == spec_non_overlapping(*self),
    {
        match self {
            LayoutNames::TopQuad => LayoutNames::BottomQuad,
            LayoutNames::TopHalf => LayoutNames::BottomHalf,
            LayoutNames::BottomHalf => LayoutNames::TopHalf,
            LayoutNames::BottomQuad => LayoutNames::TopQuad,
        }
    }
}

/// Law: taking the non-overlapping sibling twice returns the section one
/// started from.
pub proof fn lemma_non_overlapping_involution(ln: LayoutNames)
    ensures
        spec_non_overlapping(spec_non_overlapping(ln)) == ln,
{
}

#[derive(Debug, PartialEq, Eq, Clone, Copy, Structural)]
pub struct LayoutSizes {
    pub half_sz: i64,
    pub quad_sz: i64,
    pub rom_top: i64,
    pub bottom_half_top: i64,
    pub bottom_quad_top: i64,
    pub top_quad_bottom: i64,
}

/// A chip size accepted by the layout planner: positive and a power of two.
pub open spec fn spec_valid_rom_size(n: i64) -> bool {
    n > 0 && (n & ((n - 1) as i64)) == 0
}

/// The section sizes planned for a chip of `n` bytes.
pub open spec fn spec_layout_sizes(n: int) -> LayoutSizes {
    LayoutSizes {
        half_sz: (n / 2) as i64,
        quad_sz: (n / 4) as i64,
        rom_top: (n - 1) as i64,
        bottom_half_top: (n / 2 - 1) as i64,
        bottom_quad_top: (n / 4 - 1) as i64,
        top_quad_bottom: ((n / 4) * 3) as i64,
    }
}

/// Compute the section sizes of a chip of `rom_sz` bytes.
/// Succeeds exactly on positive powers of two; reports non-positive sizes
/// and non-powers-of-two with distinct errors.
pub fn get_layout_sizes(rom_sz: i64) -> (r: Result<LayoutSizes, String>)
    ensures
        rom_sz <= 0 ==> r is Err && r->Err_0@ == "invalid rom size provided"@,
        rom_sz > 0 && (rom_sz & ((rom_sz - 1) as i64)) != 0 ==> r is Err && r->Err_0@
            == "invalid rom size, not a power of 2"@,
        spec_valid_rom_size(rom_sz) ==> r is Ok && r->Ok_0 == spec_layout_sizes(rom_sz as int),
{
    if rom_sz <= 0 {
        return Err(String::from_str("invalid rom size provided"));
    }
    if rom_sz & (rom_sz - 1) != 0 {
        return Err(String::from_str("invalid rom size, not a power of 2"));
    }
    proof {
        assert((rom_sz / 4) * 3 <= i64::MAX) by (nonlinear_arith)
            requires
                0 < rom_sz <= i64::MAX,
        ;
    }
    Ok(
        LayoutSizes {
            half_sz: rom_sz / 2,
            quad_sz: rom_sz / 4,
            rom_top: rom_sz - 1,
            bottom_half_top: rom_sz / 2 - 1,
            bottom_quad_top: rom_sz / 4 - 1,
            top_quad_bottom: (rom_sz / 4) * 3,
        },
    )
}

/// The half-open byte range `(start, length)` of a section of a chip of
/// `n` bytes.
pub open spec fn spec_section_range(n: int, ln: LayoutNames) -> (int, int) {
    match ln {
        LayoutNames::TopQuad => ((n / 4) * 3, n / 4),
        LayoutNames::TopHalf => (n / 2, n / 2),
        LayoutNames::BottomHalf => (0int, n / 2),
        LayoutNames::BottomQuad => (0int, n / 4),
    }
}

/// The backend-facing name of a section.
pub open spec fn spec_section_name(ln: LayoutNames) -> Seq<char> {
    match ln {
        LayoutNames::TopQuad => "TOP_QUAD"@,
        LayoutNames::TopHalf => "TOP_HALF"@,
        LayoutNames::BottomHalf => "BOTTOM_HALF"@,
        LayoutNames::BottomQuad => "BOTTOM_QUAD"@,
    }
}

/// The name, start offset and length of a section.
pub fn layout_section(ls: &LayoutSizes, ln: LayoutNames) -> (r: (&'static str, i64, i64))
    ensures
        r.0@ == spec_section_name(ln),
        ln == LayoutNames::TopQuad ==> r.1 == ls.top_quad_bottom && r.2 == ls.quad_sz,
        ln == LayoutNames::TopHalf ==> r.1 == ls.half_sz && r.2 == ls.half_sz,
        ln == LayoutNames::BottomHalf ==> r.1 == 0 && r.2 == ls.half_sz,
        ln == LayoutNames::BottomQuad ==> r.1 == 0 && r.2 == ls.quad_sz,
{
    match ln {
        LayoutNames::TopQuad => ("TOP_QUAD", ls.top_quad_bottom, ls.quad_sz),
        LayoutNames::TopHalf => ("TOP_HALF", ls.half_sz, ls.half_sz),
        LayoutNames::BottomHalf => ("BOTTOM_HALF", 0, ls.half_sz),
        LayoutNames::BottomQuad => ("BOTTOM_QUAD", 0, ls.quad_sz),
    }
}

/// Law: for a power-of-two chip size of at least 4 bytes, the bottom and top
/// halves tile `[0, n)` exactly, and the bottom and top quads are disjoint
/// subranges of `[0, n)` (they do not cover it: for `n == 4` the byte at
/// offset 1 lies in neither quad).
pub proof fn lemma_layout_partition(n: i64)
    requires
        spec_valid_rom_size(n),
        n >= 4,
    ensures
        spec_section_range(n as int, LayoutNames::BottomHalf).0 == 0,
        spec_section_range(n as int, LayoutNames::BottomHalf).1 == spec_section_range(
            n as int,
            LayoutNames::TopHalf,
        ).0,
        spec_section_range(n as int, LayoutNames::TopHalf).0 + spec_section_range(
            n as int,
            LayoutNames::TopHalf,
        ).1 == n,
        spec_section_range(n as int, LayoutNames::BottomQuad).0 == 0,
        spec_section_range(n as int, LayoutNames::BottomQuad).1 <= spec_section_range(
            n as int,
            LayoutNames::TopQuad,
        ).0,
        spec_section_range(n as int, LayoutNames::TopQuad).0 + spec_section_range(
            n as int,
            LayoutNames::TopQuad,
        ).1 == n,
{
    assert(n % 4 == 0) by (bit_vector)
        requires
            (n & ((n - 1) as i64)) == 0 && n >= 4,
    ;
    assert(n / 2 + n / 2 == n);
    assert((n / 4) * 3 + n / 4 == n);
    assert(n / 4 <= (n / 4) * 3);
}

/// Law: every section of a power-of-two chip of at least 4 bytes shares no
/// byte with its non-overlapping sibling.
pub proof fn lemma_sections_disjoint(n: i64, ln: LayoutNames)
    requires
        spec_valid_rom_size(n),
        n >= 4,
    ensures
        ({
            let a = spec_section_range(n as int, ln);
            let b = spec_section_range(n as int, spec_non_overlapping(ln));
            a.0 + a.1 <= b.0 || b.0 + b.1 <= a.0
        }),
{
    assert(n % 4 == 0) by (bit_vector)
        requires
            (n & ((n - 1) as i64)) == 0 && n >= 4,
    ;
}

/// The text of the layout file for the given section sizes: one line per
/// region, `HEXSTART:HEXEND NAME`, inclusive hexadecimal byte offsets.
pub open spec fn spec_layout_text(ls: LayoutSizes) -> Seq<char> {
    "000000:"@ + spec_hex(ls.bottom_quad_top as int, false) + " BOTTOM_QUAD\n000000:"@ + spec_hex(
        ls.bottom_half_top as int,
        false,
    ) + " BOTTOM_HALF\n"@ + spec_hex(ls.half_sz as int, false) + ":"@ + spec_hex(
        ls.rom_top as int,
        false,
    ) + " TOP_HALF\n"@ + spec_hex(ls.top_quad_bottom as int, false) + ":"@ + spec_hex(
        ls.rom_top as int,
        false,
    ) + " TOP_QUAD\n"@
}

/// Render the layout file for the given section sizes.
pub fn construct_layout_file(ls: &LayoutSizes) -> (r: String)
    requires
        ls.bottom_quad_top >= 0,
        ls.bottom_half_top >= 0,
        ls.half_sz >= 0,
        ls.rom_top >= 0,
        ls.top_quad_bottom >= 0,
    ensures
        r@ == spec_layout_text(*ls),
{
    let mut out = String::from_str("000000:");
    out.append(hex_str(ls.bottom_quad_top as u64, false).as_str());
    out.append(" BOTTOM_QUAD\n000000:");
    out.append(hex_str(ls.bottom_half_top as u64, false).as_str());
    out.append(" BOTTOM_HALF\n");
    out.append(hex_str(ls.half_sz as u64, false).as_str());
    out.append(":");
    out.append(hex_str(ls.rom_top as u64, false).as_str());
    out.append(" TOP_HALF\n");
    out.append(hex_str(ls.top_quad_bottom as u64, false).as_str());
    out.append(":");
    out.append(hex_str(ls.rom_top as u64, false).as_str());
    out.append(" TOP_QUAD\n");
    proof {
        assert(out@ =~= spec_layout_text(*ls));
    }
    out
}

/// Decide the hardware write-protect state from the probe value that the
/// host reports (the output of a `wpsw_cur` query): `1` means protected,
/// `0` unprotected; anything else is an error.
pub fn get_hardware_wp(probe_output: &str) -> (r: Result<bool, String>)
    ensures
        r == Ok::<bool, String>(true) <==> spec_all_digits(probe_output@) && probe_output@.len()
            > 0 && spec_digits_val(probe_output@) == 1,
        r == Ok::<bool, String>(false) <==> spec_all_digits(probe_output@) && probe_output@.len()
            > 0 && spec_digits_val(probe_output@) == 0,
        (!spec_all_digits(probe_output@) || probe_output@.len() == 0 || spec_digits_val(
            probe_output@,
        ) > u32::MAX) ==> r is Err && r->Err_0@ == "Cannot parse write protect value"@,
        (spec_all_digits(probe_output@) && probe_output@.len() > 0 && 1 < spec_digits_val(
            probe_output@,
        ) <= u32::MAX) ==> r is Err && r->Err_0@ == "Unknown write protect value"@,
{
    match parse_digits_i64(probe_output) {
        Some(v) => {
            if v > 0xFFFF_FFFFi64 {
                Err(String::from_str("Cannot parse write protect value"))
            } else if v == 1 {
                Ok(true)
            } else if v == 0 {
                Ok(false)
            } else {
                Err(String::from_str("Unknown write protect value"))
            }
        },
        None => Err(String::from_str("Cannot parse write protect value")),
    }
}

} // verus!
