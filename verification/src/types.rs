//! Terminal color schemes used by report renderers.

use vstd::prelude::*;

verus! {

/// A set of ANSI escape sequences (or empty strings) used to style output.
pub struct Color {
    pub bold: &'static str,
    pub reset: &'static str,
    pub magenta: &'static str,
    pub yellow: &'static str,
    pub green: &'static str,
    pub red: &'static str,
}

/// The color scheme for a terminal: ANSI escapes when `colored`, empty
/// strings otherwise.
pub fn color_scheme(colored: bool) -> (c: Color)
    ensures
        !colored ==> c.bold@ == Seq::<char>::empty(),
        !colored ==> c.reset@ == Seq::<char>::empty(),
{
    if colored {
        Color {
            bold: "\x1b[1m",
            reset: "\x1b[0m",
            magenta: "\x1b[35m",
            yellow: "\x1b[33m",
            green: "\x1b[92m",
            red: "\x1b[31m",
        }
    } else {
        proof {
            reveal_strlit("");
        }
        Color { bold: "", reset: "", magenta: "", yellow: "", green: "", red: "" }
    }
}

} // verus!
