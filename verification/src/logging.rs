//! How much is logged, and whether in colour.
use vstd::prelude::*;
use vstd::string::*;

use crate::text::{opt_str, same};

verus! {

/// The filter where the environment sets none: the browser driver's noise is
/// left out.
pub fn default_filter(verbose: bool) -> (r: &'static str)
    ensures
        r@ == (if verbose {
            "debug,chromiumoxide=error"@
        } else {
            "info,chromiumoxide=error"@
        }),
{
    if verbose {
        "debug,chromiumoxide=error"
    } else {
        "info,chromiumoxide=error"
    }
}

/// Whether a value of `FORCE_COLOR` asks for colour.
pub open spec fn forces_color(value: Option<Seq<char>>) -> bool {
    value matches Some(v) && v.len() > 0 && v != "0"@
}

/// Whether logs are in colour: never if `NO_COLOR` is set; else if
/// `FORCE_COLOR` asks for it or the output is a terminal.
pub fn use_color(no_color_set: bool, force_color: Option<&str>, terminal: bool) -> (r: bool)
    ensures
        r == (!no_color_set && (forces_color(opt_str(force_color)) || terminal)),
{
    if no_color_set {
        return false;
    }
    if let Some(v) = force_color {
        if v.unicode_len() > 0 && !same(v, "0") {
            return true;
        }
    }
    terminal
}

/// Colour is never used against `NO_COLOR`; else a terminal always has it, and
/// any other output exactly if `FORCE_COLOR` holds something other than zero.
/// The browser driver is kept quiet in either filter.
pub proof fn law_colour_and_filter(
    no_color_set: bool,
    force_color: Option<&str>,
    terminal: bool,
    r: bool,
    verbose: bool,
    filter: &'static str,
)
    requires
        call_ensures(use_color, (no_color_set, force_color, terminal), r),
        call_ensures(default_filter, (verbose,), filter),
    ensures
        no_color_set ==> !r,
        !no_color_set && terminal ==> r,
        !no_color_set && !terminal ==> (r <==> (force_color matches Some(v) && v@.len() > 0 && v@
            != "0"@)),
        verbose ==> filter@ == "debug,chromiumoxide=error"@,
        !verbose ==> filter@ == "info,chromiumoxide=error"@,
{
}

} // verus!
