//! Naming the design tool that wrote a file, from keywords in its text.

use vstd::prelude::*;
use crate::text::{contains, has_sub, lower, to_chars, to_lower};

verus! {

/// The tool a text names: the first of `altium`, `kicad` and `easyeda`, in
/// this order of precedence, that the text holds in any case.
pub open spec fn software_of(content: Seq<char>) -> Option<Seq<char>> {
    let l = lower(content);
    if has_sub(l, "altium"@) {
        Some("Altium"@)
    } else if has_sub(l, "kicad"@) {
        Some("KiCad"@)
    } else if has_sub(l, "easyeda"@) {
        Some("EasyEDA"@)
    } else {
        None
    }
}

/// Names the design tool that wrote a file, or `None` where the text holds
/// none of the keywords.
pub fn identify_software(content: &str) -> (r: Option<&'static str>)
    ensures
        match software_of(content@) {
            Some(name) => r.is_some() && r.unwrap()@ == name,
            None => r.is_none(),
        },
{
    let text = to_chars(content);
    let low = to_lower(text.as_slice());
    if contains(low.as_slice(), to_chars("altium").as_slice()) {
        Some("Altium")
    } else if contains(low.as_slice(), to_chars("kicad").as_slice()) {
        Some("KiCad")
    } else if contains(low.as_slice(), to_chars("easyeda").as_slice()) {
        Some("EasyEDA")
    } else {
        None
    }
}

} // verus!
