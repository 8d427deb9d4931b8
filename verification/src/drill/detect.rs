//! The format detector: which files are drill files, which of them are
//! through-hole files, and which tool wrote a file.

use vstd::prelude::*;
use crate::drill::grammar::ad_tool_pattern;
use crate::matcher::{found, Matcher};
use crate::drill::DrillEdaType;
use crate::text::{contains, ends_with, has_sub, has_suffix, lower, to_chars, to_lower};

verus! {

/// The name ends in `.tx1` to `.tx6`, in any case: a file of blind or
/// buried vias.
pub open spec fn is_blind_via_name(name: Seq<char>) -> bool {
    let l = lower(name);
    has_suffix(l, ".tx1"@) || has_suffix(l, ".tx2"@) || has_suffix(l, ".tx3"@) || has_suffix(
        l,
        ".tx4"@,
    ) || has_suffix(l, ".tx5"@) || has_suffix(l, ".tx6"@)
}

/// The name is that of a drill file: it ends in `.drl`, or in `.txt` with
/// `hole` or `drill` in the name, or in `.tx1` to `.tx6`; all in any case.
pub open spec fn is_drill_name(name: Seq<char>) -> bool {
    let l = lower(name);
    has_suffix(l, ".drl"@) || (has_suffix(l, ".txt"@) && (has_sub(l, "hole"@) || has_sub(
        l,
        "drill"@,
    ))) || is_blind_via_name(name)
}

/// The tool that wrote a drill file: KiCad when the text holds `kicad` in
/// any case; else Altium when the text begins with a tool declaration
/// `T<digits>F<digits>S<digits>C<decimal>` or holds `altium` in any case;
/// else unknown.
pub open spec fn classify(content: Seq<char>) -> DrillEdaType {
    if has_sub(lower(content), "kicad"@) {
        DrillEdaType::KiCad
    } else if found(ad_tool_pattern(), content).is_some() || has_sub(lower(content), "altium"@) {
        DrillEdaType::Altium
    } else {
        DrillEdaType::Unknown
    }
}

/// Whether a lower-cased name ends in `.tx1` to `.tx6`.
fn lower_is_blind_via(low: &[char]) -> (r: bool)
    ensures
        r == (has_suffix(low@, ".tx1"@) || has_suffix(low@, ".tx2"@) || has_suffix(low@, ".tx3"@)
            || has_suffix(low@, ".tx4"@) || has_suffix(low@, ".tx5"@) || has_suffix(
            low@,
            ".tx6"@,
        )),
{
    ends_with(low, to_chars(".tx1").as_slice()) || ends_with(low, to_chars(".tx2").as_slice())
        || ends_with(low, to_chars(".tx3").as_slice()) || ends_with(
        low,
        to_chars(".tx4").as_slice(),
    ) || ends_with(low, to_chars(".tx5").as_slice()) || ends_with(
        low,
        to_chars(".tx6").as_slice(),
    )
}

/// Whether a file is a drill file, by its name.
pub fn is_drill_file(filename: &str) -> (r: bool)
    ensures
        r == is_drill_name(filename@),
{
    let name = to_chars(filename);
    let low = to_lower(name.as_slice());
    let l = low.as_slice();
    ends_with(l, to_chars(".drl").as_slice()) || (ends_with(l, to_chars(".txt").as_slice())
        && (contains(l, to_chars("hole").as_slice()) || contains(l, to_chars("drill").as_slice())))
        || lower_is_blind_via(l)
}

/// Whether a drill file holds through holes, by its name: not so for the
/// files of blind or buried vias.
pub fn is_through_drill(filename: &str) -> (r: bool)
    ensures
        r == !is_blind_via_name(filename@),
{
    let name = to_chars(filename);
    let low = to_lower(name.as_slice());
    !lower_is_blind_via(low.as_slice())
}

/// Which tool wrote a drill file, by its text.
pub fn detect_drill_eda(content: &str) -> (r: DrillEdaType)
    ensures
        r == classify(content@),
{
    let text = to_chars(content);
    let low = to_lower(text.as_slice());
    if contains(low.as_slice(), to_chars("kicad").as_slice()) {
        DrillEdaType::KiCad
    } else if Matcher::new("^T(\\d+)F\\d+S\\d+C([\\d.]+)").captures(text.as_slice()).is_some() {
        DrillEdaType::Altium
    } else if contains(low.as_slice(), to_chars("altium").as_slice()) {
        DrillEdaType::Altium
    } else {
        DrillEdaType::Unknown
    }
}

} // verus!
