//! Checking that a set of standardised Gerber file names is complete enough
//! to be manufactured.

use vstd::prelude::*;
use crate::text::{extend_str, from_chars, has_prefix, starts_with, text_views, to_chars};

verus! {

/// What a set of names that passes the check is found to hold.
#[derive(Debug, PartialEq, Eq)]
pub struct ValidationReport {
    /// The number of copper layers; `u32::MAX` where there are more.
    pub layer_count: u32,
    /// What is missing without being required.
    pub warnings: Vec<String>,
}

/// The mathematical content of a [`ValidationReport`].
pub struct Report {
    pub layer_count: u32,
    pub warnings: Seq<Seq<char>>,
}

impl View for ValidationReport {
    type V = Report;

    open spec fn view(&self) -> Report {
        Report { layer_count: self.layer_count, warnings: text_views(self.warnings@) }
    }
}

/// The number of names that begin with `prefix`.
pub open spec fn count_with_prefix(files: Seq<Seq<char>>, prefix: Seq<char>) -> nat
    decreases files.len(),
{
    if files.len() == 0 {
        0
    } else if has_prefix(files.last(), prefix) {
        count_with_prefix(files.drop_last(), prefix) + 1
    } else {
        count_with_prefix(files.drop_last(), prefix)
    }
}

/// Some name begins with `prefix`.
pub open spec fn any_with_prefix(files: Seq<Seq<char>>, prefix: Seq<char>) -> bool {
    count_with_prefix(files, prefix) > 0
}

/// `message`, if `missing`; nothing otherwise.
pub open spec fn message_if(missing: bool, message: Seq<char>) -> Seq<Seq<char>> {
    if missing {
        seq![message]
    } else {
        Seq::empty()
    }
}

/// The error for a required file that is missing.
pub open spec fn missing_required(prefix: Seq<char>) -> Seq<char> {
    "Missing required file starting with: '"@ + prefix + "'"@
}

/// The errors of a set of names, in this order: each required file that is
/// missing (board outline, top copper, top solder mask); a bottom copper
/// layer without its solder mask; top and inner copper without bottom
/// copper.
pub open spec fn errors_of(files: Seq<Seq<char>>) -> Seq<Seq<char>> {
    let top = any_with_prefix(files, "Gerber_TopLayer"@);
    let bottom = any_with_prefix(files, "Gerber_BottomLayer"@);
    let inner = any_with_prefix(files, "Gerber_InnerLayer"@);
    message_if(
        !any_with_prefix(files, "Gerber_BoardOutlineLayer"@),
        missing_required("Gerber_BoardOutlineLayer"@),
    ) + message_if(!top, missing_required("Gerber_TopLayer"@)) + message_if(
        !any_with_prefix(files, "Gerber_TopSolderMaskLayer"@),
        missing_required("Gerber_TopSolderMaskLayer"@),
    ) + message_if(
        bottom && !any_with_prefix(files, "Gerber_BottomSolderMaskLayer"@),
        "Bottom copper layer is present, but 'Gerber_BottomSolderMaskLayer' is missing."@,
    ) + message_if(
        top && inner && !bottom,
        "Invalid layer stackup: A board with top and inner copper layers must also have a bottom copper layer."@,
    )
}

/// The warnings of a set of names, in this order: for a top copper layer
/// its missing silkscreen and its missing paste mask, then the same for a
/// bottom copper layer.
pub open spec fn warnings_of(files: Seq<Seq<char>>) -> Seq<Seq<char>> {
    let top = any_with_prefix(files, "Gerber_TopLayer"@);
    let bottom = any_with_prefix(files, "Gerber_BottomLayer"@);
    message_if(
        top && !any_with_prefix(files, "Gerber_TopSilkscreenLayer"@),
        "Warning: 'Gerber_TopSilkscreenLayer' is missing for the top side."@,
    ) + message_if(
        top && !any_with_prefix(files, "Gerber_TopPasteMaskLayer"@),
        "Warning: 'Gerber_TopPasteMaskLayer' is missing. This is usually needed for SMD components."@,
    ) + message_if(
        bottom && !any_with_prefix(files, "Gerber_BottomSilkscreenLayer"@),
        "Warning: 'Gerber_BottomSilkscreenLayer' is missing for the bottom side."@,
    ) + message_if(
        bottom && !any_with_prefix(files, "Gerber_BottomPasteMaskLayer"@),
        "Warning: 'Gerber_BottomPasteMaskLayer' is missing for the bottom side."@,
    )
}

/// The number of copper layers: one for top copper, one for bottom copper,
/// one for each inner layer file.
pub open spec fn layers_of(files: Seq<Seq<char>>) -> nat {
    (if any_with_prefix(files, "Gerber_TopLayer"@) {
        1nat
    } else {
        0nat
    }) + (if any_with_prefix(files, "Gerber_BottomLayer"@) {
        1nat
    } else {
        0nat
    }) + count_with_prefix(files, "Gerber_InnerLayer"@)
}

/// What the check of a set of names gives: the report where there is no
/// error, the errors otherwise.
pub open spec fn validated(files: Seq<Seq<char>>) -> Result<Report, Seq<Seq<char>>> {
    if errors_of(files).len() == 0 {
        Ok(
            Report {
                layer_count: if layers_of(files) <= u32::MAX {
                    layers_of(files) as u32
                } else {
                    u32::MAX
                },
                warnings: warnings_of(files),
            },
        )
    } else {
        Err(errors_of(files))
    }
}

/// Counts the names that begin with `prefix`.
fn count_prefixed(files: &[String], prefix: &str) -> (r: usize)
    ensures
        r == count_with_prefix(text_views(files@), prefix@),
{
    let p = to_chars(prefix);
    let ghost all = text_views(files@);
    let mut n: usize = 0;
    let mut i: usize = 0;
    while i < files.len()
        invariant
            i <= files.len(),
            all == text_views(files@),
            p@ == prefix@,
            n <= i,
            n == count_with_prefix(all.take(i as int), prefix@),
        decreases files.len() - i,
    {
        let name = to_chars(files[i].as_str());
        proof {
            assert(all.take(i + 1).drop_last() == all.take(i as int));
            assert(all.take(i + 1).last() == name@);
        }
        if starts_with(name.as_slice(), p.as_slice()) {
            n += 1;
        }
        i += 1;
    }
    proof {
        assert(all.take(all.len() as int) == all);
    }
    n
}

/// Adds `message` to `list` if `missing`.
fn note(list: &mut Vec<String>, missing: bool, message: String)
    ensures
        text_views(final(list)@) == text_views(old(list)@) + message_if(missing, message@),
{
    let ghost before = text_views(list@);
    if missing {
        list.push(message);
        assert(text_views(list@) =~= before + seq![message@]);
    } else {
        assert(text_views(list@) =~= before + Seq::<Seq<char>>::empty());
    }
}

/// Writes the error for a required file that is missing.
fn missing_required_message(prefix: &str) -> (r: String)
    ensures
        r@ == missing_required(prefix@),
{
    let mut r: Vec<char> = Vec::new();
    extend_str(&mut r, "Missing required file starting with: '");
    assert(r@ =~= "Missing required file starting with: '"@);
    extend_str(&mut r, prefix);
    extend_str(&mut r, "'");
    from_chars(r.as_slice())
}

/// A string from a literal.
fn text(s: &str) -> (r: String)
    ensures
        r@ == s@,
{
    let v = to_chars(s);
    from_chars(v.as_slice())
}

/// Checks a set of standardised Gerber file names against the rules of
/// manufacture.
///
/// Gives the number of copper layers and the warnings where no rule is
/// broken, and the errors, all of them, where one is.
pub fn validate_gerber_files(files: &[String]) -> (r: Result<ValidationReport, Vec<String>>)
    ensures
        match validated(text_views(files@)) {
            Ok(report) => r.is_ok() && r.unwrap()@ == report,
            Err(errors) => r.is_err() && text_views(r.unwrap_err()@) == errors,
        },
{
    let outline = count_prefixed(files, "Gerber_BoardOutlineLayer") > 0;
    let top = count_prefixed(files, "Gerber_TopLayer") > 0;
    let top_mask = count_prefixed(files, "Gerber_TopSolderMaskLayer") > 0;
    let top_silk = count_prefixed(files, "Gerber_TopSilkscreenLayer") > 0;
    let top_paste = count_prefixed(files, "Gerber_TopPasteMaskLayer") > 0;
    let bottom = count_prefixed(files, "Gerber_BottomLayer") > 0;
    let bottom_mask = count_prefixed(files, "Gerber_BottomSolderMaskLayer") > 0;
    let bottom_silk = count_prefixed(files, "Gerber_BottomSilkscreenLayer") > 0;
    let bottom_paste = count_prefixed(files, "Gerber_BottomPasteMaskLayer") > 0;
    let inner = count_prefixed(files, "Gerber_InnerLayer");

    let mut errors: Vec<String> = Vec::new();
    assert(text_views(errors@) =~= Seq::<Seq<char>>::empty());
    note(&mut errors, !outline, missing_required_message("Gerber_BoardOutlineLayer"));
    assert(text_views(errors@) =~= message_if(
        !outline,
        missing_required("Gerber_BoardOutlineLayer"@),
    ));
    note(&mut errors, !top, missing_required_message("Gerber_TopLayer"));
    note(&mut errors, !top_mask, missing_required_message("Gerber_TopSolderMaskLayer"));
    note(
        &mut errors,
        bottom && !bottom_mask,
        text("Bottom copper layer is present, but 'Gerber_BottomSolderMaskLayer' is missing."),
    );
    note(
        &mut errors,
        top && inner > 0 && !bottom,
        text(
            "Invalid layer stackup: A board with top and inner copper layers must also have a bottom copper layer.",
        ),
    );

    let mut warnings: Vec<String> = Vec::new();
    assert(text_views(warnings@) =~= Seq::<Seq<char>>::empty());
    note(
        &mut warnings,
        top && !top_silk,
        text("Warning: 'Gerber_TopSilkscreenLayer' is missing for the top side."),
    );
    assert(text_views(warnings@) =~= message_if(
        top && !top_silk,
        "Warning: 'Gerber_TopSilkscreenLayer' is missing for the top side."@,
    ));
    note(
        &mut warnings,
        top && !top_paste,
        text(
            "Warning: 'Gerber_TopPasteMaskLayer' is missing. This is usually needed for SMD components.",
        ),
    );
    note(
        &mut warnings,
        bottom && !bottom_silk,
        text("Warning: 'Gerber_BottomSilkscreenLayer' is missing for the bottom side."),
    );
    note(
        &mut warnings,
        bottom && !bottom_paste,
        text("Warning: 'Gerber_BottomPasteMaskLayer' is missing for the bottom side."),
    );

    if errors.len() == 0 {
        let copper: u64 = (if top {
            1u64
        } else {
            0u64
        }) + (if bottom {
            1u64
        } else {
            0u64
        });
        let layer_count: u32 = if inner as u64 > 0xffff_ffff - copper {
            0xffff_ffff
        } else {
            (copper + inner as u64) as u32
        };
        Ok(ValidationReport { layer_count, warnings })
    } else {
        Err(errors)
    }
}

} // verus!
