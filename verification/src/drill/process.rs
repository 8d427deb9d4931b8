//! The whole pipeline: from the texts and names of a set of drill files to
//! one canonical program per plating class, with warnings.

use vstd::prelude::*;
use crate::drill::altium::{ad_program, parse_ad_excellon};
use crate::drill::detect::{classify, detect_drill_eda, is_blind_via_name, is_through_drill};
use crate::drill::emit::{
    drill_header_for, excellon_text, generate_jlc_excellon_with_header, is_drill_header,
};
use crate::drill::kicad::{kicad_hole_type, kicad_program, parse_kicad_excellon};
use crate::drill::merge::{
    file_views, merge_and_split_drills, merged_bucket, non_empty, optional_view,
};
use crate::drill::{DrillEdaType, DrillFile, DrillResult, HoleType, Operation};
use crate::text::{extend_str, from_chars, text_views};

verus! {

/// The mathematical content of a [`DrillResult`].
pub struct ResultText {
    pub pth_content: Option<Seq<char>>,
    pub npth_content: Option<Seq<char>>,
    pub warnings: Seq<Seq<char>>,
}

impl View for DrillResult {
    type V = ResultText;

    open spec fn view(&self) -> ResultText {
        ResultText {
            pth_content: match self.pth_content {
                Some(s) => Some(s@),
                None => None,
            },
            npth_content: match self.npth_content {
                Some(s) => Some(s@),
                None => None,
            },
            warnings: text_views(self.warnings@),
        }
    }
}

/// What has been taken in from the files seen so far.
pub struct Intake {
    /// The program of the first plated KiCad file.
    pub direct_pth: Option<Seq<Operation>>,
    /// The program of the first non-plated KiCad file.
    pub direct_npth: Option<Seq<Operation>>,
    /// The programs that go through the merge, in file order.
    pub pending: Seq<Seq<Operation>>,
    pub warnings: Seq<Seq<char>>,
}

/// The warning for a file of blind or buried vias.
pub open spec fn skip_warning(name: Seq<char>) -> Seq<char> {
    "Skipped blind/buried via file: "@ + name + ". JLC only supports through holes."@
}

/// The intake after one more file.
///
/// A file of blind or buried vias is left out and gives one warning. A
/// KiCad file is parsed as such; the first of each plating class is kept
/// apart, a later one of the same class goes to the merge. Any other file
/// is parsed as generic Excellon text and goes to the merge.
pub open spec fn take_in(s: Intake, content: Seq<char>, name: Seq<char>) -> Intake {
    if is_blind_via_name(name) {
        Intake { warnings: s.warnings.push(skip_warning(name)), ..s }
    } else if classify(content) == DrillEdaType::KiCad {
        match kicad_hole_type(content) {
            HoleType::Plated => if s.direct_pth.is_none() {
                Intake { direct_pth: Some(kicad_program(content)), ..s }
            } else {
                Intake { pending: s.pending.push(kicad_program(content)), ..s }
            },
            HoleType::NonPlated => if s.direct_npth.is_none() {
                Intake { direct_npth: Some(kicad_program(content)), ..s }
            } else {
                Intake { pending: s.pending.push(kicad_program(content)), ..s }
            },
        }
    } else {
        Intake { pending: s.pending.push(ad_program(content)), ..s }
    }
}

/// The intake after the first `n` files, each a text with its name.
pub open spec fn intake(contents: Seq<Seq<char>>, names: Seq<Seq<char>>, n: nat) -> Intake
    decreases n,
{
    if n == 0 {
        Intake { direct_pth: None, direct_npth: None, pending: Seq::empty(), warnings: Seq::empty() }
    } else {
        take_in(intake(contents, names, (n - 1) as nat), contents[n - 1], names[n - 1])
    }
}

/// The number of files: texts and names are paired as far as both go.
pub open spec fn pair_count(contents: Seq<Seq<char>>, names: Seq<Seq<char>>) -> nat {
    if contents.len() <= names.len() {
        contents.len()
    } else {
        names.len()
    }
}

/// The text of a plating class: that of the merged program of the class
/// where the merge gives one, else that of the program kept apart, else
/// none.
pub open spec fn class_text(
    merged: Option<Seq<Operation>>,
    direct: Option<Seq<Operation>>,
    header: Seq<char>,
) -> Option<Seq<char>> {
    match merged {
        Some(ops) => Some(excellon_text(header, ops)),
        None => match direct {
            Some(ops) => Some(excellon_text(header, ops)),
            None => None,
        },
    }
}

/// What processing a set of files gives, with the header blocks of the two
/// classes.
pub open spec fn processed(
    contents: Seq<Seq<char>>,
    names: Seq<Seq<char>>,
    pth_header: Seq<char>,
    npth_header: Seq<char>,
) -> ResultText {
    let s = intake(contents, names, pair_count(contents, names));
    ResultText {
        pth_content: class_text(
            non_empty(merged_bucket(s.pending, HoleType::Plated)),
            s.direct_pth,
            pth_header,
        ),
        npth_content: class_text(
            non_empty(merged_bucket(s.pending, HoleType::NonPlated)),
            s.direct_npth,
            npth_header,
        ),
        warnings: s.warnings,
    }
}

/// The number of files of blind or buried vias among the first `n` names.
pub open spec fn blind_via_count(names: Seq<Seq<char>>, n: nat) -> nat
    decreases n,
{
    if n == 0 {
        0
    } else if is_blind_via_name(names[n - 1]) {
        blind_via_count(names, (n - 1) as nat) + 1
    } else {
        blind_via_count(names, (n - 1) as nat)
    }
}

/// Every file of blind or buried vias gives exactly one warning, and no
/// other file gives any.
pub proof fn lemma_one_warning_for_each_blind_via_file(
    contents: Seq<Seq<char>>,
    names: Seq<Seq<char>>,
    n: nat,
)
    ensures
        intake(contents, names, n).warnings.len() == blind_via_count(names, n),
    decreases n,
{
    if n > 0 {
        lemma_one_warning_for_each_blind_via_file(contents, names, (n - 1) as nat);
    }
}

/// A file of blind or buried vias changes nothing but the warnings: its
/// text does not reach the programs.
pub proof fn lemma_blind_via_file_is_left_out(s: Intake, content: Seq<char>, name: Seq<char>)
    requires
        is_blind_via_name(name),
    ensures
        take_in(s, content, name).direct_pth == s.direct_pth,
        take_in(s, content, name).direct_npth == s.direct_npth,
        take_in(s, content, name).pending == s.pending,
        take_in(s, content, name).warnings == s.warnings.push(skip_warning(name)),
{
}

/// Writes the warning for a file of blind or buried vias.
fn skip_warning_for(name: &str) -> (r: String)
    ensures
        r@ == skip_warning(name@),
{
    let mut r: Vec<char> = Vec::new();
    extend_str(&mut r, "Skipped blind/buried via file: ");
    assert(r@ =~= "Skipped blind/buried via file: "@);
    extend_str(&mut r, name);
    extend_str(&mut r, ". JLC only supports through holes.");
    from_chars(r.as_slice())
}

/// Writes the text of a plating class.
fn write_class(merged: Option<DrillFile>, direct: Option<DrillFile>, header: &str) -> (r: Option<
    String,
>)
    ensures
        match class_text(optional_view(merged), optional_view(direct), header@) {
            Some(text) => r.is_some() && r.unwrap()@ == text,
            None => r.is_none(),
        },
{
    match merged {
        Some(f) => Some(generate_jlc_excellon_with_header(&f, header)),
        None => match direct {
            Some(f) => Some(generate_jlc_excellon_with_header(&f, header)),
            None => None,
        },
    }
}

/// Processes a set of drill files, each a text with its name, behind the
/// given header blocks for the plated and the non-plated program.
///
/// The result never fails: a set that yields no program gives a result
/// without texts.
pub fn process_drill_files_with_headers(
    contents: &[String],
    filenames: &[String],
    pth_header: &str,
    npth_header: &str,
) -> (r: DrillResult)
    ensures
        r@ == processed(
            text_views(contents@),
            text_views(filenames@),
            pth_header@,
            npth_header@,
        ),
{
    let ghost texts = text_views(contents@);
    let ghost names = text_views(filenames@);
    let count = if contents.len() <= filenames.len() {
        contents.len()
    } else {
        filenames.len()
    };
    let mut pending: Vec<DrillFile> = Vec::new();
    let mut warnings: Vec<String> = Vec::new();
    let mut direct_pth: Option<DrillFile> = None;
    let mut direct_npth: Option<DrillFile> = None;
    let mut i: usize = 0;
    while i < count
        invariant
            i <= count,
            count == pair_count(texts, names),
            texts == text_views(contents@),
            names == text_views(filenames@),
            optional_view(direct_pth) == intake(texts, names, i as nat).direct_pth,
            optional_view(direct_npth) == intake(texts, names, i as nat).direct_npth,
            file_views(pending@) == intake(texts, names, i as nat).pending,
            text_views(warnings@) == intake(texts, names, i as nat).warnings,
        decreases count - i,
    {
        let content = contents[i].as_str();
        let filename = filenames[i].as_str();
        let ghost before = intake(texts, names, i as nat);
        let ghost pending_before = file_views(pending@);
        let ghost warnings_before = text_views(warnings@);
        proof {
            assert(texts[i as int] == content@);
            assert(names[i as int] == filename@);
        }
        if !is_through_drill(filename) {
            warnings.push(skip_warning_for(filename));
            assert(text_views(warnings@) =~= warnings_before.push(skip_warning(filename@)));
        } else {
            match detect_drill_eda(content) {
                DrillEdaType::KiCad => {
                    let (drill_file, hole_type) = parse_kicad_excellon(content);
                    let ghost program = drill_file@;
                    match hole_type {
                        HoleType::Plated => {
                            if direct_pth.is_none() {
                                direct_pth = Some(drill_file);
                            } else {
                                pending.push(drill_file);
                                assert(file_views(pending@) =~= pending_before.push(program));
                            }
                        },
                        HoleType::NonPlated => {
                            if direct_npth.is_none() {
                                direct_npth = Some(drill_file);
                            } else {
                                pending.push(drill_file);
                                assert(file_views(pending@) =~= pending_before.push(program));
                            }
                        },
                    }
                },
                _ => {
                    let drill_file = parse_ad_excellon(content);
                    let ghost program = drill_file@;
                    pending.push(drill_file);
                    assert(file_views(pending@) =~= pending_before.push(program));
                },
            }
        }
        i += 1;
    }
    let (pth_file, npth_file) = merge_and_split_drills(pending);
    let pth_content = write_class(pth_file, direct_pth, pth_header);
    let npth_content = write_class(npth_file, direct_npth, npth_header);
    DrillResult { pth_content, npth_content, warnings }
}

/// Processes a set of drill files, each a text with its name, into one
/// canonical program per plating class.
///
/// Each program stands behind a fresh header block for its class; apart
/// from the header blocks the result is fixed by the texts and the names.
pub fn process_drill_files(contents: &[String], filenames: &[String]) -> (r: DrillResult)
    ensures
        exists|pth_header: Seq<char>, npth_header: Seq<char>|
            is_drill_header(pth_header, HoleType::Plated) && is_drill_header(
                npth_header,
                HoleType::NonPlated,
            ) && r@ == #[trigger] processed(
                text_views(contents@),
                text_views(filenames@),
                pth_header,
                npth_header,
            ),
{
    let pth_header = drill_header_for(HoleType::Plated);
    let npth_header = drill_header_for(HoleType::NonPlated);
    let r = process_drill_files_with_headers(
        contents,
        filenames,
        pth_header.as_str(),
        npth_header.as_str(),
    );
    assert(is_drill_header(pth_header@, HoleType::Plated) && is_drill_header(
        npth_header@,
        HoleType::NonPlated,
    ) && r@ == processed(
        text_views(contents@),
        text_views(filenames@),
        pth_header@,
        npth_header@,
    ));
    r
}

} // verus!
