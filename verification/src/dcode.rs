//! Rewriting the D-codes of a Gerber file: an aperture selection `Dnn*`
//! gets the prefix `G54`, as the dialect of the design tool asks.

use vstd::prelude::*;
use crate::lines::{join, join_lines, lemma_join_split, line_views, split, split_lines};
use crate::matcher::{replaced_all, Matcher};
use crate::text::{contains, from_chars, has_prefix, has_sub, starts_with, to_chars};

verus! {

/// The dialect of a Gerber file.
#[derive(Debug, Clone, Copy, PartialEq, Eq, Structural)]
pub enum GerberFlavor {
    KiCad,
    Altium,
}

/// The pattern of a D-code: `D`, two to four digits, `*`.
pub open spec fn d_code_pattern() -> Seq<char> {
    "(D\\d{2,4}\\*)"@
}

/// What a D-code is replaced by: itself behind `G54`.
pub open spec fn d_code_replacement() -> Seq<char> {
    "G54$1"@
}

/// The line begins with one of the codes `G01`, `G02`, `G36`, `G37`.
pub open spec fn is_draw_line(line: Seq<char>) -> bool {
    has_prefix(line, "G01"@) || has_prefix(line, "G02"@) || has_prefix(line, "G36"@) || has_prefix(
        line,
        "G37"@,
    )
}

/// Whether a line is left as it is.
///
/// In both dialects a line that already holds `G54D` is. For KiCad so is a
/// line that holds `%ADD`, an aperture definition. For Altium so is a line
/// that begins with `G01`, `G02`, `G36` or `G37` and holds a coordinate,
/// `X` or `Y`.
pub open spec fn is_kept(line: Seq<char>, flavor: GerberFlavor) -> bool {
    match flavor {
        GerberFlavor::KiCad => has_sub(line, "%ADD"@) || has_sub(line, "G54D"@),
        GerberFlavor::Altium => has_sub(line, "G54D"@) || (is_draw_line(line) && (has_sub(
            line,
            "X"@,
        ) || has_sub(line, "Y"@))),
    }
}

/// A line after rewriting.
pub open spec fn rewritten_line(line: Seq<char>, flavor: GerberFlavor) -> Seq<char> {
    if is_kept(line, flavor) {
        line
    } else {
        replaced_all(d_code_pattern(), line, d_code_replacement())
    }
}

/// Every line after rewriting.
pub open spec fn rewritten_lines(lines: Seq<Seq<char>>, flavor: GerberFlavor) -> Seq<Seq<char>> {
    Seq::new(lines.len(), |i: int| rewritten_line(lines[i], flavor))
}

/// A Gerber text after rewriting: its lines, split at the line feeds,
/// rewritten one by one and joined again.
pub open spec fn rewritten(data: Seq<char>, flavor: GerberFlavor) -> Seq<char> {
    join_lines(rewritten_lines(split_lines(data), flavor))
}

/// A text whose lines are all left as they are comes back unchanged.
pub proof fn lemma_kept_text_is_unchanged(data: Seq<char>, flavor: GerberFlavor)
    requires
        forall|i: int|
            0 <= i < split_lines(data).len() ==> is_kept(#[trigger] split_lines(data)[i], flavor),
    ensures
        rewritten(data, flavor) == data,
{
    lemma_join_split(data);
    assert(rewritten_lines(split_lines(data), flavor) =~= split_lines(data));
}

/// Whether a line is left as it is.
pub fn should_keep(line: &[char], flavor: GerberFlavor) -> (r: bool)
    ensures
        r == is_kept(line@, flavor),
{
    let marked = contains(line, to_chars("G54D").as_slice());
    match flavor {
        GerberFlavor::KiCad => contains(line, to_chars("%ADD").as_slice()) || marked,
        GerberFlavor::Altium => {
            let draws = starts_with(line, to_chars("G01").as_slice()) || starts_with(
                line,
                to_chars("G02").as_slice(),
            ) || starts_with(line, to_chars("G36").as_slice()) || starts_with(
                line,
                to_chars("G37").as_slice(),
            );
            marked || (draws && (contains(line, to_chars("X").as_slice()) || contains(
                line,
                to_chars("Y").as_slice(),
            )))
        },
    }
}

/// Rewrites the D-codes of a Gerber text for a dialect: in every line that
/// is not left as it is, each D-code gets the prefix `G54`. The lines are
/// those between the line feeds of the text.
pub fn process_d_codes(gerber_data: String, flavor: GerberFlavor) -> (r: String)
    ensures
        r@ == rewritten(gerber_data@, flavor),
{
    let pattern = Matcher::new("(D\\d{2,4}\\*)");
    let text = to_chars(gerber_data.as_str());
    let lines = split(text.as_slice());
    let ghost given = line_views(lines@);
    let mut out: Vec<Vec<char>> = Vec::new();
    let mut i: usize = 0;
    while i < lines.len()
        invariant
            i <= lines.len(),
            given == line_views(lines@),
            pattern@ == d_code_pattern(),
            line_views(out@) == rewritten_lines(given.take(i as int), flavor),
        decreases lines.len() - i,
    {
        let line = lines[i].as_slice();
        let ghost before = line_views(out@);
        proof {
            assert(given[i as int] == line@);
        }
        if should_keep(line, flavor) {
            out.push(crate::scan::copy_range(line, 0, line.len()));
            proof {
                assert(line@.subrange(0, line@.len() as int) == line@);
            }
        } else {
            out.push(pattern.replace_all(line, "G54$1"));
        }
        proof {
            assert(line_views(out@) =~= before.push(rewritten_line(line@, flavor)));
            assert(rewritten_lines(given.take(i + 1), flavor) =~= rewritten_lines(
                given.take(i as int),
                flavor,
            ).push(rewritten_line(line@, flavor)));
        }
        i += 1;
    }
    proof {
        assert(given.take(given.len() as int) == given);
    }
    let joined = join(&out);
    from_chars(joined.as_slice())
}

} // verus!
