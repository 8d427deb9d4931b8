//! The parser for KiCad-style Excellon text.

use vstd::prelude::*;
use crate::drill::altium::{diameter_at, diameter_of};
use crate::drill::grammar::{
    kicad_tool_pattern, tool_number_at, tool_number_of, Grammar, Notation,
};
use crate::matcher::{found, Matcher};
use crate::drill::route::{lemma_operations_not_empty, operations_of, run_body, scan_body};
use crate::drill::tools::{ascending, declare_tool, insert_tool, Tool};
use crate::drill::{DrillFile, DrillUnit, HoleType, Operation};
use crate::lines::{line_views, split_trimmed, trimmed_lines};
use crate::text::{contains, equal, has_sub, lower, occurs_at, to_chars, to_lower};

verus! {

/// The plating class of a whole KiCad file: non-plated when the text holds
/// `nonplated` or `npth` in any case, plated otherwise.
pub open spec fn kicad_hole_type(content: Seq<char>) -> HoleType {
    if has_sub(lower(content), "nonplated"@) || has_sub(lower(content), "npth"@) {
        HoleType::NonPlated
    } else {
        HoleType::Plated
    }
}

/// What the header of a KiCad file has declared so far.
pub struct KicadHeader {
    /// No `%` line has been met yet.
    pub in_header: bool,
    pub tools: Seq<Tool>,
}

/// The header after one more trimmed line. A tool declaration gives the
/// diameter in decimal millimetres; every tool has the plating class of the
/// file.
pub open spec fn kicad_header_step(h: KicadHeader, line: Seq<char>, hole_type: HoleType) -> KicadHeader {
    if line == "%"@ {
        KicadHeader { in_header: false, ..h }
    } else if !h.in_header {
        h
    } else {
        let declared = found(kicad_tool_pattern(), line);
        if declared.is_some() {
            KicadHeader {
                in_header: true,
                tools: insert_tool(
                    h.tools,
                    Tool {
                        id: tool_number_at(declared, 1),
                        diameter: diameter_at(declared, 2, DrillUnit::Metric),
                        hole_type,
                    },
                ),
            }
        } else {
            h
        }
    }
}

/// The header after all of `lines`.
pub open spec fn kicad_header(lines: Seq<Seq<char>>, hole_type: HoleType) -> KicadHeader
    decreases lines.len(),
{
    if lines.len() == 0 {
        KicadHeader { in_header: true, tools: Seq::empty() }
    } else {
        kicad_header_step(kicad_header(lines.drop_last(), hole_type), lines.last(), hole_type)
    }
}

/// The program that KiCad-style Excellon text describes.
pub open spec fn kicad_program(content: Seq<char>) -> Seq<Operation> {
    let lines = trimmed_lines(content);
    let tools = kicad_header(lines, kicad_hole_type(content)).tools;
    operations_of(tools, scan_body(lines, Notation::Plain, tools).events)
}

/// A word that occurs in a text occurs, in lower case, in the lower-cased
/// text.
pub proof fn lemma_lower_occurs(content: Seq<char>, word: Seq<char>, at: int)
    requires
        occurs_at(content, word, at),
    ensures
        occurs_at(lower(content), lower(word), at),
{
    assert(lower(content).subrange(at, at + lower(word).len()) =~= lower(
        content.subrange(at, at + word.len()),
    ));
}

/// A KiCad text that holds `NPTH` or `NonPlated` anywhere, in any case, is
/// a non-plated file as a whole: `word` is such a marker, written in some
/// case, and occurs in the text at `at`.
pub proof fn lemma_marker_in_any_case(content: Seq<char>, word: Seq<char>, at: int)
    requires
        occurs_at(content, word, at),
        lower(word) == "npth"@ || lower(word) == "nonplated"@,
    ensures
        kicad_hole_type(content) == HoleType::NonPlated,
{
    lemma_lower_occurs(content, word, at);
}

/// Every tool of a KiCad header has the plating class of the file.
pub proof fn lemma_kicad_tools_hole_type(lines: Seq<Seq<char>>, hole_type: HoleType)
    ensures
        forall|i: int|
            0 <= i < kicad_header(lines, hole_type).tools.len() ==> (#[trigger] kicad_header(
                lines,
                hole_type,
            ).tools[i]).hole_type == hole_type,
    decreases lines.len(),
{
    if lines.len() > 0 {
        let h = kicad_header(lines.drop_last(), hole_type);
        lemma_kicad_tools_hole_type(lines.drop_last(), hole_type);
        let declared = found(kicad_tool_pattern(), lines.last());
        if declared.is_some() {
            let t = Tool {
                id: tool_number_at(declared, 1),
                diameter: diameter_at(declared, 2, DrillUnit::Metric),
                hole_type,
            };
            lemma_insert_keeps(h.tools, t, hole_type);
        }
    }
}

/// Declaring a tool of a plating class in a table whose tools all have that
/// class gives such a table.
proof fn lemma_insert_keeps(table: Seq<Tool>, t: Tool, hole_type: HoleType)
    requires
        t.hole_type == hole_type,
        forall|i: int| 0 <= i < table.len() ==> (#[trigger] table[i]).hole_type == hole_type,
    ensures
        forall|i: int|
            0 <= i < insert_tool(table, t).len() ==> (#[trigger] insert_tool(
                table,
                t,
            )[i]).hole_type == hole_type,
    decreases table.len(),
{
    if table.len() > 0 && table.last().id > t.id {
        let head = table.drop_last();
        assert forall|i: int| 0 <= i < head.len() implies (#[trigger] head[i]).hole_type
            == hole_type by {
            assert(head[i] == table[i]);
        }
        lemma_insert_keeps(head, t, hole_type);
    } else if table.len() > 0 {
        let head = table.drop_last();
        assert forall|i: int| 0 <= i < head.len() implies (#[trigger] head[i]).hole_type
            == hole_type by {
            assert(head[i] == table[i]);
        }
    }
}

/// Every operation of a program has the plating class of one of the tools.
pub proof fn lemma_operations_hole_type(
    tools: Seq<Tool>,
    events: Seq<(u32, crate::drill::DrillCommand)>,
    hole_type: HoleType,
)
    requires
        forall|i: int| 0 <= i < tools.len() ==> (#[trigger] tools[i]).hole_type == hole_type,
    ensures
        forall|i: int|
            0 <= i < operations_of(tools, events).len() ==> (#[trigger] operations_of(
                tools,
                events,
            )[i]).hole_type == hole_type,
    decreases tools.len(),
{
    if tools.len() > 0 {
        let head = tools.drop_last();
        assert forall|i: int| 0 <= i < head.len() implies (#[trigger] head[i]).hole_type
            == hole_type by {
            assert(head[i] == tools[i]);
        }
        lemma_operations_hole_type(head, events, hole_type);
    }
}

/// Decides the plating class of a KiCad file.
fn read_kicad_hole_type(text: &[char]) -> (r: HoleType)
    ensures
        r == kicad_hole_type(text@),
{
    let low = to_lower(text);
    let nonplated = to_chars("nonplated");
    let npth = to_chars("npth");
    if contains(low.as_slice(), nonplated.as_slice()) || contains(low.as_slice(), npth.as_slice()) {
        HoleType::NonPlated
    } else {
        HoleType::Plated
    }
}

/// Reads the header of a KiCad file whose lines are trimmed.
fn read_kicad_header(lines: &Vec<Vec<char>>, hole_type: HoleType) -> (r: Vec<Tool>)
    ensures
        r@ == kicad_header(line_views(lines@), hole_type).tools,
        ascending(r@),
{
    let percent = to_chars("%");
    let pattern = Matcher::new("^T(\\d+)C([\\d.]+)");
    let mut tools: Vec<Tool> = Vec::new();
    let mut in_header = true;
    let ghost all = line_views(lines@);
    let mut k: usize = 0;
    while k < lines.len()
        invariant
            k <= lines.len(),
            all == line_views(lines@),
            percent@ == "%"@,
            pattern@ == kicad_tool_pattern(),
            in_header == kicad_header(all.take(k as int), hole_type).in_header,
            tools@ == kicad_header(all.take(k as int), hole_type).tools,
            ascending(tools@),
        decreases lines.len() - k,
    {
        let line = lines[k].as_slice();
        proof {
            assert(all.take(k + 1).drop_last() == all.take(k as int));
            assert(all.take(k + 1).last() == line@);
        }
        if equal(line, percent.as_slice()) {
            in_header = false;
        } else if in_header {
            let declared = pattern.captures(line);
            if declared.is_some() {
                let tool = Tool {
                    id: tool_number_of(&declared, 1),
                    diameter: diameter_of(&declared, 2, DrillUnit::Metric),
                    hole_type,
                };
                declare_tool(&mut tools, tool);
            }
        }
        k += 1;
    }
    proof {
        assert(all.take(all.len() as int) == all);
    }
    tools
}

/// Parses KiCad-style Excellon text into its drill program and the plating
/// class of the file.
///
/// The class is decided once for the whole file: non-plated when the text
/// holds `nonplated` or `npth` in any case, plated otherwise. Coordinates
/// and diameters are plain decimal millimetres. The program has one
/// operation for each declared tool that has a command, in ascending order
/// of the tool numbers, and every operation has the class of the file.
pub fn parse_kicad_excellon(content: &str) -> (r: (DrillFile, HoleType))
    ensures
        r.0@ == kicad_program(content@),
        r.1 == kicad_hole_type(content@),
        forall|i: int| 0 <= i < r.0@.len() ==> (#[trigger] r.0@[i]).commands.len() > 0,
        forall|i: int| 0 <= i < r.0@.len() ==> (#[trigger] r.0@[i]).hole_type == r.1,
{
    let text = to_chars(content);
    let hole_type = read_kicad_hole_type(text.as_slice());
    let lines = split_trimmed(text.as_slice());
    let tools = read_kicad_header(&lines, hole_type);
    let operations = run_body(&Grammar::new(), &lines, Notation::Plain, &tools);
    proof {
        let events = scan_body(line_views(lines@), Notation::Plain, tools@).events;
        lemma_operations_not_empty(tools@, events);
        lemma_kicad_tools_hole_type(line_views(lines@), hole_type);
        lemma_operations_hole_type(tools@, events, hole_type);
    }
    (DrillFile { operations }, hole_type)
}

} // verus!
