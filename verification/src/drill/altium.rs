//! The parser for generic and Altium-style Excellon text.

use vstd::prelude::*;
use crate::drill::coordinate::{decode_diameter, diameter_length};
use crate::drill::grammar::{
    ad_tool_pattern, file_format_pattern, tool_number_at, tool_number_of, Format, Grammar,
    Notation,
};
use crate::matcher::{found, group, group_at, groups_view, Matcher};
use crate::drill::route::{lemma_operations_not_empty, operations_of, run_body, scan_body};
use crate::drill::tools::{ascending, declare_tool, insert_tool, Tool};
use crate::drill::{DrillFile, DrillUnit, HoleType, Operation};
use crate::lines::{line_views, split_trimmed, trimmed_lines};
use crate::number::{parse_u32, read_u32};
use crate::text::{contains, equal, has_prefix, has_sub, lower, starts_with, to_chars, to_lower};

verus! {

/// What the header of a file has declared so far.
pub struct AdHeader {
    /// No `%` line has been met yet.
    pub in_header: bool,
    pub format: Format,
    /// The plating class that the next tool declaration takes.
    pub hole_type: HoleType,
    pub tools: Seq<Tool>,
}

/// The header before the first line: millimetres, two integer and four
/// decimal places, leading-zero notation, plated holes, no tools.
pub open spec fn ad_header_start() -> AdHeader {
    AdHeader {
        in_header: true,
        format: Format {
            unit: DrillUnit::Metric,
            integer_places: 2,
            decimal_places: 4,
            leading_zero: true,
        },
        hole_type: HoleType::Plated,
        tools: Seq::empty(),
    }
}

/// The unit a line declares: the line begins with `INCH` or `METRIC`, in
/// any case.
pub open spec fn declared_unit(line: Seq<char>) -> Option<DrillUnit> {
    if has_prefix(lower(line), "inch"@) {
        Some(DrillUnit::Inch)
    } else if has_prefix(lower(line), "metric"@) {
        Some(DrillUnit::Metric)
    } else {
        None
    }
}

/// The zero notation a unit line declares: `LZ` anywhere in it is
/// leading-zero, else `TZ` anywhere in it is trailing-zero.
pub open spec fn declared_leading_zero(line: Seq<char>) -> Option<bool> {
    if declared_unit(line).is_none() {
        None
    } else if has_sub(lower(line), "lz"@) {
        Some(true)
    } else if has_sub(lower(line), "tz"@) {
        Some(false)
    } else {
        None
    }
}

/// The plating class a line marks: `TYPE=PLATED` in a line without
/// `NON_PLATED` marks plated holes, `TYPE=NON_PLATED` non-plated ones.
pub open spec fn declared_hole_type(line: Seq<char>) -> Option<HoleType> {
    if has_sub(line, "TYPE=PLATED"@) && !has_sub(line, "NON_PLATED"@) {
        Some(HoleType::Plated)
    } else if has_sub(line, "TYPE=NON_PLATED"@) {
        Some(HoleType::NonPlated)
    } else {
        None
    }
}

/// The digit count in group `i` of a match of the directive; `default`
/// where the group names none that fits.
pub open spec fn places_at(groups: Option<Seq<Option<Seq<char>>>>, i: int, default: u32) -> u32 {
    match group_at(groups, i) {
        Some(digits) => match read_u32(digits) {
            Some(n) => n,
            None => default,
        },
        None => default,
    }
}

/// The diameter in group `i` of a match of a tool declaration, in steps; 0
/// where the group took no part.
pub open spec fn diameter_at(groups: Option<Seq<Option<Seq<char>>>>, i: int, unit: DrillUnit) -> u64 {
    match group_at(groups, i) {
        Some(token) => decode_diameter(token, unit),
        None => 0,
    }
}

/// The format after a header line.
pub open spec fn next_format(f: Format, line: Seq<char>) -> Format {
    Format {
        unit: match declared_unit(line) {
            Some(u) => u,
            None => f.unit,
        },
        leading_zero: match declared_leading_zero(line) {
            Some(z) => z,
            None => f.leading_zero,
        },
        integer_places: if found(file_format_pattern(), line).is_some() {
            places_at(found(file_format_pattern(), line), 1, 2)
        } else {
            f.integer_places
        },
        decimal_places: if found(file_format_pattern(), line).is_some() {
            places_at(found(file_format_pattern(), line), 2, 4)
        } else {
            f.decimal_places
        },
    }
}

/// The header after one more trimmed line. The first `%` line ends the
/// header, and what follows it declares nothing. A tool declaration takes
/// the unit and the plating class as they stand after its own line.
pub open spec fn ad_header_step(h: AdHeader, line: Seq<char>) -> AdHeader {
    if line == "%"@ {
        AdHeader { in_header: false, ..h }
    } else if !h.in_header {
        h
    } else {
        let format = next_format(h.format, line);
        let hole_type = match declared_hole_type(line) {
            Some(t) => t,
            None => h.hole_type,
        };
        let declared = found(ad_tool_pattern(), line);
        let tools = if declared.is_some() {
            insert_tool(
                h.tools,
                Tool {
                    id: tool_number_at(declared, 1),
                    diameter: diameter_at(declared, 2, format.unit),
                    hole_type,
                },
            )
        } else {
            h.tools
        };
        AdHeader { in_header: true, format, hole_type, tools }
    }
}

/// The header after all of `lines`.
pub open spec fn ad_header(lines: Seq<Seq<char>>) -> AdHeader
    decreases lines.len(),
{
    if lines.len() == 0 {
        ad_header_start()
    } else {
        ad_header_step(ad_header(lines.drop_last()), lines.last())
    }
}

/// The program that generic or Altium-style Excellon text describes: the
/// header of its trimmed lines gives the format and the tool table, and the
/// body is scanned with them.
pub open spec fn ad_program(content: Seq<char>) -> Seq<Operation> {
    let lines = trimmed_lines(content);
    let h = ad_header(lines);
    operations_of(h.tools, scan_body(lines, Notation::Fixed(h.format), h.tools).events)
}

/// The patterns of the header lines, ready for use.
pub struct AdHeaderPatterns {
    pub tool: Matcher,
    pub file_format: Matcher,
}

impl AdHeaderPatterns {
    /// Each pattern is the one of its name.
    pub open spec fn wf(&self) -> bool {
        &&& self.tool@ == ad_tool_pattern()
        &&& self.file_format@ == file_format_pattern()
    }

    /// Makes the patterns of the header lines ready for use.
    pub fn new() -> (r: AdHeaderPatterns)
        ensures
            r.wf(),
    {
        AdHeaderPatterns {
            tool: Matcher::new("^T(\\d+)F\\d+S\\d+C([\\d.]+)"),
            file_format: Matcher::new("FILE_FORMAT=(\\d+):(\\d+)"),
        }
    }
}

/// The diameter in group `i` of a match of a tool declaration.
pub fn diameter_of(groups: &crate::matcher::Groups, i: usize, unit: DrillUnit) -> (r: u64)
    ensures
        r == diameter_at(groups_view(*groups), i as int, unit),
{
    match group(groups, i) {
        Some(token) => diameter_length(token.as_slice(), unit),
        None => 0,
    }
}

/// The digit count in group `i` of a match of the directive.
fn places_of(groups: &crate::matcher::Groups, i: usize, default: u32) -> (r: u32)
    ensures
        r == places_at(groups_view(*groups), i as int, default),
{
    match group(groups, i) {
        Some(digits) => match parse_u32(digits.as_slice()) {
            Some(n) => n,
            None => default,
        },
        None => default,
    }
}

/// Reads what one header line declares about the format.
fn read_format_line(p: &AdHeaderPatterns, f: Format, line: &[char]) -> (r: Format)
    requires
        p.wf(),
    ensures
        r == next_format(f, line@),
{
    let low = to_lower(line);
    let inch = to_chars("inch");
    let metric = to_chars("metric");
    let mut unit = f.unit;
    let mut leading_zero = f.leading_zero;
    let is_inch = starts_with(low.as_slice(), inch.as_slice());
    let is_metric = starts_with(low.as_slice(), metric.as_slice());
    if is_inch || is_metric {
        unit = if is_inch {
            DrillUnit::Inch
        } else {
            DrillUnit::Metric
        };
        let lz = to_chars("lz");
        let tz = to_chars("tz");
        if contains(low.as_slice(), lz.as_slice()) {
            leading_zero = true;
        } else if contains(low.as_slice(), tz.as_slice()) {
            leading_zero = false;
        }
    }
    let mut integer_places = f.integer_places;
    let mut decimal_places = f.decimal_places;
    let directive = p.file_format.captures(line);
    if directive.is_some() {
        integer_places = places_of(&directive, 1, 2);
        decimal_places = places_of(&directive, 2, 4);
    }
    Format { unit, integer_places, decimal_places, leading_zero }
}

/// Reads the plating class a header line marks.
fn read_hole_type(line: &[char]) -> (r: Option<HoleType>)
    ensures
        r == declared_hole_type(line@),
{
    let plated = to_chars("TYPE=PLATED");
    let non = to_chars("NON_PLATED");
    let non_plated = to_chars("TYPE=NON_PLATED");
    if contains(line, plated.as_slice()) && !contains(line, non.as_slice()) {
        Some(HoleType::Plated)
    } else if contains(line, non_plated.as_slice()) {
        Some(HoleType::NonPlated)
    } else {
        None
    }
}

/// Reads the header of a file whose lines are trimmed.
fn read_ad_header(p: &AdHeaderPatterns, lines: &Vec<Vec<char>>) -> (r: (Format, Vec<Tool>))
    requires
        p.wf(),
    ensures
        r.0 == ad_header(line_views(lines@)).format,
        r.1@ == ad_header(line_views(lines@)).tools,
        ascending(r.1@),
{
    let percent = to_chars("%");
    let mut format = Format {
        unit: DrillUnit::Metric,
        integer_places: 2,
        decimal_places: 4,
        leading_zero: true,
    };
    let mut hole_type = HoleType::Plated;
    let mut tools: Vec<Tool> = Vec::new();
    let mut in_header = true;
    let ghost all = line_views(lines@);
    let mut k: usize = 0;
    while k < lines.len()
        invariant
            k <= lines.len(),
            all == line_views(lines@),
            percent@ == "%"@,
            p.wf(),
            in_header == ad_header(all.take(k as int)).in_header,
            format == ad_header(all.take(k as int)).format,
            hole_type == ad_header(all.take(k as int)).hole_type,
            tools@ == ad_header(all.take(k as int)).tools,
            ascending(tools@),
        decreases lines.len() - k,
    {
        let line = lines[k].as_slice();
        proof {
            assert(all.take(k + 1).drop_last() == all.take(k as int));
            assert(all.take(k + 1).last() == line@);
        }
        if equal(line, percent.as_slice()) {
            in_header = false;
        } else if in_header {
            format = read_format_line(p, format, line);
            match read_hole_type(line) {
                Some(t) => {
                    hole_type = t;
                },
                None => {},
            }
            let declared = p.tool.captures(line);
            if declared.is_some() {
                let tool = Tool {
                    id: tool_number_of(&declared, 1),
                    diameter: diameter_of(&declared, 2, format.unit),
                    hole_type,
                };
                declare_tool(&mut tools, tool);
            }
        }
        k += 1;
    }
    proof {
        assert(all.take(all.len() as int) == all);
    }
    (format, tools)
}

/// Parses generic or Altium-style Excellon text into its drill program.
///
/// The header, up to the first `%` line, declares the unit, the zero
/// notation, the digit counts and the tools with their plating class. The
/// body gives each declared tool its holes and slots. The program has one
/// operation for each declared tool that has a command, in ascending order
/// of the tool numbers.
pub fn parse_ad_excellon(content: &str) -> (r: DrillFile)
    ensures
        r@ == ad_program(content@),
        forall|i: int| 0 <= i < r@.len() ==> (#[trigger] r@[i]).commands.len() > 0,
{
    let text = to_chars(content);
    let lines = split_trimmed(text.as_slice());
    let (format, tools) = read_ad_header(&AdHeaderPatterns::new(), &lines);
    let operations = run_body(&Grammar::new(), &lines, Notation::Fixed(format), &tools);
    proof {
        lemma_operations_not_empty(
            tools@,
            scan_body(line_views(lines@), Notation::Fixed(format), tools@).events,
        );
    }
    DrillFile { operations }
}

} // verus!
