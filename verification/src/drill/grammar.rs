//! The line grammar of Excellon text: the patterns of its lines, and what a
//! body line commands.

use vstd::prelude::*;
use crate::drill::coordinate::{
    decimal_length, decode_coordinate, decode_decimal, decode_token,
};
use crate::drill::DrillUnit;
use crate::matcher::{found, group, group_at, groups_view, Groups, Matcher};
use crate::number::{parse_u32, read_u32};
use crate::text::{equal, to_chars};

verus! {

/// The coordinate notation a header declares.
#[derive(Debug, Clone, Copy)]
pub struct Format {
    pub unit: DrillUnit,
    /// Digits before the implied decimal point.
    pub integer_places: u32,
    /// Digits after the implied decimal point.
    pub decimal_places: u32,
    /// Leading-zero notation; trailing-zero notation otherwise.
    pub leading_zero: bool,
}

/// How the coordinate tokens of a body are read.
#[derive(Debug, Clone, Copy)]
pub enum Notation {
    /// Plain decimal millimetres.
    Plain,
    /// Fixed-point tokens of a declared format.
    Fixed(Format),
}

/// The axis words of a line, decoded; an axis the line does not name is
/// `None`.
#[derive(Debug, Clone, Copy)]
pub struct Move {
    pub x: Option<i64>,
    pub y: Option<i64>,
}

/// What a body line commands.
#[derive(Debug, Clone, Copy)]
pub enum BodyLine {
    /// Select the tool of a number.
    Select(u32),
    /// Move without cutting.
    Rapid(Move),
    /// Lower the tool: routing begins.
    Plunge,
    /// Move while cutting.
    Linear(Move),
    /// Raise the tool: routing ends.
    Retract,
    /// A drill position that names at least one axis.
    Point(Move),
    /// Anything else: comments, blank lines, commands of no concern.
    Other,
}

/// A tool selection: `T<digits>` and nothing else. Group 1 is the number.
pub open spec fn tool_select_pattern() -> Seq<char> {
    "^T(\\d+)$"@
}

/// A rapid move: `G00`, then an optional X word and an optional Y word.
/// Groups 1 and 2 are their tokens.
pub open spec fn rapid_pattern() -> Seq<char> {
    "^G00(?:X([\\d.-]+))?(?:Y([\\d.-]+))?"@
}

/// A linear move: `G01`, then an optional X word and an optional Y word.
pub open spec fn linear_pattern() -> Seq<char> {
    "^G01(?:X([\\d.-]+))?(?:Y([\\d.-]+))?"@
}

/// A drill position: an optional X word and an optional Y word, and nothing
/// else.
pub open spec fn point_pattern() -> Seq<char> {
    "^(?:X([\\d.-]+))?(?:Y([\\d.-]+))?$"@
}

/// An Altium tool declaration at the start of a line:
/// `T<id>F<feed>S<speed>C<diameter>`. Group 1 is the number, group 2 the
/// diameter.
pub open spec fn ad_tool_pattern() -> Seq<char> {
    "^T(\\d+)F\\d+S\\d+C([\\d.]+)"@
}

/// A KiCad tool declaration at the start of a line: `T<id>C<diameter>`.
pub open spec fn kicad_tool_pattern() -> Seq<char> {
    "^T(\\d+)C([\\d.]+)"@
}

/// The directive of the digit counts, anywhere in a line:
/// `FILE_FORMAT=<integer places>:<decimal places>`.
pub open spec fn file_format_pattern() -> Seq<char> {
    "FILE_FORMAT=(\\d+):(\\d+)"@
}

/// The patterns of the body lines, ready for use.
pub struct Grammar {
    pub tool_select: Matcher,
    pub rapid: Matcher,
    pub linear: Matcher,
    pub point: Matcher,
}

impl Grammar {
    /// Each pattern is the one of its name.
    pub open spec fn wf(&self) -> bool {
        &&& self.tool_select@ == tool_select_pattern()
        &&& self.rapid@ == rapid_pattern()
        &&& self.linear@ == linear_pattern()
        &&& self.point@ == point_pattern()
    }

    /// Makes the patterns of the body lines ready for use.
    pub fn new() -> (r: Grammar)
        ensures
            r.wf(),
    {
        Grammar {
            tool_select: Matcher::new("^T(\\d+)$"),
            rapid: Matcher::new("^G00(?:X([\\d.-]+))?(?:Y([\\d.-]+))?"),
            linear: Matcher::new("^G01(?:X([\\d.-]+))?(?:Y([\\d.-]+))?"),
            point: Matcher::new("^(?:X([\\d.-]+))?(?:Y([\\d.-]+))?$"),
        }
    }
}

/// What a coordinate token stands for under a notation.
pub open spec fn decode_with(n: Notation, token: Seq<char>) -> i64 {
    match n {
        Notation::Plain => decode_decimal(token, DrillUnit::Metric),
        Notation::Fixed(f) => decode_coordinate(
            token,
            f.integer_places,
            f.decimal_places,
            f.leading_zero,
            f.unit,
        ),
    }
}

/// The decoded token of group `i` of a match, where the group took part.
pub open spec fn axis_value(groups: Option<Seq<Option<Seq<char>>>>, i: int, n: Notation) -> Option<
    i64,
> {
    match group_at(groups, i) {
        Some(token) => Some(decode_with(n, token)),
        None => None,
    }
}

/// The axis words of a match: group 1 is the X token, group 2 the Y token.
pub open spec fn read_move(groups: Option<Seq<Option<Seq<char>>>>, n: Notation) -> Move {
    Move { x: axis_value(groups, 1, n), y: axis_value(groups, 2, n) }
}

/// The number a digit string names as a tool; 0 where it names none that
/// fits.
pub open spec fn tool_number(digits: Seq<char>) -> u32 {
    match read_u32(digits) {
        Some(n) => n,
        None => 0,
    }
}

/// The tool number in group `i` of a match; 0 where the group took no part.
pub open spec fn tool_number_at(groups: Option<Seq<Option<Seq<char>>>>, i: int) -> u32 {
    match group_at(groups, i) {
        Some(digits) => tool_number(digits),
        None => 0,
    }
}

/// What a trimmed body line commands. The kinds of line are tried in this
/// order: blank or comment, tool selection, rapid move, `M15`, linear move,
/// `M16`, drill position.
pub open spec fn read_body_line(line: Seq<char>, n: Notation) -> BodyLine {
    if line.len() == 0 || line[0] == ';' {
        BodyLine::Other
    } else if found(tool_select_pattern(), line).is_some() {
        BodyLine::Select(tool_number_at(found(tool_select_pattern(), line), 1))
    } else if found(rapid_pattern(), line).is_some() {
        BodyLine::Rapid(read_move(found(rapid_pattern(), line), n))
    } else if line == "M15"@ {
        BodyLine::Plunge
    } else if found(linear_pattern(), line).is_some() {
        BodyLine::Linear(read_move(found(linear_pattern(), line), n))
    } else if line == "M16"@ {
        BodyLine::Retract
    } else if group_at(found(point_pattern(), line), 1).is_some() || group_at(
        found(point_pattern(), line),
        2,
    ).is_some() {
        BodyLine::Point(read_move(found(point_pattern(), line), n))
    } else {
        BodyLine::Other
    }
}

/// Decodes a coordinate token under a notation.
pub fn decode_under(n: Notation, token: &[char]) -> (r: i64)
    ensures
        r == decode_with(n, token@),
{
    match n {
        Notation::Plain => decimal_length(token, DrillUnit::Metric),
        Notation::Fixed(f) => decode_token(
            token,
            f.integer_places,
            f.decimal_places,
            f.leading_zero,
            f.unit,
        ),
    }
}

/// Decodes the token of group `i` of a match.
fn axis(groups: &Groups, i: usize, n: Notation) -> (r: Option<i64>)
    ensures
        r == axis_value(groups_view(*groups), i as int, n),
{
    match group(groups, i) {
        Some(token) => Some(decode_under(n, token.as_slice())),
        None => None,
    }
}

/// Decodes the axis words of a match.
pub fn move_of(groups: &Groups, n: Notation) -> (r: Move)
    ensures
        r == read_move(groups_view(*groups), n),
{
    Move { x: axis(groups, 1, n), y: axis(groups, 2, n) }
}

/// The number a digit string names as a tool.
pub fn parse_tool_number(digits: &[char]) -> (r: u32)
    ensures
        r == tool_number(digits@),
{
    match parse_u32(digits) {
        Some(n) => n,
        None => 0,
    }
}

/// The tool number in group `i` of a match.
pub fn tool_number_of(groups: &Groups, i: usize) -> (r: u32)
    ensures
        r == tool_number_at(groups_view(*groups), i as int),
{
    match group(groups, i) {
        Some(digits) => parse_tool_number(digits.as_slice()),
        None => 0,
    }
}

/// Classifies a trimmed body line.
pub fn classify_body_line(grammar: &Grammar, line: &[char], n: Notation) -> (r: BodyLine)
    requires
        grammar.wf(),
    ensures
        r == read_body_line(line@, n),
{
    if line.len() == 0 || line[0] == ';' {
        return BodyLine::Other;
    }
    let selected = grammar.tool_select.captures(line);
    if selected.is_some() {
        return BodyLine::Select(tool_number_of(&selected, 1));
    }
    let rapid = grammar.rapid.captures(line);
    if rapid.is_some() {
        return BodyLine::Rapid(move_of(&rapid, n));
    }
    if equal(line, to_chars("M15").as_slice()) {
        return BodyLine::Plunge;
    }
    let linear = grammar.linear.captures(line);
    if linear.is_some() {
        return BodyLine::Linear(move_of(&linear, n));
    }
    if equal(line, to_chars("M16").as_slice()) {
        return BodyLine::Retract;
    }
    let point = grammar.point.captures(line);
    if group(&point, 1).is_some() || group(&point, 2).is_some() {
        BodyLine::Point(move_of(&point, n))
    } else {
        BodyLine::Other
    }
}

} // verus!
