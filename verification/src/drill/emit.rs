//! The canonical emitter: a drill program written as Excellon text in one
//! fixed dialect, metric, with five decimal places throughout.

use vstd::prelude::*;
use crate::drill::{DrillCommand, DrillFile, HoleType, Operation};
use crate::header::{drill_header_text, get_drill_header, is_generator_text};
use crate::number::{decimal_chars, decimal_digits, fixed_chars, fixed_digits, two_digits};
use crate::text::{extend_chars, extend_str, from_chars};

verus! {

/// A length of `magnitude` steps written in millimetres: the whole
/// millimetres, a point, and five decimal places.
pub open spec fn length_text(negative: bool, magnitude: nat) -> Seq<char> {
    (if negative {
        seq!['-']
    } else {
        Seq::empty()
    }) + decimal_digits(magnitude / 100_000) + seq!['.'] + fixed_digits(magnitude % 100_000, 5)
}

/// A coordinate written in millimetres.
pub open spec fn coordinate_text(v: i64) -> Seq<char> {
    if v < 0 {
        length_text(true, (-v) as nat)
    } else {
        length_text(false, v as nat)
    }
}

/// A diameter written in millimetres.
pub open spec fn diameter_text(d: u64) -> Seq<char> {
    length_text(false, d as nat)
}

/// The two header lines that declare tool `number`: a comment with its
/// size, and its definition.
pub open spec fn tool_line(number: nat, diameter: u64) -> Seq<char> {
    ";Hole size "@ + decimal_digits(number) + " = "@ + diameter_text(diameter) + " METRIC\n"@
        + "T"@ + two_digits(number) + "C"@ + diameter_text(diameter) + "\n"@
}

/// The declarations of all tools. The tools are numbered from 1 in the
/// order of the operations.
pub open spec fn tool_lines(ops: Seq<Operation>) -> Seq<char>
    decreases ops.len(),
{
    if ops.len() == 0 {
        Seq::empty()
    } else {
        tool_lines(ops.drop_last()) + tool_line(ops.len(), ops.last().diameter)
    }
}

/// The line of one command: a hole as `X<x>Y<y>`, a slot as
/// `X<x>Y<y>G85X<x>Y<y>` from its start to its end.
pub open spec fn command_line(c: DrillCommand) -> Seq<char> {
    match c {
        DrillCommand::Hole { x, y } => "X"@ + coordinate_text(x) + "Y"@ + coordinate_text(y)
            + "\n"@,
        DrillCommand::Slot { start_x, start_y, end_x, end_y } => "X"@ + coordinate_text(start_x)
            + "Y"@ + coordinate_text(start_y) + "G85X"@ + coordinate_text(end_x) + "Y"@
            + coordinate_text(end_y) + "\n"@,
    }
}

/// The lines of a sequence of commands.
pub open spec fn command_lines(commands: Seq<DrillCommand>) -> Seq<char>
    decreases commands.len(),
{
    if commands.len() == 0 {
        Seq::empty()
    } else {
        command_lines(commands.drop_last()) + command_line(commands.last())
    }
}

/// The body block of tool `number`: its selection and its commands.
pub open spec fn tool_block(number: nat, commands: Seq<DrillCommand>) -> Seq<char> {
    "T"@ + two_digits(number) + "\n"@ + command_lines(commands)
}

/// The body blocks of all tools.
pub open spec fn tool_blocks(ops: Seq<Operation>) -> Seq<char>
    decreases ops.len(),
{
    if ops.len() == 0 {
        Seq::empty()
    } else {
        tool_blocks(ops.drop_last()) + tool_block(ops.len(), ops.last().commands)
    }
}

/// The canonical text of a program behind a given header block.
pub open spec fn excellon_text(header: Seq<char>, ops: Seq<Operation>) -> Seq<char> {
    header + "M48\n"@ + "METRIC,LZ,0000.00000\n"@ + tool_lines(ops) + "%\n"@ + "G05\n"@ + "G90\n"@
        + tool_blocks(ops) + "M30\n"@
}

/// Writes a length.
fn length_chars(negative: bool, magnitude: u64) -> (r: Vec<char>)
    ensures
        r@ == length_text(negative, magnitude as nat),
{
    let mut r: Vec<char> = Vec::new();
    if negative {
        r.push('-');
    }
    assert(r@ =~= if negative {
        seq!['-']
    } else {
        Seq::empty()
    });
    let whole = decimal_chars(magnitude / 100_000);
    extend_chars(&mut r, whole.as_slice());
    r.push('.');
    let ghost with_point = r@;
    let part = fixed_chars(magnitude % 100_000, 5);
    extend_chars(&mut r, part.as_slice());
    proof {
        let sign = if negative {
            seq!['-']
        } else {
            Seq::<char>::empty()
        };
        assert(with_point =~= sign + decimal_digits((magnitude / 100_000) as nat) + seq!['.']);
    }
    r
}

/// Writes a coordinate.
pub fn coordinate_chars(v: i64) -> (r: Vec<char>)
    ensures
        r@ == coordinate_text(v),
{
    if v < 0 {
        let m: u64 = ((-(v + 1)) as u64) + 1;
        length_chars(true, m)
    } else {
        length_chars(false, v as u64)
    }
}

/// Writes the number of a tool with at least two digits.
fn tool_number_chars(number: u64) -> (r: Vec<char>)
    ensures
        r@ == two_digits(number as nat),
{
    if number < 10 {
        let mut r: Vec<char> = Vec::new();
        r.push('0');
        let d = decimal_chars(number);
        extend_chars(&mut r, d.as_slice());
        proof {
            reveal_with_fuel(decimal_digits, 1);
            assert(r@ =~= two_digits(number as nat));
        }
        r
    } else {
        decimal_chars(number)
    }
}

/// Writes the declaration of one tool.
fn tool_line_chars(number: u64, diameter: u64) -> (r: Vec<char>)
    ensures
        r@ == tool_line(number as nat, diameter),
{
    let size = length_chars(false, diameter);
    let mut r: Vec<char> = Vec::new();
    extend_str(&mut r, ";Hole size ");
    assert(r@ =~= ";Hole size "@);
    let n = decimal_chars(number);
    extend_chars(&mut r, n.as_slice());
    extend_str(&mut r, " = ");
    extend_chars(&mut r, size.as_slice());
    extend_str(&mut r, " METRIC\n");
    extend_str(&mut r, "T");
    let nn = tool_number_chars(number);
    extend_chars(&mut r, nn.as_slice());
    extend_str(&mut r, "C");
    extend_chars(&mut r, size.as_slice());
    extend_str(&mut r, "\n");
    r
}

/// Writes the line of one command.
fn command_line_chars(c: &DrillCommand) -> (r: Vec<char>)
    ensures
        r@ == command_line(*c),
{
    let mut r: Vec<char> = Vec::new();
    match c {
        DrillCommand::Hole { x, y } => {
            extend_str(&mut r, "X");
            assert(r@ =~= "X"@);
            let cx = coordinate_chars(*x);
            extend_chars(&mut r, cx.as_slice());
            extend_str(&mut r, "Y");
            let cy = coordinate_chars(*y);
            extend_chars(&mut r, cy.as_slice());
            extend_str(&mut r, "\n");
        },
        DrillCommand::Slot { start_x, start_y, end_x, end_y } => {
            extend_str(&mut r, "X");
            assert(r@ =~= "X"@);
            let sx = coordinate_chars(*start_x);
            extend_chars(&mut r, sx.as_slice());
            extend_str(&mut r, "Y");
            let sy = coordinate_chars(*start_y);
            extend_chars(&mut r, sy.as_slice());
            extend_str(&mut r, "G85X");
            let ex = coordinate_chars(*end_x);
            extend_chars(&mut r, ex.as_slice());
            extend_str(&mut r, "Y");
            let ey = coordinate_chars(*end_y);
            extend_chars(&mut r, ey.as_slice());
            extend_str(&mut r, "\n");
        },
    }
    r
}

/// Writes the body block of one tool.
fn tool_block_chars(number: u64, commands: &Vec<DrillCommand>) -> (r: Vec<char>)
    ensures
        r@ == tool_block(number as nat, commands@),
{
    let mut lines: Vec<char> = Vec::new();
    let mut k: usize = 0;
    while k < commands.len()
        invariant
            k <= commands.len(),
            lines@ == command_lines(commands@.take(k as int)),
        decreases commands.len() - k,
    {
        let line = command_line_chars(&commands[k]);
        proof {
            assert(commands@.take(k + 1).drop_last() == commands@.take(k as int));
        }
        extend_chars(&mut lines, line.as_slice());
        k += 1;
    }
    proof {
        assert(commands@.take(commands@.len() as int) == commands@);
    }
    let mut r: Vec<char> = Vec::new();
    extend_str(&mut r, "T");
    assert(r@ =~= "T"@);
    let nn = tool_number_chars(number);
    extend_chars(&mut r, nn.as_slice());
    extend_str(&mut r, "\n");
    extend_chars(&mut r, lines.as_slice());
    r
}

/// Writes a program in the canonical dialect behind the given header
/// block, which is copied as it is.
///
/// After the header block come `M48`, the format line, for each operation a
/// size comment and a tool definition, then `%`, `G05`, `G90`, for each
/// operation its tool selection and its commands, and `M30`. Tools are
/// numbered from 1 in the order of the operations. Every length has five
/// decimal places.
pub fn generate_jlc_excellon_with_header(drill: &DrillFile, header: &str) -> (r: String)
    ensures
        r@ == excellon_text(header@, drill@),
{
    let ops = &drill.operations;
    let ghost views = drill@;
    let mut declarations: Vec<char> = Vec::new();
    let mut blocks: Vec<char> = Vec::new();
    let mut i: usize = 0;
    while i < ops.len()
        invariant
            i <= ops.len(),
            ops == &drill.operations,
            views == drill@,
            declarations@ == tool_lines(views.take(i as int)),
            blocks@ == tool_blocks(views.take(i as int)),
        decreases ops.len() - i,
    {
        let op = &ops[i];
        proof {
            assert(views.take(i + 1).drop_last() == views.take(i as int));
            assert(views.take(i + 1).last() == op@);
        }
        let number: u64 = (i + 1) as u64;
        let declaration = tool_line_chars(number, op.diameter);
        extend_chars(&mut declarations, declaration.as_slice());
        let block = tool_block_chars(number, &op.commands);
        extend_chars(&mut blocks, block.as_slice());
        i += 1;
    }
    proof {
        assert(views.take(views.len() as int) == views);
    }
    let mut out: Vec<char> = Vec::new();
    extend_str(&mut out, header);
    assert(out@ =~= header@);
    extend_str(&mut out, "M48\n");
    extend_str(&mut out, "METRIC,LZ,0000.00000\n");
    extend_chars(&mut out, declarations.as_slice());
    extend_str(&mut out, "%\n");
    extend_str(&mut out, "G05\n");
    extend_str(&mut out, "G90\n");
    extend_chars(&mut out, blocks.as_slice());
    extend_str(&mut out, "M30\n");
    from_chars(out.as_slice())
}

/// The plating label of a header block.
pub open spec fn type_label(t: HoleType) -> Seq<char> {
    match t {
        HoleType::Plated => "PLATED"@,
        HoleType::NonPlated => "NON_PLATED"@,
    }
}

/// The layer name of a header block.
pub open spec fn layer_name(t: HoleType) -> Seq<char> {
    match t {
        HoleType::Plated => "PTH_Through"@,
        HoleType::NonPlated => "NPTH_Through"@,
    }
}

/// `h` is a header block for the plating class `t`: it carries the label
/// and the layer name of the class, and names some generator.
pub open spec fn is_drill_header(h: Seq<char>, t: HoleType) -> bool {
    exists|generator: Seq<char>|
        is_generator_text(generator) && h == #[trigger] drill_header_text(
            type_label(t),
            layer_name(t),
            generator,
        )
}

/// A fresh header block for a plating class.
pub fn drill_header_for(t: HoleType) -> (r: String)
    ensures
        is_drill_header(r@, t),
{
    let r = match t {
        HoleType::Plated => get_drill_header("PLATED", "PTH_Through"),
        HoleType::NonPlated => get_drill_header("NON_PLATED", "NPTH_Through"),
    };
    proof {
        let g = choose|g: Seq<char>|
            is_generator_text(g) && r@ == #[trigger] drill_header_text(
                type_label(t),
                layer_name(t),
                g,
            );
        assert(is_generator_text(g) && r@ == drill_header_text(type_label(t), layer_name(t), g));
    }
    r
}

/// Writes a program in the canonical dialect, behind a fresh header block
/// for its plating class.
pub fn generate_jlc_excellon(drill: &DrillFile, hole_type: HoleType) -> (r: String)
    ensures
        exists|header: Seq<char>|
            is_drill_header(header, hole_type) && r@ == #[trigger] excellon_text(header, drill@),
{
    let header = drill_header_for(hole_type);
    let r = generate_jlc_excellon_with_header(drill, header.as_str());
    assert(is_drill_header(header@, hole_type) && r@ == excellon_text(header@, drill@));
    r
}

} // verus!
