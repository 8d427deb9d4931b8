//! The body of a drill file: a forward scan over its lines that follows the
//! selected tool, the cursor and the routing flag, and gives each command to
//! the tool that carries it out.

use vstd::prelude::*;
use crate::drill::grammar::{
    classify_body_line, read_body_line, BodyLine, Grammar, Move, Notation,
};
use crate::drill::tools::{ascending, find_tool, has_tool, Tool};
use crate::drill::{operation_views, DrillCommand, DrillOperation, Operation};
use crate::lines::line_views;
use crate::text::{equal, to_chars};

verus! {

/// The state of the machine between two body lines.
#[derive(Debug, Clone, Copy)]
pub struct Tracker {
    /// The selected tool, once a declared tool has been selected.
    pub tool: Option<u32>,
    /// Whether the tool is down and cutting.
    pub routing: bool,
    /// The cursor.
    pub x: i64,
    pub y: i64,
}

/// The state before the first body line: no tool, tool up, cursor at the
/// origin.
pub open spec fn tracker_start() -> Tracker {
    Tracker { tool: None, routing: false, x: 0, y: 0 }
}

/// The state with the cursor moved along the axes that `m` names.
pub open spec fn moved(t: Tracker, m: Move) -> Tracker {
    Tracker {
        x: match m.x {
            Some(x) => x,
            None => t.x,
        },
        y: match m.y {
            Some(y) => y,
            None => t.y,
        },
        ..t
    }
}

/// The state after a body line.
///
/// A tool selection takes effect if the tool is declared. A rapid move sets
/// the cursor. While routing, a linear move advances the cursor. While not
/// routing, a drill position advances the cursor if a tool is selected.
pub open spec fn next_tracker(t: Tracker, line: BodyLine, tools: Seq<Tool>) -> Tracker {
    match line {
        BodyLine::Select(id) => if has_tool(tools, id) {
            Tracker { tool: Some(id), ..t }
        } else {
            t
        },
        BodyLine::Rapid(m) => moved(t, m),
        BodyLine::Plunge => Tracker { routing: true, ..t },
        BodyLine::Linear(m) => if t.routing {
            moved(t, m)
        } else {
            t
        },
        BodyLine::Retract => Tracker { routing: false, ..t },
        BodyLine::Point(m) => if !t.routing && t.tool.is_some() {
            moved(t, m)
        } else {
            t
        },
        BodyLine::Other => t,
    }
}

/// The command a body line gives, with the number of the tool it is for.
///
/// While routing, a linear move is a slot from the cursor to where the move
/// ends. While not routing, a drill position is a hole where the cursor
/// then stands. Without a selected tool there is no command.
pub open spec fn command_of(t: Tracker, line: BodyLine) -> Option<(u32, DrillCommand)> {
    match (line, t.tool) {
        (BodyLine::Linear(m), Some(id)) => if t.routing {
            Some(
                (
                    id,
                    DrillCommand::Slot {
                        start_x: t.x,
                        start_y: t.y,
                        end_x: moved(t, m).x,
                        end_y: moved(t, m).y,
                    },
                ),
            )
        } else {
            None
        },
        (BodyLine::Point(m), Some(id)) => if !t.routing {
            Some((id, DrillCommand::Hole { x: moved(t, m).x, y: moved(t, m).y }))
        } else {
            None
        },
        _ => None,
    }
}

/// A rapid move, a plunge, a linear move and a retract, with a tool
/// selected, give exactly one command: a slot from where the rapid move
/// ends to where the linear move ends. The tool is up afterwards.
pub proof fn lemma_route_gives_one_slot(t: Tracker, from: Move, to: Move, tools: Seq<Tool>)
    requires
        t.tool.is_some(),
    ensures
        ({
            let t1 = next_tracker(t, BodyLine::Rapid(from), tools);
            let t2 = next_tracker(t1, BodyLine::Plunge, tools);
            let t3 = next_tracker(t2, BodyLine::Linear(to), tools);
            let t4 = next_tracker(t3, BodyLine::Retract, tools);
            &&& command_of(t, BodyLine::Rapid(from)).is_none()
            &&& command_of(t1, BodyLine::Plunge).is_none()
            &&& command_of(t2, BodyLine::Linear(to)) == Some(
                (
                    t.tool.unwrap(),
                    DrillCommand::Slot {
                        start_x: moved(t, from).x,
                        start_y: moved(t, from).y,
                        end_x: moved(moved(t, from), to).x,
                        end_y: moved(moved(t, from), to).y,
                    },
                ),
            )
            &&& command_of(t3, BodyLine::Retract).is_none()
            &&& !t4.routing
            &&& t4.tool == t.tool
        }),
{
}

/// Carries out one body line.
pub fn advance(t: Tracker, line: BodyLine, tools: &Vec<Tool>) -> (r: (
    Tracker,
    Option<(u32, DrillCommand)>,
))
    ensures
        r.0 == next_tracker(t, line, tools@),
        r.1 == command_of(t, line),
{
    match line {
        BodyLine::Select(id) => {
            if find_tool(tools, id).is_some() {
                (Tracker { tool: Some(id), routing: t.routing, x: t.x, y: t.y }, None)
            } else {
                (t, None)
            }
        },
        BodyLine::Rapid(m) => (shift(t, m), None),
        BodyLine::Plunge => (Tracker { tool: t.tool, routing: true, x: t.x, y: t.y }, None),
        BodyLine::Linear(m) => {
            if t.routing {
                let to = shift(t, m);
                let command = match t.tool {
                    Some(id) => Some(
                        (
                            id,
                            DrillCommand::Slot {
                                start_x: t.x,
                                start_y: t.y,
                                end_x: to.x,
                                end_y: to.y,
                            },
                        ),
                    ),
                    None => None,
                };
                (to, command)
            } else {
                (t, None)
            }
        },
        BodyLine::Retract => (Tracker { tool: t.tool, routing: false, x: t.x, y: t.y }, None),
        BodyLine::Point(m) => {
            match t.tool {
                Some(id) => if !t.routing {
                    let to = shift(t, m);
                    (to, Some((id, DrillCommand::Hole { x: to.x, y: to.y })))
                } else {
                    (t, None)
                },
                None => (t, None),
            }
        },
        BodyLine::Other => (t, None),
    }
}

/// Moves the cursor along the axes that `m` names.
fn shift(t: Tracker, m: Move) -> (r: Tracker)
    ensures
        r == moved(t, m),
{
    Tracker {
        tool: t.tool,
        routing: t.routing,
        x: match m.x {
            Some(x) => x,
            None => t.x,
        },
        y: match m.y {
            Some(y) => y,
            None => t.y,
        },
    }
}

/// Where a scan over the lines of a file stands.
pub struct Scan {
    /// No `%` line has been met yet.
    pub in_header: bool,
    pub tracker: Tracker,
    /// The commands given so far, each with the number of its tool.
    pub events: Seq<(u32, DrillCommand)>,
}

/// The scan after one more trimmed line. The first `%` line ends the
/// header; header lines and `%` lines give no command.
pub open spec fn scan_step(s: Scan, line: Seq<char>, n: Notation, tools: Seq<Tool>) -> Scan {
    if line == "%"@ {
        Scan { in_header: false, ..s }
    } else if s.in_header {
        s
    } else {
        let b = read_body_line(line, n);
        Scan {
            in_header: false,
            tracker: next_tracker(s.tracker, b, tools),
            events: match command_of(s.tracker, b) {
                Some(e) => s.events.push(e),
                None => s.events,
            },
        }
    }
}

/// The scan after all of `lines`.
pub open spec fn scan_body(lines: Seq<Seq<char>>, n: Notation, tools: Seq<Tool>) -> Scan
    decreases lines.len(),
{
    if lines.len() == 0 {
        Scan { in_header: true, tracker: tracker_start(), events: Seq::empty() }
    } else {
        scan_step(scan_body(lines.drop_last(), n, tools), lines.last(), n, tools)
    }
}

/// The commands among `events` that are for the tool numbered `id`, in
/// order.
pub open spec fn commands_for(events: Seq<(u32, DrillCommand)>, id: u32) -> Seq<DrillCommand>
    decreases events.len(),
{
    if events.len() == 0 {
        Seq::empty()
    } else {
        let before = commands_for(events.drop_last(), id);
        if events.last().0 == id {
            before.push(events.last().1)
        } else {
            before
        }
    }
}

/// The program of a file: for each declared tool that has a command, in
/// table order, one operation with the tool's commands.
pub open spec fn operations_of(tools: Seq<Tool>, events: Seq<(u32, DrillCommand)>) -> Seq<
    Operation,
>
    decreases tools.len(),
{
    if tools.len() == 0 {
        Seq::empty()
    } else {
        let before = operations_of(tools.drop_last(), events);
        let t = tools.last();
        let commands = commands_for(events, t.id);
        if commands.len() > 0 {
            before.push(Operation { diameter: t.diameter, hole_type: t.hole_type, commands })
        } else {
            before
        }
    }
}

/// No operation of a program is without commands.
pub proof fn lemma_operations_not_empty(tools: Seq<Tool>, events: Seq<(u32, DrillCommand)>)
    ensures
        forall|i: int|
            0 <= i < operations_of(tools, events).len() ==> (#[trigger] operations_of(
                tools,
                events,
            )[i]).commands.len() > 0,
    decreases tools.len(),
{
    if tools.len() > 0 {
        lemma_operations_not_empty(tools.drop_last(), events);
    }
}

/// A command for one tool is appended to that tool's commands and to no
/// other's.
pub proof fn lemma_commands_for_push(events: Seq<(u32, DrillCommand)>, e: (u32, DrillCommand), id: u32)
    ensures
        commands_for(events.push(e), id) == if e.0 == id {
            commands_for(events, id).push(e.1)
        } else {
            commands_for(events, id)
        },
{
    assert(events.push(e).drop_last() == events);
}

/// The tool a scan has selected is a declared one.
pub proof fn lemma_selected_tool_declared(lines: Seq<Seq<char>>, n: Notation, tools: Seq<Tool>)
    ensures
        scan_body(lines, n, tools).tracker.tool matches Some(id) ==> has_tool(tools, id),
    decreases lines.len(),
{
    if lines.len() > 0 {
        lemma_selected_tool_declared(lines.drop_last(), n, tools);
    }
}

/// The operations of the first `count` tools, given each tool's commands.
fn collect_operations(tools: &Vec<Tool>, slots: Vec<Vec<DrillCommand>>, Ghost(events): Ghost<
    Seq<(u32, DrillCommand)>,
>) -> (r: Vec<DrillOperation>)
    requires
        slots.len() == tools.len(),
        forall|i: int|
            0 <= i < slots.len() ==> (#[trigger] slots@[i])@ == commands_for(events, tools@[i].id),
    ensures
        operation_views(r@) == operations_of(tools@, events),
{
    let mut ops: Vec<DrillOperation> = Vec::new();
    let ghost given = slots@;
    let mut i: usize = 0;
    for slot in it: slots
        invariant
            it.seq() == given,
            i == it.index(),
            given.len() == tools.len(),
            forall|j: int|
                0 <= j < given.len() ==> (#[trigger] given[j])@ == commands_for(
                    events,
                    tools@[j].id,
                ),
            operation_views(ops@) == operations_of(tools@.take(i as int), events),
    {
        let tool = tools[i];
        proof {
            assert(tools@.take(i + 1).drop_last() == tools@.take(i as int));
            assert(slot == given[i as int]);
        }
        if slot.len() > 0 {
            let ghost before = ops@;
            ops.push(DrillOperation { diameter: tool.diameter, hole_type: tool.hole_type, commands: slot });
            proof {
                assert(operation_views(ops@) =~= operation_views(before).push(ops@.last()@));
            }
        }
        i += 1;
    }
    proof {
        assert(tools@.take(tools@.len() as int) == tools@);
    }
    ops
}

/// Scans the body of a file whose lines are trimmed, and gives its program.
pub fn run_body(grammar: &Grammar, lines: &Vec<Vec<char>>, n: Notation, tools: &Vec<Tool>) -> (r:
    Vec<DrillOperation>)
    requires
        grammar.wf(),
        ascending(tools@),
    ensures
        operation_views(r@) == operations_of(
            tools@,
            scan_body(line_views(lines@), n, tools@).events,
        ),
{
    let percent = to_chars("%");
    let mut slots: Vec<Vec<DrillCommand>> = Vec::new();
    while slots.len() < tools.len()
        invariant
            slots.len() <= tools.len(),
            forall|i: int| 0 <= i < slots.len() ==> (#[trigger] slots@[i])@.len() == 0,
        decreases tools.len() - slots.len(),
    {
        slots.push(Vec::new());
    }
    let mut in_header = true;
    let mut t = Tracker { tool: None, routing: false, x: 0, y: 0 };
    let ghost all = line_views(lines@);
    let ghost mut scan = scan_body(all.take(0), n, tools@);
    let mut k: usize = 0;
    while k < lines.len()
        invariant
            k <= lines.len(),
            all == line_views(lines@),
            percent@ == "%"@,
            grammar.wf(),
            ascending(tools@),
            scan == scan_body(all.take(k as int), n, tools@),
            scan.in_header == in_header,
            scan.tracker == t,
            slots.len() == tools.len(),
            forall|i: int|
                0 <= i < slots.len() ==> (#[trigger] slots@[i])@ == commands_for(
                    scan.events,
                    tools@[i].id,
                ),
        decreases lines.len() - k,
    {
        let line = lines[k].as_slice();
        let ghost before = scan;
        proof {
            assert(all.take(k + 1).drop_last() == all.take(k as int));
            assert(all.take(k + 1).last() == line@);
            lemma_selected_tool_declared(all.take(k as int), n, tools@);
            scan = scan_step(before, line@, n, tools@);
        }
        if equal(line, percent.as_slice()) {
            in_header = false;
        } else if !in_header {
            let (next, command) = advance(t, classify_body_line(grammar, line, n), tools);
            t = next;
            match command {
                Some((id, c)) => {
                    let ghost held = slots@;
                    match find_tool(tools, id) {
                        Some(i) => {
                            let slot = &mut slots[i];
                            slot.push(c);
                            proof {
                                assert forall|j: int| 0 <= j < slots.len() implies (
                                #[trigger] slots@[j])@ == commands_for(
                                    scan.events,
                                    tools@[j].id,
                                ) by {
                                    lemma_commands_for_push(before.events, (id, c), tools@[j].id);
                                    if j != i {
                                        assert(slots@[j] == held[j]);
                                        if j < i {
                                            assert(tools@[j].id < tools@[i as int].id);
                                        } else {
                                            assert(tools@[i as int].id < tools@[j].id);
                                        }
                                    } else {
                                        assert(held[j]@ == commands_for(before.events, id));
                                    }
                                }
                            }
                        },
                        None => {},
                    }
                },
                None => {},
            }
        }
        k += 1;
    }
    proof {
        assert(all.take(all.len() as int) == all);
    }
    collect_operations(tools, slots, Ghost(scan.events))
}

} // verus!
