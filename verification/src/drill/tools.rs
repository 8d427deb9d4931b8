//! The tool table of a drill file: the declared tools, in ascending order of
//! their numbers, each number once.

use vstd::prelude::*;
use crate::drill::HoleType;

verus! {

/// A tool as a header declares it.
#[derive(Debug, Clone, Copy)]
pub struct Tool {
    /// The number the file gives the tool.
    pub id: u32,
    /// Diameter in steps of 10⁻⁵ mm.
    pub diameter: u64,
    pub hole_type: HoleType,
}

/// The table after `t` is declared: `t` takes the place of an earlier tool
/// of the same number, or stands before the first tool of a higher number.
pub open spec fn insert_tool(table: Seq<Tool>, t: Tool) -> Seq<Tool>
    decreases table.len(),
{
    if table.len() == 0 {
        seq![t]
    } else if table.last().id < t.id {
        table.push(t)
    } else if table.last().id == t.id {
        table.drop_last().push(t)
    } else {
        insert_tool(table.drop_last(), t).push(table.last())
    }
}

/// The tool numbers ascend strictly.
pub open spec fn ascending(table: Seq<Tool>) -> bool {
    forall|i: int, j: int| 0 <= i < j < table.len() ==> table[i].id < table[j].id
}

/// The table declares a tool numbered `id`.
pub open spec fn has_tool(table: Seq<Tool>, id: u32) -> bool {
    exists|i: int| 0 <= i < table.len() && #[trigger] table[i].id == id
}

/// What declaring a tool does to a table, seen from the place `at` where it
/// goes: the tools before `at` have lower numbers, those from `at` on have
/// numbers that are not lower.
pub proof fn lemma_insert_tool_at(table: Seq<Tool>, t: Tool, at: int)
    requires
        0 <= at <= table.len(),
        forall|k: int| 0 <= k < at ==> (#[trigger] table[k]).id < t.id,
        forall|k: int| at < k < table.len() ==> (#[trigger] table[k]).id > t.id,
        at < table.len() ==> table[at].id >= t.id,
    ensures
        at < table.len() && table[at].id == t.id ==> insert_tool(table, t) == table.update(at, t),
        at == table.len() || table[at].id > t.id ==> insert_tool(table, t) == table.insert(at, t),
    decreases table.len(),
{
    if table.len() == 0 {
        assert(seq![t] =~= table.insert(0, t));
    } else if at == table.len() {
        assert(table.push(t) =~= table.insert(at, t));
    } else if at == table.len() - 1 {
        if table[at].id == t.id {
            assert(table.drop_last().push(t) =~= table.update(at, t));
        } else {
            let head = table.drop_last();
            lemma_insert_tool_at(head, t, at);
            assert(head.insert(at, t).push(table.last()) =~= table.insert(at, t));
        }
    } else {
        let head = table.drop_last();
        lemma_insert_tool_at(head, t, at);
        if table[at].id == t.id {
            assert(head.update(at, t).push(table.last()) =~= table.update(at, t));
        } else {
            assert(head.insert(at, t).push(table.last()) =~= table.insert(at, t));
        }
    }
}

/// Declaring a tool keeps the table in ascending order, and the table then
/// holds the tool.
pub proof fn lemma_insert_tool_ascending(table: Seq<Tool>, t: Tool)
    requires
        ascending(table),
    ensures
        ascending(insert_tool(table, t)),
        has_tool(insert_tool(table, t), t.id),
        forall|id: u32| id != t.id ==> (has_tool(insert_tool(table, t), id) <==> has_tool(table, id)),
{
    let at = insertion_point(table, t.id);
    lemma_insertion_point(table, t.id);
    lemma_insert_tool_at(table, t, at);
    let after = insert_tool(table, t);
    assert(after[at] == t);
    assert forall|id: u32| id != t.id implies (has_tool(after, id) <==> has_tool(table, id)) by {
        if has_tool(table, id) {
            let i = choose|i: int| 0 <= i < table.len() && #[trigger] table[i].id == id;
            if at < table.len() && table[at].id == t.id {
                assert(after[i].id == id);
            } else if i < at {
                assert(after[i].id == id);
            } else {
                assert(after[i + 1].id == id);
            }
        }
        if has_tool(after, id) {
            let i = choose|i: int| 0 <= i < after.len() && #[trigger] after[i].id == id;
            if at < table.len() && table[at].id == t.id {
                assert(table[i].id == id);
            } else if i < at {
                assert(table[i].id == id);
            } else {
                assert(table[i - 1].id == id);
            }
        }
    }
}

/// The number of tools in the table with a number below `id`.
pub open spec fn insertion_point(table: Seq<Tool>, id: u32) -> int
    decreases table.len(),
{
    if table.len() == 0 {
        0
    } else if table.last().id < id {
        table.len() as int
    } else {
        insertion_point(table.drop_last(), id)
    }
}

/// In an ascending table the insertion point parts the lower numbers from
/// the others.
pub proof fn lemma_insertion_point(table: Seq<Tool>, id: u32)
    requires
        ascending(table),
    ensures
        0 <= insertion_point(table, id) <= table.len(),
        forall|k: int| 0 <= k < insertion_point(table, id) ==> (#[trigger] table[k]).id < id,
        forall|k: int| insertion_point(table, id) <= k < table.len() ==> (#[trigger] table[k]).id >= id,
        forall|k: int| insertion_point(table, id) < k < table.len() ==> (#[trigger] table[k]).id > id,
    decreases table.len(),
{
    if table.len() > 0 && table.last().id >= id {
        let head = table.drop_last();
        lemma_insertion_point(head, id);
        let p = insertion_point(head, id);
        assert forall|k: int| p < k < table.len() implies (#[trigger] table[k]).id > id by {
            assert(head[p].id >= id);
            assert(table[p].id < table[k].id);
        }
        assert forall|k: int| 0 <= k < p implies (#[trigger] table[k]).id < id by {
            assert(head[k].id < id);
        }
        assert forall|k: int| p <= k < table.len() implies (#[trigger] table[k]).id >= id by {
            if k < head.len() {
                assert(head[k].id >= id);
            }
        }
    }
}

/// Declares `t` in the table.
pub fn declare_tool(table: &mut Vec<Tool>, t: Tool)
    requires
        ascending(old(table)@),
    ensures
        final(table)@ == insert_tool(old(table)@, t),
        ascending(final(table)@),
{
    let mut at: usize = 0;
    while at < table.len() && table[at].id < t.id
        invariant
            at <= table.len(),
            ascending(table@),
            forall|k: int| 0 <= k < at ==> (#[trigger] table@[k]).id < t.id,
        decreases table.len() - at,
    {
        at += 1;
    }
    proof {
        assert forall|k: int| at < k < table.len() implies (#[trigger] table@[k]).id > t.id by {
            assert(table@[at as int].id < table@[k].id);
        }
        lemma_insert_tool_at(table@, t, at as int);
        lemma_insert_tool_ascending(table@, t);
    }
    if at < table.len() && table[at].id == t.id {
        table.set(at, t);
    } else {
        table.insert(at, t);
    }
}

/// The place of the tool numbered `id` in the table.
pub fn find_tool(table: &Vec<Tool>, id: u32) -> (r: Option<usize>)
    ensures
        r.is_some() == has_tool(table@, id),
        r matches Some(i) ==> i < table.len() && table@[i as int].id == id,
{
    let mut i: usize = 0;
    while i < table.len()
        invariant
            i <= table.len(),
            forall|k: int| 0 <= k < i ==> (#[trigger] table@[k]).id != id,
        decreases table.len() - i,
    {
        if table[i].id == id {
            return Some(i);
        }
        i += 1;
    }
    None
}

} // verus!
