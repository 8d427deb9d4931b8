//! Merging the programs of several files into one program per plating
//! class, with one tool per diameter.

use vstd::prelude::*;
use crate::drill::{
    operation_views, DrillCommand, DrillFile, DrillOperation, HoleType, Operation,
};

verus! {

/// `merged` with one more operation taken in. The operation joins the one
/// of the same diameter, which keeps its own fields and gets the new
/// commands behind its own; or, where there is none, it stands before the
/// first operation of a larger diameter.
pub open spec fn merge_into(merged: Seq<Operation>, op: Operation) -> Seq<Operation>
    decreases merged.len(),
{
    if merged.len() == 0 {
        seq![op]
    } else if merged.last().diameter < op.diameter {
        merged.push(op)
    } else if merged.last().diameter == op.diameter {
        merged.drop_last().push(
            Operation { commands: merged.last().commands + op.commands, ..merged.last() },
        )
    } else {
        merge_into(merged.drop_last(), op).push(merged.last())
    }
}

/// The operations of `ops` merged by diameter: taken in one after the other,
/// in order.
pub open spec fn merge_by_diameter(ops: Seq<Operation>) -> Seq<Operation>
    decreases ops.len(),
{
    if ops.len() == 0 {
        Seq::empty()
    } else {
        merge_into(merge_by_diameter(ops.drop_last()), ops.last())
    }
}

/// The diameters ascend strictly.
pub open spec fn ascending_diameters(ops: Seq<Operation>) -> bool {
    forall|i: int, j: int| 0 <= i < j < ops.len() ==> ops[i].diameter < ops[j].diameter
}

/// The operations of `ops` that have the plating class `t`, in order.
pub open spec fn of_type(ops: Seq<Operation>, t: HoleType) -> Seq<Operation>
    decreases ops.len(),
{
    if ops.len() == 0 {
        Seq::empty()
    } else if ops.last().hole_type == t {
        of_type(ops.drop_last(), t).push(ops.last())
    } else {
        of_type(ops.drop_last(), t)
    }
}

/// The operations of all the files, in file order.
pub open spec fn all_operations(files: Seq<Seq<Operation>>) -> Seq<Operation>
    decreases files.len(),
{
    if files.len() == 0 {
        Seq::empty()
    } else {
        all_operations(files.drop_last()) + files.last()
    }
}

/// The merged program of one plating class.
pub open spec fn merged_bucket(files: Seq<Seq<Operation>>, t: HoleType) -> Seq<Operation> {
    merge_by_diameter(of_type(all_operations(files), t))
}

/// The views of a vector of files.
pub open spec fn file_views(files: Seq<DrillFile>) -> Seq<Seq<Operation>> {
    Seq::new(files.len(), |i: int| files[i]@)
}

/// A program, or `None` for an empty one.
pub open spec fn non_empty(ops: Seq<Operation>) -> Option<Seq<Operation>> {
    if ops.len() == 0 {
        None
    } else {
        Some(ops)
    }
}

/// The view of an optional file.
pub open spec fn optional_view(f: Option<DrillFile>) -> Option<Seq<Operation>> {
    match f {
        Some(f) => Some(f@),
        None => None,
    }
}

/// The commands of the operations of diameter `d`, in order.
pub open spec fn commands_of_diameter(ops: Seq<Operation>, d: u64) -> Seq<DrillCommand>
    decreases ops.len(),
{
    if ops.len() == 0 {
        Seq::empty()
    } else if ops.last().diameter == d {
        commands_of_diameter(ops.drop_last(), d) + ops.last().commands
    } else {
        commands_of_diameter(ops.drop_last(), d)
    }
}

/// Some operation has the diameter `d`.
pub open spec fn has_diameter(ops: Seq<Operation>, d: u64) -> bool {
    exists|i: int| 0 <= i < ops.len() && #[trigger] ops[i].diameter == d
}

/// Taking in an operation adds its commands behind those of its diameter
/// and leaves the commands of every other diameter as they are.
pub proof fn lemma_merge_into_commands(merged: Seq<Operation>, op: Operation, d: u64)
    ensures
        commands_of_diameter(merge_into(merged, op), d) == if op.diameter == d {
            commands_of_diameter(merged, d) + op.commands
        } else {
            commands_of_diameter(merged, d)
        },
    decreases merged.len(),
{
    let out = merge_into(merged, op);
    if merged.len() == 0 {
        assert(out.drop_last() =~= merged);
        assert(commands_of_diameter(merged, d) + op.commands =~= op.commands);
    } else if merged.last().diameter < op.diameter {
        assert(out.drop_last() == merged);
    } else if merged.last().diameter == op.diameter {
        let head = merged.drop_last();
        assert(out.drop_last() == head);
        assert(out.last().commands == merged.last().commands + op.commands);
        assert(commands_of_diameter(head, d) + (merged.last().commands + op.commands)
            =~= commands_of_diameter(head, d) + merged.last().commands + op.commands);
    } else {
        let head = merged.drop_last();
        lemma_merge_into_commands(head, op, d);
        assert(out.drop_last() == merge_into(head, op));
    }
}

/// After an operation is taken in, the diameters that occur are those that
/// occurred before and that of the operation.
pub proof fn lemma_merge_into_diameters(merged: Seq<Operation>, op: Operation, d: u64)
    ensures
        has_diameter(merge_into(merged, op), d) <==> has_diameter(merged, d) || op.diameter == d,
    decreases merged.len(),
{
    let out = merge_into(merged, op);
    if merged.len() == 0 {
        assert(out[0].diameter == op.diameter);
    } else if merged.last().diameter < op.diameter {
        assert(out[out.len() - 1].diameter == op.diameter);
        if has_diameter(merged, d) {
            let i = choose|i: int| 0 <= i < merged.len() && #[trigger] merged[i].diameter == d;
            assert(out[i].diameter == d);
        }
        if has_diameter(out, d) && op.diameter != d {
            let i = choose|i: int| 0 <= i < out.len() && #[trigger] out[i].diameter == d;
            assert(merged[i].diameter == d);
        }
    } else if merged.last().diameter == op.diameter {
        if has_diameter(merged, d) {
            let i = choose|i: int| 0 <= i < merged.len() && #[trigger] merged[i].diameter == d;
            assert(out[i].diameter == d);
        }
        if op.diameter == d {
            assert(merged[merged.len() - 1].diameter == d);
        }
        if has_diameter(out, d) {
            let i = choose|i: int| 0 <= i < out.len() && #[trigger] out[i].diameter == d;
            assert(merged[i].diameter == d);
        }
    } else {
        let head = merged.drop_last();
        lemma_merge_into_diameters(head, op, d);
        let inner = merge_into(head, op);
        if has_diameter(merged, d) {
            let i = choose|i: int| 0 <= i < merged.len() && #[trigger] merged[i].diameter == d;
            if i < head.len() {
                assert(head[i].diameter == d);
                let k = choose|k: int| 0 <= k < inner.len() && #[trigger] inner[k].diameter == d;
                assert(out[k].diameter == d);
            } else {
                assert(out[out.len() - 1].diameter == d);
            }
        }
        if op.diameter == d {
            let k = choose|k: int| 0 <= k < inner.len() && #[trigger] inner[k].diameter == d;
            assert(out[k].diameter == d);
        }
        if has_diameter(out, d) && op.diameter != d {
            let i = choose|i: int| 0 <= i < out.len() && #[trigger] out[i].diameter == d;
            if i < inner.len() {
                assert(inner[i].diameter == d);
                let k = choose|k: int| 0 <= k < head.len() && #[trigger] head[k].diameter == d;
                assert(merged[k].diameter == d);
            } else {
                assert(merged[merged.len() - 1].diameter == d);
            }
        }
    }
}

/// Taking in an operation keeps the diameters in ascending order.
pub proof fn lemma_merge_into_ascending(merged: Seq<Operation>, op: Operation)
    requires
        ascending_diameters(merged),
    ensures
        ascending_diameters(merge_into(merged, op)),
    decreases merged.len(),
{
    let out = merge_into(merged, op);
    if merged.len() == 0 {
    } else if merged.last().diameter < op.diameter {
        assert forall|i: int, j: int| 0 <= i < j < out.len() implies out[i].diameter
            < out[j].diameter by {
            if j == out.len() - 1 {
                assert(merged[i].diameter <= merged[merged.len() - 1].diameter);
            }
        }
    } else if merged.last().diameter == op.diameter {
        assert forall|i: int, j: int| 0 <= i < j < out.len() implies out[i].diameter
            < out[j].diameter by {
            assert(out[i].diameter == merged[i].diameter);
            assert(out[j].diameter == merged[j].diameter);
        }
    } else {
        let head = merged.drop_last();
        let last = merged.last();
        assert forall|i: int, j: int| 0 <= i < j < head.len() implies head[i].diameter
            < head[j].diameter by {
            assert(head[i] == merged[i] && head[j] == merged[j]);
        }
        lemma_merge_into_ascending(head, op);
        let inner = merge_into(head, op);
        assert forall|i: int| 0 <= i < inner.len() implies (#[trigger] inner[i]).diameter
            < last.diameter by {
            let x = inner[i].diameter;
            lemma_merge_into_diameters(head, op, x);
            if x != op.diameter {
                let k = choose|k: int| 0 <= k < head.len() && #[trigger] head[k].diameter == x;
                assert(merged[k].diameter < merged[merged.len() - 1].diameter);
            }
        }
        assert forall|i: int, j: int| 0 <= i < j < out.len() implies out[i].diameter
            < out[j].diameter by {
            if j < inner.len() {
                assert(out[i] == inner[i] && out[j] == inner[j]);
            } else {
                assert(out[i] == inner[i]);
            }
        }
    }
}

/// Merging by diameter gives one operation for each diameter that occurs,
/// in ascending order of the diameters, and the operation of a diameter
/// carries the commands of all the operations of that diameter, in the
/// order they came in. So two operations share a tool exactly when their
/// diameters are the same number of steps.
pub proof fn lemma_merge_by_diameter(ops: Seq<Operation>, d: u64)
    ensures
        ascending_diameters(merge_by_diameter(ops)),
        commands_of_diameter(merge_by_diameter(ops), d) == commands_of_diameter(ops, d),
        has_diameter(merge_by_diameter(ops), d) <==> has_diameter(ops, d),
    decreases ops.len(),
{
    if ops.len() > 0 {
        let head = ops.drop_last();
        lemma_merge_by_diameter(head, d);
        lemma_merge_into_commands(merge_by_diameter(head), ops.last(), d);
        lemma_merge_into_diameters(merge_by_diameter(head), ops.last(), d);
        lemma_merge_into_ascending(merge_by_diameter(head), ops.last());
        if has_diameter(head, d) {
            let i = choose|i: int| 0 <= i < head.len() && #[trigger] head[i].diameter == d;
            assert(ops[i].diameter == d);
        }
        if ops.last().diameter == d {
            assert(ops[ops.len() - 1].diameter == d);
        }
        if has_diameter(ops, d) && ops.last().diameter != d {
            let i = choose|i: int| 0 <= i < ops.len() && #[trigger] ops[i].diameter == d;
            assert(head[i].diameter == d);
        }
    }
}

/// What taking in an operation does, seen from the place `at` where it
/// goes.
pub proof fn lemma_merge_into_at(merged: Seq<Operation>, op: Operation, at: int)
    requires
        0 <= at <= merged.len(),
        forall|k: int| 0 <= k < at ==> (#[trigger] merged[k]).diameter < op.diameter,
        forall|k: int| at < k < merged.len() ==> (#[trigger] merged[k]).diameter > op.diameter,
        at < merged.len() ==> merged[at].diameter >= op.diameter,
    ensures
        at < merged.len() && merged[at].diameter == op.diameter ==> merge_into(merged, op)
            == merged.update(
            at,
            Operation { commands: merged[at].commands + op.commands, ..merged[at] },
        ),
        at == merged.len() || merged[at].diameter > op.diameter ==> merge_into(merged, op)
            == merged.insert(at, op),
    decreases merged.len(),
{
    if merged.len() == 0 {
        assert(seq![op] =~= merged.insert(0, op));
    } else if at == merged.len() {
        assert(merged.push(op) =~= merged.insert(at, op));
    } else {
        let head = merged.drop_last();
        let joined = Operation { commands: merged[at].commands + op.commands, ..merged[at] };
        if at == merged.len() - 1 {
            if merged[at].diameter == op.diameter {
                assert(head.push(joined) =~= merged.update(at, joined));
            } else {
                lemma_merge_into_at(head, op, at);
                assert(head.insert(at, op).push(merged.last()) =~= merged.insert(at, op));
            }
        } else {
            lemma_merge_into_at(head, op, at);
            if merged[at].diameter == op.diameter {
                assert(head.update(at, joined).push(merged.last()) =~= merged.update(at, joined));
            } else {
                assert(head.insert(at, op).push(merged.last()) =~= merged.insert(at, op));
            }
        }
    }
}

/// Takes `op` into `merged`.
fn merge_operation(merged: &mut Vec<DrillOperation>, op: DrillOperation)
    requires
        ascending_diameters(operation_views(old(merged)@)),
    ensures
        operation_views(final(merged)@) == merge_into(operation_views(old(merged)@), op@),
        ascending_diameters(operation_views(final(merged)@)),
{
    let ghost before = operation_views(merged@);
    let mut at: usize = 0;
    while at < merged.len() && merged[at].diameter < op.diameter
        invariant
            at <= merged.len(),
            before == operation_views(merged@),
            forall|k: int| 0 <= k < at ==> (#[trigger] before[k]).diameter < op.diameter,
        decreases merged.len() - at,
    {
        assert(before[at as int].diameter == merged@[at as int].diameter);
        at += 1;
    }
    proof {
        assert(at < merged.len() ==> before[at as int].diameter == merged@[at as int].diameter);
        assert forall|k: int| at < k < before.len() implies (#[trigger] before[k]).diameter
            > op.diameter by {
            assert(before[at as int].diameter < before[k].diameter);
        }
        lemma_merge_into_at(before, op@, at as int);
    }
    if at < merged.len() && merged[at].diameter == op.diameter {
        let mut commands = op.commands;
        let held = &mut merged[at];
        held.commands.append(&mut commands);
        proof {
            let joined = Operation {
                commands: before[at as int].commands + op@.commands,
                ..before[at as int]
            };
            assert(operation_views(merged@) =~= before.update(at as int, joined));
        }
    } else {
        let ghost v = op@;
        merged.insert(at, op);
        proof {
            assert(operation_views(merged@) =~= before.insert(at as int, v));
        }
    }
}

/// Merges the operations that have the same diameter. The result ascends by
/// diameter; an operation that joins an earlier one adds its commands behind
/// those of the earlier one.
pub fn merge_operations_by_diameter(ops: Vec<DrillOperation>) -> (r: Vec<DrillOperation>)
    ensures
        operation_views(r@) == merge_by_diameter(operation_views(ops@)),
        ascending_diameters(operation_views(r@)),
{
    let mut merged: Vec<DrillOperation> = Vec::new();
    let ghost given = operation_views(ops@);
    for op in it: ops
        invariant
            operation_views(it.seq()) == given,
            operation_views(merged@) == merge_by_diameter(given.take(it.index() as int)),
            ascending_diameters(operation_views(merged@)),
    {
        proof {
            let i = it.index() as int;
            assert(given.take(i + 1).drop_last() == given.take(i));
            assert(given.take(i + 1).last() == op@);
        }
        merge_operation(&mut merged, op);
    }
    proof {
        assert(given.take(given.len() as int) == given);
    }
    merged
}

/// Merges the programs of several files and splits the result by plating
/// class: first the plated program, then the non-plated one. Within a class
/// the operations are merged by diameter. A class without operations gives
/// `None`.
pub fn merge_and_split_drills(files: Vec<DrillFile>) -> (r: (Option<DrillFile>, Option<DrillFile>))
    ensures
        optional_view(r.0) == non_empty(merged_bucket(file_views(files@), HoleType::Plated)),
        optional_view(r.1) == non_empty(merged_bucket(file_views(files@), HoleType::NonPlated)),
{
    let mut pth_ops: Vec<DrillOperation> = Vec::new();
    let mut npth_ops: Vec<DrillOperation> = Vec::new();
    let ghost given = file_views(files@);
    for file in it: files
        invariant
            file_views(it.seq()) == given,
            operation_views(pth_ops@) == of_type(
                all_operations(given.take(it.index() as int)),
                HoleType::Plated,
            ),
            operation_views(npth_ops@) == of_type(
                all_operations(given.take(it.index() as int)),
                HoleType::NonPlated,
            ),
    {
        let ghost i = it.index() as int;
        let ghost done = all_operations(given.take(i));
        let ghost these = file@;
        proof {
            assert(given.take(i + 1).drop_last() == given.take(i));
            assert(given.take(i + 1).last() == these);
            assert(done + these.take(0) == done);
        }
        for op in inner: file.operations
            invariant
                operation_views(inner.seq()) == these,
                operation_views(pth_ops@) == of_type(
                    done + these.take(inner.index() as int),
                    HoleType::Plated,
                ),
                operation_views(npth_ops@) == of_type(
                    done + these.take(inner.index() as int),
                    HoleType::NonPlated,
                ),
        {
            let ghost j = inner.index() as int;
            let ghost pth_before = operation_views(pth_ops@);
            let ghost npth_before = operation_views(npth_ops@);
            let ghost v = op@;
            proof {
                assert((done + these.take(j + 1)).drop_last() == done + these.take(j));
                assert((done + these.take(j + 1)).last() == v);
            }
            match op.hole_type {
                HoleType::Plated => {
                    pth_ops.push(op);
                    assert(operation_views(pth_ops@) =~= pth_before.push(v));
                },
                HoleType::NonPlated => {
                    npth_ops.push(op);
                    assert(operation_views(npth_ops@) =~= npth_before.push(v));
                },
            }
        }
        proof {
            assert(these.take(these.len() as int) == these);
        }
    }
    proof {
        assert(given.take(given.len() as int) == given);
    }
    let pth_merged = merge_operations_by_diameter(pth_ops);
    let npth_merged = merge_operations_by_diameter(npth_ops);
    let pth_file = if pth_merged.len() == 0 {
        None
    } else {
        Some(DrillFile { operations: pth_merged })
    };
    let npth_file = if npth_merged.len() == 0 {
        None
    } else {
        Some(DrillFile { operations: npth_merged })
    };
    (pth_file, npth_file)
}

} // verus!
