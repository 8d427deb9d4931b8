//! Ordering Gerber file names so that the files that describe the board
//! best come first.

use vstd::prelude::*;
use crate::text::{contains, ends_with, has_sub, has_suffix, lower, text_views, to_chars, to_lower};

verus! {

/// The priority of a file name; a lower number comes first. A name that
/// holds `Edge_Cuts`, `F_Cu` or `F_Mask` has priority 0, 1 or 2, by the
/// first of these it holds. Otherwise a name that ends in `.gto`, `.gtl` or
/// `.gbl`, in any case, has priority 3, 4 or 5. Any other name has the
/// lowest priority there is.
pub open spec fn rank_of(path: Seq<char>) -> isize {
    if has_sub(path, "Edge_Cuts"@) {
        0
    } else if has_sub(path, "F_Cu"@) {
        1
    } else if has_sub(path, "F_Mask"@) {
        2
    } else if has_suffix(lower(path), ".gto"@) {
        3
    } else if has_suffix(lower(path), ".gtl"@) {
        4
    } else if has_suffix(lower(path), ".gbl"@) {
        5
    } else {
        isize::MAX
    }
}

/// `sorted` with `x` put behind the last name whose priority is not lower
/// than that of `x`.
pub open spec fn insert_by_rank(sorted: Seq<Seq<char>>, x: Seq<char>) -> Seq<Seq<char>>
    decreases sorted.len(),
{
    if sorted.len() == 0 {
        seq![x]
    } else if rank_of(sorted.last()) <= rank_of(x) {
        sorted.push(x)
    } else {
        insert_by_rank(sorted.drop_last(), x).push(sorted.last())
    }
}

/// The names in order of priority; names of the same priority keep the
/// order they came in.
pub open spec fn sorted_by_rank(files: Seq<Seq<char>>) -> Seq<Seq<char>>
    decreases files.len(),
{
    if files.len() == 0 {
        Seq::empty()
    } else {
        insert_by_rank(sorted_by_rank(files.drop_last()), files.last())
    }
}

/// The priorities do not descend.
pub open spec fn ordered(files: Seq<Seq<char>>) -> bool {
    forall|i: int, j: int| 0 <= i < j < files.len() ==> rank_of(files[i]) <= rank_of(files[j])
}

/// What putting a name in does, seen from the place `at` where it goes.
pub proof fn lemma_insert_by_rank_at(sorted: Seq<Seq<char>>, x: Seq<char>, at: int)
    requires
        0 <= at <= sorted.len(),
        forall|k: int| at <= k < sorted.len() ==> rank_of(#[trigger] sorted[k]) > rank_of(x),
        at > 0 ==> rank_of(sorted[at - 1]) <= rank_of(x),
    ensures
        insert_by_rank(sorted, x) == sorted.insert(at, x),
    decreases sorted.len(),
{
    if sorted.len() == 0 {
        assert(seq![x] =~= sorted.insert(0, x));
    } else if at == sorted.len() {
        assert(sorted.push(x) =~= sorted.insert(at, x));
    } else {
        assert(rank_of(sorted[sorted.len() - 1]) > rank_of(x));
        let head = sorted.drop_last();
        lemma_insert_by_rank_at(head, x, at);
        assert(head.insert(at, x).push(sorted.last()) =~= sorted.insert(at, x));
    }
}

/// Putting a name into an ordered sequence keeps it ordered and adds the
/// name to what it holds.
pub proof fn lemma_insert_by_rank_ordered(sorted: Seq<Seq<char>>, x: Seq<char>)
    requires
        ordered(sorted),
    ensures
        ordered(insert_by_rank(sorted, x)),
        insert_by_rank(sorted, x).to_multiset() == sorted.to_multiset().insert(x),
    decreases sorted.len(),
{
    broadcast use vstd::seq_lib::group_to_multiset_ensures;

    if sorted.len() == 0 {
    } else if rank_of(sorted.last()) <= rank_of(x) {
    } else {
        let head = sorted.drop_last();
        lemma_insert_by_rank_ordered(head, x);
        let r = insert_by_rank(head, x);
        let out = r.push(sorted.last());
        assert(sorted == head.push(sorted.last()));
        assert forall|i: int, j: int| 0 <= i < j < out.len() implies rank_of(out[i]) <= rank_of(
            out[j],
        ) by {
            if j == out.len() - 1 {
                assert(r.to_multiset().count(r[i]) > 0);
                if r[i] != x {
                    assert(head.to_multiset().count(r[i]) > 0);
                    assert(head.to_multiset().contains(r[i]));
                    let k = choose|k: int| 0 <= k < head.len() && head[k] == r[i];
                    assert(rank_of(sorted[k]) <= rank_of(sorted[sorted.len() - 1]));
                }
            }
        }
        assert(out.to_multiset() =~= sorted.to_multiset().insert(x));
    }
}

/// The sorted names are ordered by priority and are the given names, each
/// as often as it was given.
pub proof fn lemma_sorted_by_rank(files: Seq<Seq<char>>)
    ensures
        ordered(sorted_by_rank(files)),
        sorted_by_rank(files).to_multiset() == files.to_multiset(),
        sorted_by_rank(files).len() == files.len(),
    decreases files.len(),
{
    broadcast use vstd::seq_lib::group_to_multiset_ensures;

    if files.len() > 0 {
        lemma_sorted_by_rank(files.drop_last());
        lemma_insert_by_rank_ordered(sorted_by_rank(files.drop_last()), files.last());
        assert(files == files.drop_last().push(files.last()));
    }
    sorted_by_rank(files).to_multiset_ensures();
    files.to_multiset_ensures();
}

/// The priority of a file name.
pub fn get_file_priority(file_path: &str) -> (r: isize)
    ensures
        r == rank_of(file_path@),
{
    let path = to_chars(file_path);
    let p = path.as_slice();
    if contains(p, to_chars("Edge_Cuts").as_slice()) {
        return 0;
    }
    if contains(p, to_chars("F_Cu").as_slice()) {
        return 1;
    }
    if contains(p, to_chars("F_Mask").as_slice()) {
        return 2;
    }
    let low = to_lower(p);
    let l = low.as_slice();
    if ends_with(l, to_chars(".gto").as_slice()) {
        return 3;
    }
    if ends_with(l, to_chars(".gtl").as_slice()) {
        return 4;
    }
    if ends_with(l, to_chars(".gbl").as_slice()) {
        return 5;
    }
    isize::MAX
}

/// Sorts file names by priority, in place, and gives a copy of the sorted
/// names. Names of the same priority keep their order.
pub fn sort_gerber_files(files: &mut [String]) -> (r: Vec<String>)
    ensures
        text_views(r@) == sorted_by_rank(text_views(old(files)@)),
        text_views(final(files)@) == sorted_by_rank(text_views(old(files)@)),
{
    let ghost given = text_views(files@);
    let mut sorted: Vec<String> = Vec::new();
    let mut ranks: Vec<isize> = Vec::new();
    let mut i: usize = 0;
    while i < files.len()
        invariant
            i <= files.len(),
            given == text_views(files@),
            text_views(sorted@) == sorted_by_rank(given.take(i as int)),
            ranks.len() == sorted.len(),
            forall|k: int| 0 <= k < sorted.len() ==> ranks@[k] == rank_of(#[trigger] sorted@[k]@),
        decreases files.len() - i,
    {
        let name = files[i].clone();
        let rank = get_file_priority(name.as_str());
        let ghost before = text_views(sorted@);
        proof {
            assert(given.take(i + 1).drop_last() == given.take(i as int));
            assert(given.take(i + 1).last() == name@);
        }
        let mut at: usize = sorted.len();
        while at > 0 && ranks[at - 1] > rank
            invariant
                at <= sorted.len(),
                ranks.len() == sorted.len(),
                rank == rank_of(name@),
                before == text_views(sorted@),
                forall|k: int|
                    0 <= k < sorted.len() ==> ranks@[k] == rank_of(#[trigger] sorted@[k]@),
                forall|k: int| at <= k < before.len() ==> rank_of(#[trigger] before[k]) > rank,
            decreases at,
        {
            proof {
                assert(before[at - 1] == sorted@[at - 1]@);
            }
            at -= 1;
        }
        proof {
            if at > 0 {
                assert(before[at - 1] == sorted@[at - 1]@);
            }
            lemma_insert_by_rank_at(before, name@, at as int);
        }
        sorted.insert(at, name);
        ranks.insert(at, rank);
        proof {
            assert(text_views(sorted@) =~= before.insert(at as int, name@));
        }
        i += 1;
    }
    proof {
        assert(given.take(given.len() as int) == given);
        lemma_sorted_by_rank(given);
    }
    let mut k: usize = 0;
    while k < files.len()
        invariant
            k <= files.len(),
            sorted.len() == files.len(),
            forall|j: int| 0 <= j < k ==> (#[trigger] files@[j])@ == sorted@[j]@,
        decreases files.len() - k,
    {
        files[k] = sorted[k].clone();
        k += 1;
    }
    proof {
        assert(text_views(files@) =~= text_views(sorted@));
    }
    sorted
}

} // verus!
