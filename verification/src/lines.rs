//! Splitting text into lines and trimming white space.

use vstd::prelude::*;

verus! {

/// `c` is white space: the characters with the Unicode `White_Space`
/// property.
pub open spec fn is_space(c: char) -> bool {
    let n = c as u32;
    ||| 0x09 <= n <= 0x0d
    ||| n == 0x20
    ||| n == 0x85
    ||| n == 0xa0
    ||| n == 0x1680
    ||| 0x2000 <= n <= 0x200a
    ||| n == 0x2028
    ||| n == 0x2029
    ||| n == 0x202f
    ||| n == 0x205f
    ||| n == 0x3000
}

/// `s` without its leading white space.
pub open spec fn trim_start(s: Seq<char>) -> Seq<char>
    decreases s.len(),
{
    if s.len() > 0 && is_space(s[0]) {
        trim_start(s.drop_first())
    } else {
        s
    }
}

/// `s` without its trailing white space.
pub open spec fn trim_end(s: Seq<char>) -> Seq<char>
    decreases s.len(),
{
    if s.len() > 0 && is_space(s.last()) {
        trim_end(s.drop_last())
    } else {
        s
    }
}

/// `s` without leading and trailing white space.
pub open spec fn trim(s: Seq<char>) -> Seq<char> {
    trim_end(trim_start(s))
}

/// The pieces of `s` between line feeds. A text with `n` line feeds has
/// `n + 1` pieces; the last one is what follows the last line feed.
pub open spec fn split_lines(s: Seq<char>) -> Seq<Seq<char>>
    decreases s.len(),
{
    if s.len() == 0 {
        seq![Seq::empty()]
    } else {
        let before = split_lines(s.drop_last());
        if s.last() == '\n' {
            before.push(Seq::empty())
        } else {
            before.drop_last().push(before.last().push(s.last()))
        }
    }
}

/// Every line of `lines`, trimmed.
pub open spec fn trim_all(lines: Seq<Seq<char>>) -> Seq<Seq<char>> {
    Seq::new(lines.len(), |i: int| trim(lines[i]))
}

/// The lines of `s`, each trimmed.
pub open spec fn trimmed_lines(s: Seq<char>) -> Seq<Seq<char>> {
    trim_all(split_lines(s))
}

/// The views of a vector of lines.
pub open spec fn line_views(v: Seq<Vec<char>>) -> Seq<Seq<char>> {
    Seq::new(v.len(), |i: int| v[i]@)
}

/// Skipping `i` leading white-space characters does not change what
/// `trim_start` gives.
pub proof fn lemma_trim_start_skip(s: Seq<char>, i: int)
    requires
        0 <= i <= s.len(),
        forall|k: int| 0 <= k < i ==> is_space(#[trigger] s[k]),
    ensures
        trim_start(s) == trim_start(s.skip(i)),
    decreases i,
{
    if i == 0 {
        assert(s.skip(0) == s);
    } else {
        assert(is_space(s[0]));
        let t = s.drop_first();
        assert forall|k: int| 0 <= k < i - 1 implies is_space(#[trigger] t[k]) by {
            assert(t[k] == s[k + 1]);
        }
        lemma_trim_start_skip(t, i - 1);
        assert(t.skip(i - 1) == s.skip(i));
    }
}

/// Dropping trailing white space down to length `j` does not change what
/// `trim_end` gives.
pub proof fn lemma_trim_end_take(s: Seq<char>, j: int)
    requires
        0 <= j <= s.len(),
        forall|k: int| j <= k < s.len() ==> is_space(#[trigger] s[k]),
    ensures
        trim_end(s) == trim_end(s.take(j)),
    decreases s.len() - j,
{
    if j == s.len() {
        assert(s.take(j) == s);
    } else {
        assert(is_space(s.last()));
        let t = s.drop_last();
        assert forall|k: int| j <= k < t.len() implies is_space(#[trigger] t[k]) by {
            assert(t[k] == s[k]);
        }
        lemma_trim_end_take(t, j);
        assert(t.take(j) == s.take(j));
    }
}

/// Whether `c` is white space.
pub fn char_is_space(c: char) -> (b: bool)
    ensures
        b == is_space(c),
{
    let n: u32 = c as u32;
    (0x09 <= n && n <= 0x0d) || n == 0x20 || n == 0x85 || n == 0xa0 || n == 0x1680 || (0x2000 <= n
        && n <= 0x200a) || n == 0x2028 || n == 0x2029 || n == 0x202f || n == 0x205f || n == 0x3000
}

/// A trimmed copy of `s`.
pub fn trimmed(s: &[char]) -> (r: Vec<char>)
    ensures
        r@ == trim(s@),
{
    let mut i: usize = 0;
    while i < s.len() && char_is_space(s[i])
        invariant
            i <= s.len(),
            forall|k: int| 0 <= k < i ==> is_space(#[trigger] s@[k]),
        decreases s.len() - i,
    {
        i += 1;
    }
    let mut j: usize = s.len();
    while j > i && char_is_space(s[j - 1])
        invariant
            i <= j <= s.len(),
            forall|k: int| j <= k < s.len() ==> is_space(#[trigger] s@[k]),
        decreases j,
    {
        j -= 1;
    }
    let mut r: Vec<char> = Vec::new();
    let mut k: usize = i;
    while k < j
        invariant
            i <= k <= j <= s.len(),
            r@ == s@.subrange(i as int, k as int),
        decreases j - k,
    {
        r.push(s[k]);
        proof {
            assert(s@.subrange(i as int, k + 1) == s@.subrange(i as int, k as int).push(s@[k as int]));
        }
        k += 1;
    }
    proof {
        let a = s@.skip(i as int);
        lemma_trim_start_skip(s@, i as int);
        assert(trim_start(a) == a) by {
            if a.len() > 0 {
                assert(a[0] == s@[i as int]);
            }
        }
        assert forall|k: int| j - i <= k < a.len() implies is_space(#[trigger] a[k]) by {
            assert(a[k] == s@[k + i]);
        }
        lemma_trim_end_take(a, j - i);
        let b = a.take(j - i);
        assert(b == s@.subrange(i as int, j as int));
        assert(trim_end(b) == b) by {
            if b.len() > 0 {
                assert(b.last() == s@[j - 1]);
            }
        }
    }
    r
}

/// The lines joined again, with a line feed between each two.
pub open spec fn join_lines(lines: Seq<Seq<char>>) -> Seq<char>
    decreases lines.len(),
{
    if lines.len() == 0 {
        Seq::empty()
    } else if lines.len() == 1 {
        lines[0]
    } else {
        join_lines(lines.drop_last()) + seq!['\n'] + lines.last()
    }
}

/// A text always has at least one line.
pub proof fn lemma_split_lines_len(s: Seq<char>)
    ensures
        split_lines(s).len() >= 1,
    decreases s.len(),
{
    if s.len() > 0 {
        lemma_split_lines_len(s.drop_last());
    }
}

/// Joining with one more character at the end of the last line adds that
/// character at the end.
pub proof fn lemma_join_lines_grow(lines: Seq<Seq<char>>, c: char)
    requires
        lines.len() >= 1,
    ensures
        join_lines(lines.drop_last().push(lines.last().push(c))) == join_lines(lines).push(c),
{
    let grown = lines.drop_last().push(lines.last().push(c));
    if lines.len() == 1 {
        assert(grown[0] == lines[0].push(c));
    } else {
        assert(grown.drop_last() == lines.drop_last());
        assert(join_lines(lines.drop_last()) + seq!['\n'] + lines.last().push(c) =~= (join_lines(
            lines.drop_last(),
        ) + seq!['\n'] + lines.last()).push(c));
    }
}

/// Splitting a text at its line feeds and joining the pieces again gives
/// the text back.
pub proof fn lemma_join_split(s: Seq<char>)
    ensures
        join_lines(split_lines(s)) == s,
    decreases s.len(),
{
    if s.len() == 0 {
        assert(split_lines(s)[0] =~= s);
    } else {
        let head = s.drop_last();
        let before = split_lines(head);
        lemma_join_split(head);
        lemma_split_lines_len(head);
        if s.last() == '\n' {
            let now = before.push(Seq::empty());
            assert(now.drop_last() == before);
            assert(join_lines(before) + seq!['\n'] + Seq::<char>::empty() =~= head.push('\n'));
            assert(head.push('\n') == s);
        } else {
            lemma_join_lines_grow(before, s.last());
            assert(head.push(s.last()) == s);
        }
    }
}

/// The pieces of `s` between line feeds.
pub fn split(s: &[char]) -> (r: Vec<Vec<char>>)
    ensures
        line_views(r@) == split_lines(s@),
        r.len() >= 1,
{
    let mut done: Vec<Vec<char>> = Vec::new();
    let mut current: Vec<char> = Vec::new();
    let mut i: usize = 0;
    while i < s.len()
        invariant
            i <= s.len(),
            split_lines(s@.take(i as int)).len() == done.len() + 1,
            split_lines(s@.take(i as int)).last() == current@,
            line_views(done@) == split_lines(s@.take(i as int)).drop_last(),
        decreases s.len() - i,
    {
        let c = s[i];
        let ghost before = split_lines(s@.take(i as int));
        let ghost now = split_lines(s@.take(i + 1));
        let ghost done_before = done@;
        proof {
            assert(s@.take(i + 1).drop_last() == s@.take(i as int));
        }
        if c == '\n' {
            done.push(current);
            current = Vec::new();
            proof {
                assert(now == before.push(Seq::empty()));
                assert(now.drop_last() == before);
                assert(before == before.drop_last().push(before.last()));
                assert(line_views(done@) =~= line_views(done_before).push(before.last()));
            }
        } else {
            current.push(c);
            proof {
                assert(now == before.drop_last().push(before.last().push(c)));
                assert(now.drop_last() == before.drop_last());
            }
        }
        i += 1;
    }
    let ghost done_before = done@;
    done.push(current);
    proof {
        assert(s@.take(s@.len() as int) == s@);
        let all = split_lines(s@);
        assert(all == all.drop_last().push(all.last()));
        assert(line_views(done@) =~= line_views(done_before).push(all.last()));
    }
    done
}

/// The lines joined with a line feed between each two.
pub fn join(lines: &Vec<Vec<char>>) -> (r: Vec<char>)
    ensures
        r@ == join_lines(line_views(lines@)),
{
    let ghost all = line_views(lines@);
    let mut r: Vec<char> = Vec::new();
    let mut i: usize = 0;
    while i < lines.len()
        invariant
            i <= lines.len(),
            all == line_views(lines@),
            r@ == join_lines(all.take(i as int)),
        decreases lines.len() - i,
    {
        proof {
            assert(all.take(i + 1).drop_last() == all.take(i as int));
            assert(all.take(i + 1).last() == lines@[i as int]@);
            if i == 0 {
                assert(all.take(1)[0] == lines@[0]@);
            }
        }
        let ghost before = r@;
        if i > 0 {
            r.push('\n');
            assert(r@ =~= before + seq!['\n']);
        }
        crate::text::extend_chars(&mut r, lines[i].as_slice());
        proof {
            if i == 0 {
                assert(r@ =~= lines@[0]@);
            }
        }
        i += 1;
    }
    proof {
        assert(all.take(all.len() as int) == all);
    }
    r
}

/// The trimmed lines of `s`.
pub fn split_trimmed(s: &[char]) -> (r: Vec<Vec<char>>)
    ensures
        line_views(r@) == trimmed_lines(s@),
{
    let mut done: Vec<Vec<char>> = Vec::new();
    let mut current: Vec<char> = Vec::new();
    let mut i: usize = 0;
    while i < s.len()
        invariant
            i <= s.len(),
            split_lines(s@.take(i as int)).len() == done.len() + 1,
            split_lines(s@.take(i as int)).last() == current@,
            line_views(done@) == trim_all(split_lines(s@.take(i as int)).drop_last()),
        decreases s.len() - i,
    {
        let c = s[i];
        let ghost before = split_lines(s@.take(i as int));
        let ghost now = split_lines(s@.take(i + 1));
        let ghost done_before = done@;
        proof {
            assert(s@.take(i + 1).drop_last() == s@.take(i as int));
        }
        if c == '\n' {
            let line = trimmed(current.as_slice());
            done.push(line);
            current = Vec::new();
            proof {
                assert(now == before.push(Seq::empty()));
                assert(now.drop_last() == before);
                assert forall|k: int| 0 <= k < done@.len() implies line_views(done@)[k]
                    == trim_all(before)[k] by {
                    if k < done_before.len() {
                        assert(line_views(done_before)[k] == trim_all(before.drop_last())[k]);
                    }
                }
                assert(line_views(done@) =~= trim_all(before));
            }
        } else {
            current.push(c);
            proof {
                assert(now == before.drop_last().push(before.last().push(c)));
                assert(now.drop_last() == before.drop_last());
            }
        }
        i += 1;
    }
    let ghost done_before = done@;
    let line = trimmed(current.as_slice());
    done.push(line);
    proof {
        assert(s@.take(s@.len() as int) == s@);
        let all = split_lines(s@);
        assert forall|k: int| 0 <= k < done@.len() implies line_views(done@)[k] == trim_all(
            all,
        )[k] by {
            if k < done_before.len() {
                assert(line_views(done_before)[k] == trim_all(all.drop_last())[k]);
            }
        }
        assert(line_views(done@) =~= trim_all(all));
    }
    done
}

} // verus!
