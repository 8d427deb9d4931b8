//! Marking a Gerber file with a fingerprint: one more aperture definition,
//! modelled on one the file has, whose size is drawn from a digest of the
//! file.

use vstd::prelude::*;
use vstd::utf8::encode_utf8;
use crate::digest::{md5_digest, md5_of};
use crate::lines::{join, join_lines, line_views, split, split_lines};
use crate::number::{
    decimal_chars, decimal_digits, fixed_chars, fixed_digits, parse_u32, read_u32,
};
use crate::matcher::{found, group, group_at, replaced_first, Matcher};
use crate::random::{random_index, random_u32};
use crate::scan::copy_range;
use crate::text::{extend_chars, extend_str, from_chars, has_prefix, starts_with, to_chars};

verus! {

/// The pattern of an aperture definition at the start of a line.
pub open spec fn definition_pattern() -> Seq<char> {
    "^%ADD(\\d{2,4})\\D.*"@
}

/// The pattern of a line that defines or selects an aperture.
pub open spec fn renumber_pattern() -> Seq<char> {
    "(?m)^(%ADD|G54D)(\\d{2,4})(.*)$"@
}

/// The pattern of the first size of a definition.
pub open spec fn size_pattern() -> Seq<char> {
    ",([\\d.]+)"@
}

/// The pattern of the head of a definition.
pub open spec fn id_pattern() -> Seq<char> {
    "%ADD\\d{2,4}"@
}

/// The patterns, ready for use.
pub struct Patterns {
    pub definition: Matcher,
    pub renumber: Matcher,
    pub size: Matcher,
    pub id: Matcher,
}

impl Patterns {
    /// Each pattern is the one of its name.
    pub open spec fn wf(&self) -> bool {
        &&& self.definition@ == definition_pattern()
        &&& self.renumber@ == renumber_pattern()
        &&& self.size@ == size_pattern()
        &&& self.id@ == id_pattern()
    }

    /// Makes the patterns ready for use.
    pub fn new() -> (r: Patterns)
        ensures
            r.wf(),
    {
        Patterns {
            definition: Matcher::new("^%ADD(\\d{2,4})\\D.*"),
            renumber: Matcher::new("(?m)^(%ADD|G54D)(\\d{2,4})(.*)$"),
            size: Matcher::new(",([\\d.]+)"),
            id: Matcher::new("%ADD\\d{2,4}"),
        }
    }
}

/// `line` without a carriage return at its end.
pub open spec fn strip_cr(line: Seq<char>) -> Seq<char> {
    if line.len() > 0 && line.last() == '\r' {
        line.drop_last()
    } else {
        line
    }
}

/// Every line without a carriage return at its end.
pub open spec fn strip_all(lines: Seq<Seq<char>>) -> Seq<Seq<char>> {
    Seq::new(lines.len(), |i: int| strip_cr(lines[i]))
}

/// The lines of a text. A line ends with a line feed, or with a carriage
/// return and a line feed; neither belongs to the line. What follows the
/// last line feed is a line too, unless it is empty.
pub open spec fn text_lines(s: Seq<char>) -> Seq<Seq<char>> {
    let pieces = split_lines(s);
    let ended = strip_all(pieces.drop_last());
    if pieces.last().len() == 0 {
        ended
    } else {
        ended.push(pieces.last())
    }
}

/// The first `n` lines.
pub open spec fn first_lines(lines: Seq<Seq<char>>, n: nat) -> Seq<Seq<char>> {
    if lines.len() <= n {
        lines
    } else {
        lines.take(n as int)
    }
}

/// The number of the aperture that a line defines.
pub open spec fn definition_of(line: Seq<char>) -> Option<u32> {
    match group_at(found(definition_pattern(), line), 1) {
        Some(digits) => read_u32(digits),
        None => None,
    }
}

/// The lines among `lines` that define an aperture.
pub open spec fn definition_lines(lines: Seq<Seq<char>>) -> Seq<Seq<char>>
    decreases lines.len(),
{
    if lines.len() == 0 {
        Seq::empty()
    } else if definition_of(lines.last()).is_some() {
        definition_lines(lines.drop_last()).push(lines.last())
    } else {
        definition_lines(lines.drop_last())
    }
}

/// The numbers of the apertures that `lines` define, in order.
pub open spec fn definition_ids(lines: Seq<Seq<char>>) -> Seq<u32>
    decreases lines.len(),
{
    if lines.len() == 0 {
        Seq::empty()
    } else {
        match definition_of(lines.last()) {
            Some(id) => definition_ids(lines.drop_last()).push(id),
            None => definition_ids(lines.drop_last()),
        }
    }
}

/// Which of `count` definitions is the model: the last one where there are
/// five or fewer; else the one picked, which is the sixth or a later one;
/// the last one for a pick that is none of these.
pub open spec fn selection_index(count: nat, pick: usize) -> int {
    if count > 5 && 5 <= pick < count {
        pick as int
    } else {
        count - 1
    }
}

/// The definition that is the model, if the file has any.
pub open spec fn selected_template(definitions: Seq<Seq<char>>, pick: usize) -> Option<Seq<char>> {
    if definitions.len() == 0 {
        None
    } else {
        Some(definitions[selection_index(definitions.len(), pick)])
    }
}

/// The number that the fingerprint takes: that of the model, or 10.
pub open spec fn selected_id(ids: Seq<u32>, pick: usize) -> u32 {
    if ids.len() == 0 {
        10
    } else {
        ids[selection_index(ids.len(), pick)]
    }
}

/// A line with its aperture number raised by one, if it defines or selects
/// an aperture whose number is at least `injection_id` and below 9999.
pub open spec fn renumbered_line(line: Seq<char>, injection_id: u32) -> Seq<char> {
    let groups = found(renumber_pattern(), line);
    match (group_at(groups, 1), group_at(groups, 2), group_at(groups, 3)) {
        (Some(prefix), Some(digits), Some(suffix)) => {
            let number = match read_u32(digits) {
                Some(n) => n,
                None => 0,
            };
            if number >= injection_id && number < 9999 {
                prefix + decimal_digits((number + 1) as nat) + suffix
            } else {
                line
            }
        },
        _ => line,
    }
}

/// Every line renumbered.
pub open spec fn renumbered_lines(lines: Seq<Seq<char>>, injection_id: u32) -> Seq<Seq<char>> {
    Seq::new(lines.len(), |i: int| renumbered_line(lines[i], injection_id))
}

/// A text with room made for the number `injection_id`.
pub open spec fn renumbered(content: Seq<char>, injection_id: u32) -> Seq<char> {
    join_lines(renumbered_lines(split_lines(content), injection_id))
}

/// The text that is digested.
pub open spec fn hashed_text(shifted: Seq<char>, is_foreign_board_file: bool) -> Seq<char> {
    if is_foreign_board_file {
        "494d"@ + shifted
    } else {
        shifted
    }
}

/// The two digits that the digest of a text gives: its last byte, modulo
/// 100.
pub open spec fn hash_suffix(data: Seq<char>) -> nat {
    let digest = md5_digest(encode_utf8(data));
    if digest.len() == 0 {
        0
    } else {
        (digest.last() % 100) as nat
    }
}

/// The size of the fingerprint: `base` hundredths with two decimal places,
/// then the two digits of the digest; `0.0100` where that would be zero.
pub open spec fn dimension_text(base: u32, suffix: nat) -> Seq<char> {
    if base == 0 && suffix == 0 {
        "0.0100"@
    } else {
        decimal_digits((base / 100) as nat) + "."@ + fixed_digits((base % 100) as nat, 2)
            + fixed_digits(suffix, 2)
    }
}

/// The definition line of the fingerprint: the model with its first size
/// and its number replaced, or a circle where there is no model.
pub open spec fn fingerprint_line(template: Option<Seq<char>>, id: u32, dimension: Seq<char>) -> Seq<
    char,
> {
    match template {
        Some(t) => replaced_first(
            id_pattern(),
            replaced_first(size_pattern(), t, ","@ + dimension),
            "%ADD"@ + decimal_digits(id as nat),
        ),
        None => "%ADD"@ + decimal_digits(id as nat) + "C,"@ + dimension + "*%"@,
    }
}

/// The index of the first line at or after `from` that begins with `%MO`;
/// the number of lines where there is none.
pub open spec fn mode_line_index(lines: Seq<Seq<char>>, from: int) -> int
    decreases lines.len() - from,
{
    if 0 <= from < lines.len() && !has_prefix(lines[from], "%MO"@) {
        mode_line_index(lines, from + 1)
    } else if from > lines.len() {
        lines.len() as int
    } else {
        from
    }
}

/// The index of the first line at or after `from` that begins with `%LP`
/// or `G`; the number of lines where there is none.
pub open spec fn draw_line_index(lines: Seq<Seq<char>>, from: int) -> int
    decreases lines.len() - from,
{
    if 0 <= from < lines.len() && !(has_prefix(lines[from], "%LP"@) || has_prefix(
        lines[from],
        "G"@,
    )) {
        draw_line_index(lines, from + 1)
    } else if from > lines.len() {
        lines.len() as int
    } else {
        from
    }
}

/// Where the fingerprint goes: before the first line that begins with
/// `%LP` or `G` and follows the first `%MO` line; at the end where there is
/// no such line.
pub open spec fn insertion_index(lines: Seq<Seq<char>>) -> int {
    draw_line_index(lines, mode_line_index(lines, 0) + 1)
}

/// A text with the fingerprint line put in.
pub open spec fn with_line_inserted(content: Seq<char>, line: Seq<char>) -> Seq<char> {
    let lines = text_lines(content);
    join_lines(lines.insert(insertion_index(lines), line))
}

/// A text with its fingerprint, for a pick of the model and a base size in
/// hundredths.
pub open spec fn fingerprinted(
    content: Seq<char>,
    is_foreign_board_file: bool,
    pick: usize,
    base: u32,
) -> Seq<char> {
    let scanned = first_lines(text_lines(content), 200);
    let template = selected_template(definition_lines(scanned), pick);
    let id = selected_id(definition_ids(scanned), pick);
    let shifted = renumbered(content, id);
    let dimension = dimension_text(base, hash_suffix(hashed_text(shifted, is_foreign_board_file)));
    with_line_inserted(shifted, fingerprint_line(template, id, dimension))
}

/// The lines of a text.
pub fn lines_of(s: &[char]) -> (r: Vec<Vec<char>>)
    ensures
        line_views(r@) == text_lines(s@),
{
    let pieces = split(s);
    let ghost given = line_views(pieces@);
    let mut r: Vec<Vec<char>> = Vec::new();
    let mut i: usize = 0;
    while i + 1 < pieces.len()
        invariant
            i + 1 <= pieces.len(),
            given == line_views(pieces@),
            line_views(r@) == strip_all(given.drop_last().take(i as int)),
        decreases pieces.len() - i,
    {
        let piece = pieces[i].as_slice();
        let ghost before = line_views(r@);
        proof {
            assert(given[i as int] == piece@);
        }
        let end = if piece.len() > 0 && piece[piece.len() - 1] == '\r' {
            piece.len() - 1
        } else {
            piece.len()
        };
        let line = copy_range(piece, 0, end);
        proof {
            assert(line@ =~= strip_cr(piece@));
        }
        r.push(line);
        proof {
            assert(line_views(r@) =~= before.push(strip_cr(piece@)));
            assert(strip_all(given.drop_last().take(i + 1)) =~= strip_all(
                given.drop_last().take(i as int),
            ).push(strip_cr(piece@)));
        }
        i += 1;
    }
    proof {
        assert(given.drop_last().take(i as int) == given.drop_last());
    }
    let last = pieces[pieces.len() - 1].as_slice();
    proof {
        assert(given.last() == last@);
    }
    if last.len() > 0 {
        let ghost before = line_views(r@);
        let line = copy_range(last, 0, last.len());
        assert(line@ =~= last@);
        r.push(line);
        assert(line_views(r@) =~= before.push(last@));
    }
    r
}

/// Finds the aperture definitions among the first 200 lines: the lines, and
/// the numbers they define.
pub fn scan_for_aperture_definitions(p: &Patterns, content_lines: &Vec<Vec<char>>) -> (r: (
    Vec<Vec<char>>,
    Vec<u32>,
))
    requires
        p.wf(),
    ensures
        line_views(r.0@) == definition_lines(first_lines(line_views(content_lines@), 200)),
        r.1@ == definition_ids(first_lines(line_views(content_lines@), 200)),
        r.0.len() == r.1.len(),
{
    let ghost all = line_views(content_lines@);
    let ghost scanned = first_lines(all, 200);
    let limit: usize = if content_lines.len() <= 200 {
        content_lines.len()
    } else {
        200
    };
    let mut definitions: Vec<Vec<char>> = Vec::new();
    let mut ids: Vec<u32> = Vec::new();
    let mut i: usize = 0;
    while i < limit
        invariant
            i <= limit <= content_lines.len(),
            limit == scanned.len(),
            p.wf(),
            all == line_views(content_lines@),
            scanned == first_lines(all, 200),
            line_views(definitions@) == definition_lines(scanned.take(i as int)),
            ids@ == definition_ids(scanned.take(i as int)),
            definitions.len() == ids.len(),
        decreases limit - i,
    {
        let line = content_lines[i].as_slice();
        let ghost before = line_views(definitions@);
        proof {
            assert(scanned.take(i + 1).drop_last() == scanned.take(i as int));
            assert(scanned.take(i + 1).last() == line@);
        }
        let groups = p.definition.captures(line);
        match group(&groups, 1) {
            Some(digits) => match parse_u32(digits.as_slice()) {
                Some(id) => {
                    definitions.push(copy_range(line, 0, line.len()));
                    ids.push(id);
                    proof {
                        assert(line@.subrange(0, line@.len() as int) == line@);
                        assert(line_views(definitions@) =~= before.push(line@));
                    }
                },
                None => {},
            },
            None => {},
        }
        i += 1;
    }
    proof {
        assert(scanned.take(scanned.len() as int) == scanned);
    }
    (definitions, ids)
}

/// Chooses the definition that is the model, and the number that the
/// fingerprint takes.
pub fn select_injection_template(
    existing_definitions: &Vec<Vec<char>>,
    existing_aperture_ids: &Vec<u32>,
    pick: usize,
) -> (r: (Option<Vec<char>>, u32))
    requires
        existing_definitions.len() == existing_aperture_ids.len(),
    ensures
        match selected_template(line_views(existing_definitions@), pick) {
            Some(t) => r.0.is_some() && r.0.unwrap()@ == t,
            None => r.0.is_none(),
        },
        r.1 == selected_id(existing_aperture_ids@, pick),
{
    let count = existing_definitions.len();
    if count == 0 {
        return (None, 10);
    }
    let index = if count > 5 && 5 <= pick && pick < count {
        pick
    } else {
        count - 1
    };
    let model = existing_definitions[index].as_slice();
    let template = copy_range(model, 0, model.len());
    proof {
        assert(template@ =~= line_views(existing_definitions@)[index as int]);
    }
    (Some(template), existing_aperture_ids[index])
}

/// Renumbers one line.
fn renumber_line(p: &Patterns, line: &[char], injection_aperture_id: u32) -> (r: Vec<char>)
    requires
        p.wf(),
    ensures
        r@ == renumbered_line(line@, injection_aperture_id),
{
    let groups = p.renumber.captures(line);
    match (group(&groups, 1), group(&groups, 2), group(&groups, 3)) {
        (Some(prefix), Some(digits), Some(suffix)) => {
            let number = match parse_u32(digits.as_slice()) {
                Some(n) => n,
                None => 0,
            };
            if number >= injection_aperture_id && number < 9999 {
                let mut r = copy_range(prefix.as_slice(), 0, prefix.len());
                assert(r@ =~= prefix@);
                let n = decimal_chars((number + 1) as u64);
                extend_chars(&mut r, n.as_slice());
                extend_chars(&mut r, suffix.as_slice());
                return r;
            }
        },
        _ => {},
    }
    let r = copy_range(line, 0, line.len());
    proof {
        assert(line@.subrange(0, line@.len() as int) == line@);
    }
    r
}

/// Raises by one every aperture number from `injection_aperture_id` on, to
/// make room for the fingerprint.
pub fn renumber_apertures(p: &Patterns, content: &[char], injection_aperture_id: u32) -> (r:
    Vec<char>)
    requires
        p.wf(),
    ensures
        r@ == renumbered(content@, injection_aperture_id),
{
    let lines = split(content);
    let ghost given = line_views(lines@);
    let mut out: Vec<Vec<char>> = Vec::new();
    let mut i: usize = 0;
    while i < lines.len()
        invariant
            i <= lines.len(),
            p.wf(),
            given == line_views(lines@),
            line_views(out@) == renumbered_lines(given.take(i as int), injection_aperture_id),
        decreases lines.len() - i,
    {
        let line = lines[i].as_slice();
        let ghost before = line_views(out@);
        proof {
            assert(given[i as int] == line@);
        }
        out.push(renumber_line(p, line, injection_aperture_id));
        proof {
            let now = renumbered_line(line@, injection_aperture_id);
            assert(line_views(out@) =~= before.push(now));
            assert(renumbered_lines(given.take(i + 1), injection_aperture_id)
                =~= renumbered_lines(given.take(i as int), injection_aperture_id).push(now));
        }
        i += 1;
    }
    proof {
        assert(given.take(given.len() as int) == given);
    }
    join(&out)
}

/// The size of the fingerprint for a base size in hundredths and the two
/// digits of a digest.
pub fn format_dimension(base: u32, suffix: u8) -> (r: Vec<char>)
    ensures
        r@ == dimension_text(base, suffix as nat),
{
    if base == 0 && suffix == 0 {
        return to_chars("0.0100");
    }
    let mut r = decimal_chars((base / 100) as u64);
    extend_str(&mut r, ".");
    let cents = fixed_chars((base % 100) as u64, 2);
    extend_chars(&mut r, cents.as_slice());
    let tail = fixed_chars(suffix as u64, 2);
    extend_chars(&mut r, tail.as_slice());
    r
}

/// Draws the size of the fingerprint from the digest of the text.
pub fn generate_hashed_dimension(
    content_with_shifted_ids: &[char],
    is_foreign_board_file: bool,
    base: u32,
) -> (r: Vec<char>)
    ensures
        r@ == dimension_text(
            base,
            hash_suffix(hashed_text(content_with_shifted_ids@, is_foreign_board_file)),
        ),
{
    let mut data: Vec<char> = Vec::new();
    if is_foreign_board_file {
        extend_str(&mut data, "494d");
        assert(data@ =~= "494d"@);
    }
    extend_chars(&mut data, content_with_shifted_ids);
    assert(data@ =~= hashed_text(content_with_shifted_ids@, is_foreign_board_file));
    let text = from_chars(data.as_slice());
    let digest = md5_of(text.as_str().as_bytes());
    let suffix: u8 = if digest.len() == 0 {
        0
    } else {
        digest[digest.len() - 1] % 100
    };
    format_dimension(base, suffix)
}

/// Writes the definition line of the fingerprint.
pub fn create_fingerprint_aperture_line(
    p: &Patterns,
    template_definition_line: Option<Vec<char>>,
    injection_aperture_id: u32,
    final_dimension_str: &[char],
) -> (r: Vec<char>)
    requires
        p.wf(),
    ensures
        r@ == fingerprint_line(
            match template_definition_line {
                Some(t) => Some(t@),
                None => None,
            },
            injection_aperture_id,
            final_dimension_str@,
        ),
{
    let mut head: Vec<char> = Vec::new();
    extend_str(&mut head, "%ADD");
    assert(head@ =~= "%ADD"@);
    let number = decimal_chars(injection_aperture_id as u64);
    extend_chars(&mut head, number.as_slice());
    match template_definition_line {
        Some(template) => {
            let mut size: Vec<char> = Vec::new();
            extend_str(&mut size, ",");
            assert(size@ =~= ","@);
            extend_chars(&mut size, final_dimension_str);
            let sized = p.size.replace_first(template.as_slice(), size.as_slice());
            p.id.replace_first(sized.as_slice(), head.as_slice())
        },
        None => {
            extend_str(&mut head, "C,");
            extend_chars(&mut head, final_dimension_str);
            extend_str(&mut head, "*%");
            head
        },
    }
}

/// Finds the first line at or after `from` that begins with one of two
/// texts.
fn find_line(lines: &Vec<Vec<char>>, from: usize, a: &str, b: &str) -> (r: usize)
    requires
        from <= lines.len(),
    ensures
        from <= r <= lines.len(),
        forall|k: int|
            from <= k < r ==> !(has_prefix(#[trigger] line_views(lines@)[k], a@) || has_prefix(
                line_views(lines@)[k],
                b@,
            )),
        r < lines.len() ==> has_prefix(line_views(lines@)[r as int], a@) || has_prefix(
            line_views(lines@)[r as int],
            b@,
        ),
{
    let pa = to_chars(a);
    let pb = to_chars(b);
    let mut r: usize = from;
    while r < lines.len()
        invariant
            from <= r <= lines.len(),
            pa@ == a@,
            pb@ == b@,
            forall|k: int|
                from <= k < r ==> !(has_prefix(#[trigger] line_views(lines@)[k], a@) || has_prefix(
                    line_views(lines@)[k],
                    b@,
                )),
        decreases lines.len() - r,
    {
        let line = lines[r].as_slice();
        proof {
            assert(line_views(lines@)[r as int] == line@);
        }
        if starts_with(line, pa.as_slice()) || starts_with(line, pb.as_slice()) {
            return r;
        }
        r += 1;
    }
    r
}

/// An index that is known to be the first `%MO` line is the one
/// `mode_line_index` gives.
proof fn lemma_mode_line_index(lines: Seq<Seq<char>>, from: int, at: int)
    requires
        0 <= from <= at <= lines.len(),
        forall|k: int| from <= k < at ==> !has_prefix(#[trigger] lines[k], "%MO"@),
        at < lines.len() ==> has_prefix(lines[at], "%MO"@),
    ensures
        mode_line_index(lines, from) == at,
    decreases at - from,
{
    if from < at {
        lemma_mode_line_index(lines, from + 1, at);
    }
}

/// An index that is known to be the first `%LP` or `G` line is the one
/// `draw_line_index` gives.
proof fn lemma_draw_line_index(lines: Seq<Seq<char>>, from: int, at: int)
    requires
        0 <= from <= at <= lines.len(),
        forall|k: int|
            from <= k < at ==> !(has_prefix(#[trigger] lines[k], "%LP"@) || has_prefix(
                lines[k],
                "G"@,
            )),
        at < lines.len() ==> has_prefix(lines[at], "%LP"@) || has_prefix(lines[at], "G"@),
    ensures
        draw_line_index(lines, from) == at,
    decreases at - from,
{
    if from < at {
        lemma_draw_line_index(lines, from + 1, at);
    }
}

/// Puts the fingerprint line into the text: before the first drawing
/// command that follows the unit section, or at the end.
pub fn insert_new_aperture_line(content_with_shifted_ids: &str, final_fingerprint_line: &str) -> (r:
    String)
    ensures
        r@ == with_line_inserted(content_with_shifted_ids@, final_fingerprint_line@),
{
    let text = to_chars(content_with_shifted_ids);
    let line = to_chars(final_fingerprint_line);
    let r = insert_line(text.as_slice(), line);
    from_chars(r.as_slice())
}

/// As [`insert_new_aperture_line`], on characters.
fn insert_line(content: &[char], line: Vec<char>) -> (r: Vec<char>)
    ensures
        r@ == with_line_inserted(content@, line@),
{
    let mut lines = lines_of(content);
    let ghost given = line_views(lines@);
    let mode = find_line(&lines, 0, "%MO", "%MO");
    proof {
        lemma_mode_line_index(given, 0, mode as int);
    }
    let at = if mode < lines.len() {
        let at = find_line(&lines, mode + 1, "%LP", "G");
        proof {
            lemma_draw_line_index(given, mode + 1, at as int);
        }
        at
    } else {
        lines.len()
    };
    let ghost v = line@;
    lines.insert(at, line);
    proof {
        assert(line_views(lines@) =~= given.insert(at as int, v));
    }
    join(&lines)
}

/// The number of aperture definitions among the first 200 lines of a text.
pub open spec fn definition_count(content: Seq<char>) -> nat {
    definition_lines(first_lines(text_lines(content), 200)).len()
}

/// What marking a text gives, for a pick of the model and a base size in
/// hundredths: the text with its fingerprint, or the text itself where it
/// has more than 30 000 000 bytes.
pub open spec fn marked(content: Seq<char>, is_foreign_board_file: bool, pick: usize, base: u32) -> Seq<
    char,
> {
    if encode_utf8(content).len() > 30_000_000 {
        content
    } else {
        fingerprinted(content, is_foreign_board_file, pick, base)
    }
}

/// Puts the fingerprint into a text whose definitions have been found.
fn mark(
    p: &Patterns,
    text: &[char],
    definitions: &Vec<Vec<char>>,
    ids: &Vec<u32>,
    is_foreign_board_file: bool,
    pick: usize,
    base: u32,
) -> (r: String)
    requires
        p.wf(),
        line_views(definitions@) == definition_lines(first_lines(text_lines(text@), 200)),
        ids@ == definition_ids(first_lines(text_lines(text@), 200)),
        definitions.len() == ids.len(),
    ensures
        r@ == fingerprinted(text@, is_foreign_board_file, pick, base),
{
    let (template, id) = select_injection_template(definitions, ids, pick);
    let shifted = renumber_apertures(p, text, id);
    let dimension = generate_hashed_dimension(shifted.as_slice(), is_foreign_board_file, base);
    let line = create_fingerprint_aperture_line(p, template, id, dimension.as_slice());
    let marked = insert_line(shifted.as_slice(), line);
    from_chars(marked.as_slice())
}

/// Marks a Gerber text with a fingerprint, for a given pick of the model
/// and a given base size in hundredths.
///
/// The pick counts where the text has more than five aperture definitions
/// among its first 200 lines and the pick is the index of the sixth or a
/// later one; otherwise the last definition is the model.
pub fn add_fingerprint_with(
    gerber_content: &str,
    is_foreign_board_file: bool,
    pick: usize,
    base: u32,
) -> (r: String)
    ensures
        r@ == marked(gerber_content@, is_foreign_board_file, pick, base),
{
    if gerber_content.as_bytes().len() > 30_000_000 {
        return gerber_content.to_owned();
    }
    let p = Patterns::new();
    let text = to_chars(gerber_content);
    let content_lines = lines_of(text.as_slice());
    let (definitions, ids) = scan_for_aperture_definitions(&p, &content_lines);
    mark(&p, text.as_slice(), &definitions, &ids, is_foreign_board_file, pick, base)
}

/// Marks a Gerber text with a fingerprint.
///
/// The file's aperture definitions among its first 200 lines are found;
/// one of them is the model: the last one where there are five or fewer,
/// else one picked at random from the sixth on. Every aperture number from
/// the model's on is raised by one, and a definition with the model's
/// number is put in, before the first drawing command. Its size is a base
/// of 0.00 to 1.00 picked at random, followed by two digits of the MD5
/// digest of the renumbered text.
///
/// A text of more than 30 000 000 bytes comes back unchanged.
pub fn add_fingerprint(gerber_content: &str, is_foreign_board_file: bool) -> (r: String)
    ensures
        exists|pick: usize, base: u32|
            base <= 100 && (definition_count(gerber_content@) > 5 ==> 5 <= pick
                < definition_count(gerber_content@)) && r@ == #[trigger] marked(
                gerber_content@,
                is_foreign_board_file,
                pick,
                base,
            ),
{
    if gerber_content.as_bytes().len() > 30_000_000 {
        let r = gerber_content.to_owned();
        assert(0 <= 100 && (definition_count(gerber_content@) > 5 ==> 5 <= 5usize
            < definition_count(gerber_content@)) && r@ == marked(
            gerber_content@,
            is_foreign_board_file,
            5usize,
            0u32,
        ));
        return r;
    }
    let p = Patterns::new();
    let text = to_chars(gerber_content);
    let content_lines = lines_of(text.as_slice());
    let (definitions, ids) = scan_for_aperture_definitions(&p, &content_lines);
    let pick = if definitions.len() > 5 {
        random_index(5, definitions.len())
    } else {
        0
    };
    let base = random_u32(0, 100);
    let r = mark(&p, text.as_slice(), &definitions, &ids, is_foreign_board_file, pick, base);
    proof {
        assert(line_views(definitions@).len() == definitions.len());
        assert(base <= 100 && (definition_count(gerber_content@) > 5 ==> 5 <= pick
            < definition_count(gerber_content@)) && r@ == marked(
            gerber_content@,
            is_foreign_board_file,
            pick,
            base,
        ));
    }
    r
}

} // verus!
