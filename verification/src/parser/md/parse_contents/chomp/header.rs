//! Headings: a run of `#` at the start of a line, and the rest of that line.

use super::{fragment, push_fragment};
use crate::parser::md::parse_contents::content_ir::{push_node, ContentIr, IrView};
use crate::parser::md::parse_contents::Validations;
use crate::text::{
    index_of,
    index_of_exec,
    lemma_index_of,
    string_of,
    string_of_range,
    to_chars,
    trim,
    trim_range,
    without,
    without_exec,
};
use vstd::prelude::*;

verus! {

/// Whether a heading may start at `i`: `t[i]` is a `#` that stands at the very
/// beginning of `t` or right after a line feed.
pub open spec fn starts_heading(t: Seq<char>, i: int) -> bool {
    &&& 0 <= i < t.len()
    &&& t[i] == '#'
    &&& (i == 0 || t[i - 1] == '\n')
}

/// The first position at or after `from` at which a heading may start.
pub open spec fn heading_start(t: Seq<char>, from: int) -> Option<int>
    decreases t.len() - from,
{
    if from < 0 || from >= t.len() {
        None
    } else if starts_heading(t, from) {
        Some(from)
    } else {
        heading_start(t, from + 1)
    }
}

/// The end of the run of `#` that holds position `i`: the first position at or
/// after `i` that holds no `#`.
pub open spec fn hash_run_end(t: Seq<char>, i: int) -> int
    decreases t.len() - i,
{
    if 0 <= i < t.len() && t[i] == '#' {
        hash_run_end(t, i + 1)
    } else {
        i
    }
}

/// The end of the line that holds position `from`: the position of the next line
/// feed, or the end of the text where none follows.
pub open spec fn line_end(t: Seq<char>, from: int) -> int {
    match index_of(t, '\n', from) {
        Some(end) => end,
        None => t.len() as int,
    }
}

/// The first heading of `t`: where its run of `#` starts, where that run ends, and
/// where its line ends.
pub open spec fn header_match(t: Seq<char>) -> Option<(int, int, int)> {
    match heading_start(t, 0) {
        Some(start) => Some((start, hash_run_end(t, start), line_end(t, start))),
        None => None,
    }
}

/// The level of a heading whose run of `#` has the length `run`: that length, or
/// the greatest `u32` where it is longer.
pub open spec fn heading_level(run: int) -> u32 {
    if run > u32::MAX {
        u32::MAX
    } else {
        run as u32
    }
}

/// The node for a heading with the level `level` and the text `text`: none where
/// the text is empty. The id is the text without its `#` and its spaces.
pub open spec fn heading_node(level: u32, text: Seq<char>) -> Seq<IrView> {
    if text.len() > 0 {
        seq![IrView::Header { header_size: level, id: without(text, '#', ' '), text }]
    } else {
        Seq::<IrView>::empty()
    }
}

/// What the heading operator makes of the fragment `t` with the mask `m`: the text
/// before the first heading, with headings suppressed on it; the heading, whose
/// level is the length of its run of `#` and whose text is the rest of its line,
/// trimmed; and the text from the end of that line on, with `m`.
pub open spec fn header_spec(t: Seq<char>, m: Validations) -> Option<Seq<IrView>> {
    match header_match(t) {
        Some((start, run_end, end)) => Some(
            fragment(t.subrange(0, start), Validations { skip_header: true, ..m }) + heading_node(
                heading_level(run_end - start),
                trim(t.subrange(run_end, end)),
            ) + fragment(t.subrange(end, t.len() as int), m),
        ),
        None => None,
    }
}

proof fn lemma_heading_start(t: Seq<char>, from: int)
    requires
        0 <= from,
    ensures
        match heading_start(t, from) {
            Some(i) => from <= i && starts_heading(t, i) && forall|j: int|
                from <= j < i ==> !starts_heading(t, j),
            None => forall|j: int| from <= j ==> !starts_heading(t, j),
        },
    decreases t.len() - from,
{
    if from < t.len() && !starts_heading(t, from) {
        lemma_heading_start(t, from + 1);
    }
}

proof fn lemma_hash_run_end(t: Seq<char>, i: int)
    requires
        0 <= i <= t.len(),
    ensures
        i <= hash_run_end(t, i) <= t.len(),
        forall|k: int| i <= k < hash_run_end(t, i) ==> t[k] == '#',
        hash_run_end(t, i) < t.len() ==> t[hash_run_end(t, i)] != '#',
    decreases t.len() - i,
{
    if i < t.len() && t[i] == '#' {
        lemma_hash_run_end(t, i + 1);
    }
}

/// The first heading is the first place where one may start; its run of `#` is not
/// empty and ends within its line.
pub proof fn lemma_header_match(t: Seq<char>)
    ensures
        match header_match(t) {
            Some((start, run_end, end)) => {
                &&& starts_heading(t, start)
                &&& forall|j: int| 0 <= j < start ==> !starts_heading(t, j)
                &&& start < run_end <= end <= t.len()
                &&& forall|k: int| start <= k < run_end ==> t[k] == '#'
                &&& run_end < t.len() ==> t[run_end] != '#'
                &&& forall|k: int| start <= k < end ==> t[k] != '\n'
                &&& end < t.len() ==> t[end] == '\n'
            },
            None => forall|j: int| !starts_heading(t, j),
        },
{
    lemma_heading_start(t, 0);
    if let Some(start) = heading_start(t, 0) {
        lemma_hash_run_end(t, start);
        lemma_index_of(t, '\n', start);
        let run_end = hash_run_end(t, start);
        let end = line_end(t, start);
        if run_end > end {
            assert(t[end] == '#');
        }
    }
}

fn heading_start_exec(chars: &Vec<char>) -> (r: Option<usize>)
    ensures
        match r {
            Some(i) => heading_start(chars@, 0) == Some(i as int),
            None => heading_start(chars@, 0).is_none(),
        },
{
    let mut i: usize = 0;
    while i < chars.len()
        invariant
            heading_start(chars@, 0) == heading_start(chars@, i as int),
        decreases chars.len() - i,
    {
        if chars[i] == '#' && (i == 0 || chars[i - 1] == '\n') {
            return Some(i);
        }
        i += 1;
    }
    None
}

fn hash_run_end_exec(chars: &Vec<char>, start: usize) -> (r: usize)
    requires
        start <= chars@.len(),
    ensures
        r == hash_run_end(chars@, start as int),
        start <= r <= chars@.len(),
{
    let mut i: usize = start;
    while i < chars.len() && chars[i] == '#'
        invariant
            start <= i <= chars@.len(),
            hash_run_end(chars@, start as int) == hash_run_end(chars@, i as int),
        decreases chars.len() - i,
    {
        i += 1;
    }
    i
}

/// Splits `contents` around its first heading.
pub fn header(contents: &String, validations: &Validations) -> (r: Option<Vec<ContentIr>>)
    ensures
        r.deep_view() == header_spec(contents@, *validations),
{
    let chars = to_chars(contents.as_str());
    let len = chars.len();
    let start = match heading_start_exec(&chars) {
        Some(i) => i,
        None => {
            return None;
        },
    };
    proof {
        lemma_header_match(chars@);
    }
    let run_end = hash_run_end_exec(&chars, start);
    let end = match index_of_exec(&chars, '\n', start) {
        Some(i) => i,
        None => len,
    };
    let run: usize = run_end - start;
    let level: u32 = if run > u32::MAX as usize {
        u32::MAX
    } else {
        run as u32
    };
    let mut ir: Vec<ContentIr> = Vec::new();
    assert(ir.deep_view() =~= Seq::<IrView>::empty());
    push_fragment(&mut ir, &chars, 0, start, Validations { skip_header: true, ..*validations });
    let (lo, hi) = trim_range(&chars, run_end, end);
    if lo < hi {
        let id = without_exec(&chars, lo, hi, '#', ' ');
        push_node(
            &mut ir,
            ContentIr::Header {
                header_size: level,
                id: string_of(&id),
                text: string_of_range(&chars, lo, hi),
            },
        );
    }
    push_fragment(&mut ir, &chars, end, len, *validations);
    assert(ir.deep_view() =~= header_spec(contents@, *validations)->0);
    Some(ir)
}

} // verus!
