//! The order of texts by their characters, and sorting by it.

use vstd::prelude::*;

verus! {

/// Whether `a` comes before `b`, or is `b`, in the order of dictionaries: at the
/// first position where they differ `a` has the smaller character, or `a` ends
/// there.
pub open spec fn text_le(a: Seq<char>, b: Seq<char>) -> bool
    decreases a.len(),
{
    if a.len() == 0 {
        true
    } else if b.len() == 0 {
        false
    } else if a[0] != b[0] {
        (a[0] as u32) < (b[0] as u32)
    } else {
        text_le(a.drop_first(), b.drop_first())
    }
}

/// Any two texts are ordered one way or the other.
pub proof fn lemma_text_le_total(a: Seq<char>, b: Seq<char>)
    ensures
        text_le(a, b) || text_le(b, a),
    decreases a.len(),
{
    if a.len() > 0 && b.len() > 0 {
        if a[0] == b[0] {
            lemma_text_le_total(a.drop_first(), b.drop_first());
        } else {
            vstd::utf8::char_u32_cast(a[0], a[0] as u32);
            vstd::utf8::char_u32_cast(b[0], b[0] as u32);
        }
    }
}

/// What is before what is before a text is before that text.
pub proof fn lemma_text_le_transitive(a: Seq<char>, b: Seq<char>, c: Seq<char>)
    requires
        text_le(a, b),
        text_le(b, c),
    ensures
        text_le(a, c),
    decreases a.len(),
{
    if a.len() > 0 && b.len() > 0 && c.len() > 0 && a[0] == b[0] && b[0] == c[0] {
        lemma_text_le_transitive(a.drop_first(), b.drop_first(), c.drop_first());
    }
}

/// Whether `a[i..]` comes before `b[i..]` or is the same.
fn text_le_from(a: &Vec<char>, b: &Vec<char>, from: usize) -> (r: bool)
    requires
        from <= a@.len(),
        from <= b@.len(),
    ensures
        r == text_le(a@.subrange(from as int, a@.len() as int), b@.subrange(from as int, b@.len() as int)),
    decreases a@.len() - from,
{
    let ghost x = a@.subrange(from as int, a@.len() as int);
    let ghost y = b@.subrange(from as int, b@.len() as int);
    if from >= a.len() {
        return true;
    }
    if from >= b.len() {
        return false;
    }
    let c = a[from];
    let d = b[from];
    if c != d {
        return (c as u32) < (d as u32);
    }
    assert(x.drop_first() =~= a@.subrange(from + 1, a@.len() as int));
    assert(y.drop_first() =~= b@.subrange(from + 1, b@.len() as int));
    text_le_from(a, b, from + 1)
}

/// Whether `a` comes before `b` or is the same.
pub fn text_le_exec(a: &Vec<char>, b: &Vec<char>) -> (r: bool)
    ensures
        r == text_le(a@, b@),
{
    assert(a@.subrange(0, a@.len() as int) =~= a@);
    assert(b@.subrange(0, b@.len() as int) =~= b@);
    text_le_from(a, b, 0)
}

/// Whether `keys` is in order, from the least on.
pub open spec fn ascending(keys: Seq<Seq<char>>) -> bool {
    forall|i: int, j: int| 0 <= i <= j < keys.len() ==> text_le(keys[i], keys[j])
}

} // verus!
