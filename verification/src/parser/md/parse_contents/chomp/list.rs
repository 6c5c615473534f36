//! Lists: consecutive lines that start with `*`, or with one character and `)`.

use crate::outcome::{Item, ItemView, Location, Res, ResView};
use crate::parser::md::parse_contents::content_ir::{
    lemma_child_models,
    push_node,
    ContentIr,
    IrView,
};
use crate::parser::md::parse_contents::weight::{
    fragment_weight,
    lemma_single_weight,
    lemma_suppressed,
    lemma_unsuppressed_bound,
    lemma_weight_concat,
    node_weight,
    nodes_weight,
    unsuppressed,
};
use crate::parser::md::parse_contents::{execute, execute_spec, Options, Validations};
use crate::text::{
    index_in_range,
    index_of,
    index_of_exec,
    lemma_index_of,
    string_of_range,
    to_chars,
};
use vstd::string::StringExecFns;
use vstd::prelude::*;

verus! {

/// How the items of a list are counted.
#[derive(Clone, Copy, Debug, PartialEq, Eq, Structural)]
pub enum ListKind {
    Numeric,
    Alphabetic,
    Unordered,
}

/// Whether the position `i` of `t` is the start of a line.
pub open spec fn at_line_start(t: Seq<char>, i: int) -> bool {
    i == 0 || (0 < i <= t.len() && t[i - 1] == '\n')
}

/// Whether the line that starts at `i` has the marker of an item: it starts with
/// `*`, or its second character is `)`.
pub open spec fn has_marker(t: Seq<char>, i: int) -> bool {
    &&& 0 <= i < t.len()
    &&& (t[i] == '*' || (t[i] != '\n' && i + 1 < t.len() && t[i + 1] == ')'))
}

/// Where the item that starts at `i` ends: at the line feed of its line. There is
/// none where no line starts at `i`, where the line has no marker, or where no line
/// feed ends it.
pub open spec fn item_end(t: Seq<char>, i: int) -> Option<int> {
    if at_line_start(t, i) && has_marker(t, i) {
        index_of(t, '\n', i)
    } else {
        None
    }
}

/// The first position at or after `from` at which an item starts.
pub open spec fn list_start(t: Seq<char>, from: int) -> Option<int>
    decreases t.len() - from,
{
    if from < 0 || from >= t.len() {
        None
    } else if item_end(t, from).is_some() {
        Some(from)
    } else {
        list_start(t, from + 1)
    }
}

/// Where the run of items that starts at `i` ends: right after the line feed of
/// its last item, or at `i` where no item starts there.
pub open spec fn list_end(t: Seq<char>, i: int) -> int
    decreases t.len() - i,
{
    match item_end(t, i) {
        Some(end) => {
            proof {
                lemma_index_of(t, '\n', i);
            }
            list_end(t, end + 1)
        },
        None => i,
    }
}

/// The kind of the list whose first item is `first`: numeric where it starts with
/// `1)` or `2)`, alphabetic where it starts with `a)` or `A)`, else unordered.
pub open spec fn list_kind(first: Seq<char>) -> ListKind {
    if first.len() >= 2 && first[1] == ')' && (first[0] == '1' || first[0] == '2') {
        ListKind::Numeric
    } else if first.len() >= 2 && first[1] == ')' && (first[0] == 'a' || first[0] == 'A') {
        ListKind::Alphabetic
    } else {
        ListKind::Unordered
    }
}

/// What is parsed for the item `item` of a list of the kind `kind`, and under
/// which mask. In an ordered list it is what follows the first `)` of the item; an
/// item without `)` is malformed and has none. In an unordered list it is the item
/// without its leading `* `, or the whole item, with lists suppressed, where it
/// does not start so.
pub open spec fn item_content(item: Seq<char>, kind: ListKind, m: Validations) -> Option<
    (Seq<char>, Validations),
> {
    match kind {
        ListKind::Unordered => if item.len() >= 2 && item[0] == '*' && item[1] == ' ' {
            Some((item.subrange(2, item.len() as int), m))
        } else {
            Some((item, Validations { skip_list: true, ..m }))
        },
        _ => match index_of(item, ')', 0) {
            Some(close) => Some((item.subrange(close + 1, item.len() as int), m)),
            None => None,
        },
    }
}

/// The failure for an item of an ordered list that holds no `)`.
pub open spec fn malformed_item_message() -> Seq<char> {
    "You have an ordered list that is not well formed! Likely missing a paren."@
}

/// The failure for an item whose parse gives more than one warning.
pub open spec fn item_warnings_message() -> Seq<char> {
    "A list item gave more than one warning!"@
}

/// The weight of the fragment `t` for the list operator: that of `t` under `m` with
/// lists not suppressed.
pub open spec fn list_weight(t: Seq<char>, m: Validations) -> nat {
    16 * t.len() + unsuppressed(Validations { skip_list: false, ..m }) + 1
}

/// The options under which an item is parsed: no paragraphs, no cards.
pub open spec fn item_options() -> Options {
    Options { make_cards: false, make_paragraphs: false }
}

/// The weight of the item `item` of a list under the mask `m`.
pub open spec fn item_weight(item: Seq<char>, m: Validations) -> nat {
    16 * item.len() + unsuppressed(Validations { skip_list: false, ..m }) + 17
}

/// The tree of the item `item` of a list of the kind `kind`: what its content
/// parses to. An item that is malformed, or whose parse fails or gives more than
/// one warning, has none, but the message of its failure.
pub open spec fn parsed_item(item: Seq<char>, kind: ListKind, m: Validations) -> Result<
    IrView,
    Seq<char>,
>
    decreases item_weight(item, m), 2int, 0int,
{
    match item_content(item, kind, m) {
        None => Err(malformed_item_message()),
        Some((content, mask)) => {
            proof {
                lemma_index_of(item, ')', 0);
                lemma_suppressed(
                    Validations { skip_list: false, ..m },
                    Validations { skip_list: true, ..m },
                );
                lemma_suppressed(Validations { skip_list: false, ..m }, m);
            }
            match execute_spec(content, Location::spec_nowhere(), item_options(), Some(mask)) {
                ResView::Error { msg, .. } => Err(msg),
                ResView::Warnings { .. } => Err(item_warnings_message()),
                parsed => Ok(parsed.payload()->0.item),
            }
        },
    }
}

/// The trees of the items of the run that starts at `i`, in order. The first item
/// that has no tree fails the run with its message.
pub open spec fn list_items(t: Seq<char>, i: int, kind: ListKind, m: Validations) -> Result<
    Seq<IrView>,
    Seq<char>,
>
    decreases list_weight(t, m), 3int, t.len() - i,
{
    match item_end(t, i) {
        None => Ok(Seq::<IrView>::empty()),
        Some(end) => {
            proof {
                lemma_index_of(t, '\n', i);
            }
            match parsed_item(t.subrange(i, end), kind, m) {
                Err(msg) => Err(msg),
                Ok(tree) => match list_items(t, end + 1, kind, m) {
                    Ok(rest) => Ok(seq![tree] + rest),
                    Err(msg) => Err(msg),
                },
            }
        },
    }
}

/// The node for a list of the kind `kind` with the items `items`.
pub open spec fn list_node(kind: ListKind, items: Seq<IrView>) -> IrView {
    match kind {
        ListKind::Numeric => IrView::OrderedList { items, numeric: true },
        ListKind::Alphabetic => IrView::OrderedList { items, numeric: false },
        ListKind::Unordered => IrView::UnorderedList { items },
    }
}

/// The outcome of the list operator where it matched with `nodes`, or did not
/// match.
pub open spec fn list_outcome(nodes: Option<Seq<IrView>>) -> ResView<Option<Seq<IrView>>> {
    ResView::Success(ItemView { item: nodes, location: None })
}

/// What the list operator makes of the fragment `t` with the mask `m`: the text
/// before the first item, with lists suppressed on it; the list of the run of items
/// that starts there, of the kind that its first item gives it; and the text after
/// the run, with `m`. Both fragments are there even where they are empty. A run
/// that fails fails the operator.
pub open spec fn list_spec(t: Seq<char>, opts: Options, m: Validations) -> ResView<
    Option<Seq<IrView>>,
>
    decreases list_weight(t, m), 4int, 0int,
{
    match list_start(t, 0) {
        None => list_outcome(None),
        Some(start) => {
            let first = t.subrange(start, item_end(t, start)->0);
            let kind = list_kind(first);
            match list_items(t, start, kind, m) {
                Err(msg) => ResView::Error { location: None, msg },
                Ok(items) => list_outcome(
                    Some(
                        seq![
                            IrView::Unparsed {
                                contents: t.subrange(0, start),
                                validations: Validations { skip_list: true, ..m },
                            },
                            list_node(kind, items),
                            IrView::Unparsed {
                                contents: t.subrange(list_end(t, start), t.len() as int),
                                validations: m,
                            },
                        ],
                    ),
                ),
            }
        },
    }
}

/// An item lies within the text and ends at the first line feed of its line.
pub proof fn lemma_item_end(t: Seq<char>, i: int)
    ensures
        match item_end(t, i) {
            Some(end) => 0 <= i < end < t.len() && t[end] == '\n' && forall|k: int|
                i <= k < end ==> t[k] != '\n',
            None => true,
        },
{
    if at_line_start(t, i) && has_marker(t, i) {
        lemma_index_of(t, '\n', i);
    }
}

proof fn lemma_list_start(t: Seq<char>, from: int)
    requires
        0 <= from,
    ensures
        match list_start(t, from) {
            Some(i) => from <= i < t.len() && item_end(t, i).is_some(),
            None => true,
        },
    decreases t.len() - from,
{
    if from < t.len() && item_end(t, from).is_none() {
        lemma_list_start(t, from + 1);
    }
}

/// A run of items ends within the text, after the line feed of its first item.
pub proof fn lemma_list_end(t: Seq<char>, i: int)
    requires
        0 <= i <= t.len(),
    ensures
        i <= list_end(t, i) <= t.len(),
        item_end(t, i) matches Some(end) ==> end < list_end(t, i),
    decreases t.len() - i,
{
    lemma_item_end(t, i);
    if let Some(end) = item_end(t, i) {
        lemma_list_end(t, end + 1);
    }
}

/// What the list operator returns weighs less than the fragment it was given.
#[verifier::rlimit(40)]
pub proof fn lemma_list_weight(t: Seq<char>, opts: Options, m: Validations, m0: Validations)
    requires
        unsuppressed(m) <= unsuppressed(m0),
    ensures
        match list_spec(t, opts, m) {
            ResView::Success(item) => item.location.is_none() && (item.item matches Some(nodes)
                ==> nodes_weight(nodes) < fragment_weight(t, m0)),
            ResView::Error { location, .. } => location.is_none(),
            _ => false,
        },
{
    lemma_list_start(t, 0);
    if let Some(start) = list_start(t, 0) {
        lemma_list_end(t, start);
        lemma_item_end(t, start);
        if let ResView::Success(item) = list_spec(t, opts, m) {
            let nodes = item.item->0;
            lemma_three_weight(nodes[0], nodes[1], nodes[2]);
            assert(nodes =~= seq![nodes[0], nodes[1], nodes[2]]);
            lemma_suppressed(m, Validations { skip_list: true, ..m });
            lemma_unsuppressed_bound(m0);
        }
    }
}

/// Three nodes weigh the sum of their weights.
proof fn lemma_three_weight(a: IrView, b: IrView, c: IrView)
    ensures
        nodes_weight(seq![a, b, c]) == node_weight(a) + node_weight(b) + node_weight(c),
{
    lemma_single_weight(a);
    lemma_single_weight(b);
    lemma_single_weight(c);
    lemma_weight_concat(seq![a], seq![b]);
    lemma_weight_concat(seq![a, b], seq![c]);
    assert(seq![a] + seq![b] =~= seq![a, b]);
    assert(seq![a, b] + seq![c] =~= seq![a, b, c]);
}

/// Where the item that starts at `i` ends.
fn item_end_exec(chars: &Vec<char>, i: usize) -> (r: Option<usize>)
    ensures
        match r {
            Some(end) => item_end(chars@, i as int) == Some(end as int),
            None => item_end(chars@, i as int).is_none(),
        },
{
    let len = chars.len();
    if i >= len {
        return None;
    }
    if i > 0 && chars[i - 1] != '\n' {
        return None;
    }
    let c = chars[i];
    let marker = c == '*' || (c != '\n' && i + 1 < len && chars[i + 1] == ')');
    if !marker {
        return None;
    }
    index_of_exec(chars, '\n', i)
}

/// The kind of the list whose first item is `chars[from..to]`.
fn list_kind_exec(chars: &Vec<char>, from: usize, to: usize) -> (kind: ListKind)
    requires
        from <= to <= chars@.len(),
    ensures
        kind == list_kind(chars@.subrange(from as int, to as int)),
{
    if to - from >= 2 && chars[from + 1] == ')' {
        let c = chars[from];
        if c == '1' || c == '2' {
            return ListKind::Numeric;
        }
        if c == 'a' || c == 'A' {
            return ListKind::Alphabetic;
        }
    }
    ListKind::Unordered
}

/// Parses the content `s` of an item under the mask `validations`: its tree, or
/// the message of the failure.
pub fn map_contents(s: String, opts: Options, validations: &Validations) -> (r: Result<
    ContentIr,
    String,
>)
    ensures
        match execute_spec(s@, Location::spec_nowhere(), opts, Some(*validations)) {
            ResView::Error { msg, .. } => r matches Err(e) && e@ == msg,
            ResView::Warnings { .. } => r matches Err(e) && e@ == item_warnings_message(),
            parsed => r matches Ok(item) && item.deep_view() == parsed.payload()->0.item,
        },
    decreases fragment_weight(s@, *validations) + 16, 10int, 0int,
{
    match execute(s, Location::nowhere(), opts, Some(*validations)) {
        Res::Success(item) => Ok(item.item),
        Res::Warn { item, .. } => Ok(item.item),
        Res::Warnings { .. } => Err(String::from_str("A list item gave more than one warning!")),
        Res::Error { msg, .. } => Err(msg),
    }
}

/// Where the content of the item `chars[from..to]` starts, and the mask under
/// which it is parsed.
#[verifier::rlimit(40)]
fn item_content_exec(chars: &Vec<char>, from: usize, to: usize, kind: ListKind, m: Validations) -> (r:
    Option<(usize, Validations)>)
    requires
        from <= to <= chars@.len(),
    ensures
        match r {
            Some((start, mask)) => {
                &&& from <= start <= to
                &&& item_content(chars@.subrange(from as int, to as int), kind, m) == Some(
                    (chars@.subrange(start as int, to as int), mask),
                )
                &&& (mask == m && from < start) || (mask == Validations { skip_list: true, ..m })
            },
            None => item_content(chars@.subrange(from as int, to as int), kind, m).is_none(),
        },
{
    let ghost item = chars@.subrange(from as int, to as int);
    let (start, mask) = match kind {
        ListKind::Unordered => {
            if to - from >= 2 && chars[from] == '*' && chars[from + 1] == ' ' {
                (from + 2, m)
            } else {
                (from, Validations { skip_list: true, ..m })
            }
        },
        _ => {
            match index_in_range(chars, ')', from, to) {
                Some(close) => (close + 1, m),
                None => {
                    return None;
                },
            }
        },
    };
    assert(item.subrange(start - from, item.len() as int) =~= chars@.subrange(
        start as int,
        to as int,
    ));
    assert(item.subrange(0, item.len() as int) =~= item);
    Some((start, mask))
}

/// The tree of the item `chars[from..to]` of a list of the kind `kind`.
#[verifier::rlimit(40)]
fn parsed_item_exec(chars: &Vec<char>, from: usize, to: usize, kind: ListKind, m: Validations) -> (r:
    Result<ContentIr, String>)
    requires
        from <= to <= chars@.len(),
    ensures
        match parsed_item(chars@.subrange(from as int, to as int), kind, m) {
            Ok(tree) => r matches Ok(item) && item.deep_view() == tree,
            Err(msg) => r matches Err(e) && e@ == msg,
        },
    decreases item_weight(chars@.subrange(from as int, to as int), m), 2int, 0int,
{
    match item_content_exec(chars, from, to, kind, m) {
        None => Err(
            String::from_str(
                "You have an ordered list that is not well formed! Likely missing a paren.",
            ),
        ),
        Some((start, mask)) => {
            proof {
                lemma_suppressed(
                    Validations { skip_list: false, ..m },
                    Validations { skip_list: true, ..m },
                );
                lemma_suppressed(Validations { skip_list: false, ..m }, m);
            }
            let content = string_of_range(chars, start, to);
            map_contents(content, Options { make_cards: false, make_paragraphs: false }, &mask)
        },
    }
}

/// The failure of the list operator with the message `msg`.
fn list_failure(msg: String) -> (r: Res<Option<Vec<ContentIr>>>)
    ensures
        r.deep_view() == (ResView::<Option<Seq<IrView>>>::Error { location: None, msg: msg@ }),
{
    Res::Error { location: None, msg }
}

/// Finds the first item of `chars`: where it starts and where it ends.
fn list_start_exec(chars: &Vec<char>) -> (r: Option<(usize, usize)>)
    ensures
        match r {
            Some((start, end)) => list_start(chars@, 0) == Some(start as int) && item_end(
                chars@,
                start as int,
            ) == Some(end as int) && start < end < chars@.len(),
            None => list_start(chars@, 0).is_none(),
        },
{
    let len = chars.len();
    let mut start: usize = 0;
    while start < len
        invariant
            start <= len == chars@.len(),
            list_start(chars@, 0) == list_start(chars@, start as int),
        decreases len - start,
    {
        match item_end_exec(chars, start) {
            Some(end) => {
                proof {
                    lemma_item_end(chars@, start as int);
                }
                return Some((start, end));
            },
            None => {},
        }
        start += 1;
    }
    None
}

/// The list node of the kind `kind` with the items `items`.
fn list_node_exec(kind: ListKind, items: Vec<ContentIr>) -> (node: ContentIr)
    ensures
        node.deep_view() == list_node(kind, items.deep_view()),
{
    proof {
        lemma_child_models(items);
    }
    match kind {
        ListKind::Numeric => ContentIr::OrderedList { items, numeric: true },
        ListKind::Alphabetic => ContentIr::OrderedList { items, numeric: false },
        ListKind::Unordered => ContentIr::UnorderedList { items },
    }
}

/// Splits `contents` around its first list.
#[verifier::rlimit(40)]
pub fn list(contents: &String, opts: Options, validations: &Validations) -> (r: Res<
    Option<Vec<ContentIr>>,
>)
    ensures
        r.deep_view() == list_spec(contents@, opts, *validations),
    decreases list_weight(contents@, *validations), 4int, 0int,
{
    let chars = to_chars(contents.as_str());
    let len = chars.len();
    let m = *validations;
    let ghost t = chars@;
    let (start, first_end) = match list_start_exec(&chars) {
        Some(found) => found,
        None => {
            return Res::Success(Item { item: None, location: None });
        },
    };
    let kind = list_kind_exec(&chars, start, first_end);
    let mut items: Vec<ContentIr> = Vec::new();
    let mut cur: usize = start;
    let mut next: Option<usize> = Some(first_end);
    assert(items.deep_view() =~= Seq::<IrView>::empty());
    proof {
        let whole = list_items(t, start as int, kind, m);
        if let Ok(rest) = whole {
            assert(items.deep_view() + rest =~= rest);
        }
    }
    while next.is_some()
        invariant
            start <= cur <= len == t.len(),
            t == chars@,
            m == *validations,
            t == contents@,
            match next {
                Some(end) => item_end(t, cur as int) == Some(end as int),
                None => item_end(t, cur as int).is_none(),
            },
            list_end(t, start as int) == list_end(t, cur as int),
            list_spec(contents@, opts, *validations) == match list_items(t, start as int, kind, m) {
                Err(msg) => ResView::<Option<Seq<IrView>>>::Error { location: None, msg },
                Ok(all) => list_outcome(
                    Some(
                        seq![
                            IrView::Unparsed {
                                contents: t.subrange(0, start as int),
                                validations: Validations { skip_list: true, ..m },
                            },
                            list_node(kind, all),
                            IrView::Unparsed {
                                contents: t.subrange(list_end(t, start as int), t.len() as int),
                                validations: m,
                            },
                        ],
                    ),
                ),
            },
            list_items(t, start as int, kind, m) == match list_items(t, cur as int, kind, m) {
                Ok(rest) => Ok::<Seq<IrView>, Seq<char>>(items.deep_view() + rest),
                Err(msg) => Err(msg),
            },
        decreases len - cur,
    {
        let end = next.unwrap();
        proof {
            lemma_item_end(t, cur as int);
        }
        assert(item_weight(t.subrange(cur as int, end as int), m) <= list_weight(t, m));
        match parsed_item_exec(&chars, cur, end, kind, m) {
            Ok(tree) => {
                let ghost before = items.deep_view();
                push_node(&mut items, tree);
                proof {
                    if let Ok(rest) = list_items(t, end + 1, kind, m) {
                        assert(before + (seq![tree.deep_view()] + rest) =~= items.deep_view()
                            + rest);
                    }
                }
            },
            Err(msg) => {
                proof {
                    assert(list_items(t, start as int, kind, m) == Err::<Seq<IrView>, Seq<char>>(
                        msg@,
                    ));
                }
                return list_failure(msg);
            },
        }
        cur = end + 1;
        next = item_end_exec(&chars, cur);
    }
    proof {
        lemma_list_end(t, start as int);
        assert(items.deep_view() + Seq::<IrView>::empty() =~= items.deep_view());
    }
    let node = list_node_exec(kind, items);
    let mut ir: Vec<ContentIr> = Vec::new();
    ir.push(
        ContentIr::Unparsed {
            contents: string_of_range(&chars, 0, start),
            validations: Validations { skip_list: true, ..m },
        },
    );
    ir.push(node);
    ir.push(ContentIr::Unparsed { contents: string_of_range(&chars, cur, len), validations: m });
    assert(ir.deep_view() =~= seq![
        IrView::Unparsed {
            contents: t.subrange(0, start as int),
            validations: Validations { skip_list: true, ..m },
        },
        list_node(kind, items.deep_view()),
        IrView::Unparsed {
            contents: t.subrange(list_end(t, start as int), t.len() as int),
            validations: m,
        },
    ]);
    Res::Success(Item { item: Some(ir), location: None })
}

} // verus!
