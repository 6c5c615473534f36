//! Links, images and embeds: `[description](url)`, with `!` in front for an image
//! or an embed.

use super::{fragment, push_fragment};
use crate::outcome::{Item, ItemView, Location, LocationView, Res, ResView};
use crate::parser::md::parse_contents::content_ir::{push_node, ContentIr, IrView, LinkType};
use crate::parser::md::parse_contents::Validations;
use crate::text::{
    debug_of,
    debug_text,
    last_segment,
    last_segment_exec,
    lowercase,
    lowercase_of,
    occurs_at,
    push_chars,
    range_is,
    starts_with,
    string_of,
    string_of_range,
    to_chars,
    trim,
    trim_range,
    without,
    without_exec,
};
use vstd::prelude::*;
use vstd::string::StringExecFns;

verus! {

/// The positions that the scan for a link has found: of `[`, `]`, `(` and `)`.
pub struct LinkScan {
    pub description_start: Option<int>,
    pub description_end: Option<int>,
    pub url_start: Option<int>,
    pub url_end: Option<int>,
}

/// The scan before it has read anything.
pub open spec fn link_scan_start() -> LinkScan {
    LinkScan { description_start: None, description_end: None, url_start: None, url_end: None }
}

/// The scan `st` after it has read the character `c` at the position `i`.
///
/// A `[` opens a description and discards whatever was found before it, so that the
/// description always opens at the last `[` read. A `]` closes the description that
/// is open, a `(` opens the url once a description is closed, and a `)` closes the
/// url that is open.
pub open spec fn link_scan_step(st: LinkScan, c: char, i: int) -> LinkScan {
    if c == '[' {
        LinkScan {
            description_start: Some(i),
            description_end: None,
            url_start: None,
            url_end: None,
        }
    } else if c == ']' && st.description_start.is_some() {
        LinkScan { description_end: Some(i), ..st }
    } else if c == '(' && st.description_end.is_some() {
        LinkScan { url_start: Some(i), ..st }
    } else if c == ')' && st.url_start.is_some() {
        LinkScan { url_end: Some(i), ..st }
    } else {
        st
    }
}

/// The scan after the first `n` characters of `t`. It stops at the first `)` that
/// closes a url.
pub open spec fn link_scan(t: Seq<char>, n: int) -> LinkScan
    decreases n,
{
    if n <= 0 || n > t.len() {
        link_scan_start()
    } else {
        let st = link_scan(t, n - 1);
        if st.url_end.is_some() {
            st
        } else {
            link_scan_step(st, t[n - 1], n - 1)
        }
    }
}

/// The link that the scan of `t` finds: the positions of its `[`, `]`, `(` and `)`,
/// where all four were found and stand in that order.
pub open spec fn link_match(t: Seq<char>) -> Option<(int, int, int, int)> {
    let st = link_scan(t, t.len() as int);
    if st.description_start.is_some() && st.description_end.is_some() && st.url_start.is_some()
        && st.url_end.is_some() && st.description_start->0 < st.description_end->0
        < st.url_start->0 < st.url_end->0 {
        Some((st.description_start->0, st.description_end->0, st.url_start->0, st.url_end->0))
    } else {
        None
    }
}

/// Every position that the scan holds lies in what it has read and holds the
/// character it stands for; the description opens before it closes, and the url
/// opens after the description has opened and closes after it opens.
pub proof fn lemma_link_scan(t: Seq<char>, n: int)
    requires
        0 <= n <= t.len(),
    ensures
        ({
            let st = link_scan(t, n);
            &&& st.description_start matches Some(a) ==> 0 <= a < n && t[a] == '['
            &&& st.description_end matches Some(b) ==> 0 <= b < n && t[b] == ']'
                && st.description_start.is_some() && st.description_start->0 < b
            &&& st.url_start matches Some(c) ==> 0 <= c < n && t[c] == '('
                && st.description_end.is_some() && st.description_start->0 < c
            &&& st.url_end matches Some(d) ==> 0 <= d < n && t[d] == ')' && st.url_start.is_some()
                && st.url_start->0 < d
        }),
    decreases n,
{
    if n > 0 {
        lemma_link_scan(t, n - 1);
    }
}

/// A link that was found lies within the text, and its four positions hold `[`,
/// `]`, `(` and `)`.
pub proof fn lemma_link_match(t: Seq<char>)
    ensures
        match link_match(t) {
            Some((a, b, c, d)) => {
                &&& 0 <= a < b < c < d < t.len()
                &&& t[a] == '['
                &&& t[b] == ']'
                &&& t[c] == '('
                &&& t[d] == ')'
            },
            None => true,
        },
{
    lemma_link_scan(t, t.len() as int);
}

/// Whether the link that opens at `start` has a `!` right in front of it.
pub open spec fn has_exclamation(t: Seq<char>, start: int) -> bool {
    start > 0 && t[start - 1] == '!'
}

/// The description of the link at `found`: what stands between `[` and `]`, without
/// square brackets.
pub open spec fn link_description(t: Seq<char>, found: (int, int, int, int)) -> Seq<char> {
    without(t.subrange(found.0, found.1), '[', ']')
}

/// The url of the link at `found`: what stands between `(` and `)`, without round
/// brackets.
pub open spec fn link_url(t: Seq<char>, found: (int, int, int, int)) -> Seq<char> {
    without(t.subrange(found.2, found.3), '(', ')')
}

/// Whether `url` points into the folder of local images.
pub open spec fn is_local_image(url: Seq<char>) -> bool {
    occurs_at(url, "./_img/"@, 0)
}

/// Where the local image `url` is found in the generated site: in the folder of
/// assets, under the last segment of its path, in lowercase.
pub open spec fn asset_url(url: Seq<char>) -> Seq<char> {
    "assets/"@ + last_segment(
        lowercase_of(url.subrange("./_img/"@.len() as int, url.len() as int)),
        '/',
    )
}

/// The warning for a `!` in front of a link that is neither a local image nor an
/// embed.
pub open spec fn misused_link_message(
    file: Seq<char>,
    url: Seq<char>,
    description: Seq<char>,
) -> Seq<char> {
    "Misused link in file '"@ + debug_of(file) + "'! This is probably a gif. Link: "@ + debug_of(
        url,
    ) + ". Description: "@ + debug_of(description) + "."@
}

/// The kind and the url of the link at `found`, or `None` where the link is
/// misused: it has a `!` in front, is no local image, and its trimmed description is
/// neither `youtube` nor `iframe`.
pub open spec fn link_target(t: Seq<char>, found: (int, int, int, int)) -> Option<
    (LinkType, Seq<char>),
> {
    let url = link_url(t, found);
    let description = trim(link_description(t, found));
    if !has_exclamation(t, found.0) {
        Some((LinkType::Regular, url))
    } else if is_local_image(url) {
        Some((LinkType::LocalImage, asset_url(url)))
    } else if description == "youtube"@ {
        Some((LinkType::Youtube, url))
    } else if description == "iframe"@ {
        Some((LinkType::Iframe, url))
    } else {
        None
    }
}

/// The nodes for the link at `found` with the kind and url `target`: the text
/// before the link and its `!`, with links suppressed on it; the link; and the text
/// after its `)`, with `m`.
pub open spec fn link_nodes(
    t: Seq<char>,
    found: (int, int, int, int),
    target: (LinkType, Seq<char>),
    m: Validations,
) -> Seq<IrView> {
    let before_end = if has_exclamation(t, found.0) {
        found.0 - 1
    } else {
        found.0
    };
    fragment(t.subrange(0, before_end), Validations { skip_link: true, ..m }) + seq![
        IrView::Link {
            description: link_description(t, found),
            url: target.1,
            link_type: target.0,
        },
    ] + fragment(t.subrange(found.3 + 1, t.len() as int), m)
}

/// What the link operator makes of the fragment `t` with the mask `m`, for a
/// document at `location`: nothing where the scan finds no link; nothing, with a
/// warning, where the link is misused; else the split around the link.
pub open spec fn link_spec(t: Seq<char>, location: LocationView, m: Validations) -> ResView<
    Option<Seq<IrView>>,
> {
    match link_match(t) {
        None => ResView::Success(ItemView { item: None, location: Some(location) }),
        Some(found) => match link_target(t, found) {
            None => ResView::Warn {
                item: ItemView { item: None, location: Some(location) },
                msg: misused_link_message(
                    location.file,
                    link_url(t, found),
                    trim(link_description(t, found)),
                ),
            },
            Some(target) => ResView::Success(
                ItemView { item: Some(link_nodes(t, found, target, m)), location: Some(location) },
            ),
        },
    }
}

/// A position of the scan, as a mathematical integer.
pub open spec fn position(p: Option<usize>) -> Option<int> {
    match p {
        Some(v) => Some(v as int),
        None => None,
    }
}

/// Scans `chars` for a link.
fn link_match_exec(chars: &Vec<char>) -> (r: Option<(usize, usize, usize, usize)>)
    ensures
        match r {
            Some((a, b, c, d)) => link_match(chars@) == Some(
                (a as int, b as int, c as int, d as int),
            ),
            None => link_match(chars@).is_none(),
        },
{
    let mut description_start: Option<usize> = None;
    let mut description_end: Option<usize> = None;
    let mut url_start: Option<usize> = None;
    let mut url_end: Option<usize> = None;
    let mut idx: usize = 0;
    while idx < chars.len() && url_end.is_none()
        invariant
            idx <= chars@.len(),
            ({
                let st = link_scan(chars@, idx as int);
                &&& st.description_start == position(description_start)
                &&& st.description_end == position(description_end)
                &&& st.url_start == position(url_start)
                &&& st.url_end == position(url_end)
            }),
        decreases chars.len() - idx,
    {
        let c = chars[idx];
        if c == '[' {
            description_start = Some(idx);
            description_end = None;
            url_start = None;
        } else if c == ']' && description_start.is_some() {
            description_end = Some(idx);
        } else if c == '(' && description_end.is_some() {
            url_start = Some(idx);
        } else if c == ')' && url_start.is_some() {
            url_end = Some(idx);
        }
        idx += 1;
    }
    proof {
        lemma_link_scan_stops(chars@, idx as int, chars@.len() as int);
    }
    match (description_start, description_end, url_start, url_end) {
        (Some(a), Some(b), Some(c), Some(d)) => {
            if a < b && b < c && c < d {
                Some((a, b, c, d))
            } else {
                None
            }
        },
        _ => None,
    }
}

/// Once the scan has closed a url it does not change.
proof fn lemma_link_scan_stops(t: Seq<char>, n: int, k: int)
    requires
        0 <= n <= k <= t.len(),
        n == k || link_scan(t, n).url_end.is_some(),
    ensures
        link_scan(t, k) == link_scan(t, n),
    decreases k - n,
{
    if n < k {
        lemma_link_scan_stops(t, n, k - 1);
    }
}

/// Splits `contents` around its first link, image or embed.
#[verifier::rlimit(40)]
pub fn link(contents: &String, location: &Location, validations: &Validations) -> (r: Res<
    Option<Vec<ContentIr>>,
>)
    ensures
        r.deep_view() == link_spec(contents@, location.deep_view(), *validations),
{
    let chars = to_chars(contents.as_str());
    let len = chars.len();
    let (a, b, c, d) = match link_match_exec(&chars) {
        Some(found) => found,
        None => {
            return Res::Success(Item { item: None, location: Some(location.copy()) });
        },
    };
    proof {
        lemma_link_match(chars@);
    }
    let ghost found = (a as int, b as int, c as int, d as int);
    let exclamation = a > 0 && chars[a - 1] == '!';
    let description = without_exec(&chars, a, b, '[', ']');
    let url = without_exec(&chars, c, d, '(', ')');
    let mut link_type = LinkType::Regular;
    let mut target = string_of(&url);
    if exclamation {
        if starts_with(&url, "./_img/") {
            let prefix = to_chars("./_img/");
            let rest = string_of_range(&url, prefix.len(), url.len());
            let lowered = to_chars(lowercase(rest.as_str()).as_str());
            let name = last_segment_exec(&lowered, '/');
            target = String::from_str("assets/");
            push_chars(&mut target, &name);
            link_type = LinkType::LocalImage;
        } else {
            let (lo, hi) = trim_range(&description, 0, description.len());
            assert(description@.subrange(0, description@.len() as int) =~= description@);
            if range_is(&description, lo, hi, "youtube") {
                link_type = LinkType::Youtube;
            } else if range_is(&description, lo, hi, "iframe") {
                link_type = LinkType::Iframe;
            } else {
                let trimmed = string_of_range(&description, lo, hi);
                let mut msg = String::from_str("Misused link in file '");
                msg.append(debug_text(location.file.as_str()).as_str());
                msg.append("'! This is probably a gif. Link: ");
                msg.append(debug_text(target.as_str()).as_str());
                msg.append(". Description: ");
                msg.append(debug_text(trimmed.as_str()).as_str());
                msg.append(".");
                return Res::Warn {
                    item: Item { item: None, location: Some(location.copy()) },
                    msg,
                };
            }
        }
    }
    let before_end: usize = if exclamation {
        a - 1
    } else {
        a
    };
    let mut ir: Vec<ContentIr> = Vec::new();
    assert(ir.deep_view() =~= Seq::<IrView>::empty());
    push_fragment(&mut ir, &chars, 0, before_end, Validations { skip_link: true, ..*validations });
    push_node(
        &mut ir,
        ContentIr::Link { description: string_of(&description), url: target, link_type },
    );
    push_fragment(&mut ir, &chars, d + 1, len, *validations);
    assert(ir.deep_view() =~= link_nodes(
        contents@,
        found,
        link_target(contents@, found)->0,
        *validations,
    ));
    Res::Success(Item { item: Some(ir), location: Some(location.copy()) })
}

} // verus!
