//! The catalog: every document, by month, the latest month first.

use crate::builder::about_me_page::{
    div_of,
    one_node,
    page_title,
    regular_link,
    regular_link_exec,
    unordered,
};
use crate::builder::BuildContext;
use crate::order::{text_le, text_le_exec};
use crate::outcome::{Item, ItemView, LocationView};
use crate::parser::md::parse_contents::content_ir::{
    append_nodes,
    push_node,
    section_header_id_spec,
    section_spec,
    ContentIr,
    IrView,
};
use crate::parser::md::{Md, MdView};
use crate::parser::page::PageView;
use crate::parser::Page;
use crate::text::{push_string, range_is, text_of, to_chars};
use vstd::prelude::*;
use vstd::string::StringExecFns;

verus! {

/// A document as the catalog shows it.
pub struct Link {
    pub description: String,
    pub link: String,
    pub title: String,
}

/// The mathematical value of a [`Link`].
pub struct LinkView {
    pub description: Seq<char>,
    pub link: Seq<char>,
    pub title: Seq<char>,
}

impl DeepView for Link {
    type V = LinkView;

    open spec fn deep_view(&self) -> LinkView {
        LinkView { description: self.description@, link: self.link@, title: self.title@ }
    }
}

/// The documents of one month.
pub struct Month {
    /// What the documents of the month have in common: their `month_year`.
    pub key: String,
    pub section_title: String,
    /// Year and month, by which the months are ordered.
    pub date: String,
    pub links: Vec<Link>,
}

/// The mathematical value of a [`Month`].
pub struct MonthView {
    pub key: Seq<char>,
    pub section_title: Seq<char>,
    pub date: Seq<char>,
    pub links: Seq<LinkView>,
}

impl DeepView for Month {
    type V = MonthView;

    open spec fn deep_view(&self) -> MonthView {
        MonthView {
            key: self.key@,
            section_title: self.section_title@,
            date: self.date@,
            links: self.links.deep_view(),
        }
    }
}

/// The name of the month with the number `month`, in two digits.
pub open spec fn month_name(month: Seq<char>) -> Option<Seq<char>> {
    if month == "01"@ {
        Some("January"@)
    } else if month == "02"@ {
        Some("February"@)
    } else if month == "03"@ {
        Some("March"@)
    } else if month == "04"@ {
        Some("April"@)
    } else if month == "05"@ {
        Some("May"@)
    } else if month == "06"@ {
        Some("June"@)
    } else if month == "07"@ {
        Some("July"@)
    } else if month == "08"@ {
        Some("August"@)
    } else if month == "09"@ {
        Some("September"@)
    } else if month == "10"@ {
        Some("October"@)
    } else if month == "11"@ {
        Some("November"@)
    } else if month == "12"@ {
        Some("December"@)
    } else {
        None
    }
}

/// Whether every document of `md` has a month from `01` to `12`.
pub open spec fn months_known(md: Seq<(Option<LocationView>, MdView)>) -> bool {
    forall|i: int| 0 <= i < md.len() ==> month_name(#[trigger] md[i].1.month).is_some()
}

/// The document `md` as the catalog shows it.
pub open spec fn link_of(md: MdView) -> LinkView {
    LinkView {
        description: md.summary,
        link: md.html_file_name,
        title: md.day + " - "@ + md.default_title,
    }
}

/// The month that the document `md` opens.
pub open spec fn month_of(md: MdView) -> MonthView {
    MonthView {
        key: md.month_year,
        section_title: md.year + " - "@ + month_name(md.month)->0,
        date: md.year + ","@ + md.month,
        links: seq![link_of(md)],
    }
}

/// The first of `months[from..]` with the key `key`.
pub open spec fn find_month(months: Seq<MonthView>, key: Seq<char>, from: int) -> Option<int>
    decreases months.len() - from,
{
    if from < 0 || from >= months.len() {
        None
    } else if months[from].key == key {
        Some(from)
    } else {
        find_month(months, key, from + 1)
    }
}

/// `months` after the document `md` has joined them: it joins the first month
/// with its key, or opens a month of its own at the end.
pub open spec fn with_document(months: Seq<MonthView>, md: MdView) -> Seq<MonthView> {
    match find_month(months, md.month_year, 0) {
        Some(at) => if 0 <= at < months.len() {
            months.update(
                at,
                MonthView { links: months[at].links.push(link_of(md)), ..months[at] },
            )
        } else {
            months
        },
        None => months.push(month_of(md)),
    }
}

/// The documents `md` by month: the months in the order in which their first
/// documents come, the documents of each month in their order.
pub open spec fn by_month(md: Seq<(Option<LocationView>, MdView)>) -> Seq<MonthView>
    decreases md.len(),
{
    if md.len() == 0 {
        Seq::<MonthView>::empty()
    } else {
        with_document(by_month(md.drop_last()), md.last().1)
    }
}

/// Whether no two of `months` have the same key.
pub open spec fn distinct_keys(months: Seq<MonthView>) -> bool {
    forall|i: int, j: int|
        0 <= i < j < months.len() ==> (#[trigger] months[i]).key != (#[trigger] months[j]).key
}

/// What `find_month` returns is the first month with the key, and it returns
/// `None` only where no month has it.
pub proof fn lemma_find_month(months: Seq<MonthView>, key: Seq<char>, from: int)
    requires
        0 <= from,
    ensures
        match find_month(months, key, from) {
            Some(at) => from <= at < months.len() && months[at].key == key,
            None => forall|i: int| from <= i < months.len() ==> (#[trigger] months[i]).key != key,
        },
    decreases months.len() - from,
{
    if from < months.len() && months[from].key != key {
        lemma_find_month(months, key, from + 1);
    }
}

/// Each month stands once in the catalog: no two months of `by_month` have the
/// same key.
pub proof fn lemma_by_month_distinct(md: Seq<(Option<LocationView>, MdView)>)
    ensures
        distinct_keys(by_month(md)),
    decreases md.len(),
{
    if md.len() > 0 {
        lemma_by_month_distinct(md.drop_last());
        let before = by_month(md.drop_last());
        lemma_find_month(before, md.last().1.month_year, 0);
        let after = with_document(before, md.last().1);
        assert forall|i: int, j: int| 0 <= i < j < after.len() implies (#[trigger] after[i]).key
            != (#[trigger] after[j]).key by {
            if j < before.len() {
                assert(after[i].key == before[i].key);
                assert(after[j].key == before[j].key);
            } else {
                assert(after[i].key == before[i].key);
            }
        }
    }
}

/// Where a month with the date `date` goes among `sorted[from..]`: before the
/// first month whose date is later.
pub open spec fn place_of(sorted: Seq<MonthView>, date: Seq<char>, from: int) -> int
    decreases sorted.len() - from,
{
    if from < 0 || from >= sorted.len() {
        sorted.len() as int
    } else if !text_le(sorted[from].date, date) {
        from
    } else {
        place_of(sorted, date, from + 1)
    }
}

/// `months` from the earliest date to the latest; months of one date stay in
/// their order.
pub open spec fn earliest_first(months: Seq<MonthView>) -> Seq<MonthView>
    decreases months.len(),
{
    if months.len() == 0 {
        months
    } else {
        let sorted = earliest_first(months.drop_last());
        sorted.insert(place_of(sorted, months.last().date, 0), months.last())
    }
}

/// The months of `md`, the latest first.
pub open spec fn latest_first(md: Seq<(Option<LocationView>, MdView)>) -> Seq<MonthView> {
    earliest_first(by_month(md)).reverse()
}

/// The entry of the document `link`: a link to it, and its summary below.
pub open spec fn link_node(link: LinkView) -> IrView {
    IrView::Div {
        contents: seq![
            regular_link(link.title, link.link),
            IrView::UnorderedList { items: seq![IrView::Text { text: link.description }] },
        ],
    }
}

/// The section of the month `month`: its documents, the last one first.
pub open spec fn month_section(month: MonthView) -> IrView {
    section_spec(
        month.section_title,
        seq![
            IrView::UnorderedList {
                items: Seq::new(
                    month.links.len(),
                    |k: int| link_node(month.links[month.links.len() - 1 - k]),
                ),
            },
        ],
    )
}

/// The ids of the headings of the sections of `months`, and the sections.
pub open spec fn sections_of(months: Seq<MonthView>) -> (Seq<Seq<char>>, Seq<IrView>) {
    (
        Seq::new(months.len(), |i: int| section_header_id_spec(months[i].section_title)),
        Seq::new(months.len(), |i: int| month_section(months[i])),
    )
}

/// The ids of the headings of the months of `md`, and their sections, the latest
/// month first.
pub open spec fn generate_links_spec(md: Seq<(Option<LocationView>, MdView)>) -> (
    Seq<Seq<char>>,
    Seq<IrView>,
) {
    sections_of(latest_first(md))
}

/// The catalog, in the file `file_name`: where to start reading, how to get to
/// the earliest month, and the sections of the months.
pub open spec fn build_spec(file_name: Seq<char>, md: Seq<(Option<LocationView>, MdView)>) -> PageView {
    let (header_links, monthly) = generate_links_spec(md);
    let bottom = if header_links.len() > 0 {
        header_links.last()
    } else {
        Seq::<char>::empty()
    };
    let description = IrView::Div {
        contents: seq![
            IrView::Text { text: "A catalog of all pages in the blog. To start at the beginning "@ },
            regular_link("click here."@, md.first().1.html_file_name),
            IrView::Text { text: "Or you can jump to the bottom of this page by "@ },
            regular_link("clicking here."@, file_name + "#"@ + bottom),
        ],
    };
    PageView {
        contents: ItemView {
            item: IrView::Div {
                contents: seq![
                    page_title("Catalog"@, "catalog"@),
                    section_spec("Catalog"@, seq![description]),
                ] + monthly,
            },
            location: None,
        },
        file_name,
        keywords: seq!["catalog"@, "blog_gen"@, "eric"@, "olson"@, "overview"@, "tech"@],
        summary: "A collection of all posts ever made."@,
        title: "Catalog"@,
    }
}

/// Whether `s` is the number of a month, from `01` to `12`.
pub fn is_month(s: &str) -> (b: bool)
    ensures
        b == month_name(s@).is_some(),
{
    let chars = to_chars(s);
    let n = chars.len();
    assert(chars@.subrange(0, n as int) =~= chars@);
    range_is(&chars, 0, n, "01") || range_is(&chars, 0, n, "02") || range_is(&chars, 0, n, "03")
        || range_is(&chars, 0, n, "04") || range_is(&chars, 0, n, "05") || range_is(
        &chars,
        0,
        n,
        "06",
    ) || range_is(&chars, 0, n, "07") || range_is(&chars, 0, n, "08") || range_is(
        &chars,
        0,
        n,
        "09",
    ) || range_is(&chars, 0, n, "10") || range_is(&chars, 0, n, "11") || range_is(
        &chars,
        0,
        n,
        "12",
    )
}

/// The name of the month with the number `s`.
fn map_month(s: &str) -> (name: &'static str)
    requires
        month_name(s@).is_some(),
    ensures
        name@ == month_name(s@)->0,
{
    let chars = to_chars(s);
    let n = chars.len();
    assert(chars@.subrange(0, n as int) =~= chars@);
    if range_is(&chars, 0, n, "01") {
        "January"
    } else if range_is(&chars, 0, n, "02") {
        "February"
    } else if range_is(&chars, 0, n, "03") {
        "March"
    } else if range_is(&chars, 0, n, "04") {
        "April"
    } else if range_is(&chars, 0, n, "05") {
        "May"
    } else if range_is(&chars, 0, n, "06") {
        "June"
    } else if range_is(&chars, 0, n, "07") {
        "July"
    } else if range_is(&chars, 0, n, "08") {
        "August"
    } else if range_is(&chars, 0, n, "09") {
        "September"
    } else if range_is(&chars, 0, n, "10") {
        "October"
    } else if range_is(&chars, 0, n, "11") {
        "November"
    } else {
        "December"
    }
}

/// The document `md` as the catalog shows it.
fn link_of_exec(md: &Md) -> (r: Link)
    ensures
        r.deep_view() == link_of(md.deep_view()),
{
    let mut title = md.day.clone();
    title.append(" - ");
    title.append(md.default_title.as_str());
    Link {
        description: md.summary.clone(),
        link: text_of(md.html_file_name.to_str()),
        title,
    }
}

/// The month that the document `md` opens.
fn month_of_exec(md: &Md) -> (r: Month)
    requires
        month_name(md.month@).is_some(),
    ensures
        r.deep_view() == month_of(md.deep_view()),
{
    let mut section_title = md.year.clone();
    section_title.append(" - ");
    section_title.append(map_month(md.month.as_str()));
    let mut date = md.year.clone();
    date.append(",");
    date.append(md.month.as_str());
    let link = link_of_exec(md);
    let mut links: Vec<Link> = Vec::new();
    links.push(link);
    assert(links.deep_view() =~= seq![link.deep_view()]);
    Month { key: md.month_year.clone(), section_title, date, links }
}

/// The first of `months` with the key `key`.
fn find_month_exec(months: &Vec<Month>, key: &String) -> (r: Option<usize>)
    ensures
        match r {
            Some(at) => at < months@.len() && find_month(months.deep_view(), key@, 0) == Some(
                at as int,
            ),
            None => find_month(months.deep_view(), key@, 0).is_none(),
        },
{
    let ghost all = months.deep_view();
    let mut i: usize = 0;
    while i < months.len()
        invariant
            i <= months@.len(),
            all == months.deep_view(),
            find_month(all, key@, 0) == find_month(all, key@, i as int),
        decreases months.len() - i,
    {
        assert(all[i as int].key == months[i as int].key@);
        if months[i].key == *key {
            return Some(i);
        }
        i += 1;
    }
    None
}

/// Lets the document `md` join `months`.
fn add_document(months: &mut Vec<Month>, md: &Md)
    requires
        month_name(md.month@).is_some(),
    ensures
        final(months).deep_view() == with_document(old(months).deep_view(), md.deep_view()),
{
    let ghost before = months.deep_view();
    match find_month_exec(months, &md.month_year) {
        Some(at) => {
            let mut month = months.remove(at);
            let ghost links = month.links.deep_view();
            let link = link_of_exec(md);
            month.links.push(link);
            assert(month.links.deep_view() =~= links.push(link.deep_view()));
            months.insert(at, month);
            assert(months.deep_view() =~= with_document(before, md.deep_view()));
        },
        None => {
            let month = month_of_exec(md);
            months.push(month);
            assert(months.deep_view() =~= before.push(month.deep_view()));
        },
    }
}

/// The documents `md` by month; each month stands once.
fn by_month_exec(build_context: &BuildContext) -> (months: Vec<Month>)
    requires
        months_known(build_context.md.deep_view()),
    ensures
        months.deep_view() == by_month(build_context.md.deep_view()),
        distinct_keys(months.deep_view()),
{
    proof {
        lemma_by_month_distinct(build_context.md.deep_view());
    }
    let md = &build_context.md;
    let ghost all = md.deep_view();
    let mut months: Vec<Month> = Vec::new();
    let mut i: usize = 0;
    assert(months.deep_view() =~= by_month(all.take(0)));
    while i < md.len()
        invariant
            i <= md@.len(),
            all == md.deep_view(),
            months_known(all),
            months.deep_view() == by_month(all.take(i as int)),
        decreases md.len() - i,
    {
        assert(all.take(i + 1).drop_last() =~= all.take(i as int));
        assert(all.take(i + 1).last() == md[i as int].deep_view());
        assert(all[i as int].1.month == md[i as int].1.month@);
        add_document(&mut months, &md[i].1);
        i += 1;
    }
    assert(all.take(md@.len() as int) =~= all);
    months
}

/// Where a month with the date `date` goes among `sorted`.
fn place_of_exec(sorted: &Vec<Month>, date: &Vec<char>) -> (at: usize)
    ensures
        at <= sorted@.len(),
        at == place_of(sorted.deep_view(), date@, 0),
{
    let ghost all = sorted.deep_view();
    let mut at: usize = 0;
    while at < sorted.len()
        invariant
            at <= sorted@.len(),
            all == sorted.deep_view(),
            place_of(all, date@, 0) == place_of(all, date@, at as int),
        decreases sorted.len() - at,
    {
        assert(all[at as int].date == sorted[at as int].date@);
        let other = to_chars(sorted[at].date.as_str());
        if !text_le_exec(&other, date) {
            return at;
        }
        at += 1;
    }
    at
}

/// `months` from the earliest date to the latest.
fn earliest_first_exec(months: Vec<Month>) -> (sorted: Vec<Month>)
    ensures
        sorted.deep_view() == earliest_first(months.deep_view()),
{
    let ghost all = months.deep_view();
    let mut rest = months;
    let mut sorted: Vec<Month> = Vec::new();
    let ghost mut done: int = 0;
    assert(sorted.deep_view() =~= earliest_first(all.take(0)));
    assert(rest.deep_view() =~= all.skip(0));
    while rest.len() > 0
        invariant
            0 <= done <= all.len(),
            rest.deep_view() == all.skip(done),
            sorted.deep_view() == earliest_first(all.take(done)),
        decreases rest.len(),
    {
        let ghost left = rest.deep_view();
        let ghost before = sorted.deep_view();
        let month = rest.remove(0);
        proof {
            assert(month.deep_view() == left[0]);
            assert(left.len() == all.len() - done);
            assert(left[0] == all[done]);
            assert(rest.deep_view() =~= left.remove(0));
            assert(left.remove(0) =~= all.skip(done + 1));
            assert(all.take(done + 1).drop_last() =~= all.take(done));
            assert(all.take(done + 1).last() == all[done]);
        }
        let date = to_chars(month.date.as_str());
        let at = place_of_exec(&sorted, &date);
        sorted.insert(at, month);
        proof {
            assert(sorted.deep_view() =~= before.insert(at as int, month.deep_view()));
            done = done + 1;
        }
    }
    proof {
        assert(all.take(all.len() as int) =~= all);
    }
    sorted
}

/// The entry of the document `link`.
fn link_node_exec(link: &Link) -> (r: ContentIr)
    ensures
        r.deep_view() == link_node(link.deep_view()),
{
    let target = regular_link_exec(link.title.clone(), link.link.clone());
    let below = unordered(one_node(ContentIr::text(link.description.clone())));
    let mut contents: Vec<ContentIr> = Vec::new();
    contents.push(target);
    contents.push(below);
    assert(contents.deep_view() =~= seq![target.deep_view(), below.deep_view()]);
    div_of(contents)
}

/// The section of the month `month`.
fn month_section_exec(month: &Month) -> (r: ContentIr)
    ensures
        r.deep_view() == month_section(month.deep_view()),
{
    let links = &month.links;
    let ghost all = links.deep_view();
    let len = links.len();
    let ghost wanted = Seq::new(all.len(), |k: int| link_node(all[all.len() - 1 - k]));
    let mut items: Vec<ContentIr> = Vec::new();
    let mut k: usize = 0;
    assert(items.deep_view() =~= wanted.take(0));
    while k < len
        invariant
            k <= len == links@.len(),
            all == links.deep_view(),
            wanted == Seq::new(all.len(), |k: int| link_node(all[all.len() - 1 - k])),
            items.deep_view() == wanted.take(k as int),
        decreases len - k,
    {
        push_node(&mut items, link_node_exec(&links[len - 1 - k]));
        k += 1;
        assert(items.deep_view() =~= wanted.take(k as int));
    }
    assert(wanted.take(len as int) =~= wanted);
    ContentIr::section(month.section_title.clone(), one_node(unordered(items)))
}

/// The ids of the headings of the months of the documents, and their sections,
/// the latest month first.
fn generate_links(build_context: &BuildContext) -> (r: (Vec<String>, Vec<ContentIr>))
    requires
        months_known(build_context.md.deep_view()),
    ensures
        r.0.deep_view() == generate_links_spec(build_context.md.deep_view()).0,
        r.1.deep_view() == generate_links_spec(build_context.md.deep_view()).1,
{
    let sorted = earliest_first_exec(by_month_exec(build_context));
    let ghost months = sorted.deep_view().reverse();
    let len = sorted.len();
    let mut header_links: Vec<String> = Vec::new();
    let mut contents: Vec<ContentIr> = Vec::new();
    let mut k: usize = 0;
    assert(header_links.deep_view() =~= sections_of(months).0.take(0));
    assert(contents.deep_view() =~= sections_of(months).1.take(0));
    while k < len
        invariant
            k <= len == sorted@.len(),
            months == sorted.deep_view().reverse(),
            header_links.deep_view() == sections_of(months).0.take(k as int),
            contents.deep_view() == sections_of(months).1.take(k as int),
        decreases len - k,
    {
        let month = &sorted[len - 1 - k];
        assert(months[k as int] == month.deep_view());
        push_string(
            &mut header_links,
            ContentIr::section_header_id(month.section_title.clone()),
        );
        push_node(&mut contents, month_section_exec(month));
        k += 1;
        assert(header_links.deep_view() =~= sections_of(months).0.take(k as int));
        assert(contents.deep_view() =~= sections_of(months).1.take(k as int));
    }
    assert(sections_of(months).0.take(len as int) =~= sections_of(months).0);
    assert(sections_of(months).1.take(len as int) =~= sections_of(months).1);
    (header_links, contents)
}

/// Composes the catalog. There must be a document, and the month of every
/// document must be one from `01` to `12`.
pub fn build(html_filename: String, build_context: &BuildContext) -> (r: Page)
    requires
        build_context.md@.len() > 0,
        months_known(build_context.md.deep_view()),
    ensures
        r.deep_view() == build_spec(html_filename@, build_context.md.deep_view()),
{
    let (header_links, monthly_content) = generate_links(build_context);
    let mut bottom = html_filename.clone();
    bottom.append("#");
    if header_links.len() > 0 {
        assert(header_links.deep_view().last() == header_links[header_links.len() - 1]@);
        bottom.append(header_links[header_links.len() - 1].as_str());
    } else {
        assert(bottom@ + Seq::<char>::empty() =~= bottom@);
    }
    let first = text_of(build_context.md[0].1.html_file_name.to_str());
    let a = ContentIr::text(
        text_of("A catalog of all pages in the blog. To start at the beginning "),
    );
    let b = regular_link_exec(text_of("click here."), first);
    let c = ContentIr::text(text_of("Or you can jump to the bottom of this page by "));
    let d = regular_link_exec(text_of("clicking here."), bottom);
    let mut parts: Vec<ContentIr> = Vec::new();
    parts.push(a);
    parts.push(b);
    parts.push(c);
    parts.push(d);
    assert(parts.deep_view() =~= seq![
        a.deep_view(),
        b.deep_view(),
        c.deep_view(),
        d.deep_view(),
    ]);
    let contents = ContentIr::section(text_of("Catalog"), one_node(div_of(parts)));
    let title = ContentIr::title(text_of("Catalog"), text_of("catalog"));
    let mut page_contents: Vec<ContentIr> = Vec::new();
    page_contents.push(title);
    page_contents.push(contents);
    assert(page_contents.deep_view() =~= seq![title.deep_view(), contents.deep_view()]);
    append_nodes(&mut page_contents, monthly_content);
    let keywords = vec!["catalog", "blog_gen", "eric", "olson", "overview", "tech"];
    let mut words: Vec<String> = Vec::new();
    let mut i: usize = 0;
    assert(words.deep_view() =~= keywords.deep_view().take(0));
    while i < keywords.len()
        invariant
            i <= keywords@.len(),
            words.deep_view() == keywords.deep_view().take(i as int),
        decreases keywords.len() - i,
    {
        push_string(&mut words, text_of(keywords[i]));
        i += 1;
        assert(words.deep_view() =~= keywords.deep_view().take(i as int));
    }
    assert(keywords.deep_view().take(keywords@.len() as int) =~= keywords.deep_view());
    assert(keywords.deep_view() =~= seq![
        "catalog"@,
        "blog_gen"@,
        "eric"@,
        "olson"@,
        "overview"@,
        "tech"@,
    ]);
    Page {
        contents: Item { location: None, item: div_of(page_contents) },
        file_name: html_filename,
        keywords: words,
        summary: text_of("A collection of all posts ever made."),
        title: text_of("Catalog"),
    }
}

} // verus!
