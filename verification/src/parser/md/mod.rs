//! The parser for dated markup documents, and the record it builds of each.

pub mod filename;
pub mod parse_contents;

use crate::outcome::{
    append_diagnostics,
    copy_location,
    Diagnostic,
    Item,
    ItemView,
    Location,
    LocationView,
    Res,
    ResView,
};
use crate::parser::{IntermediateRepresentation, IntermediateRepresentationView};
use crate::text::{decimal, push_decimal, push_range, string_of_range, to_chars};
use filename::{file_name_error, lemma_valid_file_name, valid_file_name, validate};
use parse_contents::content_ir::{lemma_child_models, IrView, MetadataView};
use parse_contents::{execute, execute_spec, Metadata, Options};
use vstd::prelude::*;
use vstd::string::StringExecFns;

pub use parse_contents::{ContentIr, LinkType};

verus! {

/// The name of a generated page, as a link target.
#[derive(Clone, Debug, PartialEq)]
pub struct Link(pub String);

impl View for Link {
    type V = Seq<char>;

    open spec fn view(&self) -> Seq<char> {
        self.0@
    }
}

impl DeepView for Link {
    type V = Seq<char>;

    open spec fn deep_view(&self) -> Seq<char> {
        self.0@
    }
}

impl Link {
    /// The target as text.
    pub fn to_str(&self) -> (s: &str)
        ensures
            s@ == self@,
    {
        self.0.as_str()
    }

    /// A copy of this link.
    pub fn copy(&self) -> (r: Link)
        ensures
            r@ == self@,
    {
        Link(self.0.clone())
    }
}

/// A copy of an optional link.
pub fn copy_link(link: &Option<Link>) -> (r: Option<Link>)
    ensures
        r.deep_view() == link.deep_view(),
{
    match link {
        Some(l) => Some(l.copy()),
        None => None,
    }
}

/// The pages before and after a document; the builder fills them in.
#[derive(Clone, Debug, PartialEq)]
pub struct Navigation {
    pub next: Vec<Link>,
    pub previous: Vec<Link>,
}

/// The mathematical value of a [`Navigation`].
pub struct NavigationView {
    pub next: Seq<Seq<char>>,
    pub previous: Seq<Seq<char>>,
}

impl DeepView for Navigation {
    type V = NavigationView;

    open spec fn deep_view(&self) -> NavigationView {
        NavigationView { next: self.next.deep_view(), previous: self.previous.deep_view() }
    }
}

/// The record of one document.
#[derive(Clone, Debug, PartialEq)]
pub struct Md {
    pub contents: Item<ContentIr>,
    pub date: String,
    pub day: String,
    pub default_title: String,
    pub display_title: String,
    pub html_file_name: Link,
    pub keywords: Vec<String>,
    pub month: String,
    pub month_year: String,
    pub navigation: Navigation,
    pub path: String,
    pub series: Vec<String>,
    pub summary: String,
    pub year: String,
}

/// The mathematical value of an [`Md`].
pub struct MdView {
    pub contents: ItemView<IrView>,
    pub date: Seq<char>,
    pub day: Seq<char>,
    pub default_title: Seq<char>,
    pub display_title: Seq<char>,
    pub html_file_name: Seq<char>,
    pub keywords: Seq<Seq<char>>,
    pub month: Seq<char>,
    pub month_year: Seq<char>,
    pub navigation: NavigationView,
    pub path: Seq<char>,
    pub series: Seq<Seq<char>>,
    pub summary: Seq<char>,
    pub year: Seq<char>,
}

impl DeepView for Md {
    type V = MdView;

    open spec fn deep_view(&self) -> MdView {
        MdView {
            contents: self.contents.deep_view(),
            date: self.date@,
            day: self.day@,
            default_title: self.default_title@,
            display_title: self.display_title@,
            html_file_name: self.html_file_name@,
            keywords: self.keywords.deep_view(),
            month: self.month@,
            month_year: self.month_year@,
            navigation: self.navigation.deep_view(),
            path: self.path@,
            series: self.series.deep_view(),
            summary: self.summary@,
            year: self.year@,
        }
    }
}

/// The four directives.
#[derive(Clone, Copy, Debug, PartialEq, Eq, Structural)]
pub enum Directive {
    DisplayTitle,
    Keywords,
    Series,
    Summary,
}

/// Whether `value` is the value of the directive `which`.
pub open spec fn is_directive(value: MetadataView, which: Directive) -> bool {
    match which {
        Directive::DisplayTitle => value is DisplayTitle,
        Directive::Keywords => value is Keywords,
        Directive::Series => value is Series,
        Directive::Summary => value is Summary,
    }
}

/// The first directive `which` among `nodes[i..]` and below, in document order.
pub open spec fn find_directive_from(nodes: Seq<IrView>, i: int, which: Directive) -> Option<
    MetadataView,
>
    decreases nodes, nodes.len() - i,
{
    if i < 0 || i >= nodes.len() {
        None
    } else {
        match find_directive(nodes[i], which) {
            Some(value) => Some(value),
            None => find_directive_from(nodes, i + 1, which),
        }
    }
}

/// The first directive `which` at `node` or below it, in document order: the
/// search is depth-first and takes the children of every container in their
/// order.
pub open spec fn find_directive(node: IrView, which: Directive) -> Option<MetadataView>
    decreases node, 0int,
{
    match node {
        IrView::Block { contents, .. } => find_directive(*contents, which),
        IrView::Card(children) => find_directive_from(children, 0, which),
        IrView::Div { contents } => find_directive_from(contents, 0, which),
        IrView::OrderedList { items, .. } => find_directive_from(items, 0, which),
        IrView::Paragraph { children } => find_directive_from(children, 0, which),
        IrView::UnorderedList { items } => find_directive_from(items, 0, which),
        IrView::Metadata(value) => if is_directive(value, which) {
            Some(value)
        } else {
            None
        },
        _ => None,
    }
}

/// Whether the directive `which` stands at `node` or anywhere below it.
pub open spec fn holds_directive(node: IrView, which: Directive) -> bool
    decreases node,
{
    match node {
        IrView::Block { contents, .. } => holds_directive(*contents, which),
        IrView::Card(children) => exists|i: int|
            0 <= i < children.len() && holds_directive(#[trigger] children[i], which),
        IrView::Div { contents } => exists|i: int|
            0 <= i < contents.len() && holds_directive(#[trigger] contents[i], which),
        IrView::OrderedList { items, .. } => exists|i: int|
            0 <= i < items.len() && holds_directive(#[trigger] items[i], which),
        IrView::Paragraph { children } => exists|i: int|
            0 <= i < children.len() && holds_directive(#[trigger] children[i], which),
        IrView::UnorderedList { items } => exists|i: int|
            0 <= i < items.len() && holds_directive(#[trigger] items[i], which),
        IrView::Metadata(value) => is_directive(value, which),
        _ => false,
    }
}

/// The search among `nodes[i..]` finds a directive exactly where one of these
/// nodes holds one, and what it finds is a directive `which`.
pub proof fn lemma_find_directive_from(nodes: Seq<IrView>, i: int, which: Directive)
    requires
        0 <= i,
    ensures
        find_directive_from(nodes, i, which).is_some() <==> exists|k: int|
            i <= k < nodes.len() && holds_directive(#[trigger] nodes[k], which),
        find_directive_from(nodes, i, which) matches Some(value) ==> is_directive(value, which),
    decreases nodes, nodes.len() - i,
{
    if i < nodes.len() {
        lemma_find_directive(nodes[i], which);
        lemma_find_directive_from(nodes, i + 1, which);
        if find_directive(nodes[i], which).is_none() {
            if exists|k: int| i <= k < nodes.len() && holds_directive(#[trigger] nodes[k], which) {
                let k = choose|k: int|
                    i <= k < nodes.len() && holds_directive(#[trigger] nodes[k], which);
                assert(i + 1 <= k < nodes.len() && holds_directive(nodes[k], which));
            }
        } else {
            assert(holds_directive(nodes[i], which));
        }
    }
}

/// The search finds a directive exactly where `node` holds one at some depth,
/// and what it finds is a directive `which`.
pub proof fn lemma_find_directive(node: IrView, which: Directive)
    ensures
        find_directive(node, which).is_some() <==> holds_directive(node, which),
        find_directive(node, which) matches Some(value) ==> is_directive(value, which),
    decreases node, 0int,
{
    match node {
        IrView::Block { contents, .. } => lemma_find_directive(*contents, which),
        IrView::Card(children) => lemma_find_directive_from(children, 0, which),
        IrView::Div { contents } => lemma_find_directive_from(contents, 0, which),
        IrView::OrderedList { items, .. } => lemma_find_directive_from(items, 0, which),
        IrView::Paragraph { children } => lemma_find_directive_from(children, 0, which),
        IrView::UnorderedList { items } => lemma_find_directive_from(items, 0, which),
        _ => {},
    }
}

/// The longest title that draws no warning has 64 characters.
pub open spec fn title_outcome(title: Seq<char>, location: Option<LocationView>) -> ResView<
    Seq<char>,
> {
    if title.len() == 0 {
        ResView::Warn {
            item: ItemView { item: "Placeholder!"@, location },
            msg: "Display title empty!"@,
        }
    } else if title.len() >= 65 {
        ResView::Warn {
            item: ItemView { item: title, location },
            msg: "Display title exceeds "@ + decimal(65) + " characters! Got "@ + decimal(
                title.len(),
            ) + "."@,
        }
    } else {
        ResView::Success(ItemView { item: title, location })
    }
}

/// Keywords draw a warning where there are fewer than 5; where there are none, a
/// pair of placeholders stands for them.
pub open spec fn keywords_outcome(words: Seq<Seq<char>>, location: Option<LocationView>) -> ResView<
    Seq<Seq<char>>,
> {
    if words.len() == 0 {
        ResView::Warn {
            item: ItemView { item: seq!["A"@, "Placeholder!"@], location },
            msg: "Keywords empty!"@,
        }
    } else if words.len() < 5 {
        ResView::Warn {
            item: ItemView { item: words, location },
            msg: "Keywords should have at least "@ + decimal(5) + " words! Got "@ + decimal(
                words.len(),
            ) + "."@,
        }
    } else {
        ResView::Success(ItemView { item: words, location })
    }
}

/// A summary draws a warning where it has fewer than 30 characters or more than
/// 160; where it has none, a placeholder stands for it.
pub open spec fn summary_outcome(summary: Seq<char>, location: Option<LocationView>) -> ResView<
    Seq<char>,
> {
    if summary.len() == 0 {
        ResView::Warn {
            item: ItemView { item: "A placeholder!"@, location },
            msg: "Summary empty!"@,
        }
    } else if summary.len() < 30 {
        ResView::Warn {
            item: ItemView { item: summary, location },
            msg: "Summary should have a minimum len of "@ + decimal(30) + "! Got "@ + decimal(
                summary.len(),
            ) + "."@,
        }
    } else if summary.len() > 160 {
        ResView::Warn {
            item: ItemView { item: summary, location },
            msg: "Summary should have a maximum len of "@ + decimal(160) + "! Got "@ + decimal(
                summary.len(),
            ) + "."@,
        }
    } else {
        ResView::Success(ItemView { item: summary, location })
    }
}

/// The title of the document `contents`: that of its first title directive, with
/// a warning where it is empty or too long. A document without the directive
/// fails.
pub open spec fn get_display_title_spec(contents: ItemView<IrView>) -> ResView<Seq<char>> {
    match find_directive(contents.item, Directive::DisplayTitle) {
        Some(MetadataView::DisplayTitle(title)) => title_outcome(title, contents.location),
        _ => ResView::Error {
            location: contents.location,
            msg: "Display title not found! Start each page with '!!title YOUR TITLE' ended with newline."@,
        },
    }
}

/// The keywords of the document `contents`: those of its first keywords
/// directive, with a warning where they are too few. A document without the
/// directive fails.
pub open spec fn get_keywords_spec(contents: ItemView<IrView>) -> ResView<Seq<Seq<char>>> {
    match find_directive(contents.item, Directive::Keywords) {
        Some(MetadataView::Keywords(words)) => keywords_outcome(words, contents.location),
        _ => ResView::Error {
            location: contents.location,
            msg: "Keywords not found! Start each page with '!!keywords A LIST OF KEYWORDS' ended with newline."@,
        },
    }
}

/// The series of the document `contents`: that of its first series directive. A
/// document without the directive fails.
pub open spec fn get_series_spec(contents: ItemView<IrView>) -> ResView<Seq<Seq<char>>> {
    match find_directive(contents.item, Directive::Series) {
        Some(MetadataView::Series(words)) => ResView::Success(
            ItemView { item: words, location: contents.location },
        ),
        _ => ResView::Error {
            location: contents.location,
            msg: "Series not found! Start each page with '!!series SERIES_TITLE' ended with newline."@,
        },
    }
}

/// The summary of the document `contents`: that of its first summary directive,
/// with a warning where it is too short or too long. A document without the
/// directive fails.
pub open spec fn get_summary_spec(contents: ItemView<IrView>) -> ResView<Seq<char>> {
    match find_directive(contents.item, Directive::Summary) {
        Some(MetadataView::Summary(summary)) => summary_outcome(summary, contents.location),
        _ => ResView::Error {
            location: contents.location,
            msg: "Summary not found! Start each page with '!!summary YOUR SUMMARY' ended with newline."@,
        },
    }
}

/// Whether `value` is the value of the directive `which`.
fn is_directive_exec(value: &Metadata, which: Directive) -> (b: bool)
    ensures
        b == is_directive(value.deep_view(), which),
{
    match which {
        Directive::DisplayTitle => match value {
            Metadata::DisplayTitle(_) => true,
            _ => false,
        },
        Directive::Keywords => match value {
            Metadata::Keywords(_) => true,
            _ => false,
        },
        Directive::Series => match value {
            Metadata::Series(_) => true,
            _ => false,
        },
        Directive::Summary => match value {
            Metadata::Summary(_) => true,
            _ => false,
        },
    }
}

/// The first directive `which` among `nodes` and below.
fn find_directive_in(nodes: &Vec<ContentIr>, which: Directive) -> (r: Option<Metadata>)
    ensures
        r.deep_view() == find_directive_from(nodes.deep_view(), 0, which),
    decreases nodes, 0int,
{
    let ghost all = nodes.deep_view();
    let mut i: usize = 0;
    while i < nodes.len()
        invariant
            i <= nodes@.len(),
            all == nodes.deep_view(),
            find_directive_from(all, 0, which) == find_directive_from(all, i as int, which),
        decreases nodes.len() - i,
    {
        match find_directive_exec(&nodes[i], which) {
            Some(value) => {
                return Some(value);
            },
            None => {},
        }
        i += 1;
    }
    None
}

/// The first directive `which` at `node` or below it.
fn find_directive_exec(node: &ContentIr, which: Directive) -> (r: Option<Metadata>)
    ensures
        r.deep_view() == find_directive(node.deep_view(), which),
    decreases node, 1int,
{
    match node {
        ContentIr::Block { contents, .. } => find_directive_exec(contents, which),
        ContentIr::Card(children) => {
            proof {
                lemma_child_models(*children);
            }
            find_directive_in(children, which)
        },
        ContentIr::Div { contents } => {
            proof {
                lemma_child_models(*contents);
            }
            find_directive_in(contents, which)
        },
        ContentIr::OrderedList { items, .. } => {
            proof {
                lemma_child_models(*items);
            }
            find_directive_in(items, which)
        },
        ContentIr::Paragraph { children } => {
            proof {
                lemma_child_models(*children);
            }
            find_directive_in(children, which)
        },
        ContentIr::UnorderedList { items } => {
            proof {
                lemma_child_models(*items);
            }
            find_directive_in(items, which)
        },
        ContentIr::Metadata(value) => if is_directive_exec(value, which) {
            Some(value.copy())
        } else {
            None
        },
        _ => None,
    }
}

/// A document is without its title, its keywords, its series or its summary
/// exactly where no such directive stands anywhere in its tree: only then does the
/// search for it fail.
pub proof fn lemma_missing_directives(contents: ItemView<IrView>)
    ensures
        get_display_title_spec(contents) is Error <==> !holds_directive(
            contents.item,
            Directive::DisplayTitle,
        ),
        get_keywords_spec(contents) is Error <==> !holds_directive(
            contents.item,
            Directive::Keywords,
        ),
        get_series_spec(contents) is Error <==> !holds_directive(
            contents.item,
            Directive::Series,
        ),
        get_summary_spec(contents) is Error <==> !holds_directive(
            contents.item,
            Directive::Summary,
        ),
        get_series_spec(contents) is Error || get_series_spec(contents) is Success,
{
    lemma_find_directive(contents.item, Directive::DisplayTitle);
    lemma_find_directive(contents.item, Directive::Keywords);
    lemma_find_directive(contents.item, Directive::Series);
    lemma_find_directive(contents.item, Directive::Summary);
}

/// The message that says that a value has `got` where `limit` was asked for:
/// `prefix`, `limit`, `middle`, `got`, and a full stop.
fn limit_message(prefix: &str, limit: usize, middle: &str, got: usize) -> (msg: String)
    ensures
        msg@ == prefix@ + decimal(limit as nat) + middle@ + decimal(got as nat) + "."@,
{
    let mut msg = String::from_str(prefix);
    push_decimal(&mut msg, limit);
    msg.append(middle);
    push_decimal(&mut msg, got);
    msg.append(".");
    msg
}

/// The title of the document `contents`.
pub fn get_display_title(contents: &Item<ContentIr>) -> (r: Res<String>)
    ensures
        r.deep_view() == get_display_title_spec(contents.deep_view()),
        r.deep_view() is Error <==> !holds_directive(contents.deep_view().item, Directive::DisplayTitle),
{
    proof {
        lemma_missing_directives(contents.deep_view());
    }
    let location = copy_location(&contents.location);
    match find_directive_exec(&contents.item, Directive::DisplayTitle) {
        Some(Metadata::DisplayTitle(title)) => {
            let count = title.as_str().unicode_len();
            if count == 0 {
                Res::Warn {
                    item: Item { item: String::from_str("Placeholder!"), location },
                    msg: String::from_str("Display title empty!"),
                }
            } else if count >= 65 {
                Res::Warn {
                    item: Item { item: title, location },
                    msg: limit_message("Display title exceeds ", 65, " characters! Got ", count),
                }
            } else {
                Res::Success(Item { item: title, location })
            }
        },
        _ => Res::Error {
            location,
            msg: String::from_str(
                "Display title not found! Start each page with '!!title YOUR TITLE' ended with newline.",
            ),
        },
    }
}

/// The keywords of the document `contents`.
pub fn get_keywords(contents: &Item<ContentIr>) -> (r: Res<Vec<String>>)
    ensures
        r.deep_view() == get_keywords_spec(contents.deep_view()),
        r.deep_view() is Error <==> !holds_directive(contents.deep_view().item, Directive::Keywords),
{
    proof {
        lemma_missing_directives(contents.deep_view());
    }
    let location = copy_location(&contents.location);
    match find_directive_exec(&contents.item, Directive::Keywords) {
        Some(Metadata::Keywords(words)) => {
            let count = words.len();
            if count == 0 {
                let mut placeholder: Vec<String> = Vec::new();
                placeholder.push(String::from_str("A"));
                placeholder.push(String::from_str("Placeholder!"));
                assert(placeholder.deep_view() =~= seq!["A"@, "Placeholder!"@]);
                Res::Warn {
                    item: Item { item: placeholder, location },
                    msg: String::from_str("Keywords empty!"),
                }
            } else if count < 5 {
                Res::Warn {
                    item: Item { item: words, location },
                    msg: limit_message(
                        "Keywords should have at least ",
                        5,
                        " words! Got ",
                        count,
                    ),
                }
            } else {
                Res::Success(Item { item: words, location })
            }
        },
        _ => Res::Error {
            location,
            msg: String::from_str(
                "Keywords not found! Start each page with '!!keywords A LIST OF KEYWORDS' ended with newline.",
            ),
        },
    }
}

/// The series of the document `contents`.
pub fn get_series(contents: &Item<ContentIr>) -> (r: Res<Vec<String>>)
    ensures
        r.deep_view() == get_series_spec(contents.deep_view()),
        r.deep_view() is Error <==> !holds_directive(contents.deep_view().item, Directive::Series),
{
    proof {
        lemma_missing_directives(contents.deep_view());
    }
    let location = copy_location(&contents.location);
    match find_directive_exec(&contents.item, Directive::Series) {
        Some(Metadata::Series(words)) => Res::Success(Item { item: words, location }),
        _ => Res::Error {
            location,
            msg: String::from_str(
                "Series not found! Start each page with '!!series SERIES_TITLE' ended with newline.",
            ),
        },
    }
}

/// The summary of the document `contents`.
pub fn get_summary(contents: &Item<ContentIr>) -> (r: Res<String>)
    ensures
        r.deep_view() == get_summary_spec(contents.deep_view()),
        r.deep_view() is Error <==> !holds_directive(contents.deep_view().item, Directive::Summary),
{
    proof {
        lemma_missing_directives(contents.deep_view());
    }
    let location = copy_location(&contents.location);
    match find_directive_exec(&contents.item, Directive::Summary) {
        Some(Metadata::Summary(summary)) => {
            let count = summary.as_str().unicode_len();
            if count == 0 {
                Res::Warn {
                    item: Item { item: String::from_str("A placeholder!"), location },
                    msg: String::from_str("Summary empty!"),
                }
            } else if count < 30 {
                Res::Warn {
                    item: Item { item: summary, location },
                    msg: limit_message(
                        "Summary should have a minimum len of ",
                        30,
                        "! Got ",
                        count,
                    ),
                }
            } else if count > 160 {
                Res::Warn {
                    item: Item { item: summary, location },
                    msg: limit_message(
                        "Summary should have a maximum len of ",
                        160,
                        "! Got ",
                        count,
                    ),
                }
            } else {
                Res::Success(Item { item: summary, location })
            }
        },
        _ => Res::Error {
            location,
            msg: String::from_str(
                "Summary not found! Start each page with '!!summary YOUR SUMMARY' ended with newline.",
            ),
        },
    }
}

/// What the document assembler has gathered: the tree, the four values, and the
/// warnings of the parse and of the four searches, in that order.
pub struct Gathered {
    pub tree: IrView,
    pub display_title: Seq<char>,
    pub keywords: Seq<Seq<char>>,
    pub series: Seq<Seq<char>>,
    pub summary: Seq<char>,
    pub diagnostics: Seq<Diagnostic>,
}

/// What the assembler gathers from the text `contents` of a document at
/// `location`, or the first failure: of the parse, or of the search for the title,
/// the keywords, the series and the summary, in that order.
pub open spec fn gather_spec(contents: Seq<char>, location: LocationView) -> Result<
    Gathered,
    (Option<LocationView>, Seq<char>),
> {
    let parsed = execute_spec(
        contents,
        location,
        Options { make_cards: true, make_paragraphs: true },
        None,
    );
    match parsed {
        ResView::Error { location: at, msg } => Err((at, msg)),
        _ => {
            let tree = parsed.payload()->0;
            let title = get_display_title_spec(tree);
            let keywords = get_keywords_spec(tree);
            let series = get_series_spec(tree);
            let summary = get_summary_spec(tree);
            if title is Error {
                Err((title->Error_location, title->Error_msg))
            } else if keywords is Error {
                Err((keywords->Error_location, keywords->Error_msg))
            } else if series is Error {
                Err((series->Error_location, series->Error_msg))
            } else if summary is Error {
                Err((summary->Error_location, summary->Error_msg))
            } else {
                Ok(
                    Gathered {
                        tree: tree.item,
                        display_title: title.payload()->0.item,
                        keywords: keywords.payload()->0.item,
                        series: series.payload()->0.item,
                        summary: summary.payload()->0.item,
                        diagnostics: parsed.diagnostics() + title.diagnostics()
                            + keywords.diagnostics() + series.diagnostics()
                            + summary.diagnostics(),
                    },
                )
            }
        },
    }
}

/// The record of the document with the valid name `file_name` at `path`, from
/// what was gathered of it. The date is the first ten characters of the name, the
/// default title what stands between the underscore and the extension. The tree is
/// a `Div` of a title, made of the date and the display title, and of the parsed
/// tree. The navigation is empty.
pub open spec fn record_spec(
    file_name: Seq<char>,
    path: Seq<char>,
    location: LocationView,
    gathered: Gathered,
) -> MdView {
    let date = file_name.subrange(0, 10);
    let default_title = file_name.subrange(11, file_name.len() - 3);
    MdView {
        contents: ItemView {
            item: IrView::Div {
                contents: seq![
                    IrView::Header {
                        header_size: 2,
                        id: "title"@,
                        text: date + " - "@ + gathered.display_title,
                    },
                    gathered.tree,
                ],
            },
            location: Some(location),
        },
        date,
        day: file_name.subrange(8, 10),
        default_title,
        display_title: gathered.display_title,
        html_file_name: date + "_"@ + default_title + ".html"@,
        keywords: gathered.keywords,
        month: file_name.subrange(5, 7),
        month_year: file_name.subrange(0, 4) + ","@ + file_name.subrange(5, 7),
        navigation: NavigationView {
            next: Seq::<Seq<char>>::empty(),
            previous: Seq::<Seq<char>>::empty(),
        },
        path,
        series: gathered.series,
        summary: gathered.summary,
        year: file_name.subrange(0, 4),
    }
}

/// What parsing the document named `file_name`, found at `path`, with the text
/// `contents` returns. A name that is not valid fails, and so does whatever makes
/// the gathering fail; else the record comes with the warnings that were gathered.
pub open spec fn parse_spec(
    file_name: Seq<char>,
    path: Seq<char>,
    contents: Seq<char>,
    location: LocationView,
) -> ResView<IntermediateRepresentationView> {
    if !valid_file_name(file_name) {
        ResView::Error { location: Some(location), msg: file_name_error(file_name) }
    } else {
        match gather_spec(contents, location) {
            Err((at, msg)) => ResView::Error { location: at, msg },
            Ok(gathered) => ResView::with_diagnostics(
                ItemView {
                    item: IntermediateRepresentationView::Md(
                        record_spec(file_name, path, location, gathered),
                    ),
                    location: Some(location),
                },
                gathered.diagnostics,
            ),
        }
    }
}

/// What the assembler gathers, as values.
struct GatheredParts {
    tree: ContentIr,
    display_title: String,
    keywords: Vec<String>,
    series: Vec<String>,
    summary: String,
    diagnostics: Vec<(String, Option<Location>)>,
}

impl GatheredParts {
    spec fn value(&self) -> Gathered {
        Gathered {
            tree: self.tree.deep_view(),
            display_title: self.display_title@,
            keywords: self.keywords.deep_view(),
            series: self.series.deep_view(),
            summary: self.summary@,
            diagnostics: self.diagnostics.deep_view(),
        }
    }
}

/// Parses `contents` and finds its four directives.
fn gather(contents: String, location: &Location) -> (r: Result<
    GatheredParts,
    (Option<Location>, String),
>)
    ensures
        match gather_spec(contents@, location.deep_view()) {
            Ok(gathered) => r matches Ok(parts) && parts.value() == gathered,
            Err((at, msg)) => r matches Err(failure) && failure.0.deep_view() == at
                && failure.1@ == msg,
        },
{
    let opts = Options { make_cards: true, make_paragraphs: true };
    let (tree, mut diagnostics) = match execute(contents, location.copy(), opts, None).into_parts() {
        Ok(parts) => parts,
        Err(failure) => {
            return Err(failure);
        },
    };
    let (title, more) = match get_display_title(&tree).into_parts() {
        Ok(parts) => parts,
        Err(failure) => {
            return Err(failure);
        },
    };
    append_diagnostics(&mut diagnostics, more);
    let (keywords, more) = match get_keywords(&tree).into_parts() {
        Ok(parts) => parts,
        Err(failure) => {
            return Err(failure);
        },
    };
    append_diagnostics(&mut diagnostics, more);
    let (series, more) = match get_series(&tree).into_parts() {
        Ok(parts) => parts,
        Err(failure) => {
            return Err(failure);
        },
    };
    append_diagnostics(&mut diagnostics, more);
    let (summary, more) = match get_summary(&tree).into_parts() {
        Ok(parts) => parts,
        Err(failure) => {
            return Err(failure);
        },
    };
    append_diagnostics(&mut diagnostics, more);
    Ok(
        GatheredParts {
            tree: tree.item,
            display_title: title.item,
            keywords: keywords.item,
            series: series.item,
            summary: summary.item,
            diagnostics,
        },
    )
}

/// The record of the document named `name` at `path`.
fn record(name: &Vec<char>, path: String, location: &Location, parts: GatheredParts) -> (r: (
    Md,
    Vec<(String, Option<Location>)>,
))
    requires
        valid_file_name(name@),
    ensures
        r.0.deep_view() == record_spec(name@, path@, location.deep_view(), parts.value()),
        r.1.deep_view() == parts.value().diagnostics,
{
    proof {
        lemma_valid_file_name(name@);
    }
    let len = name.len();
    let date = string_of_range(name, 0, 10);
    let default_title = string_of_range(name, 11, len - 3);
    let mut heading = date.clone();
    heading.append(" - ");
    heading.append(parts.display_title.as_str());
    let title = ContentIr::title(heading, String::from_str("title"));
    let mut children: Vec<ContentIr> = Vec::new();
    children.push(title);
    children.push(parts.tree);
    proof {
        assert(children.deep_view() =~= seq![title.deep_view(), parts.tree.deep_view()]);
        lemma_child_models(children);
    }
    let mut html_file_name = date.clone();
    html_file_name.append("_");
    html_file_name.append(default_title.as_str());
    html_file_name.append(".html");
    let mut month_year = string_of_range(name, 0, 4);
    month_year.append(",");
    push_range(&mut month_year, name, 5, 7);
    let next: Vec<Link> = Vec::new();
    let previous: Vec<Link> = Vec::new();
    assert(next.deep_view() =~= Seq::<Seq<char>>::empty());
    assert(previous.deep_view() =~= Seq::<Seq<char>>::empty());
    let md = Md {
        contents: Item {
            item: ContentIr::Div { contents: children },
            location: Some(location.copy()),
        },
        date,
        day: string_of_range(name, 8, 10),
        default_title,
        display_title: parts.display_title,
        html_file_name: Link(html_file_name),
        keywords: parts.keywords,
        month: string_of_range(name, 5, 7),
        month_year,
        navigation: Navigation { next, previous },
        path,
        series: parts.series,
        summary: parts.summary,
        year: string_of_range(name, 0, 4),
    };
    (md, parts.diagnostics)
}

/// Parses the document named `file_name`, found at `path`, whose text is
/// `contents`: checks its name, parses its text, finds its four directives and
/// builds its record. Whatever is not as it should be, and is no failure, comes
/// back as a warning with the record.
pub fn parse(file_name: &String, path: String, contents: String, location: Location) -> (r: Res<
    IntermediateRepresentation,
>)
    ensures
        r.deep_view() == parse_spec(file_name@, path@, contents@, location.deep_view()),
        !valid_file_name(file_name@) ==> r.deep_view() is Error,
{
    match validate(file_name) {
        Ok(_) => {},
        Err(msg) => {
            return Res::Error { location: Some(location), msg };
        },
    }
    let parts = match gather(contents, &location) {
        Ok(parts) => parts,
        Err((at, msg)) => {
            return Res::Error { location: at, msg };
        },
    };
    let name = to_chars(file_name.as_str());
    let (md, diagnostics) = record(&name, path, &location, parts);
    Res::from_diagnostics(
        Item { item: IntermediateRepresentation::Md(md), location: Some(location) },
        diagnostics,
    )
}

} // verus!
