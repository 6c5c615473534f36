//! The reduction of a raw document to a content tree.
//!
//! A document starts as one unresolved fragment. Each pass of the driver puts
//! every unresolved fragment through the operators of [`chomp`], in a fixed order,
//! and replaces it by what the first operator that matches returns, or by literal
//! text where none does. The passes end when none has matched. The sequence is
//! then grouped into paragraphs, nested under its headings, and cleaned.

pub mod chomp;
pub mod content_ir;
pub mod hierarchy;
pub mod render;
pub mod resolved;
pub mod weight;

use crate::outcome::{
    append_diagnostics,
    push_diagnostic,
    Diagnostic,
    Item,
    ItemView,
    Location,
    LocationView,
    Res,
    ResView,
};
use crate::text::{
    decimal,
    push_decimal,
    push_range,
    split_lines,
    split_lines_exec,
    string_of,
    to_chars,
};
use chomp::block::{block, block_spec, lemma_block_weight};
use chomp::header::{header, header_spec, lemma_header_match};
use chomp::inline_code::{inline_code, inline_code_spec, lemma_inline_code_match};
use chomp::link::{lemma_link_match, link, link_spec};
use chomp::list::{lemma_list_weight, list, list_outcome, list_spec};
use chomp::metadata::{
    lemma_directive_match,
    metadata_display_title,
    metadata_display_title_spec,
    metadata_keywords,
    metadata_keywords_spec,
    metadata_series,
    metadata_series_spec,
    metadata_summary,
    metadata_summary_spec,
};
use content_ir::{append_nodes, lemma_child_models, push_node};
use hierarchy::{
    all_clean,
    clean,
    clean_spec,
    headers,
    headers_spec,
    paragraphs,
    paragraphs_spec,
};
use render::resolved;
use resolved::{lemma_execute_clean, lemma_execute_resolved};
use vstd::prelude::*;
use vstd::string::StringExecFns;
use weight::{
    fragment_weight,
    lemma_single_weight,
    lemma_split_weight,
    lemma_suppressed,
    lemma_weight_bound,
    lemma_weight_concat,
    node_weight,
    nodes_weight,
    unsuppressed,
};

pub use content_ir::{BlockKind, ContentIr, IrView, LinkType, Metadata};

verus! {

/// Whether a pass has replaced a fragment, so that another pass is due.
#[derive(Clone, Copy, Debug, PartialEq, Eq, Structural)]
pub enum ContinueRunning {
    No,
    Yes,
}

impl DeepView for ContinueRunning {
    type V = ContinueRunning;

    open spec fn deep_view(&self) -> ContinueRunning {
        *self
    }
}

/// How the reduced sequence is grouped.
#[derive(Clone, Copy, Debug, PartialEq, Eq, Structural)]
pub struct Options {
    /// Whether each heading and what follows it is nested into a card.
    pub make_cards: bool,
    /// Whether runs of inline nodes are grouped into paragraphs.
    pub make_paragraphs: bool,
}

/// The suppression mask of a fragment: which operators are no longer tried on it,
/// and whether the length of its paragraphs is checked.
#[derive(Clone, Copy, Debug, PartialEq, Eq, Structural)]
pub struct Validations {
    pub skip_code_block: bool,
    pub skip_header: bool,
    pub skip_inline_code: bool,
    pub skip_link: bool,
    pub skip_list: bool,
    pub skip_metadata_display_title: bool,
    pub skip_metadata_keywords: bool,
    pub skip_metadata_series: bool,
    pub skip_metadata_summary: bool,
    pub validate_paragraph_len: bool,
}

/// The mask of a whole document: no operator is suppressed, and the length of
/// paragraphs is checked.
pub open spec fn fresh_mask() -> Validations {
    Validations {
        skip_code_block: false,
        skip_header: false,
        skip_inline_code: false,
        skip_link: false,
        skip_list: false,
        skip_metadata_display_title: false,
        skip_metadata_keywords: false,
        skip_metadata_series: false,
        skip_metadata_summary: false,
        validate_paragraph_len: true,
    }
}

/// The first `n` characters of `s`, without each carriage return that a line feed
/// follows in `s`.
pub open spec fn without_cr(s: Seq<char>, n: int) -> Seq<char>
    decreases n,
{
    if n <= 0 || n > s.len() {
        Seq::<char>::empty()
    } else if s[n - 1] == '\r' && n < s.len() && s[n] == '\n' {
        without_cr(s, n - 1)
    } else {
        without_cr(s, n - 1).push(s[n - 1])
    }
}

/// The text that is parsed for the document `s`: every `\r\n` becomes `\n`, and a
/// line feed is added at the end where none stands there.
pub open spec fn normalize(s: Seq<char>) -> Seq<char> {
    let lines = without_cr(s, s.len() as int);
    if lines.len() > 0 && lines.last() == '\n' {
        lines
    } else {
        lines.push('\n')
    }
}

proof fn lemma_without_cr_len(s: Seq<char>, n: int)
    requires
        0 <= n <= s.len(),
    ensures
        without_cr(s, n).len() <= n,
    decreases n,
{
    if n > 0 {
        lemma_without_cr_len(s, n - 1);
    }
}

/// The text that is parsed is at most one character longer than the document, and
/// ends with a line feed.
pub proof fn lemma_normalize_len(s: Seq<char>)
    ensures
        1 <= normalize(s).len() <= s.len() + 1,
        normalize(s).last() == '\n',
{
    lemma_without_cr_len(s, s.len() as int);
}

/// The longest line that draws no warning, in characters.
pub open spec fn max_text_chars() -> nat {
    350
}

/// The warning for the line `line`, which is longer than `max_text_chars()`: it
/// shows the first 20 characters of the line, by how much the line is too long, and
/// the up to 20 characters that follow the limit.
pub open spec fn long_line_message(line: Seq<char>) -> Seq<char> {
    let shown = if line.len() < 20 {
        line.len() as int
    } else {
        20
    };
    let suggested_end = if line.len() < 370 {
        line.len() as int
    } else {
        370
    };
    "\n\tParagraph '"@ + line.subrange(0, shown) + "' exceeded limit of "@ + decimal(350)
        + " by "@ + decimal((line.len() - 350) as nat)
        + " characters!\n\tSuggested fix is newline at: '"@ + line.subrange(350, suggested_end)
        + "'"@
}

/// The warnings for the lines `lines` that are longer than the limit, in order,
/// each at `location`.
pub open spec fn long_line_warnings(lines: Seq<Seq<char>>, location: LocationView) -> Seq<
    Diagnostic,
>
    decreases lines.len(),
{
    if lines.len() == 0 {
        Seq::<Diagnostic>::empty()
    } else if lines.last().len() > 350 {
        long_line_warnings(lines.drop_last(), location).push(
            (long_line_message(lines.last()), Some(location)),
        )
    } else {
        long_line_warnings(lines.drop_last(), location)
    }
}

/// One text node for each of `lines`.
pub open spec fn text_nodes(lines: Seq<Seq<char>>) -> Seq<IrView> {
    Seq::new(lines.len(), |i: int| IrView::Text { text: lines[i] })
}

/// The literal text that a fragment on which no operator matches becomes: one text
/// node for each of its lines, and none at all for an empty fragment.
pub open spec fn literal_text(t: Seq<char>) -> Seq<IrView> {
    if t.len() > 0 {
        text_nodes(split_lines(t))
    } else {
        Seq::<IrView>::empty()
    }
}

/// The warnings for the literal text of the fragment `t` with the mask `m`.
pub open spec fn literal_warnings(t: Seq<char>, m: Validations, location: LocationView) -> Seq<
    Diagnostic,
> {
    if t.len() > 0 && m.validate_paragraph_len {
        long_line_warnings(split_lines(t), location)
    } else {
        Seq::<Diagnostic>::empty()
    }
}

/// The outcome of an operator that matched with `nodes`, or did not match.
pub open spec fn step_outcome(nodes: Option<Seq<IrView>>, location: LocationView) -> ResView<
    Option<Seq<IrView>>,
> {
    ResView::Success(ItemView { item: nodes, location: Some(location) })
}

/// The mask `m` with fenced blocks suppressed.
pub open spec fn after_block(m: Validations) -> Validations {
    Validations { skip_code_block: true, ..m }
}

/// The mask `m` with the four directives and headings suppressed.
pub open spec fn after_header(m: Validations) -> Validations {
    Validations {
        skip_metadata_display_title: true,
        skip_metadata_keywords: true,
        skip_metadata_series: true,
        skip_metadata_summary: true,
        skip_header: true,
        ..m
    }
}

/// The mask `m` with lists suppressed.
pub open spec fn after_list(m: Validations) -> Validations {
    Validations { skip_list: true, ..m }
}

/// What the directive operators and the heading operator make of the fragment `t`
/// with the mask `m`: what the first of them that is not suppressed and matches
/// returns, in the order title, keywords, series, summary, heading. Each sees the
/// mask with those before it suppressed.
pub open spec fn directive_step(t: Seq<char>, m: Validations) -> Option<Seq<IrView>> {
    let m2 = Validations { skip_metadata_display_title: true, ..m };
    let m3 = Validations { skip_metadata_keywords: true, ..m2 };
    let m4 = Validations { skip_metadata_series: true, ..m3 };
    let m5 = Validations { skip_metadata_summary: true, ..m4 };
    if !m.skip_metadata_display_title && metadata_display_title_spec(t, m).is_some() {
        metadata_display_title_spec(t, m)
    } else if !m2.skip_metadata_keywords && metadata_keywords_spec(t, m2).is_some() {
        metadata_keywords_spec(t, m2)
    } else if !m3.skip_metadata_series && metadata_series_spec(t, m3).is_some() {
        metadata_series_spec(t, m3)
    } else if !m4.skip_metadata_summary && metadata_summary_spec(t, m4).is_some() {
        metadata_summary_spec(t, m4)
    } else if !m5.skip_header {
        header_spec(t, m5)
    } else {
        None
    }
}

/// What the inline-code operator and the link operator make of the fragment `t`
/// with the mask `m`: the code where inline code is not suppressed and matches,
/// else what the link operator returns, with inline code suppressed, where links
/// are not suppressed.
pub open spec fn inline_step(t: Seq<char>, location: LocationView, m: Validations) -> ResView<
    Option<Seq<IrView>>,
> {
    let m8 = Validations { skip_inline_code: true, ..m };
    if !m.skip_inline_code && inline_code_spec(t, m).is_some() {
        step_outcome(inline_code_spec(t, m), location)
    } else if !m8.skip_link {
        link_spec(t, location, m8)
    } else {
        step_outcome(None, location)
    }
}

/// What one step makes of the fragment `t` with the mask `m`: what the first
/// operator that is not suppressed and matches returns, in the order fenced block,
/// title, keywords, series, summary, heading, list, inline code, link. Each operator
/// sees the mask with every operator before it suppressed. `None` says that no
/// operator matched. A list that is malformed fails the step; a link that is
/// misused leaves a warning.
pub open spec fn try_process_spec(
    t: Seq<char>,
    location: LocationView,
    opts: Options,
    m: Validations,
) -> ResView<Option<Seq<IrView>>>
    decreases fragment_weight(t, m), 5int, 0int,
{
    let m1 = after_block(m);
    let m6 = after_header(m1);
    proof {
        lemma_suppressed(m, m6);
    }
    if !m.skip_code_block && block_spec(t, opts, m).is_some() {
        step_outcome(block_spec(t, opts, m), location)
    } else if directive_step(t, m1).is_some() {
        step_outcome(directive_step(t, m1), location)
    } else if !m6.skip_list && list_spec(t, opts, m6) != list_outcome(None) {
        match list_spec(t, opts, m6) {
            ResView::Error { msg, .. } => ResView::Error { location: Some(location), msg },
            matched => step_outcome(matched.payload()->0.item, location),
        }
    } else {
        inline_step(t, location, after_list(m6))
    }
}

/// What a pass has made of the fragments it has read.
pub struct PassScan {
    /// The nodes that take the place of what was read.
    pub nodes: Seq<IrView>,
    /// The warnings so far.
    pub diagnostics: Seq<Diagnostic>,
    /// Whether an operator has matched.
    pub progress: bool,
    /// The failure that ended the pass.
    pub failure: Option<(Option<LocationView>, Seq<char>)>,
}

impl PassScan {
    /// The state after the resolved node `node` is read: it stays.
    pub open spec fn keep(self, node: IrView) -> PassScan {
        PassScan { nodes: self.nodes.push(node), ..self }
    }

    /// The state after the unresolved fragment `t` with the mask `m` is read, of
    /// which a step has made `step`: the fragment is replaced by what the step
    /// returns, or by literal text where no operator matched. A step that failed
    /// fails the pass.
    pub open spec fn replace(
        self,
        t: Seq<char>,
        m: Validations,
        step: ResView<Option<Seq<IrView>>>,
        location: LocationView,
    ) -> PassScan {
        match step {
            ResView::Error { location: at, msg } => PassScan { failure: Some((at, msg)), ..self },
            _ => match step.payload()->0.item {
                Some(made) => PassScan {
                    nodes: self.nodes + made,
                    diagnostics: self.diagnostics + step.diagnostics(),
                    progress: true,
                    failure: None,
                },
                None => PassScan {
                    nodes: self.nodes + literal_text(t),
                    diagnostics: self.diagnostics + step.diagnostics() + literal_warnings(
                        t,
                        m,
                        location,
                    ),
                    progress: self.progress,
                    failure: None,
                },
            },
        }
    }
}

/// The state of a pass after all of `nodes` is read. A node that is resolved
/// stays. An unresolved fragment is replaced by what a step makes of it, or by
/// literal text where no operator matches. The first step that fails ends the pass.
pub open spec fn pass_scan(nodes: Seq<IrView>, location: LocationView, opts: Options) -> PassScan
    decreases nodes_weight(nodes), 6int, nodes.len(),
{
    if nodes.len() == 0 {
        PassScan {
            nodes: Seq::<IrView>::empty(),
            diagnostics: Seq::<Diagnostic>::empty(),
            progress: false,
            failure: None,
        }
    } else {
        let before = pass_scan(nodes.drop_last(), location, opts);
        if before.failure.is_some() {
            before
        } else {
            match nodes.last() {
                IrView::Unparsed { contents, validations } => before.replace(
                    contents,
                    validations,
                    try_process_spec(contents, location, opts, validations),
                    location,
                ),
                node => before.keep(node),
            }
        }
    }
}

/// What one pass over `nodes` returns: the new sequence, and whether another pass
/// is due.
pub open spec fn parse_spec(nodes: Seq<IrView>, location: LocationView, opts: Options) -> ResView<
    (Seq<IrView>, ContinueRunning),
>
    decreases nodes_weight(nodes), 7int, 0int,
{
    let scan = pass_scan(nodes, location, opts);
    match scan.failure {
        Some((at, msg)) => ResView::Error { location: at, msg },
        None => ResView::with_diagnostics(
            ItemView {
                item: (
                    scan.nodes,
                    if scan.progress {
                        ContinueRunning::Yes
                    } else {
                        ContinueRunning::No
                    },
                ),
                location: Some(location),
            },
            scan.diagnostics,
        ),
    }
}

/// What the passes make of `nodes`: the sequence after the first pass in which no
/// operator matches, with the warnings of all passes in order, or the failure of
/// the pass that failed. (Each pass that matches leaves less weight than it found,
/// see `lemma_pass_shrinks`; the comparison of the weights below only makes this
/// plain to the definition.)
#[verifier::opaque]
pub open spec fn reduce_spec(nodes: Seq<IrView>, location: LocationView, opts: Options) -> Result<
    (Seq<IrView>, Seq<Diagnostic>),
    (Option<LocationView>, Seq<char>),
>
    decreases nodes_weight(nodes), 8int, 0int,
{
    let pass = parse_spec(nodes, location, opts);
    match pass {
        ResView::Error { location: at, msg } => Err((at, msg)),
        _ => {
            let (next, again) = pass.payload()->0.item;
            if again == ContinueRunning::Yes && nodes_weight(next) < nodes_weight(nodes) {
                match reduce_spec(next, location, opts) {
                    Ok((last, more)) => Ok((last, pass.diagnostics() + more)),
                    Err(failure) => Err(failure),
                }
            } else {
                Ok((next, pass.diagnostics()))
            }
        },
    }
}

/// The mask that a parse starts with: the one given, or the mask of a whole
/// document.
pub open spec fn start_mask(validations: Option<Validations>) -> Validations {
    match validations {
        Some(m) => m,
        None => fresh_mask(),
    }
}

/// The sequence that the passes left, grouped as `opts` asks and cleaned.
pub open spec fn arrange(nodes: Seq<IrView>, opts: Options) -> Seq<IrView> {
    let grouped = if opts.make_paragraphs {
        paragraphs_spec(nodes)
    } else {
        nodes
    };
    let nested = if opts.make_cards {
        headers_spec(grouped)
    } else {
        grouped
    };
    clean_spec(nested)
}

/// The outcome of a parse whose passes ended with `reduced`: a `Div` of the
/// arranged sequence, with the warnings of the passes, or their failure.
pub open spec fn finish_spec(
    reduced: Result<(Seq<IrView>, Seq<Diagnostic>), (Option<LocationView>, Seq<char>)>,
    location: LocationView,
    opts: Options,
) -> ResView<IrView> {
    match reduced {
        Ok((nodes, diagnostics)) => ResView::with_diagnostics(
            ItemView {
                item: IrView::Div { contents: arrange(nodes, opts) },
                location: Some(location),
            },
            diagnostics,
        ),
        Err((at, msg)) => ResView::Error { location: at, msg },
    }
}

/// What parsing the text `text` returns: what the passes make of the normalized
/// text as one unresolved fragment, arranged as `opts` asks.
#[verifier::opaque]
pub open spec fn execute_spec(
    text: Seq<char>,
    location: LocationView,
    opts: Options,
    validations: Option<Validations>,
) -> ResView<IrView>
    decreases fragment_weight(text, start_mask(validations)) + 16, 9int, 0int,
{
    let m = start_mask(validations);
    let start = seq![IrView::Unparsed { contents: normalize(text), validations: m }];
    proof {
        lemma_normalize_len(text);
        lemma_single_weight(start[0]);
    }
    finish_spec(reduce_spec(start, location, opts), location, opts)
}

/// The text that is parsed for the document `contents`.
fn normalize_exec(contents: &String) -> (r: Vec<char>)
    ensures
        r@ == normalize(contents@),
{
    let chars = to_chars(contents.as_str());
    let len = chars.len();
    let mut out: Vec<char> = Vec::new();
    let mut i: usize = 0;
    while i < len
        invariant
            i <= len == chars@.len(),
            out@ == without_cr(chars@, i as int),
        decreases len - i,
    {
        let c = chars[i];
        if !(c == '\r' && i + 1 < len && chars[i + 1] == '\n') {
            out.push(c);
        }
        i += 1;
    }
    if out.len() == 0 || out[out.len() - 1] != '\n' {
        out.push('\n');
    }
    out
}

/// The warning for the line `line`, which is longer than the limit.
fn long_line_message_exec(line: &Vec<char>) -> (msg: String)
    requires
        line@.len() > 350,
    ensures
        msg@ == long_line_message(line@),
{
    let len = line.len();
    let shown: usize = if len < 20 {
        len
    } else {
        20
    };
    let suggested_end: usize = if len < 370 {
        len
    } else {
        370
    };
    let mut msg = String::from_str("\n\tParagraph '");
    push_range(&mut msg, line, 0, shown);
    msg.append("' exceeded limit of ");
    push_decimal(&mut msg, 350);
    msg.append(" by ");
    push_decimal(&mut msg, len - 350);
    msg.append(" characters!\n\tSuggested fix is newline at: '");
    push_range(&mut msg, line, 350, suggested_end);
    msg.append("'");
    msg
}

/// Appends the literal text of the fragment `contents` to `nodes`, and the warnings
/// for its lines to `warnings`.
#[verifier::rlimit(40)]
fn literal_text_exec(
    contents: &String,
    m: &Validations,
    location: &Location,
    nodes: &mut Vec<ContentIr>,
    warnings: &mut Vec<(String, Option<Location>)>,
)
    ensures
        final(nodes).deep_view() == old(nodes).deep_view() + literal_text(contents@),
        final(warnings).deep_view() == old(warnings).deep_view() + literal_warnings(
            contents@,
            *m,
            location.deep_view(),
        ),
{
    let chars = to_chars(contents.as_str());
    if chars.len() == 0 {
        assert(nodes.deep_view() + Seq::<IrView>::empty() =~= nodes.deep_view());
        assert(warnings.deep_view() + Seq::<Diagnostic>::empty() =~= warnings.deep_view());
        return ;
    }
    let lines = split_lines_exec(&chars);
    let ghost all = lines.deep_view();
    let ghost at = location.deep_view();
    let mut i: usize = 0;
    assert(nodes.deep_view() + text_nodes(all.take(0)) =~= nodes.deep_view());
    assert(warnings.deep_view() + Seq::<Diagnostic>::empty() =~= warnings.deep_view());
    while i < lines.len()
        invariant
            i <= lines@.len(),
            all == lines.deep_view(),
            at == location.deep_view(),
            nodes.deep_view() == old(nodes).deep_view() + text_nodes(all.take(i as int)),
            warnings.deep_view() == old(warnings).deep_view() + if m.validate_paragraph_len {
                long_line_warnings(all.take(i as int), at)
            } else {
                Seq::<Diagnostic>::empty()
            },
        decreases lines.len() - i,
    {
        let line = &lines[i];
        assert(all.take(i + 1).drop_last() =~= all.take(i as int));
        assert(line.deep_view() =~= line@);
        assert(all.take(i + 1).last() == line@);
        if line.len() > 350 && m.validate_paragraph_len {
            let ghost before = warnings.deep_view();
            push_diagnostic(warnings, long_line_message_exec(line), Some(location.copy()));
            assert(warnings.deep_view() =~= old(warnings).deep_view() + long_line_warnings(
                all.take(i + 1),
                at,
            ));
        }
        let ghost before = nodes.deep_view();
        push_node(nodes, ContentIr::Text { text: string_of(line) });
        assert(nodes.deep_view() =~= old(nodes).deep_view() + text_nodes(all.take(i + 1)));
        i += 1;
    }
    assert(all.take(lines@.len() as int) =~= all);
}

/// The outcome of a step in which an operator matched with `ir`.
fn matched(ir: Vec<ContentIr>, location: &Location) -> (r: Res<Option<Vec<ContentIr>>>)
    ensures
        r.deep_view() == step_outcome(Some(ir.deep_view()), location.deep_view()),
{
    Res::Success(Item { item: Some(ir), location: Some(location.copy()) })
}

/// Puts the fragment `contents` through the directive operators and the heading
/// operator.
fn directive_step_exec(contents: &String, validations: &Validations) -> (r: Option<Vec<ContentIr>>)
    ensures
        r.deep_view() == directive_step(contents@, *validations),
{
    let mut m = *validations;
    if !m.skip_metadata_display_title {
        if let Some(ir) = metadata_display_title(contents, &m) {
            return Some(ir);
        }
    }
    m.skip_metadata_display_title = true;
    if !m.skip_metadata_keywords {
        if let Some(ir) = metadata_keywords(contents, &m) {
            return Some(ir);
        }
    }
    m.skip_metadata_keywords = true;
    if !m.skip_metadata_series {
        if let Some(ir) = metadata_series(contents, &m) {
            return Some(ir);
        }
    }
    m.skip_metadata_series = true;
    if !m.skip_metadata_summary {
        if let Some(ir) = metadata_summary(contents, &m) {
            return Some(ir);
        }
    }
    m.skip_metadata_summary = true;
    if !m.skip_header {
        return header(contents, &m);
    }
    None
}

/// Puts the fragment `contents` through the inline-code operator and the link
/// operator.
fn inline_step_exec(contents: &String, location: &Location, validations: &Validations) -> (r: Res<
    Option<Vec<ContentIr>>,
>)
    ensures
        r.deep_view() == inline_step(contents@, location.deep_view(), *validations),
{
    let mut m = *validations;
    if !m.skip_inline_code {
        if let Some(ir) = inline_code(contents, &m) {
            return matched(ir, location);
        }
    }
    m.skip_inline_code = true;
    if !m.skip_link {
        return link(contents, location, &m);
    }
    Res::Success(Item { item: None, location: Some(location.copy()) })
}

/// Puts the fragment `contents` through the operators, in their order, until one
/// matches.
#[verifier::rlimit(40)]
pub fn try_process(
    contents: &String,
    location: &Location,
    opts: Options,
    validations: &Validations,
) -> (r: Res<Option<Vec<ContentIr>>>)
    ensures
        r.deep_view() == try_process_spec(contents@, location.deep_view(), opts, *validations),
    decreases fragment_weight(contents@, *validations), 5int, 0int,
{
    let mut m = *validations;
    if !m.skip_code_block {
        if let Some(ir) = block(contents, opts, &m) {
            return matched(ir, location);
        }
    }
    m.skip_code_block = true;
    if let Some(ir) = directive_step_exec(contents, &m) {
        return matched(ir, location);
    }
    m.skip_metadata_display_title = true;
    m.skip_metadata_keywords = true;
    m.skip_metadata_series = true;
    m.skip_metadata_summary = true;
    m.skip_header = true;
    if !m.skip_list {
        proof {
            lemma_suppressed(*validations, m);
            lemma_list_weight(contents@, opts, m, *validations);
        }
        match list(contents, opts, &m) {
            Res::Error { msg, .. } => {
                return Res::Error { location: Some(location.copy()), msg };
            },
            Res::Success(item) => {
                if let Some(ir) = item.item {
                    return matched(ir, location);
                }
            },
            Res::Warn { item, .. } => {},
            Res::Warnings { item, .. } => {},
        }
    }
    m.skip_list = true;
    inline_step_exec(contents, location, &m)
}

/// Once a pass has failed it reads no further.
pub proof fn lemma_pass_failure(nodes: Seq<IrView>, n: int, location: LocationView, opts: Options)
    requires
        0 <= n <= nodes.len(),
        pass_scan(nodes.take(n), location, opts).failure.is_some(),
    ensures
        pass_scan(nodes, location, opts) == pass_scan(nodes.take(n), location, opts),
    decreases nodes.len() - n,
{
    if n < nodes.len() {
        assert(nodes.drop_last().take(n) =~= nodes.take(n));
        lemma_pass_failure(nodes.drop_last(), n, location, opts);
    } else {
        assert(nodes.take(n) =~= nodes);
    }
}

/// What a pass makes of the node `node`, after it has made `before` of the nodes
/// before it.
pub open spec fn pass_step_spec(
    before: PassScan,
    node: IrView,
    step: ResView<Option<Seq<IrView>>>,
    location: LocationView,
) -> PassScan {
    match node {
        IrView::Unparsed { contents, validations } => before.replace(
            contents,
            validations,
            step,
            location,
        ),
        other => before.keep(other),
    }
}

/// Reads the node `node` in a pass that has made `new` and `warnings` so far:
/// returns whether an operator has matched in the pass by now, or the failure of
/// the step.
#[verifier::rlimit(40)]
fn pass_step(
    node: &ContentIr,
    location: &Location,
    opts: Options,
    new: &mut Vec<ContentIr>,
    warnings: &mut Vec<(String, Option<Location>)>,
    progress: bool,
) -> (r: Result<bool, (Option<Location>, String)>)
    ensures
        ({
            let before = PassScan {
                nodes: old(new).deep_view(),
                diagnostics: old(warnings).deep_view(),
                progress,
                failure: None,
            };
            let step = match node.deep_view() {
                IrView::Unparsed { contents, validations } => try_process_spec(
                    contents,
                    location.deep_view(),
                    opts,
                    validations,
                ),
                _ => step_outcome(None, location.deep_view()),
            };
            let after = pass_step_spec(before, node.deep_view(), step, location.deep_view());
            match r {
                Ok(matched) => after == (PassScan {
                    nodes: final(new).deep_view(),
                    diagnostics: final(warnings).deep_view(),
                    progress: matched,
                    failure: None,
                }),
                Err((at, msg)) => after == (PassScan {
                    failure: Some((at.deep_view(), msg@)),
                    ..before
                }),
            }
        }),
    decreases node_weight(node.deep_view()), 6int, 0int,
{
    match node {
        ContentIr::Unparsed { contents, validations } => {
            match try_process(contents, location, opts, validations).into_parts() {
                Err(failure) => Err(failure),
                Ok((item, msgs)) => {
                    append_diagnostics(warnings, msgs);
                    match item.item {
                        Some(ir) => {
                            append_nodes(new, ir);
                            Ok(true)
                        },
                        None => {
                            literal_text_exec(contents, validations, location, new, warnings);
                            Ok(progress)
                        },
                    }
                },
            }
        },
        other => {
            push_node(new, other.copy());
            Ok(progress)
        },
    }
}

/// One pass over `elements`: every unresolved fragment is put through the
/// operators, and becomes literal text where none matches.
#[verifier::rlimit(40)]
pub fn parse(elements: &Vec<ContentIr>, location: &Location, opts: Options) -> (r: Res<
    (Vec<ContentIr>, ContinueRunning),
>)
    ensures
        r.deep_view() == parse_spec(elements.deep_view(), location.deep_view(), opts),
    decreases nodes_weight(elements.deep_view()), 7int, 0int,
{
    let mut new: Vec<ContentIr> = Vec::new();
    let mut progress = false;
    let mut warnings: Vec<(String, Option<Location>)> = Vec::new();
    let mut i: usize = 0;
    let ghost all = elements.deep_view();
    let ghost at = location.deep_view();
    assert(new.deep_view() =~= Seq::<IrView>::empty());
    assert(warnings.deep_view() =~= Seq::<Diagnostic>::empty());
    assert(all.take(0) =~= Seq::<IrView>::empty());
    while i < elements.len()
        invariant
            i <= elements@.len(),
            all == elements.deep_view(),
            at == location.deep_view(),
            pass_scan(all.take(i as int), at, opts) == (PassScan {
                nodes: new.deep_view(),
                diagnostics: warnings.deep_view(),
                progress,
                failure: None,
            }),
        decreases elements.len() - i,
    {
        proof {
            assert(all.take(i + 1).drop_last() =~= all.take(i as int));
            assert(all.take(i + 1).last() == elements[i as int].deep_view());
            lemma_weight_bound(all, i as int);
        }
        match pass_step(&elements[i], location, opts, &mut new, &mut warnings, progress) {
            Ok(matched) => {
                progress = matched;
            },
            Err((failed_at, msg)) => {
                proof {
                    lemma_pass_failure(all, i + 1, at, opts);
                }
                return Res::Error { location: failed_at, msg };
            },
        }
        i += 1;
    }
    assert(all.take(elements@.len() as int) =~= all);
    let again = if progress {
        ContinueRunning::Yes
    } else {
        ContinueRunning::No
    };
    Res::from_diagnostics(Item { item: (new, again), location: Some(location.copy()) }, warnings)
}

/// What the directive operators and the heading operator return weighs less than
/// the fragment they were given.
proof fn lemma_directive_step_weight(t: Seq<char>, m0: Validations, m: Validations)
    requires
        unsuppressed(m) <= unsuppressed(m0),
    ensures
        directive_step(t, m) matches Some(nodes) ==> nodes_weight(nodes) < fragment_weight(t, m0),
{
    let m2 = Validations { skip_metadata_display_title: true, ..m };
    let m3 = Validations { skip_metadata_keywords: true, ..m2 };
    let m4 = Validations { skip_metadata_series: true, ..m3 };
    let m5 = Validations { skip_metadata_summary: true, ..m4 };
    lemma_suppressed(m, m2);
    lemma_suppressed(m, m3);
    lemma_suppressed(m, m4);
    lemma_suppressed(m, m5);
    lemma_directive_weight(t, "!!title"@, m0, m);
    lemma_directive_weight(t, "!!keywords"@, m0, m);
    lemma_directive_weight(t, "!!series"@, m0, m);
    lemma_directive_weight(t, "!!summary"@, m0, m);
    lemma_header_weight(t, m0, m5);
}

/// What the inline-code operator and the link operator return weighs less than
/// the fragment they were given.
proof fn lemma_inline_step_weight(t: Seq<char>, location: LocationView, m0: Validations, m: Validations)
    requires
        unsuppressed(m) <= unsuppressed(m0),
    ensures
        match inline_step(t, location, m).payload() {
            Some(item) => item.item matches Some(nodes) ==> nodes_weight(nodes) < fragment_weight(
                t,
                m0,
            ),
            None => true,
        },
{
    let m8 = Validations { skip_inline_code: true, ..m };
    lemma_suppressed(m, m8);
    lemma_inline_code_weight(t, m0, m);
    lemma_link_weight(t, location, m0, m8);
}

/// What a step returns weighs less than the fragment it was given.
#[verifier::rlimit(40)]
pub proof fn lemma_step_weight(t: Seq<char>, location: LocationView, opts: Options, m: Validations)
    ensures
        match try_process_spec(t, location, opts, m).payload() {
            Some(item) => item.item matches Some(nodes) ==> nodes_weight(nodes) < fragment_weight(
                t,
                m,
            ),
            None => true,
        },
{
    let m1 = after_block(m);
    let m6 = after_header(m1);
    lemma_suppressed(m, m1);
    lemma_suppressed(m, m6);
    lemma_suppressed(m, after_list(m6));
    lemma_block_weight(t, opts, m, m);
    lemma_directive_step_weight(t, m, m1);
    lemma_list_weight(t, opts, m6, m);
    lemma_inline_step_weight(t, location, m, after_list(m6));
}

/// A pass leaves no more weight than it found, and less where an operator matched;
/// a pass in which none matched leaves no unresolved fragment.
#[verifier::rlimit(40)]
pub proof fn lemma_pass_shrinks(nodes: Seq<IrView>, location: LocationView, opts: Options)
    ensures
        ({
            let scan = pass_scan(nodes, location, opts);
            scan.failure.is_none() ==> {
                &&& nodes_weight(scan.nodes) <= nodes_weight(nodes)
                &&& scan.progress ==> nodes_weight(scan.nodes) < nodes_weight(nodes)
                &&& !scan.progress ==> nodes_weight(scan.nodes) == 0
            }
        }),
    decreases nodes.len(),
{
    if nodes.len() > 0 {
        let before = pass_scan(nodes.drop_last(), location, opts);
        lemma_pass_shrinks(nodes.drop_last(), location, opts);
        if before.failure.is_none() {
            match nodes.last() {
                IrView::Unparsed { contents, validations } => {
                    let step = try_process_spec(contents, location, opts, validations);
                    lemma_step_weight(contents, location, opts, validations);
                    if step.payload().is_some() {
                        match step.payload()->0.item {
                            Some(made) => {
                                lemma_weight_concat(before.nodes, made);
                            },
                            None => {
                                lemma_literal_weight(contents);
                                lemma_weight_concat(before.nodes, literal_text(contents));
                            },
                        }
                    }
                },
                node => {
                    lemma_single_weight(node);
                    lemma_weight_concat(before.nodes, seq![node]);
                    assert(before.nodes + seq![node] =~= before.nodes.push(node));
                },
            }
        }
    }
}

/// Literal text holds no unresolved fragment.
pub proof fn lemma_literal_weight(t: Seq<char>)
    ensures
        nodes_weight(literal_text(t)) == 0,
{
    if t.len() > 0 {
        lemma_text_weight(split_lines(t));
    }
}

proof fn lemma_text_weight(lines: Seq<Seq<char>>)
    ensures
        nodes_weight(text_nodes(lines)) == 0,
    decreases lines.len(),
{
    if lines.len() > 0 {
        lemma_text_weight(lines.drop_last());
        assert(text_nodes(lines).drop_last() =~= text_nodes(lines.drop_last()));
    }
}

/// The directive operator for `marker` returns less weight than it was given,
/// whatever the directive holds and under whatever mask its fragments stand, if that
/// mask suppresses nothing less than `m` does.
proof fn lemma_directive_weight(t: Seq<char>, marker: Seq<char>, m0: Validations, m: Validations)
    requires
        unsuppressed(m) <= unsuppressed(m0),
    ensures
        forall|found: (int, int), value: content_ir::MetadataView, bit: Validations|
            #![trigger chomp::metadata::directive_nodes(t, found, value, bit)]
            chomp::metadata::directive_match(t, marker) == Some(found) && unsuppressed(bit)
                <= unsuppressed(m) ==> nodes_weight(
                chomp::metadata::directive_nodes(t, found, value, bit),
            ) < fragment_weight(t, m0),
{
    lemma_directive_match(t, marker);
    assert forall|found: (int, int), value: content_ir::MetadataView, bit: Validations|
        #![trigger chomp::metadata::directive_nodes(t, found, value, bit)]
        chomp::metadata::directive_match(t, marker) == Some(found) && unsuppressed(bit)
            <= unsuppressed(m) implies nodes_weight(
        chomp::metadata::directive_nodes(t, found, value, bit),
    ) < fragment_weight(t, m0) by {
        lemma_single_weight(IrView::Metadata(value));
        lemma_split_weight(
            t,
            m0,
            t.subrange(0, found.0),
            bit,
            seq![IrView::Metadata(value)],
            t.subrange(found.1 + 1, t.len() as int),
            bit,
        );
    }
}

/// The heading operator returns less weight than it was given.
proof fn lemma_header_weight(t: Seq<char>, m0: Validations, m: Validations)
    requires
        unsuppressed(m) <= unsuppressed(m0),
    ensures
        header_spec(t, m) matches Some(nodes) ==> nodes_weight(nodes) < fragment_weight(t, m0),
{
    lemma_header_match(t);
    if let Some((start, run_end, end)) = chomp::header::header_match(t) {
        let middle = chomp::header::heading_node(
            chomp::header::heading_level(run_end - start),
            crate::text::trim(t.subrange(run_end, end)),
        );
        if middle.len() > 0 {
            lemma_single_weight(middle[0]);
            assert(middle =~= seq![middle[0]]);
        }
        lemma_suppressed(m, Validations { skip_header: true, ..m });
        lemma_split_weight(
            t,
            m0,
            t.subrange(0, start),
            Validations { skip_header: true, ..m },
            middle,
            t.subrange(end, t.len() as int),
            m,
        );
    }
}

/// The inline-code operator returns less weight than it was given.
proof fn lemma_inline_code_weight(t: Seq<char>, m0: Validations, m: Validations)
    requires
        unsuppressed(m) <= unsuppressed(m0),
    ensures
        inline_code_spec(t, m) matches Some(nodes) ==> nodes_weight(nodes) < fragment_weight(
            t,
            m0,
        ),
{
    lemma_inline_code_match(t);
    if let Some((open, close)) = chomp::inline_code::inline_code_match(t) {
        let middle = chomp::inline_code::inline_code_node(t.subrange(open + 1, close));
        if middle.len() > 0 {
            lemma_single_weight(middle[0]);
            assert(middle =~= seq![middle[0]]);
        }
        lemma_suppressed(m, Validations { skip_inline_code: true, ..m });
        lemma_split_weight(
            t,
            m0,
            t.subrange(0, open),
            Validations { skip_inline_code: true, ..m },
            middle,
            t.subrange(close + 1, t.len() as int),
            m,
        );
    }
}

/// The link operator returns less weight than it was given.
proof fn lemma_link_weight(t: Seq<char>, location: LocationView, m0: Validations, m: Validations)
    requires
        unsuppressed(m) <= unsuppressed(m0),
    ensures
        match link_spec(t, location, m).payload() {
            Some(item) => item.item matches Some(nodes) ==> nodes_weight(nodes) < fragment_weight(
                t,
                m0,
            ),
            None => true,
        },
{
    lemma_link_match(t);
    if let Some(found) = chomp::link::link_match(t) {
        if let Some(target) = chomp::link::link_target(t, found) {
            let before_end = if chomp::link::has_exclamation(t, found.0) {
                found.0 - 1
            } else {
                found.0
            };
            let node = IrView::Link {
                description: chomp::link::link_description(t, found),
                url: target.1,
                link_type: target.0,
            };
            lemma_single_weight(node);
            lemma_suppressed(m, Validations { skip_link: true, ..m });
            lemma_split_weight(
                t,
                m0,
                t.subrange(0, before_end),
                Validations { skip_link: true, ..m },
                seq![node],
                t.subrange(found.3 + 1, t.len() as int),
                m,
            );
        }
    }
}

/// The outcome of the passes `rest`, after passes that gave the warnings `before`.
pub open spec fn after_warnings(
    before: Seq<Diagnostic>,
    rest: Result<(Seq<IrView>, Seq<Diagnostic>), (Option<LocationView>, Seq<char>)>,
) -> Result<(Seq<IrView>, Seq<Diagnostic>), (Option<LocationView>, Seq<char>)> {
    match rest {
        Ok((nodes, more)) => Ok((nodes, before + more)),
        Err(failure) => Err(failure),
    }
}

/// What the passes make of `nodes`, by what the first pass returns: its failure;
/// or its sequence, where no operator matched in it, and no fragment is left then;
/// or what the passes make of its sequence, which weighs less than `nodes`, after
/// its warnings.
pub proof fn lemma_reduce_step(nodes: Seq<IrView>, location: LocationView, opts: Options)
    ensures
        match parse_spec(nodes, location, opts) {
            ResView::Error { location: at, msg } => reduce_spec(nodes, location, opts) == Err::<
                (Seq<IrView>, Seq<Diagnostic>),
                (Option<LocationView>, Seq<char>),
            >((at, msg)),
            pass => {
                let (next, again) = pass.payload()->0.item;
                if again == ContinueRunning::Yes {
                    &&& nodes_weight(next) < nodes_weight(nodes)
                    &&& reduce_spec(nodes, location, opts) == after_warnings(
                        pass.diagnostics(),
                        reduce_spec(next, location, opts),
                    )
                } else {
                    &&& nodes_weight(next) == 0
                    &&& reduce_spec(nodes, location, opts) == Ok::<
                        (Seq<IrView>, Seq<Diagnostic>),
                        (Option<LocationView>, Seq<char>),
                    >((next, pass.diagnostics()))
                }
            },
        },
{
    reveal(reduce_spec);
    lemma_pass_shrinks(nodes, location, opts);
}

/// Warnings that come before warnings that come before an outcome come before it.
pub proof fn lemma_after_warnings(
    first: Seq<Diagnostic>,
    second: Seq<Diagnostic>,
    rest: Result<(Seq<IrView>, Seq<Diagnostic>), (Option<LocationView>, Seq<char>)>,
)
    ensures
        after_warnings(first, after_warnings(second, rest)) == after_warnings(first + second, rest),
        after_warnings(Seq::<Diagnostic>::empty(), rest) == rest,
{
    if let Ok((nodes, more)) = rest {
        assert(first + (second + more) =~= (first + second) + more);
        assert(Seq::<Diagnostic>::empty() + more =~= more);
    }
}

/// The mask that a parse starts with.
fn start_mask_exec(validations: Option<Validations>) -> (m: Validations)
    ensures
        m == start_mask(validations),
{
    match validations {
        Some(m) => m,
        None => Validations {
            skip_code_block: false,
            skip_header: false,
            skip_inline_code: false,
            skip_link: false,
            skip_list: false,
            skip_metadata_display_title: false,
            skip_metadata_keywords: false,
            skip_metadata_series: false,
            skip_metadata_summary: false,
            validate_paragraph_len: true,
        },
    }
}

/// Groups and cleans the sequence that the passes left.
fn arrange_exec(ir: Vec<ContentIr>, opts: Options) -> (r: ContentIr)
    ensures
        r.deep_view() == (IrView::Div { contents: arrange(ir.deep_view(), opts) }),
{
    let grouped = if opts.make_paragraphs {
        paragraphs(ir)
    } else {
        ir
    };
    let nested = if opts.make_cards {
        headers(grouped)
    } else {
        grouped
    };
    let cleaned = clean(nested);
    proof {
        lemma_child_models(cleaned);
    }
    ContentIr::Div { contents: cleaned }
}

/// The outcome of a parse whose passes ended with the sequence `ir` and the
/// warnings `warnings`.
fn finish_exec(
    ir: Vec<ContentIr>,
    warnings: Vec<(String, Option<Location>)>,
    location: Location,
    opts: Options,
) -> (r: Res<ContentIr>)
    ensures
        r.deep_view() == finish_spec(
            Ok((ir.deep_view(), warnings.deep_view())),
            location.deep_view(),
            opts,
        ),
{
    let tree = arrange_exec(ir, opts);
    Res::from_diagnostics(Item { item: tree, location: Some(location) }, warnings)
}

/// Runs one pass over `ir`, and adds its warnings to `warnings`. Returns whether
/// another pass is due.
#[verifier::rlimit(40)]
fn reduce_once(
    ir: &mut Vec<ContentIr>,
    warnings: &mut Vec<(String, Option<Location>)>,
    location: &Location,
    opts: Options,
) -> (r: Result<bool, (Option<Location>, String)>)
    ensures
        match r {
            Ok(again) => {
                &&& after_warnings(
                    old(warnings).deep_view(),
                    reduce_spec(old(ir).deep_view(), location.deep_view(), opts),
                ) == if again {
                    after_warnings(
                        final(warnings).deep_view(),
                        reduce_spec(final(ir).deep_view(), location.deep_view(), opts),
                    )
                } else {
                    Ok((final(ir).deep_view(), final(warnings).deep_view()))
                }
                &&& again ==> nodes_weight(final(ir).deep_view()) < nodes_weight(
                    old(ir).deep_view(),
                )
                &&& !again ==> nodes_weight(final(ir).deep_view()) == 0
            },
            Err((at, msg)) => reduce_spec(old(ir).deep_view(), location.deep_view(), opts) == Err::<
                (Seq<IrView>, Seq<Diagnostic>),
                (Option<LocationView>, Seq<char>),
            >((at.deep_view(), msg@)),
        },
    decreases nodes_weight(old(ir).deep_view()), 8int, 0int,
{
    let ghost at = location.deep_view();
    let ghost before = ir.deep_view();
    let ghost earlier = warnings.deep_view();
    proof {
        lemma_reduce_step(before, at, opts);
    }
    match parse(ir, location, opts).into_parts() {
        Err(failure) => Err(failure),
        Ok((item, msgs)) => {
            proof {
                lemma_after_warnings(
                    earlier,
                    msgs.deep_view(),
                    reduce_spec(item.item.0.deep_view(), at, opts),
                );
            }
            append_diagnostics(warnings, msgs);
            let (next, again) = item.item;
            *ir = next;
            match again {
                ContinueRunning::Yes => Ok(true),
                ContinueRunning::No => Ok(false),
            }
        },
    }
}

/// Parses the document `contents`: reduces it by passes until no operator
/// matches, groups paragraphs and nests headings as `opts` asks, and removes the
/// empty nodes. The tree is a `Div`, and it comes with the warnings of the
/// reduction. No unresolved fragment is left in it.
#[verifier::rlimit(40)]
pub fn execute(
    contents: String,
    location: Location,
    opts: Options,
    validations: Option<Validations>,
) -> (r: Res<ContentIr>)
    ensures
        r.deep_view() == execute_spec(contents@, location.deep_view(), opts, validations),
        r.deep_view().payload() matches Some(tree) ==> resolved(tree.item),
        r.deep_view().payload() matches Some(tree) ==> tree.item matches IrView::Div { contents }
            && all_clean(contents),
    decreases fragment_weight(contents@, start_mask(validations)) + 16, 9int, 0int,
{
    reveal(execute_spec);
    reveal(reduce_spec);
    proof {
        lemma_execute_resolved(contents@, location.deep_view(), opts, validations);
        lemma_execute_clean(contents@, location.deep_view(), opts, validations);
    }
    let m = start_mask_exec(validations);
    let text = string_of(&normalize_exec(&contents));
    let ghost at = location.deep_view();
    let ghost start = seq![IrView::Unparsed { contents: normalize(contents@), validations: m }];
    let ghost whole = reduce_spec(start, at, opts);
    let mut ir: Vec<ContentIr> = Vec::new();
    ir.push(ContentIr::Unparsed { contents: text, validations: m });
    let mut warnings: Vec<(String, Option<Location>)> = Vec::new();
    let mut running = true;
    proof {
        assert(ir.deep_view() =~= start);
        lemma_normalize_len(contents@);
        lemma_single_weight(start[0]);
        assert(warnings.deep_view() =~= Seq::<Diagnostic>::empty());
        lemma_after_warnings(Seq::<Diagnostic>::empty(), Seq::<Diagnostic>::empty(), whole);
    }
    while running
        invariant
            at == location.deep_view(),
            nodes_weight(ir.deep_view()) <= fragment_weight(contents@, m) + 16,
            m == start_mask(validations),
            execute_spec(contents@, at, opts, validations) == finish_spec(whole, at, opts),
            running ==> whole == after_warnings(
                warnings.deep_view(),
                reduce_spec(ir.deep_view(), at, opts),
            ),
            !running ==> whole == Ok::<
                (Seq<IrView>, Seq<Diagnostic>),
                (Option<LocationView>, Seq<char>),
            >((ir.deep_view(), warnings.deep_view())),
        decreases
                if running {
                    nodes_weight(ir.deep_view()) + 1
                } else {
                    0
                },
    {
        match reduce_once(&mut ir, &mut warnings, &location, opts) {
            Ok(again) => {
                running = again;
            },
            Err((failed_at, msg)) => {
                return Res::Error { location: failed_at, msg };
            },
        }
    }
    finish_exec(ir, warnings, location, opts)
}

} // verus!
