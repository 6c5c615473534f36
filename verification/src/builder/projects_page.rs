//! The page of the projects of the author.

use crate::builder::about_me_page::{
    div_of,
    page_title,
    regular_link,
    regular_link_exec,
};
use crate::config::{ConfigView, ProjectView};
use crate::context::Context;
use crate::outcome::{Item, ItemView};
use crate::parser::md::parse_contents::content_ir::{
    push_node,
    section_spec,
    ContentIr,
    IrView,
};
use crate::parser::page::PageView;
use crate::parser::Page;
use crate::text::{
    lowercase,
    lowercase_of,
    push_string,
    range_is,
    string_of,
    text_of,
    to_chars,
    tokens,
    tokens_exec,
    without,
    without_exec,
};
use vstd::prelude::*;

verus! {

/// The section of the project `project`: its description and a link to it.
pub open spec fn project_section(project: ProjectView) -> IrView {
    section_spec(
        project.title,
        seq![
            IrView::Text { text: project.description },
            regular_link("Check it out"@, project.url),
        ],
    )
}

/// The sections of the projects `projects`, in a `Div`.
pub open spec fn map_projects_spec(projects: Seq<ProjectView>) -> IrView {
    IrView::Div { contents: Seq::new(projects.len(), |i: int| project_section(projects[i])) }
}

/// Whether `word` says too little to be a keyword.
pub open spec fn is_filler(word: Seq<char>) -> bool {
    word == "and"@ || word == "that"@ || word == "the"@ || word == "a"@ || word == "for"@
        || word == "in"@
}

/// The keyword for the word `word`: in lowercase, without full stops.
pub open spec fn keyword_of(word: Seq<char>) -> Seq<char> {
    without(lowercase_of(word), '.', '.')
}

/// `keywords`, and after them the keywords for `words` that are no fillers.
pub open spec fn with_keywords(keywords: Seq<Seq<char>>, words: Seq<Seq<char>>) -> Seq<Seq<char>>
    decreases words.len(),
{
    if words.len() == 0 {
        keywords
    } else {
        let before = with_keywords(keywords, words.drop_last());
        if is_filler(keyword_of(words.last())) {
            before
        } else {
            before.push(keyword_of(words.last()))
        }
    }
}

/// `keywords`, and after them the keywords for the words of the descriptions of
/// `projects`.
pub open spec fn with_project_keywords(
    keywords: Seq<Seq<char>>,
    projects: Seq<ProjectView>,
) -> Seq<Seq<char>>
    decreases projects.len(),
{
    if projects.len() == 0 {
        keywords
    } else {
        with_keywords(
            with_project_keywords(keywords, projects.drop_last()),
            tokens(projects.last().description),
        )
    }
}

/// `words` without each word that is the same as the one before it.
pub open spec fn deduplicated(words: Seq<Seq<char>>) -> Seq<Seq<char>>
    decreases words.len(),
{
    if words.len() == 0 {
        words
    } else {
        let before = deduplicated(words.drop_last());
        if before.len() > 0 && before.last() == words.last() {
            before
        } else {
            before.push(words.last())
        }
    }
}

/// The keywords of the page of projects: four that are always there, and those of
/// the descriptions of the projects, none twice in a row.
pub open spec fn map_keywords_spec(projects: Seq<ProjectView>) -> Seq<Seq<char>> {
    deduplicated(
        with_project_keywords(
            seq!["github"@, "collection"@, "various"@, "projects"@],
            projects,
        ),
    )
}

/// The page of the projects, in the file `file_name`.
pub open spec fn build_spec(file_name: Seq<char>, config: ConfigView) -> PageView {
    PageView {
        contents: ItemView {
            item: IrView::Div {
                contents: seq![
                    page_title("Projects"@, "projects"@),
                    section_spec(
                        "Projects"@,
                        seq![
                            IrView::Text {
                                text: "A collection of various projects I've worked on over the years."@,
                            },
                        ],
                    ),
                    map_projects_spec(config.projects),
                ],
            },
            location: None,
        },
        file_name,
        keywords: map_keywords_spec(config.projects),
        summary: "A collection of projects I've worked on over the years."@,
        title: "Projects"@,
    }
}

/// The sections of the projects of `context`.
fn map_projects(context: &Context) -> (r: ContentIr)
    ensures
        r.deep_view() == map_projects_spec(context.config.projects.deep_view()),
{
    let projects = &context.config.projects;
    let ghost all = projects.deep_view();
    let mut sections: Vec<ContentIr> = Vec::new();
    let mut i: usize = 0;
    assert(sections.deep_view() =~= Seq::new(0nat, |k: int| project_section(all[k])));
    while i < projects.len()
        invariant
            i <= projects@.len(),
            all == projects.deep_view(),
            sections.deep_view() == Seq::new(i as nat, |k: int| project_section(all[k])),
        decreases projects.len() - i,
    {
        let project = &projects[i];
        let mut contents: Vec<ContentIr> = Vec::new();
        let description = ContentIr::text(project.description.clone());
        let link = regular_link_exec(text_of("Check it out"), project.url.clone());
        contents.push(description);
        contents.push(link);
        assert(contents.deep_view() =~= seq![description.deep_view(), link.deep_view()]);
        push_node(&mut sections, ContentIr::section(project.title.clone(), contents));
        i += 1;
        assert(sections.deep_view() =~= Seq::new(i as nat, |k: int| project_section(all[k])));
    }
    div_of(sections)
}

/// Whether `word` says too little to be a keyword.
pub fn is_filler_exec(word: &Vec<char>) -> (b: bool)
    ensures
        b == is_filler(word@),
{
    let n = word.len();
    assert(word@.subrange(0, n as int) =~= word@);
    range_is(word, 0, n, "and") || range_is(word, 0, n, "that") || range_is(word, 0, n, "the")
        || range_is(word, 0, n, "a") || range_is(word, 0, n, "for") || range_is(word, 0, n, "in")
}

/// Appends the keywords for the words of `description` to `keywords`.
fn push_keywords(keywords: &mut Vec<String>, description: &String)
    ensures
        final(keywords).deep_view() == with_keywords(
            old(keywords).deep_view(),
            tokens(description@),
        ),
{
    let chars = to_chars(description.as_str());
    assert(chars@.subrange(0, chars@.len() as int) =~= chars@);
    let words = tokens_exec(&chars, 0, chars.len());
    let ghost all = words.deep_view();
    let mut i: usize = 0;
    assert(all.take(0) =~= Seq::<Seq<char>>::empty());
    while i < words.len()
        invariant
            i <= words@.len(),
            all == words.deep_view(),
            keywords.deep_view() == with_keywords(old(keywords).deep_view(), all.take(i as int)),
        decreases words.len() - i,
    {
        assert(all.take(i + 1).drop_last() =~= all.take(i as int));
        assert(all.take(i + 1).last() == words[i as int]@);
        let lowered = to_chars(lowercase(words[i].as_str()).as_str());
        assert(lowered@.subrange(0, lowered@.len() as int) =~= lowered@);
        let keyword = without_exec(&lowered, 0, lowered.len(), '.', '.');
        if !is_filler_exec(&keyword) {
            push_string(keywords, string_of(&keyword));
        }
        i += 1;
    }
    assert(all.take(words@.len() as int) =~= all);
}

/// `words` without each word that is the same as the one before it.
fn deduplicate(words: Vec<String>) -> (r: Vec<String>)
    ensures
        r.deep_view() == deduplicated(words.deep_view()),
{
    let ghost all = words.deep_view();
    let mut r: Vec<String> = Vec::new();
    let mut i: usize = 0;
    assert(r.deep_view() =~= deduplicated(all.take(0)));
    while i < words.len()
        invariant
            i <= words@.len(),
            all == words.deep_view(),
            r.deep_view() == deduplicated(all.take(i as int)),
        decreases words.len() - i,
    {
        assert(all.take(i + 1).drop_last() =~= all.take(i as int));
        assert(all.take(i + 1).last() == words[i as int]@);
        let n = r.len();
        let same = n > 0 && r[n - 1] == words[i];
        proof {
            if n > 0 {
                assert(r.deep_view().last() == r[n - 1]@);
            }
        }
        if !same {
            push_string(&mut r, words[i].clone());
        }
        i += 1;
    }
    assert(all.take(words@.len() as int) =~= all);
    r
}

/// The keywords of the page of projects.
fn map_keywords(context: &Context) -> (r: Vec<String>)
    ensures
        r.deep_view() == map_keywords_spec(context.config.projects.deep_view()),
{
    let mut keywords: Vec<String> = Vec::new();
    keywords.push(text_of("github"));
    keywords.push(text_of("collection"));
    keywords.push(text_of("various"));
    keywords.push(text_of("projects"));
    let ghost start = seq!["github"@, "collection"@, "various"@, "projects"@];
    assert(keywords.deep_view() =~= start);
    let projects = &context.config.projects;
    let ghost all = projects.deep_view();
    let mut i: usize = 0;
    assert(all.take(0) =~= Seq::<ProjectView>::empty());
    while i < projects.len()
        invariant
            i <= projects@.len(),
            all == projects.deep_view(),
            keywords.deep_view() == with_project_keywords(start, all.take(i as int)),
        decreases projects.len() - i,
    {
        assert(all.take(i + 1).drop_last() =~= all.take(i as int));
        assert(all.take(i + 1).last() == projects[i as int].deep_view());
        push_keywords(&mut keywords, &projects[i].description);
        i += 1;
    }
    assert(all.take(projects@.len() as int) =~= all);
    deduplicate(keywords)
}

/// Composes the page of the projects.
pub fn build(html_filename: String, context: &Context) -> (r: Page)
    ensures
        r.deep_view() == build_spec(html_filename@, context.config.deep_view()),
{
    let mut blurb: Vec<ContentIr> = Vec::new();
    let text = ContentIr::text(
        text_of("A collection of various projects I've worked on over the years."),
    );
    blurb.push(text);
    assert(blurb.deep_view() =~= seq![text.deep_view()]);
    let projects = ContentIr::section(text_of("Projects"), blurb);
    let title = ContentIr::title(text_of("Projects"), text_of("projects"));
    let mapped = map_projects(context);
    let mut page_contents: Vec<ContentIr> = Vec::new();
    page_contents.push(title);
    page_contents.push(projects);
    page_contents.push(mapped);
    assert(page_contents.deep_view() =~= seq![
        title.deep_view(),
        projects.deep_view(),
        mapped.deep_view(),
    ]);
    Page {
        contents: Item { location: None, item: div_of(page_contents) },
        file_name: html_filename,
        keywords: map_keywords(context),
        summary: text_of("A collection of projects I've worked on over the years."),
        title: text_of("Projects"),
    }
}

} // verus!
