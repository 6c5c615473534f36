//! The configuration of a site.

use crate::text::text_of;
use crate::theme::{default_theme, Theme};
use vstd::prelude::*;

verus! {

/// A project that the projects page shows.
#[derive(Clone, Debug, PartialEq)]
pub struct Project {
    pub title: String,
    pub description: String,
    pub url: String,
}

/// The mathematical value of a [`Project`].
pub struct ProjectView {
    pub title: Seq<char>,
    pub description: Seq<char>,
    pub url: Seq<char>,
}

impl DeepView for Project {
    type V = ProjectView;

    open spec fn deep_view(&self) -> ProjectView {
        ProjectView { title: self.title@, description: self.description@, url: self.url@ }
    }
}

/// What the owner of a site says of it and of themself.
#[derive(Clone, Debug, PartialEq)]
pub struct Config {
    pub about_me: String,
    pub about_me_keywords: Vec<String>,
    pub about_me_summary: String,
    pub author: String,
    pub github: Option<String>,
    pub index_keywords: Vec<String>,
    pub index_title: String,
    pub linked_in: Option<String>,
    pub projects: Vec<Project>,
    pub theme: Theme,
    pub twitter: Option<String>,
}

/// The mathematical value of a [`Config`].
pub struct ConfigView {
    pub about_me: Seq<char>,
    pub about_me_keywords: Seq<Seq<char>>,
    pub about_me_summary: Seq<char>,
    pub author: Seq<char>,
    pub github: Option<Seq<char>>,
    pub index_keywords: Seq<Seq<char>>,
    pub index_title: Seq<char>,
    pub linked_in: Option<Seq<char>>,
    pub projects: Seq<ProjectView>,
    pub theme: Theme,
    pub twitter: Option<Seq<char>>,
}

impl DeepView for Config {
    type V = ConfigView;

    open spec fn deep_view(&self) -> ConfigView {
        ConfigView {
            about_me: self.about_me@,
            about_me_keywords: self.about_me_keywords.deep_view(),
            about_me_summary: self.about_me_summary@,
            author: self.author@,
            github: self.github.deep_view(),
            index_keywords: self.index_keywords.deep_view(),
            index_title: self.index_title@,
            linked_in: self.linked_in.deep_view(),
            projects: self.projects.deep_view(),
            theme: self.theme,
            twitter: self.twitter.deep_view(),
        }
    }
}

/// The configuration that the help shows as an example.
pub open spec fn example_config_spec() -> ConfigView {
    ConfigView {
        about_me: "Required: A blurb about you!"@,
        about_me_keywords: seq!["Required: About Me keywords"@],
        about_me_summary: "Required: About Me summary"@,
        author: "Required: Your name goes here"@,
        github: Some("Optional github profile"@),
        index_keywords: seq!["Required: Index keywords"@],
        index_title: "Required: Some Index Title"@,
        linked_in: Some("Optional linked in profile"@),
        projects: seq![
            ProjectView {
                title: "Example Title"@,
                description: "Example Description"@,
                url: "ExampleUrl"@,
            },
        ],
        theme: default_theme(),
        twitter: Some("Optional twitter"@),
    }
}

impl Config {
    /// The configuration that the help shows as an example.
    pub fn example_config() -> (r: Self)
        ensures
            r.deep_view() == example_config_spec(),
    {
        let mut about_me_keywords: Vec<String> = Vec::new();
        about_me_keywords.push(text_of("Required: About Me keywords"));
        let mut index_keywords: Vec<String> = Vec::new();
        index_keywords.push(text_of("Required: Index keywords"));
        let mut projects: Vec<Project> = Vec::new();
        projects.push(
            Project {
                title: text_of("Example Title"),
                description: text_of("Example Description"),
                url: text_of("ExampleUrl"),
            },
        );
        assert(about_me_keywords.deep_view() =~= seq!["Required: About Me keywords"@]);
        assert(index_keywords.deep_view() =~= seq!["Required: Index keywords"@]);
        assert(projects.deep_view() =~= seq![
            ProjectView {
                title: "Example Title"@,
                description: "Example Description"@,
                url: "ExampleUrl"@,
            },
        ]);
        Self {
            about_me: text_of("Required: A blurb about you!"),
            about_me_keywords,
            about_me_summary: text_of("Required: About Me summary"),
            author: text_of("Required: Your name goes here"),
            github: Some(text_of("Optional github profile")),
            index_keywords,
            index_title: text_of("Required: Some Index Title"),
            linked_in: Some(text_of("Optional linked in profile")),
            projects,
            theme: Theme::default(),
            twitter: Some(text_of("Optional twitter")),
        }
    }
}

} // verus!
