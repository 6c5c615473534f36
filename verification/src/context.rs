//! The values that every stage of a run shares.

use crate::config::{Config, ConfigView};
use crate::directory::Directory;
use crate::text::push_string;
use vstd::prelude::*;

verus! {

/// The targets of the site-wide navigation links.
#[derive(Clone, Debug, PartialEq)]
pub struct Links {
    pub about_me_link: String,
    pub catalog_link: String,
    pub index_link: String,
    pub projects_link: String,
}

/// The mathematical value of [`Links`].
pub struct LinksView {
    pub about_me_link: Seq<char>,
    pub catalog_link: Seq<char>,
    pub index_link: Seq<char>,
    pub projects_link: Seq<char>,
}

impl DeepView for Links {
    type V = LinksView;

    open spec fn deep_view(&self) -> LinksView {
        LinksView {
            about_me_link: self.about_me_link@,
            catalog_link: self.catalog_link@,
            index_link: self.index_link@,
            projects_link: self.projects_link@,
        }
    }
}

impl Links {
    /// A copy of these links.
    pub fn copy(&self) -> (r: Links)
        ensures
            r.deep_view() == self.deep_view(),
    {
        Links {
            about_me_link: self.about_me_link.clone(),
            catalog_link: self.catalog_link.clone(),
            index_link: self.index_link.clone(),
            projects_link: self.projects_link.clone(),
        }
    }
}

/// A copy of a list of strings.
pub fn copy_strings(v: &Vec<String>) -> (r: Vec<String>)
    ensures
        r.deep_view() == v.deep_view(),
{
    let mut r: Vec<String> = Vec::new();
    let mut i: usize = 0;
    assert(r.deep_view() =~= v.deep_view().take(0));
    while i < v.len()
        invariant
            i <= v@.len(),
            r.deep_view() == v.deep_view().take(i as int),
        decreases v.len() - i,
    {
        push_string(&mut r, v[i].clone());
        i += 1;
        assert(r.deep_view() =~= v.deep_view().take(i as int));
    }
    assert(v.deep_view().take(v@.len() as int) =~= v.deep_view());
    r
}

/// What a run works with: the configuration of the site, where it reads and
/// writes, and the targets of the navigation.
#[derive(Clone, Debug, PartialEq)]
pub struct Context {
    pub config: Config,
    pub input: Directory,
    pub output: Directory,
    pub links: Links,
}

/// The mathematical value of a [`Context`].
pub struct ContextView {
    pub config: ConfigView,
    pub input: Seq<char>,
    pub output: Seq<char>,
    pub links: LinksView,
}

impl DeepView for Context {
    type V = ContextView;

    open spec fn deep_view(&self) -> ContextView {
        ContextView {
            config: self.config.deep_view(),
            input: self.input@,
            output: self.output@,
            links: self.links.deep_view(),
        }
    }
}

} // verus!
