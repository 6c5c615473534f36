//! The arguments of the command line, and the context they lead to.

use crate::config::Config;
use crate::context::{Context, ContextView, Links, LinksView};
use crate::directory::Directory;
use crate::text::{lowercase, lowercase_of, range_is, text_of, to_chars};
use vstd::prelude::*;
use vstd::string::StringExecFns;

verus! {

/// What the command line asks for.
#[derive(Clone, Debug, PartialEq)]
pub enum Command {
    /// To list what can be asked for.
    Help,
    /// To generate the site from `input` into `output`.
    Generate { input: Directory, output: Directory },
}

/// The mathematical value of a [`Command`].
pub enum CommandView {
    Help,
    Generate { input: Seq<char>, output: Seq<char> },
}

impl DeepView for Command {
    type V = CommandView;

    open spec fn deep_view(&self) -> CommandView {
        match self {
            Command::Help => CommandView::Help,
            Command::Generate { input, output } => CommandView::Generate {
                input: input@,
                output: output@,
            },
        }
    }
}

/// What the arguments `args` ask for: help, where the first is `help` in any
/// case of its letters; else to generate the site from the first argument into the
/// second, and it is an error if there is no second. Further arguments are not
/// read.
pub open spec fn command_of(args: Seq<Seq<char>>) -> Result<CommandView, Seq<char>> {
    if lowercase_of(args[0]) == "help"@ {
        Ok(CommandView::Help)
    } else if args.len() < 2 {
        Err("Unable to parse output directory!"@)
    } else {
        Ok(CommandView::Generate { input: args[0], output: args[1] })
    }
}

impl Command {
    /// Reads the arguments of the command line, without the name of the program.
    /// There must be one at least.
    pub fn parse(args: Vec<String>) -> (r: Result<Command, String>)
        requires
            args@.len() > 0,
        ensures
            match command_of(args.deep_view()) {
                Ok(command) => r matches Ok(c) && c.deep_view() == command,
                Err(msg) => r matches Err(e) && e@ == msg,
            },
    {
        let mut args = args;
        let ghost all = args.deep_view();
        let first = args.remove(0);
        assert(first@ == all[0]);
        let lowered = to_chars(lowercase(first.as_str()).as_str());
        assert(lowered@.subrange(0, lowered@.len() as int) =~= lowered@);
        if range_is(&lowered, 0, lowered.len(), "help") {
            return Ok(Command::Help);
        }
        if args.len() == 0 {
            return Err(text_of("Unable to parse output directory!"));
        }
        let second = args.remove(0);
        assert(second@ == all[1]);
        Ok(Command::Generate { input: Directory(first), output: Directory(second) })
    }
}

/// The targets of the navigation of every site.
pub open spec fn site_links() -> LinksView {
    LinksView {
        about_me_link: "about_me.html"@,
        catalog_link: "catalog.html"@,
        index_link: "index.html"@,
        projects_link: "projects.html"@,
    }
}

/// The context of a run that generates the site of `config` from `input` into
/// `output`.
pub fn context_of(config: Config, input: Directory, output: Directory) -> (r: Context)
    ensures
        r.deep_view() == (ContextView {
            config: config.deep_view(),
            input: input@,
            output: output@,
            links: site_links(),
        }),
{
    Context {
        config,
        input,
        output,
        links: Links {
            about_me_link: text_of("about_me.html"),
            catalog_link: text_of("catalog.html"),
            index_link: text_of("index.html"),
            projects_link: text_of("projects.html"),
        },
    }
}

/// Where the configuration of the site in the directory `dir` is found: in
/// `config.json`, right in `dir`.
pub open spec fn config_path_spec(dir: Seq<char>) -> Seq<char> {
    if dir.len() > 0 && dir.last() == '/' {
        dir + "config.json"@
    } else {
        dir + "/"@ + "config.json"@
    }
}

/// Where the configuration of the site in `input_dir` is found.
pub fn config_path(input_dir: &Directory) -> (path: String)
    ensures
        path@ == config_path_spec(input_dir@),
{
    let chars = to_chars(input_dir.0.as_str());
    let mut path = input_dir.to_string();
    if !(chars.len() > 0 && chars[chars.len() - 1] == '/') {
        path.append("/");
    }
    path.append("config.json");
    path
}

} // verus!
