//! The files of a site, by their kind.

use crate::outcome::{Item, ItemView, Location, LocationView, Res, ResView};
use crate::text::{lowercase, lowercase_of, range_is, text_of, to_chars};
use vstd::prelude::*;
use vstd::string::StringExecFns;

verus! {

/// What a file holds.
#[derive(Clone, Copy, Debug, PartialEq, Eq, Structural)]
pub enum FileKind {
    Css,
    Img,
    Md,
}

/// A file of the site.
#[derive(Clone, Debug, PartialEq)]
pub struct File {
    pub kind: FileKind,
    pub path: String,
    pub file_name: String,
}

/// The mathematical value of a [`File`].
pub struct FileView {
    pub kind: FileKind,
    pub path: Seq<char>,
    pub file_name: Seq<char>,
}

impl DeepView for File {
    type V = FileView;

    open spec fn deep_view(&self) -> FileView {
        FileView { kind: self.kind, path: self.path@, file_name: self.file_name@ }
    }
}

/// The kind of a file with the extension `extension`, which is in lowercase:
/// `gif` and `png` are images, `md` is a document, `css` a style sheet.
pub open spec fn kind_of(extension: Seq<char>) -> Option<FileKind> {
    if extension == "gif"@ || extension == "png"@ {
        Some(FileKind::Img)
    } else if extension == "md"@ {
        Some(FileKind::Md)
    } else if extension == "css"@ {
        Some(FileKind::Css)
    } else {
        None
    }
}

/// What the crawler makes of the file named `file_name` at `path`, whose name has
/// the extension `extension`: nothing for the configuration, `config.json`; the
/// file with its kind; or a failure for an extension that it does not know.
pub open spec fn classify_spec(
    file_name: Seq<char>,
    path: Seq<char>,
    extension: Seq<char>,
) -> Option<ResView<FileView>> {
    if file_name == "config.json"@ {
        None
    } else {
        match kind_of(lowercase_of(extension)) {
            Some(kind) => Some(
                ResView::Success(
                    ItemView { item: FileView { kind, path, file_name }, location: None },
                ),
            ),
            None => Some(
                ResView::Error {
                    location: Some(
                        LocationView { column: 0, file: file_name, line: 0, path },
                    ),
                    msg: "Unhandled file type '"@ + extension + "'!"@,
                },
            ),
        }
    }
}

/// The kind of a file with the extension `extension`, which is in lowercase.
pub fn kind_for(extension: &str) -> (kind: Option<FileKind>)
    ensures
        kind == kind_of(extension@),
{
    let chars = to_chars(extension);
    assert(chars@.subrange(0, chars@.len() as int) =~= chars@);
    let n = chars.len();
    if range_is(&chars, 0, n, "gif") || range_is(&chars, 0, n, "png") {
        Some(FileKind::Img)
    } else if range_is(&chars, 0, n, "md") {
        Some(FileKind::Md)
    } else if range_is(&chars, 0, n, "css") {
        Some(FileKind::Css)
    } else {
        None
    }
}

/// Files the file named `file_name` at `path` under its kind, which its extension
/// `extension` tells.
pub fn classify(file_name: String, path: String, extension: &str) -> (r: Option<Res<File>>)
    ensures
        r.deep_view() == classify_spec(file_name@, path@, extension@),
{
    let name = to_chars(file_name.as_str());
    assert(name@.subrange(0, name@.len() as int) =~= name@);
    if range_is(&name, 0, name.len(), "config.json") {
        return None;
    }
    match kind_for(lowercase(extension).as_str()) {
        Some(kind) => Some(
            Res::Success(Item { item: File { kind, path, file_name }, location: None }),
        ),
        None => {
            let mut msg = text_of("Unhandled file type '");
            msg.append(extension);
            msg.append("'!");
            Some(
                Res::Error {
                    location: Some(Location { column: 0, file: file_name, line: 0, path }),
                    msg,
                },
            )
        },
    }
}

} // verus!
