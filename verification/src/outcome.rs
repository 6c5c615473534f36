//! The four-way outcome that every stage of the generator returns, and the
//! source locations that its diagnostics carry.

use vstd::prelude::*;

verus! {

/// A place in a source file.
#[derive(Clone, Debug, PartialEq)]
pub struct Location {
    pub column: usize,
    pub file: String,
    pub line: usize,
    pub path: String,
}

/// The mathematical value of a [`Location`].
pub struct LocationView {
    pub column: usize,
    pub file: Seq<char>,
    pub line: usize,
    pub path: Seq<char>,
}

impl DeepView for Location {
    type V = LocationView;

    open spec fn deep_view(&self) -> LocationView {
        LocationView { column: self.column, file: self.file@, line: self.line, path: self.path@ }
    }
}

/// A diagnostic: a message and the place it is about, where one is known.
pub type Diagnostic = (Seq<char>, Option<LocationView>);

impl Location {
    /// The location that nested parses report: no file, line 0, column 0.
    pub open spec fn spec_nowhere() -> LocationView {
        LocationView {
            column: 0,
            file: Seq::<char>::empty(),
            line: 0,
            path: Seq::<char>::empty(),
        }
    }

    /// The location that nested parses report.
    pub fn nowhere() -> (r: Location)
        ensures
            r.deep_view() == Location::spec_nowhere(),
    {
        Location { column: 0, file: String::new(), line: 0, path: String::new() }
    }

    /// A copy of this location.
    pub fn copy(&self) -> (r: Location)
        ensures
            r.deep_view() == self.deep_view(),
    {
        Location {
            column: self.column,
            file: self.file.clone(),
            line: self.line,
            path: self.path.clone(),
        }
    }
}

/// A copy of an optional location.
pub fn copy_location(location: &Option<Location>) -> (r: Option<Location>)
    ensures
        r.deep_view() == location.deep_view(),
{
    match location {
        Some(l) => Some(l.copy()),
        None => None,
    }
}

/// A value and the place it came from.
#[derive(Clone, Debug, PartialEq)]
pub struct Item<T> {
    pub item: T,
    pub location: Option<Location>,
}

/// The mathematical value of an [`Item`].
pub struct ItemView<V> {
    pub item: V,
    pub location: Option<LocationView>,
}

impl<T: DeepView> DeepView for Item<T> {
    type V = ItemView<T::V>;

    open spec fn deep_view(&self) -> ItemView<T::V> {
        ItemView { item: self.item.deep_view(), location: self.location.deep_view() }
    }
}

/// The outcome of a stage: a value, a value with one warning, a value with
/// several warnings, or a failure that carries no value.
#[derive(Clone, Debug, PartialEq)]
pub enum Res<T> {
    Success(Item<T>),
    Warn { item: Item<T>, msg: String },
    Warnings { item: Item<T>, msgs: Vec<(String, Option<Location>)> },
    Error { location: Option<Location>, msg: String },
}

/// The mathematical value of a [`Res`].
pub enum ResView<V> {
    Success(ItemView<V>),
    Warn { item: ItemView<V>, msg: Seq<char> },
    Warnings { item: ItemView<V>, msgs: Seq<Diagnostic> },
    Error { location: Option<LocationView>, msg: Seq<char> },
}

impl<T: DeepView> DeepView for Res<T> {
    type V = ResView<T::V>;

    open spec fn deep_view(&self) -> ResView<T::V> {
        match self {
            Res::Success(item) => ResView::Success(item.deep_view()),
            Res::Warn { item, msg } => ResView::Warn { item: item.deep_view(), msg: msg@ },
            Res::Warnings { item, msgs } => ResView::Warnings {
                item: item.deep_view(),
                msgs: msgs.deep_view(),
            },
            Res::Error { location, msg } => ResView::Error {
                location: location.deep_view(),
                msg: msg@,
            },
        }
    }
}

impl<V> ResView<V> {
    /// The value that the outcome carries, where it is no failure.
    pub open spec fn payload(self) -> Option<ItemView<V>> {
        match self {
            ResView::Success(item) => Some(item),
            ResView::Warn { item, .. } => Some(item),
            ResView::Warnings { item, .. } => Some(item),
            ResView::Error { .. } => None,
        }
    }

    /// The diagnostics that the outcome carries. A single warning is given the
    /// location of the value it comes with.
    pub open spec fn diagnostics(self) -> Seq<Diagnostic> {
        match self {
            ResView::Success(_) => Seq::<Diagnostic>::empty(),
            ResView::Warn { item, msg } => seq![(msg, item.location)],
            ResView::Warnings { msgs, .. } => msgs,
            ResView::Error { .. } => Seq::<Diagnostic>::empty(),
        }
    }

    /// The outcome for a value that comes with the diagnostics `msgs`: `Success` for
    /// none, `Warn` with the message of the only one, `Warnings` for more.
    pub open spec fn with_diagnostics(item: ItemView<V>, msgs: Seq<Diagnostic>) -> ResView<V> {
        if msgs.len() == 0 {
            ResView::Success(item)
        } else if msgs.len() == 1 {
            ResView::Warn { item, msg: msgs[0].0 }
        } else {
            ResView::Warnings { item, msgs }
        }
    }
}

/// Appends the diagnostic `(msg, location)` to `msgs`.
pub fn push_diagnostic(
    msgs: &mut Vec<(String, Option<Location>)>,
    msg: String,
    location: Option<Location>,
)
    ensures
        final(msgs).deep_view() == old(msgs).deep_view().push((msg@, location.deep_view())),
{
    msgs.push((msg, location));
    assert(msgs.deep_view() =~= old(msgs).deep_view().push((msg@, location.deep_view())));
}

/// Moves every diagnostic of `more` to the end of `msgs`.
pub fn append_diagnostics(
    msgs: &mut Vec<(String, Option<Location>)>,
    more: Vec<(String, Option<Location>)>,
)
    ensures
        final(msgs).deep_view() == old(msgs).deep_view() + more.deep_view(),
{
    let mut more = more;
    let ghost before = msgs.deep_view();
    let ghost added = more.deep_view();
    msgs.append(&mut more);
    assert(msgs.deep_view() =~= before + added);
}

impl<T: DeepView> Res<T> {
    /// The outcome for `item` with the diagnostics `msgs`.
    pub fn from_diagnostics(item: Item<T>, msgs: Vec<(String, Option<Location>)>) -> (r: Res<T>)
        ensures
            r.deep_view() == ResView::with_diagnostics(item.deep_view(), msgs.deep_view()),
    {
        if msgs.len() == 0 {
            Res::Success(item)
        } else if msgs.len() == 1 {
            let msg = msgs[0].0.clone();
            Res::Warn { item, msg }
        } else {
            Res::Warnings { item, msgs }
        }
    }

    /// Takes the outcome apart: its value and its diagnostics, or the failure.
    pub fn into_parts(self) -> (r: Result<
        (Item<T>, Vec<(String, Option<Location>)>),
        (Option<Location>, String),
    >)
        ensures
            match r {
                Ok((item, msgs)) => self.deep_view().payload() == Some(item.deep_view())
                    && msgs.deep_view() == self.deep_view().diagnostics(),
                Err((location, msg)) => self.deep_view() == (ResView::<T::V>::Error {
                    location: location.deep_view(),
                    msg: msg@,
                }),
            },
    {
        match self {
            Res::Success(item) => {
                let msgs: Vec<(String, Option<Location>)> = Vec::new();
                assert(msgs.deep_view() =~= Seq::<Diagnostic>::empty());
                Ok((item, msgs))
            },
            Res::Warn { item, msg } => {
                let mut msgs: Vec<(String, Option<Location>)> = Vec::new();
                let location = copy_location(&item.location);
                assert(msgs.deep_view() =~= Seq::<Diagnostic>::empty());
                push_diagnostic(&mut msgs, msg, location);
                assert(msgs.deep_view() =~= seq![(msg@, item.location.deep_view())]);
                Ok((item, msgs))
            },
            Res::Warnings { item, msgs } => Ok((item, msgs)),
            Res::Error { location, msg } => Err((location, msg)),
        }
    }
}

} // verus!
