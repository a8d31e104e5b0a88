//! What a call can fail with, and how a failure is reported.

use crate::schema::ScalarKind;
use vstd::prelude::*;

verus! {

/// Why a payload does not have the declared shape at some place.
#[derive(Clone, Copy, Debug, PartialEq, Eq, Structural)]
pub enum Reason {
    /// A required field is not there.
    MissingField,
    /// An object was declared and something else was found.
    NotAnObject,
    /// A scalar of this kind was declared and something else was found.
    NotA(ScalarKind),
}

/// A failure of a tool's own making.
#[derive(Debug, PartialEq, Eq)]
pub struct HandlerError {
    pub code: i32,
    pub message: String,
}

/// The mathematical value of a [`HandlerError`].
pub struct HandlerErrorView {
    pub code: int,
    pub message: Seq<char>,
}

impl View for HandlerError {
    type V = HandlerErrorView;

    open spec fn view(&self) -> HandlerErrorView {
        HandlerErrorView { code: self.code as int, message: self.message@ }
    }
}

/// Every way in which a call can fail.
#[derive(Debug, PartialEq, Eq)]
pub enum DispatchError {
    /// No tool of that name is registered.
    UnknownTool { name: String },
    /// The payload does not have the declared shape. `path` leads from the
    /// payload's root, field by field, to the place that is wrong.
    InvalidParameters { path: Vec<String>, reason: Reason },
    /// The value at `path` is none of the variants of the union declared there.
    AmbiguousOrInvalidVariant { path: Vec<String> },
    /// The tool ran and failed.
    Handler(HandlerError),
}

/// The mathematical value of a [`DispatchError`].
pub enum DispatchErrorView {
    UnknownTool { name: Seq<char> },
    InvalidParameters { path: Seq<Seq<char>>, reason: Reason },
    AmbiguousOrInvalidVariant { path: Seq<Seq<char>> },
    Handler(HandlerErrorView),
}

/// The values of a sequence of strings, one for one.
pub open spec fn view_strings(strings: Seq<String>) -> Seq<Seq<char>> {
    Seq::new(strings.len(), |i: int| strings[i]@)
}

impl View for DispatchError {
    type V = DispatchErrorView;

    open spec fn view(&self) -> DispatchErrorView {
        match self {
            DispatchError::UnknownTool { name } => DispatchErrorView::UnknownTool { name: name@ },
            DispatchError::InvalidParameters { path, reason } => {
                DispatchErrorView::InvalidParameters { path: view_strings(path@), reason: *reason }
            },
            DispatchError::AmbiguousOrInvalidVariant { path } => {
                DispatchErrorView::AmbiguousOrInvalidVariant { path: view_strings(path@) }
            },
            DispatchError::Handler(e) => DispatchErrorView::Handler(e@),
        }
    }
}

impl DispatchErrorView {
    /// The same error, seen from one level further out: its path now starts
    /// with `name`. An error without a path is left as it is.
    pub open spec fn under(self, name: Seq<char>) -> DispatchErrorView {
        match self {
            DispatchErrorView::InvalidParameters { path, reason } => {
                DispatchErrorView::InvalidParameters { path: seq![name] + path, reason }
            },
            DispatchErrorView::AmbiguousOrInvalidVariant { path } => {
                DispatchErrorView::AmbiguousOrInvalidVariant { path: seq![name] + path }
            },
            other => other,
        }
    }
}

impl DispatchError {
    /// Puts `name` in front of the error's path.
    pub fn under(self, name: &str) -> (moved: DispatchError)
        ensures
            moved@ == self@.under(name@),
    {
        match self {
            DispatchError::InvalidParameters { path, reason } => {
                let mut path = path;
                let ghost before = view_strings(path@);
                path.insert(0, name.to_owned());
                assert(view_strings(path@) =~= seq![name@] + before);
                DispatchError::InvalidParameters { path, reason }
            },
            DispatchError::AmbiguousOrInvalidVariant { path } => {
                let mut path = path;
                let ghost before = view_strings(path@);
                path.insert(0, name.to_owned());
                assert(view_strings(path@) =~= seq![name@] + before);
                DispatchError::AmbiguousOrInvalidVariant { path }
            },
            other => other,
        }
    }
}

/// The kinds of error that a caller is told of.
#[derive(Clone, Copy, Debug, PartialEq, Eq, Structural)]
pub enum ErrorKind {
    UnknownTool,
    InvalidParameters,
    AmbiguousOrInvalidVariant,
    HandlerError,
}

/// An error in the form in which a caller is told of it.
#[derive(Debug, PartialEq, Eq)]
pub struct StructuredError {
    pub kind: ErrorKind,
    /// What went wrong, in words.
    pub detail: String,
    /// Where in the payload, with a dot between the names of the fields that
    /// lead there. `None` for an error that concerns no place in the payload,
    /// and for one that concerns the payload as a whole.
    pub path: Option<String>,
}

/// The mathematical value of a [`StructuredError`].
pub struct StructuredErrorView {
    pub kind: ErrorKind,
    pub detail: Seq<char>,
    pub path: Option<Seq<char>>,
}

impl View for StructuredError {
    type V = StructuredErrorView;

    open spec fn view(&self) -> StructuredErrorView {
        StructuredErrorView {
            kind: self.kind,
            detail: self.detail@,
            path: match self.path {
                Some(path) => Some(path@),
                None => None,
            },
        }
    }
}

/// The segments of `path`, with a dot between one and the next.
pub open spec fn dotted(path: Seq<Seq<char>>) -> Seq<char>
    decreases path.len(),
{
    if path.len() == 0 {
        Seq::empty()
    } else if path.len() == 1 {
        path[0]
    } else {
        dotted(path.drop_last()) + seq!['.'] + path.last()
    }
}

/// A path as a caller is shown it: none where there are no segments.
pub open spec fn shown_path(path: Seq<Seq<char>>) -> Option<Seq<char>> {
    if path.len() == 0 {
        None
    } else {
        Some(dotted(path))
    }
}

/// A reason in words.
pub open spec fn reason_text(reason: Reason) -> Seq<char> {
    match reason {
        Reason::MissingField => "missing required field"@,
        Reason::NotAnObject => "expected an object"@,
        Reason::NotA(ScalarKind::Boolean) => "expected a boolean"@,
        Reason::NotA(ScalarKind::Integer) => "expected an integer"@,
        Reason::NotA(ScalarKind::Number) => "expected a number"@,
        Reason::NotA(ScalarKind::Text) => "expected a string"@,
    }
}

/// The form in which a caller is told of an error.
pub open spec fn report_spec(error: DispatchErrorView) -> StructuredErrorView {
    match error {
        DispatchErrorView::UnknownTool { name } => StructuredErrorView {
            kind: ErrorKind::UnknownTool,
            detail: name,
            path: None,
        },
        DispatchErrorView::InvalidParameters { path, reason } => StructuredErrorView {
            kind: ErrorKind::InvalidParameters,
            detail: reason_text(reason),
            path: shown_path(path),
        },
        DispatchErrorView::AmbiguousOrInvalidVariant { path } => StructuredErrorView {
            kind: ErrorKind::AmbiguousOrInvalidVariant,
            detail: "no variant matches"@,
            path: shown_path(path),
        },
        DispatchErrorView::Handler(e) => StructuredErrorView {
            kind: ErrorKind::HandlerError,
            detail: e.message,
            path: None,
        },
    }
}

/// Joins the segments of a path with dots.
pub fn join_path(path: &Vec<String>) -> (joined: String)
    ensures
        joined@ == dotted(view_strings(path@)),
{
    let mut joined = String::new();
    let mut i: usize = 0;
    let ghost segments = view_strings(path@);
    assert(segments.subrange(0, 0) =~= Seq::<Seq<char>>::empty());
    while i < path.len()
        invariant
            i <= path.len(),
            segments == view_strings(path@),
            joined@ == dotted(segments.subrange(0, i as int)),
        decreases path.len() - i,
    {
        let ghost before = segments.subrange(0, i as int);
        let ghost now = segments.subrange(0, i + 1);
        assert(now.drop_last() =~= before);
        assert(now.last() == path[i as int]@);
        if i > 0 {
            proof {
                reveal_strlit(".");
                assert("."@ =~= seq!['.']);
            }
            joined.append(".");
        } else {
            assert(joined@ + path[i as int]@ =~= path[i as int]@);
        }
        joined.append(path[i].as_str());
        i += 1;
    }
    assert(segments.subrange(0, path.len() as int) =~= segments);
    joined
}

fn describe_reason(reason: Reason) -> (text: String)
    ensures
        text@ == reason_text(reason),
{
    match reason {
        Reason::MissingField => "missing required field".to_owned(),
        Reason::NotAnObject => "expected an object".to_owned(),
        Reason::NotA(ScalarKind::Boolean) => "expected a boolean".to_owned(),
        Reason::NotA(ScalarKind::Integer) => "expected an integer".to_owned(),
        Reason::NotA(ScalarKind::Number) => "expected a number".to_owned(),
        Reason::NotA(ScalarKind::Text) => "expected a string".to_owned(),
    }
}

fn show_path(path: &Vec<String>) -> (shown: Option<String>)
    ensures
        match shown {
            Some(text) => shown_path(view_strings(path@)) == Some(text@),
            None => shown_path(view_strings(path@)) is None,
        },
{
    if path.len() == 0 {
        None
    } else {
        Some(join_path(path))
    }
}

impl DispatchError {
    /// The form in which a caller is told of this error.
    pub fn report(&self) -> (report: StructuredError)
        ensures
            report@ == report_spec(self@),
    {
        match self {
            DispatchError::UnknownTool { name } => StructuredError {
                kind: ErrorKind::UnknownTool,
                detail: name.clone(),
                path: None,
            },
            DispatchError::InvalidParameters { path, reason } => StructuredError {
                kind: ErrorKind::InvalidParameters,
                detail: describe_reason(*reason),
                path: show_path(path),
            },
            DispatchError::AmbiguousOrInvalidVariant { path } => StructuredError {
                kind: ErrorKind::AmbiguousOrInvalidVariant,
                detail: "no variant matches".to_owned(),
                path: show_path(path),
            },
            DispatchError::Handler(e) => StructuredError {
                kind: ErrorKind::HandlerError,
                detail: e.message.clone(),
                path: None,
            },
        }
    }
}

} // verus!
