//! The failures that the argument model, the builder and the engine report.

use vstd::prelude::*;
use vstd::string::StringExecFns;

verus! {

/// Everything that can go wrong while building arguments or formatting.
///
/// Variants raised by the engine carry the byte offset into the template at
/// which the offending construct starts.
#[derive(Debug, Clone, PartialEq, Eq)]
pub enum Error {
    /// A structural misuse, such as asking a positional argument for its name.
    InvalidOperation(&'static str),
    /// A rendering step outside the engine failed; the text says why.
    FormatFailed(String),
    /// A value accessor was called on a value of another kind.
    ValueAccess(&'static str),
    /// A key that is empty or holds a NUL byte.
    InvalidKey,
    /// Unbalanced braces, an unterminated placeholder or a spec that does
    /// not follow the grammar.
    MalformedTemplate(usize),
    /// An automatic placeholder with no positional argument left for it.
    NoAutoArg(usize),
    /// An explicit index that is not below the number of positional arguments.
    IndexOutOfRange(usize),
    /// A name that no named argument carries.
    UnknownName(Vec<u8>, usize),
    /// Automatic and explicit references in one template.
    MixedIndexing(usize),
    /// A spec that the kind of the referenced value does not accept.
    InvalidSpec(usize),
}

/// The mathematical content of an [`Error`].
pub enum ErrorView {
    InvalidOperation(Seq<char>),
    FormatFailed(Seq<char>),
    ValueAccess(Seq<char>),
    InvalidKey,
    MalformedTemplate(nat),
    NoAutoArg(nat),
    IndexOutOfRange(nat),
    UnknownName(Seq<u8>, nat),
    MixedIndexing(nat),
    InvalidSpec(nat),
}

impl View for Error {
    type V = ErrorView;

    open spec fn view(&self) -> ErrorView {
        match *self {
            Error::InvalidOperation(what) => ErrorView::InvalidOperation(what@),
            Error::FormatFailed(msg) => ErrorView::FormatFailed(msg@),
            Error::ValueAccess(kind) => ErrorView::ValueAccess(kind@),
            Error::InvalidKey => ErrorView::InvalidKey,
            Error::MalformedTemplate(at) => ErrorView::MalformedTemplate(at as nat),
            Error::NoAutoArg(at) => ErrorView::NoAutoArg(at as nat),
            Error::IndexOutOfRange(at) => ErrorView::IndexOutOfRange(at as nat),
            Error::UnknownName(name, at) => ErrorView::UnknownName(name@, at as nat),
            Error::MixedIndexing(at) => ErrorView::MixedIndexing(at as nat),
            Error::InvalidSpec(at) => ErrorView::InvalidSpec(at as nat),
        }
    }
}

impl ErrorView {
    /// The message that says what went wrong.
    pub open spec fn message(self) -> Seq<char> {
        match self {
            ErrorView::InvalidOperation(what) => "invalid operation: "@ + what,
            ErrorView::FormatFailed(msg) => "formatting failed: "@ + msg,
            ErrorView::ValueAccess(kind) =>
                "incorrect value type access: value does not hold the type "@ + kind,
            ErrorView::InvalidKey => "invalid key: a key is not empty and holds no NUL"@,
            ErrorView::MalformedTemplate(_) => "malformed template"@,
            ErrorView::NoAutoArg(_) => "no argument left for an automatic placeholder"@,
            ErrorView::IndexOutOfRange(_) => "argument index out of range"@,
            ErrorView::UnknownName(_, _) => "unknown argument name"@,
            ErrorView::MixedIndexing(_) => "automatic and explicit argument references mixed"@,
            ErrorView::InvalidSpec(_) => "format spec does not suit the argument"@,
        }
    }
}

impl Error {
    /// The message that says what went wrong.
    pub fn message(&self) -> (s: String)
        ensures
            s@ == self@.message(),
    {
        match self {
            Error::InvalidOperation(what) => "invalid operation: ".to_owned().concat(what),
            Error::FormatFailed(msg) => "formatting failed: ".to_owned().concat(msg.as_str()),
            Error::ValueAccess(kind) =>
                "incorrect value type access: value does not hold the type ".to_owned().concat(
                    kind,
                ),
            Error::InvalidKey => "invalid key: a key is not empty and holds no NUL".to_owned(),
            Error::MalformedTemplate(_) => "malformed template".to_owned(),
            Error::NoAutoArg(_) => "no argument left for an automatic placeholder".to_owned(),
            Error::IndexOutOfRange(_) => "argument index out of range".to_owned(),
            Error::UnknownName(_, _) => "unknown argument name".to_owned(),
            Error::MixedIndexing(_) => "automatic and explicit argument references mixed".to_owned(),
            Error::InvalidSpec(_) => "format spec does not suit the argument".to_owned(),
        }
    }

    /// The offset into the template at which the failure lies, for the
    /// failures of the engine.
    pub fn offset(&self) -> (at: Option<usize>)
        ensures
            at == match *self {
                Error::MalformedTemplate(at) => Some(at),
                Error::NoAutoArg(at) => Some(at),
                Error::IndexOutOfRange(at) => Some(at),
                Error::UnknownName(_, at) => Some(at),
                Error::MixedIndexing(at) => Some(at),
                Error::InvalidSpec(at) => Some(at),
                _ => None,
            },
    {
        match self {
            Error::MalformedTemplate(at) => Some(*at),
            Error::NoAutoArg(at) => Some(*at),
            Error::IndexOutOfRange(at) => Some(*at),
            Error::UnknownName(_, at) => Some(*at),
            Error::MixedIndexing(at) => Some(*at),
            Error::InvalidSpec(at) => Some(*at),
            _ => None,
        }
    }
}

} // verus!
