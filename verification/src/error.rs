use vstd::prelude::*;
use vstd::string::StringExecFns;

verus! {

/// Why a rule definition could not be turned into a rule.
///
/// Both kinds concern a single rule: a caller that loads many rules skips the
/// one that failed and goes on with the rest.
#[derive(Debug)]
pub enum Error {
    /// The definition is malformed or contradicts itself.
    Unexpected(String),
    /// The definition uses a feature that is recognised but not supported.
    Unimplemented(String),
}

/// An [`Error`] with its message as a sequence of characters.
pub enum ErrorView {
    Unexpected(Seq<char>),
    Unimplemented(Seq<char>),
}

impl View for Error {
    type V = ErrorView;

    open spec fn view(&self) -> ErrorView {
        match self {
            Error::Unexpected(m) => ErrorView::Unexpected(m@),
            Error::Unimplemented(m) => ErrorView::Unimplemented(m@),
        }
    }
}

impl DeepView for Error {
    type V = ErrorView;

    open spec fn deep_view(&self) -> ErrorView {
        self@
    }
}

impl ErrorView {
    /// The text that describes the error to a reader.
    pub open spec fn message(self) -> Seq<char> {
        match self {
            ErrorView::Unexpected(m) => "unexpected condition: "@ + m,
            ErrorView::Unimplemented(m) => "feature not implemented: "@ + m,
        }
    }
}

impl Error {
    /// A malformed definition, described by `message`.
    pub fn unexpected(message: &str) -> (e: Error)
        ensures
            e@ == ErrorView::Unexpected(message@),
    {
        Error::Unexpected(String::from_str(message))
    }

    /// An unsupported feature, described by `message`.
    pub fn unimplemented(message: &str) -> (e: Error)
        ensures
            e@ == ErrorView::Unimplemented(message@),
    {
        Error::Unimplemented(String::from_str(message))
    }

    /// The text that describes the error to a reader.
    pub fn message(&self) -> (text: String)
        ensures
            text@ == self@.message(),
    {
        match self {
            Error::Unexpected(m) => String::from_str("unexpected condition: ").concat(m.as_str()),
            Error::Unimplemented(m) => String::from_str("feature not implemented: ").concat(
                m.as_str(),
            ),
        }
    }
}

/// The view of a result: the view of what it holds, on either side.
pub open spec fn result_view<T: DeepView>(r: Result<T, Error>) -> Result<T::V, ErrorView> {
    match r {
        Ok(v) => Ok(v.deep_view()),
        Err(e) => Err(e@),
    }
}

/// `rest` with `done` put before what it holds, or the error that it is.
pub open spec fn prepend<T>(done: Seq<T>, rest: Result<Seq<T>, ErrorView>) -> Result<
    Seq<T>,
    ErrorView,
> {
    match rest {
        Ok(more) => Ok(done + more),
        Err(e) => Err(e),
    }
}

} // verus!
