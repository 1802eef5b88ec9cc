//! The errors that building or running a machine can give.

use vstd::prelude::*;

verus! {

/// What can go wrong while a machine is described, built or run.
#[derive(Debug, PartialEq, Eq)]
pub enum Error {
    /// A second transition was given for a pair of state and symbols read.
    Indeterminancy,
    /// The run applied as many transitions as the step bound allows and the
    /// machine had not halted.
    MaxStepsReached,
    /// A vector does not have one entry per tape: the number of tapes, then
    /// the length that was found.
    UnmatchingSizes(usize, usize),
    /// A machine was asked for with no tape at all.
    TapeErrorCount,
    /// The direction vector and the write vector of a transition differ in
    /// length: the length of the first, then that of the second.
    TransitionSizeUnmatch(usize, usize),
    /// A word that names no direction.
    UnkownDirection(String),
    /// The machine description could not be parsed.
    ErrorParsing(String),
    /// The machine description could not be opened or read.
    ErrorOpenFile(String),
    /// The machine did not accept the string.
    Fail(String),
}

/// The mathematical model of an error: the error with its text as a sequence
/// of characters.
pub enum ErrorView {
    Indeterminancy,
    MaxStepsReached,
    UnmatchingSizes(usize, usize),
    TapeErrorCount,
    TransitionSizeUnmatch(usize, usize),
    UnkownDirection(Seq<char>),
    ErrorParsing(Seq<char>),
    ErrorOpenFile(Seq<char>),
    Fail(Seq<char>),
}

impl View for Error {
    type V = ErrorView;

    open spec fn view(&self) -> ErrorView {
        match *self {
            Error::Indeterminancy => ErrorView::Indeterminancy,
            Error::MaxStepsReached => ErrorView::MaxStepsReached,
            Error::UnmatchingSizes(expected, found) => ErrorView::UnmatchingSizes(expected, found),
            Error::TapeErrorCount => ErrorView::TapeErrorCount,
            Error::TransitionSizeUnmatch(first, second) => ErrorView::TransitionSizeUnmatch(
                first,
                second,
            ),
            Error::UnkownDirection(word) => ErrorView::UnkownDirection(word@),
            Error::ErrorParsing(text) => ErrorView::ErrorParsing(text@),
            Error::ErrorOpenFile(text) => ErrorView::ErrorOpenFile(text@),
            Error::Fail(text) => ErrorView::Fail(text@),
        }
    }
}

impl Clone for Error {
    fn clone(&self) -> (e: Error)
        ensures
            e == *self,
    {
        match self {
            Error::Indeterminancy => Error::Indeterminancy,
            Error::MaxStepsReached => Error::MaxStepsReached,
            Error::UnmatchingSizes(expected, found) => Error::UnmatchingSizes(*expected, *found),
            Error::TapeErrorCount => Error::TapeErrorCount,
            Error::TransitionSizeUnmatch(first, second) => Error::TransitionSizeUnmatch(
                *first,
                *second,
            ),
            Error::UnkownDirection(word) => Error::UnkownDirection(word.clone()),
            Error::ErrorParsing(text) => Error::ErrorParsing(text.clone()),
            Error::ErrorOpenFile(text) => Error::ErrorOpenFile(text.clone()),
            Error::Fail(text) => Error::Fail(text.clone()),
        }
    }
}

} // verus!
