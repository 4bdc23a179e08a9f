//! Why an expression of ranges has no total.

use vstd::prelude::*;

verus! {

/// The reason for which an expression of ranges is refused.
#[derive(Debug, PartialEq, Eq)]
pub enum RangeError {
    /// The start or the end of a range is no time of day. Holds the token
    /// that was not recognised.
    UnrecognisedTime(Vec<char>),
    /// The end of a range lies before its start. Ranges do not run over
    /// midnight.
    EndBeforeStart,
    /// A range in a list of ranges spans no time at all.
    EmptyRange,
}

/// A `RangeError` with its token as a sequence of characters.
pub enum RangeErrorView {
    UnrecognisedTime(Seq<char>),
    EndBeforeStart,
    EmptyRange,
}

impl View for RangeError {
    type V = RangeErrorView;

    open spec fn view(&self) -> RangeErrorView {
        match self {
            RangeError::UnrecognisedTime(token) => RangeErrorView::UnrecognisedTime(token@),
            RangeError::EndBeforeStart => RangeErrorView::EndBeforeStart,
            RangeError::EmptyRange => RangeErrorView::EmptyRange,
        }
    }
}

} // verus!
