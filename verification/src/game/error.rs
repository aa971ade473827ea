//! The error taxonomy: every failure the library reports is a plain value
//! that the caller can recover from; nothing here aborts a game.

use vstd::prelude::*;
use crate::game::board::Square;

verus! {

/// The underlying input source failed. The shell around the library maps its
/// read failures to this value and retries the prompt; the core never raises it.
#[derive(Clone, Copy, PartialEq, Eq, Structural, Debug)]
pub struct StdInFailure {
}

/// The given text is not one of the nine valid square literals "1" through
/// "9". Carries the offending text for display.
#[derive(Clone, PartialEq, Eq, Debug)]
pub struct StringIsNotASquare {
    pub string: String,
}

/// The requested square already holds a piece. Carries the square.
#[derive(Clone, Copy, PartialEq, Eq, Structural, Debug)]
pub struct SquareOccupied {
    pub sq: Square,
}

/// One error type over everything that can go wrong in a round of play.
#[derive(Clone, PartialEq, Eq, Debug)]
pub enum TicTacToeError {
    StdInFailure(StdInFailure),
    StringIsNotASquare(StringIsNotASquare),
    SquareOccupied(SquareOccupied),
}

impl StdInFailure {
    /// The text shown for this error.
    pub fn message(&self) -> (r: String)
        ensures
            r@ == "System error reading input"@,
    {
        "System error reading input".to_owned()
    }
}

impl StringIsNotASquare {
    /// The text shown for this error, naming the rejected input.
    pub fn message(&self) -> (r: String)
        ensures
            r@ == "Squares are numbered 1-9. "@ + self.string@ + " is invalid."@,
    {
        let mut out = "Squares are numbered 1-9. ".to_owned();
        out.append(self.string.as_str());
        out.append(" is invalid.");
        out
    }
}

impl SquareOccupied {
    /// The text shown for this error, naming the occupied square.
    pub fn message(&self) -> (r: String)
        ensures
            r@ == "Location "@ + self.sq.text() + " is already taken."@,
    {
        let mut out = "Location ".to_owned();
        let t = self.sq.to_text();
        out.append(t.as_str());
        out.append(" is already taken.");
        out
    }
}

impl TicTacToeError {
    /// The text each kind of error shows.
    pub open spec fn text(self) -> Seq<char> {
        match self {
            TicTacToeError::StdInFailure(_) => "System error reading input"@,
            TicTacToeError::StringIsNotASquare(e) => "Squares are numbered 1-9. "@ + e.string@
                + " is invalid."@,
            TicTacToeError::SquareOccupied(e) => "Location "@ + e.sq.text() + " is already taken."@,
        }
    }

    /// The text shown for this error.
    pub fn message(&self) -> (r: String)
        ensures
            r@ == self.text(),
    {
        match self {
            TicTacToeError::StdInFailure(e) => e.message(),
            TicTacToeError::StringIsNotASquare(e) => e.message(),
            TicTacToeError::SquareOccupied(e) => e.message(),
        }
    }
}

impl From<StdInFailure> for TicTacToeError {
    fn from(e: StdInFailure) -> (r: TicTacToeError)
        ensures
            r == TicTacToeError::StdInFailure(e),
    {
        TicTacToeError::StdInFailure(e)
    }
}

impl vstd::std_specs::convert::FromSpecImpl<StdInFailure> for TicTacToeError {
    open spec fn obeys_from_spec() -> bool {
        true
    }

    open spec fn from_spec(e: StdInFailure) -> TicTacToeError {
        TicTacToeError::StdInFailure(e)
    }
}

impl From<StringIsNotASquare> for TicTacToeError {
    fn from(e: StringIsNotASquare) -> (r: TicTacToeError)
        ensures
            r == TicTacToeError::StringIsNotASquare(e),
    {
        TicTacToeError::StringIsNotASquare(e)
    }
}

impl vstd::std_specs::convert::FromSpecImpl<StringIsNotASquare> for TicTacToeError {
    open spec fn obeys_from_spec() -> bool {
        true
    }

    open spec fn from_spec(e: StringIsNotASquare) -> TicTacToeError {
        TicTacToeError::StringIsNotASquare(e)
    }
}

impl From<SquareOccupied> for TicTacToeError {
    fn from(e: SquareOccupied) -> (r: TicTacToeError)
        ensures
            r == TicTacToeError::SquareOccupied(e),
    {
        TicTacToeError::SquareOccupied(e)
    }
}

impl vstd::std_specs::convert::FromSpecImpl<SquareOccupied> for TicTacToeError {
    open spec fn obeys_from_spec() -> bool {
        true
    }

    open spec fn from_spec(e: SquareOccupied) -> TicTacToeError {
        TicTacToeError::SquareOccupied(e)
    }
}

} // verus!
