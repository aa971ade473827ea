//! Board state: the nine squares, the two players, and cell occupancy.
//! The board answers occupancy queries and counts pieces; it knows nothing
//! of turns, winners, or game phase.

use vstd::prelude::*;
use crate::game::error::SquareOccupied;
use crate::game::error::StringIsNotASquare;

verus! {

/// One of the nine cells of the board, conventionally numbered 1 through 9,
/// row by row from the top left.
#[derive(Clone, Copy, PartialEq, Eq, Structural, Debug, Hash)]
pub enum Square {
    I1,
    I2,
    I3,
    I4,
    I5,
    I6,
    I7,
    I8,
    I9,
}

impl Square {
    /// The square's index in the board's view, 0 through 8.
    pub open spec fn idx(self) -> int {
        match self {
            Square::I1 => 0,
            Square::I2 => 1,
            Square::I3 => 2,
            Square::I4 => 3,
            Square::I5 => 4,
            Square::I6 => 5,
            Square::I7 => 6,
            Square::I8 => 7,
            Square::I9 => 8,
        }
    }

    /// The single character that names this square.
    pub open spec fn char_of(self) -> char {
        match self {
            Square::I1 => '1',
            Square::I2 => '2',
            Square::I3 => '3',
            Square::I4 => '4',
            Square::I5 => '5',
            Square::I6 => '6',
            Square::I7 => '7',
            Square::I8 => '8',
            Square::I9 => '9',
        }
    }

    /// The text this square prints as: "1" through "9".
    pub open spec fn text(self) -> Seq<char> {
        seq![self.char_of()]
    }

    /// The square a single character denotes, if any.
    pub open spec fn of_char(c: char) -> Option<Square> {
        if c == '1' {
            Some(Square::I1)
        } else if c == '2' {
            Some(Square::I2)
        } else if c == '3' {
            Some(Square::I3)
        } else if c == '4' {
            Some(Square::I4)
        } else if c == '5' {
            Some(Square::I5)
        } else if c == '6' {
            Some(Square::I6)
        } else if c == '7' {
            Some(Square::I7)
        } else if c == '8' {
            Some(Square::I8)
        } else if c == '9' {
            Some(Square::I9)
        } else {
            None
        }
    }

    /// What parsing a text yields: the square whose name the text is, or
    /// nothing when the text is not one of the nine square names.
    pub open spec fn parse_spec(s: Seq<char>) -> Option<Square> {
        if s.len() == 1 {
            Square::of_char(s[0])
        } else {
            None
        }
    }

    /// The square's index as an executable value.
    pub fn index(&self) -> (i: usize)
        ensures
            i == self.idx(),
    {
        match self {
            Square::I1 => 0,
            Square::I2 => 1,
            Square::I3 => 2,
            Square::I4 => 3,
            Square::I5 => 4,
            Square::I6 => 5,
            Square::I7 => 6,
            Square::I8 => 7,
            Square::I9 => 8,
        }
    }

    /// Parses the literal texts "1" through "9" into squares; any other input
    /// fails, carrying the offending text.
    pub fn parse(s: String) -> (r: Result<Square, StringIsNotASquare>)
        ensures
            match r {
                Ok(sq) => Square::parse_spec(s@) == Some(sq),
                Err(e) => Square::parse_spec(s@) is None && e.string@ == s@,
            },
    {
        if s.as_str().unicode_len() == 1 {
            let c = s.as_str().get_char(0);
            match c {
                '1' => Ok(Square::I1),
                '2' => Ok(Square::I2),
                '3' => Ok(Square::I3),
                '4' => Ok(Square::I4),
                '5' => Ok(Square::I5),
                '6' => Ok(Square::I6),
                '7' => Ok(Square::I7),
                '8' => Ok(Square::I8),
                '9' => Ok(Square::I9),
                _ => Err(StringIsNotASquare { string: s }),
            }
        } else {
            Err(StringIsNotASquare { string: s })
        }
    }

    /// Renders the square's name, "1" through "9".
    pub fn to_text(&self) -> (r: String)
        ensures
            r@ == self.text(),
    {
        let r = match self {
            Square::I1 => "1",
            Square::I2 => "2",
            Square::I3 => "3",
            Square::I4 => "4",
            Square::I5 => "5",
            Square::I6 => "6",
            Square::I7 => "7",
            Square::I8 => "8",
            Square::I9 => "9",
        };
        proof {
            reveal_strlit("1");
            reveal_strlit("2");
            reveal_strlit("3");
            reveal_strlit("4");
            reveal_strlit("5");
            reveal_strlit("6");
            reveal_strlit("7");
            reveal_strlit("8");
            reveal_strlit("9");
            assert(r@ =~= self.text());
        }
        r.to_owned()
    }
}

/// Round trip: parsing the text of any square yields that square back.
pub proof fn lemma_parse_roundtrip(sq: Square)
    ensures
        Square::parse_spec(sq.text()) == Some(sq),
{
}

/// One of the two game participants.
#[derive(Clone, Copy, PartialEq, Eq, Structural, Debug, Hash)]
pub enum Player {
    X,
    O,
}

impl Player {
    /// The opposing participant.
    pub open spec fn other(self) -> Player {
        match self {
            Player::X => Player::O,
            Player::O => Player::X,
        }
    }

    /// The text this player prints as: "X" or "O".
    pub open spec fn text(self) -> Seq<char> {
        match self {
            Player::X => seq!['X'],
            Player::O => seq!['O'],
        }
    }

    /// Renders the player's label, "X" or "O".
    pub fn to_text(&self) -> (r: String)
        ensures
            r@ == self.text(),
    {
        let r = match self {
            Player::X => "X",
            Player::O => "O",
        };
        proof {
            reveal_strlit("X");
            reveal_strlit("O");
            assert(r@ =~= self.text());
        }
        r.to_owned()
    }
}

/// How many cells of `s` the player `p` occupies.
pub open spec fn count_pieces(s: Seq<Option<Player>>, p: Player) -> nat
    decreases s.len(),
{
    if s.len() == 0 {
        0
    } else {
        count_pieces(s.drop_last(), p) + (if s.last() == Some(p) {
            1nat
        } else {
            0nat
        })
    }
}

/// A board that never holds more than one piece per square: a piece is only
/// ever added to an empty cell, never removed or overwritten. Its view is the
/// sequence of the nine cells' occupants, indexed by `Square::idx`.
#[derive(Clone, Debug)]
pub struct Board {
    cells: Vec<Option<Player>>,
}

impl View for Board {
    type V = Seq<Option<Player>>;

    closed spec fn view(&self) -> Seq<Option<Player>> {
        self.cells@
    }
}

/// Creates an empty board, one cell per square.
pub fn new() -> (r: Board)
    ensures
        r.wf(),
        forall|i: int| 0 <= i < 9 ==> r@[i] is None,
{
    let mut cells: Vec<Option<Player>> = Vec::new();
    let mut k: usize = 0;
    while k < 9
        invariant
            k <= 9,
            cells@.len() == k,
            forall|i: int| 0 <= i < k ==> cells@[i] is None,
        decreases 9 - k,
    {
        cells.push(None);
        k = k + 1;
    }
    Board { cells }
}

impl Board {
    /// A board is well formed when it has exactly one cell per square.
    pub open spec fn wf(self) -> bool {
        self@.len() == 9
    }

    /// The occupant at `location`, or nothing when the cell is empty.
    /// A total query; it never fails.
    pub fn get(&self, location: Square) -> (r: Option<Player>)
        requires
            self.wf(),
        ensures
            r == self@[location.idx()],
    {
        let i = location.index();
        self.cells[i]
    }

    /// Places `player` at `location` on a fresh copy of the board; fails with
    /// `SquareOccupied` when the cell already holds a piece, and then the
    /// board this was called on is untouched for the caller to retry.
    pub fn place(&self, location: Square, player: Player) -> (r: Result<Board, SquareOccupied>)
        requires
            self.wf(),
        ensures
            match r {
                Ok(b) => self@[location.idx()] is None && b.wf() && b@ == self@.update(
                    location.idx(),
                    Some(player),
                ),
                Err(e) => self@[location.idx()] is Some && e.sq == location,
            },
    {
        let j = location.index();
        match self.cells[j] {
            Some(_) => Err(SquareOccupied { sq: location }),
            None => {
                let mut cells: Vec<Option<Player>> = Vec::new();
                let mut k: usize = 0;
                while k < 9
                    invariant
                        self.wf(),
                        j == location.idx(),
                        k <= 9,
                        cells@.len() == k,
                        forall|i: int|
                            0 <= i < k ==> cells@[i] == (if i == j {
                                Some(player)
                            } else {
                                self@[i]
                            }),
                    decreases 9 - k,
                {
                    if k == j {
                        cells.push(Some(player));
                    } else {
                        cells.push(self.cells[k]);
                    }
                    k = k + 1;
                }
                let b = Board { cells };
                proof {
                    assert(b@ =~= self@.update(location.idx(), Some(player)));
                }
                Ok(b)
            },
        }
    }

    /// The number of squares occupied by `player`; turn order and the tie
    /// condition are derived from it.
    pub fn piece_count(&self, player: Player) -> (r: usize)
        requires
            self.wf(),
        ensures
            r == count_pieces(self@, player),
    {
        let mut n: usize = 0;
        let mut i: usize = 0;
        while i < 9
            invariant
                self.wf(),
                i <= 9,
                n <= i,
                n == count_pieces(self@.take(i as int), player),
            decreases 9 - i,
        {
            let hit = match self.cells[i] {
                Some(q) => q == player,
                None => false,
            };
            proof {
                assert(self@.take(i + 1).drop_last() =~= self@.take(i as int));
                assert(self@.take(i + 1).last() == self@[i as int]);
            }
            if hit {
                n = n + 1;
            }
            i = i + 1;
        }
        proof {
            assert(self@.take(9) =~= self@);
        }
        n
    }
}

/// The text one cell prints as: the occupant's label between spaces, or the
/// square's number in angle brackets when the cell is empty.
pub open spec fn cell_text(s: Seq<Option<Player>>, sq: Square) -> Seq<char> {
    match s[sq.idx()] {
        Some(p) => " "@ + p.text() + " "@,
        None => "<"@ + sq.text() + ">"@,
    }
}

/// The text the whole board prints as: three rows of three cells, separated
/// by vertical bars.
pub open spec fn board_text(s: Seq<Option<Player>>) -> Seq<char> {
    "  "@ + cell_text(s, Square::I1) + " | "@ + cell_text(s, Square::I2) + " | "@ + cell_text(
        s,
        Square::I3,
    ) + "\n  "@ + cell_text(s, Square::I4) + " | "@ + cell_text(s, Square::I5) + " | "@
        + cell_text(s, Square::I6) + "\n  "@ + cell_text(s, Square::I7) + " | "@ + cell_text(
        s,
        Square::I8,
    ) + " | "@ + cell_text(s, Square::I9)
}

impl Board {
    /// One cell's text: the occupant's label between spaces, or the square's
    /// number in angle brackets when the cell is empty.
    pub fn render_cell(&self, location: Square) -> (r: String)
        requires
            self.wf(),
        ensures
            r@ == cell_text(self@, location),
    {
        match self.get(location) {
            Some(p) => {
                let mut out = " ".to_owned();
                let t = p.to_text();
                out.append(t.as_str());
                out.append(" ");
                proof {
                    assert(out@ =~= cell_text(self@, location));
                }
                out
            },
            None => {
                let mut out = "<".to_owned();
                let t = location.to_text();
                out.append(t.as_str());
                out.append(">");
                proof {
                    assert(out@ =~= cell_text(self@, location));
                }
                out
            },
        }
    }

    /// The board grid as text: three rows of three cells.
    pub fn render(&self) -> (r: String)
        requires
            self.wf(),
        ensures
            r@ == board_text(self@),
    {
        let mut out = "  ".to_owned();
        let c = self.render_cell(Square::I1);
        out.append(c.as_str());
        out.append(" | ");
        let c = self.render_cell(Square::I2);
        out.append(c.as_str());
        out.append(" | ");
        let c = self.render_cell(Square::I3);
        out.append(c.as_str());
        out.append("\n  ");
        let c = self.render_cell(Square::I4);
        out.append(c.as_str());
        out.append(" | ");
        let c = self.render_cell(Square::I5);
        out.append(c.as_str());
        out.append(" | ");
        let c = self.render_cell(Square::I6);
        out.append(c.as_str());
        out.append("\n  ");
        let c = self.render_cell(Square::I7);
        out.append(c.as_str());
        out.append(" | ");
        let c = self.render_cell(Square::I8);
        out.append(c.as_str());
        out.append(" | ");
        let c = self.render_cell(Square::I9);
        out.append(c.as_str());
        proof {
            assert(out@ =~= board_text(self@));
        }
        out
    }
}

/// Placing one piece raises its owner's count by one and leaves the other
/// player's count as it was.
pub proof fn lemma_count_update(s: Seq<Option<Player>>, p: Player, q: Player, j: int)
    requires
        0 <= j < s.len(),
        s[j] is None,
    ensures
        count_pieces(s.update(j, Some(p)), q) == count_pieces(s, q) + (if p == q {
            1int
        } else {
            0int
        }),
    decreases s.len(),
{
    let t = s.update(j, Some(p));
    if j == s.len() - 1 {
        assert(t.drop_last() =~= s.drop_last());
        assert(t.last() == Some(p));
        assert(s.last() is None);
    } else {
        assert(t.drop_last() =~= s.drop_last().update(j, Some(p)));
        assert(t.last() == s.last());
        lemma_count_update(s.drop_last(), p, q, j);
    }
}

/// The two piece counts never exceed the number of cells, and they reach it
/// exactly when every cell is occupied.
pub proof fn lemma_count_total(s: Seq<Option<Player>>)
    ensures
        count_pieces(s, Player::X) + count_pieces(s, Player::O) <= s.len(),
        (count_pieces(s, Player::X) + count_pieces(s, Player::O) == s.len()) <==> (forall|i: int|
            0 <= i < s.len() ==> s[i] is Some),
    decreases s.len(),
{
    if s.len() == 0 {
    } else {
        let d = s.drop_last();
        lemma_count_total(d);
        assert(s.last() == s[s.len() - 1]);
        assert(forall|i: int| 0 <= i < d.len() ==> d[i] == s[i]);
        let sum_d = count_pieces(d, Player::X) + count_pieces(d, Player::O);
        let sum_s = count_pieces(s, Player::X) + count_pieces(s, Player::O);
        match s.last() {
            None => {
                assert(sum_s == sum_d);
                assert(s[s.len() - 1] !is Some);
            },
            Some(p) => {
                match p {
                    Player::X => {
                        assert(count_pieces(s, Player::X) == count_pieces(d, Player::X) + 1);
                        assert(count_pieces(s, Player::O) == count_pieces(d, Player::O));
                    },
                    Player::O => {
                        assert(count_pieces(s, Player::X) == count_pieces(d, Player::X));
                        assert(count_pieces(s, Player::O) == count_pieces(d, Player::O) + 1);
                    },
                }
                assert(sum_s == sum_d + 1);
                if sum_s == s.len() {
                    assert forall|i: int| 0 <= i < s.len() implies s[i] is Some by {
                        if i < s.len() - 1 {
                            assert(d[i] is Some);
                        }
                    }
                }
                if forall|i: int| 0 <= i < s.len() ==> s[i] is Some {
                    assert forall|i: int| 0 <= i < d.len() implies d[i] is Some by {
                        assert(s[i] is Some);
                    }
                    assert(sum_d == d.len());
                }
            },
        }
    }
}

/// A board with no pieces at all has a zero count for every player.
pub proof fn lemma_count_empty(s: Seq<Option<Player>>, p: Player)
    requires
        forall|i: int| 0 <= i < s.len() ==> s[i] is None,
    ensures
        count_pieces(s, p) == 0,
    decreases s.len(),
{
    if s.len() > 0 {
        assert(s.last() == s[s.len() - 1]);
        lemma_count_empty(s.drop_last(), p);
    }
}

} // verus!
