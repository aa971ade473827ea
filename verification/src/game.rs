//! Game phases and the turn-taking transition: an active game accepts turns
//! and derives whose turn it is from the piece counts; a finished game is an
//! immutable snapshot with its outcome and offers no further transition.

pub mod board;
pub mod error;

use vstd::prelude::*;
use crate::game::board::board_text;
use crate::game::board::count_pieces;
use crate::game::board::Board;
use crate::game::board::Player;
use crate::game::board::Square;
use crate::game::error::SquareOccupied;

verus! {

/// The outcome of a finished game: a win for one player, or a tie.
#[derive(Clone, Copy, PartialEq, Eq, Structural, Debug, Hash)]
pub enum State {
    Win(Player),
    Tie,
}

/// A game in one of its two phases. Only the active variant offers a
/// transition; the final variant is a plain immutable value.
#[derive(Clone, Debug)]
pub enum Game {
    Final(FinalGame),
    Active(ActiveGame),
}

/// A `FinalGame` is completed and no more turns can be taken on it.
/// Because `Board` has no mutating operations it is safe to expose here.
#[derive(Clone, Debug)]
pub struct FinalGame {
    pub state: State,
    pub board: Board,
}

/// An `ActiveGame` is not completed and more turns can be taken on it.
/// Because `Board` has no mutating operations it is safe to expose here.
#[derive(Clone, Debug)]
pub struct ActiveGame {
    pub board: Board,
}

/// The three cell indices of winning line `k`: the three rows, the three
/// columns, and the two diagonals.
pub open spec fn line_cells(k: int) -> (int, int, int) {
    if k == 0 {
        (0, 1, 2)
    } else if k == 1 {
        (3, 4, 5)
    } else if k == 2 {
        (6, 7, 8)
    } else if k == 3 {
        (0, 3, 6)
    } else if k == 4 {
        (1, 4, 7)
    } else if k == 5 {
        (2, 5, 8)
    } else if k == 6 {
        (0, 4, 8)
    } else {
        (6, 4, 2)
    }
}

/// Winning line `k` is fully occupied by `p`.
pub open spec fn line_won(s: Seq<Option<Player>>, p: Player, k: int) -> bool {
    let (a, b, c) = line_cells(k);
    s[a] == Some(p) && s[b] == Some(p) && s[c] == Some(p)
}

/// Some winning line is fully occupied by `p`.
pub open spec fn has_win(s: Seq<Option<Player>>, p: Player) -> bool {
    exists|k: int| 0 <= k < 8 && line_won(s, p, k)
}

/// The player who moves next, derived from the board alone: the player with
/// fewer placed pieces; X when the counts are equal, since X always opens.
pub open spec fn next_player(s: Seq<Option<Player>>) -> Player {
    if count_pieces(s, Player::X) > count_pieces(s, Player::O) {
        Player::O
    } else {
        Player::X
    }
}

/// The counts as alternating play starting with X leaves them: X has placed
/// exactly as many pieces as O, or one more.
pub open spec fn balanced(s: Seq<Option<Player>>) -> bool {
    count_pieces(s, Player::O) <= count_pieces(s, Player::X) <= count_pieces(s, Player::O) + 1
}

impl ActiveGame {
    /// The invariant of every reachable active game: a well-formed board,
    /// turn-alternating piece counts, strictly fewer than nine pieces, and no
    /// completed line for either player.
    pub open spec fn wf(self) -> bool {
        &&& self.board.wf()
        &&& balanced(self.board@)
        &&& count_pieces(self.board@, Player::X) + count_pieces(self.board@, Player::O) < 9
        &&& !has_win(self.board@, Player::X)
        &&& !has_win(self.board@, Player::O)
    }
}

impl FinalGame {
    /// The invariant of every reachable finished game: the recorded outcome
    /// matches the closed board. A win names a player with a completed line;
    /// a tie is a full board with no completed line, on which alternating
    /// play has left X with five pieces and O with four.
    pub open spec fn wf(self) -> bool {
        &&& self.board.wf()
        &&& match self.state {
            State::Win(p) => has_win(self.board@, p),
            State::Tie => {
                &&& !has_win(self.board@, Player::X)
                &&& !has_win(self.board@, Player::O)
                &&& count_pieces(self.board@, Player::X) == 5
                &&& count_pieces(self.board@, Player::O) == 4
            },
        }
    }
}

impl Game {
    /// The phase-appropriate invariant.
    pub open spec fn wf(self) -> bool {
        match self {
            Game::Final(g) => g.wf(),
            Game::Active(g) => g.wf(),
        }
    }

    /// The board of either phase is well formed.
    pub open spec fn board_wf(self) -> bool {
        match self {
            Game::Final(g) => g.board.wf(),
            Game::Active(g) => g.board.wf(),
        }
    }

    /// The full text the game prints as: a header naming whose turn it is or
    /// the outcome, then the board grid.
    pub open spec fn text(self) -> Seq<char> {
        match self {
            Game::Final(g) => (match g.state {
                State::Win(p) => ":: Player "@ + p.text() + " Wins! ::"@,
                State::Tie => "::    Tie Game!   ::"@,
            }) + "\n"@ + board_text(g.board@),
            Game::Active(g) => "::    "@ + next_player(g.board@).text() + "'s Turn    ::\n"@
                + board_text(g.board@),
        }
    }

    /// Renders the game as a human-readable text block: the header line, then
    /// the three rows of the grid. Pure formatting; the game is unchanged.
    pub fn render(&self) -> (r: String)
        requires
            self.board_wf(),
        ensures
            r@ == self.text(),
    {
        match self {
            Game::Final(g) => {
                let mut out = match g.state {
                    State::Win(p) => {
                        let mut t = ":: Player ".to_owned();
                        let pt = p.to_text();
                        t.append(pt.as_str());
                        t.append(" Wins! ::");
                        t
                    },
                    State::Tie => "::    Tie Game!   ::".to_owned(),
                };
                out.append("\n");
                let bt = g.board.render();
                out.append(bt.as_str());
                proof {
                    assert(out@ =~= self.text());
                }
                out
            },
            Game::Active(g) => {
                let mut out = "::    ".to_owned();
                let p = g.active_player();
                let pt = p.to_text();
                out.append(pt.as_str());
                out.append("'s Turn    ::\n");
                let bt = g.board.render();
                out.append(bt.as_str());
                proof {
                    assert(out@ =~= self.text());
                }
                out
            },
        }
    }

    /// Constructs a fresh active game with an empty board; X moves first.
    pub fn new() -> (r: Game)
        ensures
            r.wf(),
            r matches Game::Active(g) && (forall|i: int| 0 <= i < 9 ==> g.board@[i] is None),
    {
        let b = crate::game::board::new();
        proof {
            crate::game::board::lemma_count_empty(b@, Player::X);
            crate::game::board::lemma_count_empty(b@, Player::O);
            assert forall|k: int| 0 <= k < 8 implies !line_won(b@, Player::X, k) by {
                lemma_line_cells_range(k);
            }
            assert forall|k: int| 0 <= k < 8 implies !line_won(b@, Player::O, k) by {
                lemma_line_cells_range(k);
            }
        }
        Game::Active(ActiveGame { board: b })
    }
}

impl ActiveGame {
    /// The player whose turn it is, derived from the piece counts alone: the
    /// player with fewer pieces on the board moves next, and X moves when the
    /// counts are equal, since X always opens.
    pub fn active_player(&self) -> (r: Player)
        requires
            self.board.wf(),
        ensures
            r == next_player(self.board@),
    {
        let xs = self.board.piece_count(Player::X);
        let os = self.board.piece_count(Player::O);
        if xs > os {
            Player::O
        } else {
            Player::X
        }
    }

    /// Takes a turn for the derived active player and returns the next state
    /// of the game: still active, won by the mover the moment a line is
    /// completed, or tied when the ninth piece completes no line. A win on
    /// the ninth move is reported as a win, never as a tie.
    ///
    /// # Errors
    /// `SquareOccupied` — if the square already holds a piece; the game this
    /// was called on is untouched, so the caller can retry.
    pub fn take_turn(&self, location: Square) -> (r: Result<Game, SquareOccupied>)
        requires
            self.wf(),
        ensures
            ({
                let s = self.board@;
                let mover = next_player(s);
                let j = location.idx();
                match r {
                    Err(e) => s[j] is Some && e.sq == location,
                    Ok(g) => {
                        let ns = s.update(j, Some(mover));
                        &&& s[j] is None
                        &&& g.wf()
                        &&& match g {
                            Game::Active(a) => {
                                &&& a.board@ == ns
                                &&& !has_win(ns, mover)
                                &&& count_pieces(ns, Player::X) + count_pieces(ns, Player::O) < 9
                            },
                            Game::Final(f) => {
                                &&& f.board@ == ns
                                &&& (has_win(ns, mover) ==> f.state == State::Win(mover))
                                &&& (!has_win(ns, mover) ==> f.state == State::Tie
                                    && count_pieces(ns, Player::X) + count_pieces(ns, Player::O)
                                    == 9)
                            },
                        }
                    },
                }
            }),
    {
        let ghost s = self.board@;
        let ghost j = location.idx();

        // determine whose turn it is
        let player = self.active_player();

        // place the piece (fails if the square is occupied)
        let next_board = match self.board.place(location, player) {
            Ok(b) => b,
            Err(e) => {
                return Err(e);
            },
        };
        let ghost ns = next_board@;
        proof {
            crate::game::board::lemma_count_update(s, player, Player::X, j);
            crate::game::board::lemma_count_update(s, player, Player::O, j);
            lemma_no_win_for_other(s, player, j);
        }

        // check for a winner on the lines through the just-placed square;
        // no other line can have been completed by this move, and no line
        // was complete before it
        let mut k: usize = 0;
        while k < 8
            invariant
                self.wf(),
                next_board.wf(),
                s == self.board@,
                ns == next_board@,
                j == location.idx(),
                0 <= j < 9,
                s[j] is None,
                player == next_player(s),
                ns == s.update(j, Some(player)),
                k <= 8,
                forall|m: int| 0 <= m < k ==> !line_won(ns, player, m),
            decreases 8 - k,
        {
            let (a, b, c) = line_squares(k);
            proof {
                lemma_line_cells_range(k as int);
                assert(!line_won(s, player, k as int)) by {
                    if line_won(s, player, k as int) {
                        assert(has_win(s, player));
                    }
                }
            }
            if a == location || b == location || c == location {
                if cell_is(&next_board, a, player) && cell_is(&next_board, b, player) && cell_is(
                    &next_board,
                    c,
                    player,
                ) {
                    proof {
                        assert(line_won(ns, player, k as int));
                        assert(has_win(ns, player));
                    }
                    return Ok(Game::Final(FinalGame { state: State::Win(player), board: next_board }));
                }
            } else {
                proof {
                    lemma_idx_injective(a, location);
                    lemma_idx_injective(b, location);
                    lemma_idx_injective(c, location);
                    assert(!line_won(ns, player, k as int));
                }
            }
            k = k + 1;
        }
        proof {
            assert(!has_win(ns, player)) by {
                if has_win(ns, player) {
                    let m = choose|m: int| 0 <= m < 8 && line_won(ns, player, m);
                    assert(!line_won(ns, player, m));
                }
            }
        }

        // check for a tie: the mover's piece may have filled the board
        let xs = next_board.piece_count(Player::X);
        let os = next_board.piece_count(Player::O);
        if xs + os >= 9 {
            proof {
                crate::game::board::lemma_count_total(ns);
            }
            return Ok(Game::Final(FinalGame { state: State::Tie, board: next_board }));
        }

        // neither won nor full, so the game stays active
        Ok(Game::Active(ActiveGame { board: next_board }))
    }
}

/// The three squares of winning line `k`.
fn line_squares(k: usize) -> (r: (Square, Square, Square))
    requires
        k < 8,
    ensures
        (r.0.idx(), r.1.idx(), r.2.idx()) == line_cells(k as int),
{
    match k {
        0 => (Square::I1, Square::I2, Square::I3),
        1 => (Square::I4, Square::I5, Square::I6),
        2 => (Square::I7, Square::I8, Square::I9),
        3 => (Square::I1, Square::I4, Square::I7),
        4 => (Square::I2, Square::I5, Square::I8),
        5 => (Square::I3, Square::I6, Square::I9),
        6 => (Square::I1, Square::I5, Square::I9),
        _ => (Square::I7, Square::I5, Square::I3),
    }
}

/// Whether the cell at `location` holds a piece of `p`.
fn cell_is(b: &Board, location: Square, p: Player) -> (r: bool)
    requires
        b.wf(),
    ensures
        r == (b@[location.idx()] == Some(p)),
{
    match b.get(location) {
        Some(q) => q == p,
        None => false,
    }
}

/// Distinct squares have distinct board indices.
proof fn lemma_idx_injective(a: Square, b: Square)
    ensures
        (a == b) <==> (a.idx() == b.idx()),
{
}

/// A new piece of one player completes no line for the other: whatever cell
/// `p` fills, a board on which `p.other()` had no completed line still has
/// none.
pub proof fn lemma_no_win_for_other(s: Seq<Option<Player>>, p: Player, j: int)
    requires
        s.len() == 9,
        0 <= j < 9,
        !has_win(s, p.other()),
    ensures
        !has_win(s.update(j, Some(p)), p.other()),
{
    let q = p.other();
    let ns = s.update(j, Some(p));
    assert forall|k: int| 0 <= k < 8 implies !line_won(ns, q, k) by {
        lemma_line_cells_range(k);
        assert(!line_won(s, q, k)) by {
            if line_won(s, q, k) {
                assert(has_win(s, q));
            }
        }
    }
    if has_win(ns, q) {
        let m = choose|m: int| 0 <= m < 8 && line_won(ns, q, m);
        assert(!line_won(ns, q, m));
    }
}

/// The cells of every winning line are cells of the board.
pub proof fn lemma_line_cells_range(k: int)
    requires
        0 <= k < 8,
    ensures
        ({
            let (a, b, c) = line_cells(k);
            0 <= a < 9 && 0 <= b < 9 && 0 <= c < 9 && a != b && b != c && a != c
        }),
{
}

/// Turn order alternates strictly: on a board left by alternating play it is
/// X's turn exactly when the piece counts are equal, and O's turn otherwise.
pub proof fn lemma_turn_order(s: Seq<Option<Player>>)
    requires
        balanced(s),
    ensures
        (next_player(s) == Player::X) <==> (count_pieces(s, Player::X) == count_pieces(
            s,
            Player::O,
        )),
        (next_player(s) == Player::O) <==> (count_pieces(s, Player::X) != count_pieces(
            s,
            Player::O,
        )),
{
}

/// After a full round of alternating play fills all nine cells, X holds five
/// pieces and O holds four. (A game that ends earlier does so on a win, with
/// fewer pieces placed.)
pub proof fn lemma_final_piece_counts(s: Seq<Option<Player>>)
    requires
        s.len() == 9,
        balanced(s),
        count_pieces(s, Player::X) + count_pieces(s, Player::O) == 9,
    ensures
        count_pieces(s, Player::X) == 5,
        count_pieces(s, Player::O) == 4,
        forall|i: int| 0 <= i < 9 ==> s[i] is Some,
{
    crate::game::board::lemma_count_total(s);
}

/// Completing any one of the eight winning lines wins on the spot: when a
/// line's other cells already hold the mover's pieces and the mover fills the
/// line's remaining cell, the new board has a win for the mover.
pub proof fn lemma_line_completion_wins(s: Seq<Option<Player>>, p: Player, k: int, j: int)
    requires
        s.len() == 9,
        0 <= k < 8,
        0 <= j < 9,
        ({
            let (a, b, c) = line_cells(k);
            &&& j == a || j == b || j == c
            &&& a != j ==> s[a] == Some(p)
            &&& b != j ==> s[b] == Some(p)
            &&& c != j ==> s[c] == Some(p)
        }),
    ensures
        has_win(s.update(j, Some(p)), p),
{
    lemma_line_cells_range(k);
    let ns = s.update(j, Some(p));
    assert(line_won(ns, p, k));
}

} // verus!
