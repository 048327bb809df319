//! The board engine for a two-player tic-tac-toe session: a nine-cell grid,
//! move validation, win and tie detection, and a running score tally that
//! persists across rounds.

use rand::Rng;
use vstd::prelude::*;

verus! {

/// The state of one cell of the grid: taken by the human player (`X`), taken
/// by the automated opponent (`O`), or still open.
#[derive(Clone, Copy, Debug, PartialEq, Eq, Structural)]
pub enum State {
    X,
    O,
    Empty,
}

/// Why a requested move was rejected.
#[derive(Clone, Copy, Debug, PartialEq, Eq, Structural)]
pub enum PickError {
    AreaOccupied,
    MovesMapNotInitialized,
    OutOfBounds,
}

/// The outcome of evaluating the board for one side after a move.
#[derive(Clone, Copy, Debug, PartialEq, Eq, Structural)]
pub enum CheckResult {
    Win,
    Tie,
    Continue,
}

/// The running tally across rounds: human wins, opponent wins, and ties.
#[derive(Clone, Copy, Debug, PartialEq, Eq, Structural)]
pub struct Score {
    pub player: u16,
    pub cpu: u16,
    pub tie: u16,
}

/// The engine itself. The board is absent until a round is started with
/// [`Game::reset`]; the score lives for the whole session.
pub struct Game {
    moves_map: Option<Vec<State>>,
    score: Score,
}

/// Whether all three cells of the line `(i, j, k)` hold `side`.
pub open spec fn line_wins(b: Seq<State>, side: State, i: int, j: int, k: int) -> bool {
    b[i] == side && b[j] == side && b[k] == side
}

/// Whether `side` holds one of the eight canonical winning lines:
/// three rows, three columns, two diagonals.
pub open spec fn wins(b: Seq<State>, side: State) -> bool {
    ||| line_wins(b, side, 0, 1, 2)
    ||| line_wins(b, side, 3, 4, 5)
    ||| line_wins(b, side, 6, 7, 8)
    ||| line_wins(b, side, 0, 3, 6)
    ||| line_wins(b, side, 1, 4, 7)
    ||| line_wins(b, side, 2, 5, 8)
    ||| line_wins(b, side, 0, 4, 8)
    ||| line_wins(b, side, 2, 4, 6)
}

/// Whether every cell of the board is taken.
pub open spec fn full(b: Seq<State>) -> bool {
    forall|i: int| 0 <= i < 9 ==> b[i] != State::Empty
}

/// A freshly initialized board: nine open cells.
pub open spec fn empty_board() -> Seq<State> {
    Seq::new(9, |i: int| State::Empty)
}

/// The opposing player marker.
pub open spec fn other_side(side: State) -> State {
    match side {
        State::X => State::O,
        State::O => State::X,
        State::Empty => State::Empty,
    }
}

/// Law: an evaluation result `r` that classifies a board for `side` as
/// [`Game::check`] promises — `Win` exactly on a line held by `side`, `Tie`
/// exactly on a full board without such a line — also classifies it with the
/// opposing side taken into account: `Tie` exactly when no line is held by
/// either side and every cell is taken, and `Continue` otherwise. This holds
/// on every board except a full one where only the opposing side holds a
/// line, a position that the alternating evaluation after each move never
/// reaches.
pub proof fn lemma_check_classifies(b: Seq<State>, side: State, r: CheckResult)
    requires
        b.len() == 9,
        side != State::Empty,
        !(full(b) && !wins(b, side) && wins(b, other_side(side))),
        r == CheckResult::Win <==> wins(b, side),
        r == CheckResult::Tie <==> !wins(b, side) && full(b),
        r == CheckResult::Continue <==> !wins(b, side) && !full(b),
    ensures
        r == CheckResult::Win <==> wins(b, side),
        r == CheckResult::Tie <==> !wins(b, side) && !wins(b, other_side(side)) && full(b),
        r == CheckResult::Continue <==> !wins(b, side) && !(!wins(b, other_side(side)) && full(b)),
{
}

impl Game {
    /// The board as seen by the contracts: `None` before a round has been
    /// started, otherwise the nine-cell sequence.
    pub closed spec fn board(self) -> Option<Seq<State>> {
        match self.moves_map {
            Some(m) => Some(m@),
            None => None::<Seq<State>>,
        }
    }

    /// The score tally as seen by the contracts.
    pub closed spec fn scores(self) -> Score {
        self.score
    }

    /// The structural invariant: whenever a board exists it has exactly
    /// nine cells.
    pub closed spec fn well_formed(self) -> bool {
        self.board() matches Some(b) ==> b.len() == 9
    }

    /// A fresh session: the score at zero and no round in progress yet.
    pub fn new() -> (g: Game)
        ensures
            g.well_formed(),
            g.board() is None,
            g.scores() == (Score { player: 0, cpu: 0, tie: 0 }),
    {
        Game {
            moves_map: None,
            score: Score { player: 0, cpu: 0, tie: 0 },
        }
    }

    /// Starts (or restarts) a round: all nine cells become open. The score
    /// is not touched.
    pub fn reset(&mut self)
        ensures
            final(self).well_formed(),
            final(self).board() == Some(empty_board()),
            final(self).scores() == old(self).scores(),
    {
        let mut m: Vec<State> = Vec::new();
        let mut i: usize = 0;
        while i < 9
            invariant
                i <= 9,
                m@.len() == i,
                forall|j: int| 0 <= j < i ==> m@[j] == State::Empty,
            decreases 9 - i,
        {
            m.push(State::Empty);
            i += 1;
        }
        proof {
            assert(m@ =~= empty_board());
        }
        self.moves_map = Some(m);
    }

    /// True exactly when a round is in progress and every cell is taken.
    /// With no round in progress it reports false.
    pub fn is_full(&self) -> (r: bool)
        requires
            self.well_formed(),
        ensures
            r == (match self.board() {
                Some(b) => full(b),
                None => false,
            }),
    {
        match &self.moves_map {
            Some(m) => {
                let mut i: usize = 0;
                while i < 9
                    invariant
                        i <= 9,
                        m@.len() == 9,
                        self.board() == Some(m@),
                        forall|j: int| 0 <= j < i ==> m@[j] != State::Empty,
                    decreases 9 - i,
                {
                    if m[i] == State::Empty {
                        return false;
                    }
                    i += 1;
                }
                true
            },
            None => false,
        }
    }

    /// Places `side`'s marker on cell `index` if the round is in progress,
    /// the index is on the board and the cell is still open; otherwise the
    /// board is left exactly as it was and the reason comes back as an error.
    /// Bounds are judged before initialization, as a caller sees it: an index
    /// off the board is `OutOfBounds` even with no round in progress.
    pub fn place(&mut self, index: usize, side: State) -> (r: Result<(), PickError>)
        requires
            old(self).well_formed(),
        ensures
            final(self).well_formed(),
            final(self).scores() == old(self).scores(),
            (if index > 8 {
                r == Err::<(), PickError>(PickError::OutOfBounds)
                    && final(self).board() == old(self).board()
            } else {
                match old(self).board() {
                    None => r == Err::<(), PickError>(PickError::MovesMapNotInitialized)
                        && final(self).board() == old(self).board(),
                    Some(b) => if b[index as int] == State::Empty {
                        r == Ok::<(), PickError>(())
                            && final(self).board() == Some(b.update(index as int, side))
                    } else {
                        r == Err::<(), PickError>(PickError::AreaOccupied)
                            && final(self).board() == old(self).board()
                    },
                }
            }),
    {
        if index > 8 {
            return Err(PickError::OutOfBounds);
        }
        match &mut self.moves_map {
            Some(m) => {
                if m[index] == State::Empty {
                    m.set(index, side);
                    Ok(())
                } else {
                    Err(PickError::AreaOccupied)
                }
            },
            None => Err(PickError::MovesMapNotInitialized),
        }
    }

    /// The human move: marks cell `index` with `X` under the rules of
    /// [`Game::place`].
    pub fn pick_player(&mut self, index: usize) -> (r: Result<(), PickError>)
        requires
            old(self).well_formed(),
        ensures
            final(self).well_formed(),
            final(self).scores() == old(self).scores(),
            (if index > 8 {
                r == Err::<(), PickError>(PickError::OutOfBounds)
                    && final(self).board() == old(self).board()
            } else {
                match old(self).board() {
                    None => r == Err::<(), PickError>(PickError::MovesMapNotInitialized)
                        && final(self).board() == old(self).board(),
                    Some(b) => if b[index as int] == State::Empty {
                        r == Ok::<(), PickError>(())
                            && final(self).board() == Some(b.update(index as int, State::X))
                    } else {
                        r == Err::<(), PickError>(PickError::AreaOccupied)
                            && final(self).board() == old(self).board()
                    },
                }
            }),
    {
        self.place(index, State::X)
    }

    /// Evaluates the board for `side`: `Win` when `side` holds one of the
    /// eight canonical lines, else `Tie` when every cell is taken, else
    /// `Continue`. With no round in progress the answer is `Continue`.
    /// Nothing is changed.
    pub fn check(&mut self, state: State) -> (r: CheckResult)
        requires
            old(self).well_formed(),
        ensures
            *final(self) == *old(self),
            (match old(self).board() {
                Some(b) => {
                    &&& (r == CheckResult::Win <==> wins(b, state))
                    &&& (r == CheckResult::Tie <==> !wins(b, state) && full(b))
                    &&& (r == CheckResult::Continue <==> !wins(b, state) && !full(b))
                },
                None => r == CheckResult::Continue,
            }),
    {
        let won = match &self.moves_map {
            Some(m) => {
                (m[0] == state && m[1] == state && m[2] == state)
                    || (m[3] == state && m[4] == state && m[5] == state)
                    || (m[6] == state && m[7] == state && m[8] == state)
                    || (m[0] == state && m[3] == state && m[6] == state)
                    || (m[1] == state && m[4] == state && m[7] == state)
                    || (m[2] == state && m[5] == state && m[8] == state)
                    || (m[0] == state && m[4] == state && m[8] == state)
                    || (m[2] == state && m[4] == state && m[6] == state)
            },
            None => false,
        };
        if won {
            return CheckResult::Win;
        }
        if self.is_full() {
            return CheckResult::Tie;
        }
        CheckResult::Continue
    }

    /// The automated opponent's move: marks one open cell, chosen at random,
    /// with `O`. With no round in progress, or with every cell already taken,
    /// nothing changes. An occupied cell is never overwritten.
    pub fn pick_cpu(&mut self)
        requires
            old(self).well_formed(),
        ensures
            final(self).well_formed(),
            final(self).scores() == old(self).scores(),
            (match old(self).board() {
                None => final(self).board() == old(self).board(),
                Some(b) => if full(b) {
                    final(self).board() == old(self).board()
                } else {
                    exists|i: int|
                        0 <= i < 9 && b[i] == State::Empty && final(self).board() == Some(
                            b.update(i, State::O),
                        )
                },
            }),
    {
        let mut empties: Vec<usize> = Vec::new();
        match &self.moves_map {
            Some(m) => {
                let mut i: usize = 0;
                while i < 9
                    invariant
                        i <= 9,
                        m@.len() == 9,
                        self.board() == Some(m@),
                        forall|k: int|
                            0 <= k < empties@.len() ==> #[trigger] empties@[k] < 9 && m@[empties@[k]
                                as int] == State::Empty,
                        forall|j: int|
                            0 <= j < i && m@[j] == State::Empty ==> empties@.contains(j as usize),
                    decreases 9 - i,
                {
                    if m[i] == State::Empty {
                        let ghost oe = empties@;
                        empties.push(i);
                        proof {
                            assert forall|j: int|
                                0 <= j < i + 1 && m@[j] == State::Empty implies empties@.contains(
                                j as usize,
                            ) by {
                                if j == i as int {
                                    assert(empties@[empties@.len() - 1] == i);
                                } else {
                                    assert(oe.contains(j as usize));
                                    let k = choose|k: int|
                                        0 <= k < oe.len() && oe[k] == j as usize;
                                    assert(empties@[k] == j as usize);
                                }
                            }
                        }
                    }
                    i += 1;
                }
            },
            None => {
                return;
            },
        }
        if empties.len() == 0 {
            return;
        }
        let k = random_index(empties.len());
        let idx = empties[k];
        match &mut self.moves_map {
            Some(m) => {
                m.set(idx, State::O);
            },
            None => {},
        }
    }

    /// Bumps exactly one score counter by one: the tie count for `turn` 0,
    /// the human's for `turn` 1, the opponent's for `turn` 2. Any other
    /// `turn` changes nothing, and the board is never touched.
    pub fn increase_score(&mut self, turn: u8)
        requires
            turn == 0 ==> old(self).scores().tie < u16::MAX,
            turn == 1 ==> old(self).scores().player < u16::MAX,
            turn == 2 ==> old(self).scores().cpu < u16::MAX,
        ensures
            final(self).board() == old(self).board(),
            final(self).well_formed() == old(self).well_formed(),
            turn == 0 ==> final(self).scores() == (Score {
                tie: (old(self).scores().tie + 1) as u16,
                ..old(self).scores()
            }),
            turn == 1 ==> final(self).scores() == (Score {
                player: (old(self).scores().player + 1) as u16,
                ..old(self).scores()
            }),
            turn == 2 ==> final(self).scores() == (Score {
                cpu: (old(self).scores().cpu + 1) as u16,
                ..old(self).scores()
            }),
            turn > 2 ==> final(self).scores() == old(self).scores(),
    {
        match turn {
            0 => self.score.tie = self.score.tie + 1,
            1 => self.score.player = self.score.player + 1,
            2 => self.score.cpu = self.score.cpu + 1,
            _ => (),
        }
    }

    /// Settles one evaluation: a `Win` or a `Tie` bumps the matching score
    /// counter by one and starts the next round; `Continue` changes nothing.
    /// The answer says whether the round ended.
    pub fn apply_outcome(&mut self, result: CheckResult, side: State) -> (ended: bool)
        requires
            old(self).well_formed(),
            result == CheckResult::Win && side == State::X ==> old(self).scores().player
                < u16::MAX,
            result == CheckResult::Win && side == State::O ==> old(self).scores().cpu < u16::MAX,
            result == CheckResult::Win ==> side != State::Empty,
            result == CheckResult::Tie ==> old(self).scores().tie < u16::MAX,
        ensures
            final(self).well_formed(),
            ended == (result != CheckResult::Continue),
            result == CheckResult::Continue ==> *final(self) == *old(self),
            result != CheckResult::Continue ==> final(self).board() == Some(empty_board()),
            result == CheckResult::Win && side == State::X ==> final(self).scores() == (Score {
                player: (old(self).scores().player + 1) as u16,
                ..old(self).scores()
            }),
            result == CheckResult::Win && side == State::O ==> final(self).scores() == (Score {
                cpu: (old(self).scores().cpu + 1) as u16,
                ..old(self).scores()
            }),
            result == CheckResult::Tie ==> final(self).scores() == (Score {
                tie: (old(self).scores().tie + 1) as u16,
                ..old(self).scores()
            }),
    {
        match result {
            CheckResult::Win => {
                if matches!(side, State::X) {
                    self.increase_score(1);
                } else {
                    self.increase_score(2);
                }
                self.reset();
                true
            },
            CheckResult::Tie => {
                self.increase_score(0);
                self.reset();
                true
            },
            CheckResult::Continue => false,
        }
    }

    /// A read-only view for rendering: a copy of the board, if a round is in
    /// progress, together with the score tally.
    pub fn snapshot(&self) -> (r: (Option<Vec<State>>, Score))
        requires
            self.well_formed(),
        ensures
            (match r.0 {
                Some(v) => self.board() == Some(v@),
                None => self.board() is None,
            }),
            r.1 == self.scores(),
    {
        match &self.moves_map {
            Some(m) => {
                let mut v: Vec<State> = Vec::new();
                let mut i: usize = 0;
                while i < 9
                    invariant
                        i <= 9,
                        m@.len() == 9,
                        v@.len() == i,
                        self.board() == Some(m@),
                        forall|j: int| 0 <= j < i ==> v@[j] == m@[j],
                    decreases 9 - i,
                {
                    v.push(m[i]);
                    i += 1;
                }
                proof {
                    assert(v@ =~= m@);
                }
                (Some(v), self.score)
            },
            None => (None, self.score),
        }
    }
}

/// Relies on rand's `thread_rng` and `Rng::gen_range`: on a non-empty
/// half-open range starting at zero, the sample lies below the bound.
#[verifier::external_body]
fn random_index(n: usize) -> (r: usize)
    requires
        n > 0,
    ensures
        r < n,
{
    rand::thread_rng().gen_range(0..n)
}

} // verus!
