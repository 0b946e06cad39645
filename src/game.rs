use crate::grid::{filled, mark_for, plot_check, turn, winner_of, GameStates, Grid, EMPTY, MAX_TURNS};
use crate::input::{placement_of, read_placement};
use vstd::prelude::*;

verus! {

/// What one step of a game came to.
#[derive(Debug, Clone, Copy)]
pub enum StepOutcome {
    /// The move was refused, for the reason given; nothing changed and the
    /// same player moves again.
    Voided(&'static str),
    /// The move was played and the game goes on with the other player.
    Continue,
    /// The move was played and ended the game in this state.
    Over(GameStates),
}

impl StepOutcome {
    /// Whether the game is over.
    pub fn is_over(&self) -> (r: bool)
        ensures
            r == (*self is Over),
    {
        match self {
            StepOutcome::Over(_) => true,
            _ => false,
        }
    }
}

/// A game of tic-tac-toe: a grid and the number of turns counted so far,
/// which also tells whose turn it is.
#[derive(Debug)]
pub struct Game {
    grid: Grid,
    pub count: u32,
}

/// No slot of an all-empty row of `n` slots holds a mark.
proof fn lemma_filled_empty(n: nat)
    ensures
        filled(Seq::new(n, |i: int| EMPTY)) == 0,
    decreases n,
{
    if n > 0 {
        assert(Seq::new(n, |i: int| EMPTY).drop_last() =~= Seq::new((n - 1) as nat, |i: int| EMPTY));
        lemma_filled_empty((n - 1) as nat);
    }
}

/// Putting a mark in an empty slot adds one to the number of marks.
proof fn lemma_filled_update(b: Seq<char>, i: int, c: char)
    requires
        0 <= i < b.len(),
        b[i] == EMPTY,
        c != EMPTY,
    ensures
        filled(b.update(i, c)) == filled(b) + 1,
    decreases b.len(),
{
    if i == b.len() - 1 {
        assert(b.update(i, c).drop_last() =~= b.drop_last());
    } else {
        assert(b.update(i, c).drop_last() =~= b.drop_last().update(i, c));
        lemma_filled_update(b.drop_last(), i, c);
    }
}

/// While a game goes on, the grid holds as many marks as turns were counted:
/// a new game has none of either, and a move that does not end the game
/// adds one mark and counts one turn, never going past `MAX_TURNS`.
pub proof fn lemma_marks_match_turns(b: Seq<char>, count: u32, num: usize)
    requires
        b.len() == 9,
        filled(b) == count,
        plot_check(b, num) is Ok,
        winner_of(b.update(num - 1, mark_for(count)), count) is StillPlaying,
    ensures
        filled(Seq::new(9, |i: int| EMPTY)) == 0,
        filled(b.update(num - 1, mark_for(count))) == count + 1,
        count + 1 <= MAX_TURNS,
{
    lemma_filled_empty(9);
    lemma_filled_update(b, num - 1, mark_for(count));
}

impl Game {
    /// The slots of the game's grid.
    pub closed spec fn board(&self) -> Seq<char> {
        self.grid@
    }

    /// The number of turns counted so far.
    pub closed spec fn turn_count(&self) -> u32 {
        self.count
    }

    /// A game on an empty grid, with no turns counted.
    pub fn new() -> (r: Self)
        ensures
            r.board() == Seq::new(9, |i: int| EMPTY),
            r.turn_count() == 0,
    {
        Self { grid: Grid::empty(), count: 0 }
    }

    /// The game's grid.
    pub fn grid(&self) -> (r: &Grid)
        ensures
            r@ == self.board(),
    {
        &self.grid
    }

    /// Empties the grid and sets the turn count back to zero, so that the
    /// game can be played again.
    pub fn clean_up(&mut self)
        ensures
            final(self).board() == Seq::new(9, |i: int| EMPTY),
            final(self).turn_count() == 0,
    {
        self.grid = Grid::empty();
        self.count = 0;
    }

    /// Adds one to the turn count, up to `MAX_TURNS`.
    fn increment_count(&mut self)
        ensures
            final(self).board() == old(self).board(),
            final(self).turn_count() == if old(self).turn_count() < MAX_TURNS {
                old(self).turn_count() + 1
            } else {
                MAX_TURNS as int
            },
    {
        self.count = if self.count < MAX_TURNS {
            self.count + 1
        } else {
            MAX_TURNS
        };
    }

    /// Reads the state of the game off the grid; while it is still going on,
    /// counts the turn.
    fn check_end(&mut self) -> (r: GameStates)
        ensures
            r == winner_of(old(self).board(), old(self).turn_count()),
            final(self).board() == old(self).board(),
            final(self).turn_count() == if r is StillPlaying {
                old(self).turn_count() + 1
            } else {
                old(self).turn_count() as int
            },
    {
        let state = self.grid.get_winner(self.count);
        if let GameStates::StillPlaying = state {
            self.increment_count();
        }
        state
    }

    /// Puts the current player's mark in slot `num`, which can be played,
    /// and reads the state of the game off the grid; while it is still going
    /// on, counts the turn.
    pub fn play(&mut self, num: usize) -> (r: GameStates)
        requires
            plot_check(old(self).board(), num) is Ok,
        ensures
            final(self).board() == old(self).board().update(num - 1, mark_for(old(self).turn_count())),
            r == winner_of(final(self).board(), old(self).turn_count()),
            final(self).turn_count() == if r is StillPlaying {
                old(self).turn_count() + 1
            } else {
                old(self).turn_count() as int
            },
    {
        let symbol = turn(self.count);
        self.grid.plot(num, symbol);
        self.check_end()
    }

    /// Plays one move, read from the line `input`, for the player whose turn
    /// it is. A line that is not a number, or a slot that is out of range or
    /// full, voids the step and changes nothing. Otherwise the mark goes in
    /// the slot and, unless that ends the game, the turn is counted.
    pub fn step(&mut self, input: &str) -> (r: StepOutcome)
        ensures
            match placement_of(old(self).board(), input@) {
                Err(msg) => r == StepOutcome::Voided(msg) && *final(self) == *old(self),
                Ok(p) => {
                    &&& final(self).board() == old(self).board().update(
                        p - 1,
                        mark_for(old(self).turn_count()),
                    )
                    &&& match winner_of(final(self).board(), old(self).turn_count()) {
                        GameStates::StillPlaying => r == StepOutcome::Continue
                            && final(self).turn_count() == old(self).turn_count() + 1,
                        state => r == StepOutcome::Over(state) && final(self).turn_count()
                            == old(self).turn_count(),
                    }
                },
            },
    {
        let num = match read_placement(&self.grid, input) {
            Ok(n) => n,
            Err(msg) => {
                return StepOutcome::Voided(msg);
            },
        };
        let state = self.play(num);
        match state {
            GameStates::StillPlaying => StepOutcome::Continue,
            _ => StepOutcome::Over(state),
        }
    }
}

} // verus!
