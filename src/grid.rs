use crate::input::push_char;
use vstd::prelude::*;

verus! {

/// The character that marks a slot nobody has played on.
pub const EMPTY: char = '_';

/// Row and column of the slot numbered `mapping` (1 to 9, row by row from
/// the top left).
pub open spec fn indexes_of(mapping: int) -> (int, int) {
    ((mapping - 1) / 3, (mapping - 1) % 3)
}

/// The slot number of row `r`, column `c`.
pub open spec fn slot_of(r: int, c: int) -> int {
    3 * r + c + 1
}

/// Converts a slot number (1 to 9) to its `[row, column]` in the matrix.
pub fn grid_mapping_to_indexes(mapping: usize) -> (r: [usize; 2])
    requires
        1 <= mapping <= 9,
    ensures
        r@[0] as int == indexes_of(mapping as int).0,
        r@[1] as int == indexes_of(mapping as int).1,
        r@[0] < 3,
        r@[1] < 3,
{
    let m: usize = mapping - 1;
    [m / 3, m % 3]
}

/// Message for a slot number outside 1 to 9.
pub const OUT_OF_RANGE_MSG: &'static str = "That number is not one of the valid cell numbers.";

/// Message for a slot that already holds a mark.
pub const SLOT_FULL_MSG: &'static str = "The slot is full!";

/// Message for a tie.
pub const TIE_MSG: &'static str = "The game is a tie!";

/// Number of turns after which a board with no line is a tie. The turn
/// count starts at zero, so this allows nine moves for nine slots.
pub const MAX_TURNS: u32 = 8;

/// The state of a game, as read off the grid.
#[derive(Debug, Clone, Copy, PartialEq, Eq, Structural)]
pub enum GameStates {
    /// Someone has three in a row; the character is their mark.
    Win(char),
    /// No line, and no turns left.
    Tie,
    /// No line yet, and turns left.
    StillPlaying,
}

/// What `valid_plot` answers for slot `num` on the slots `b`.
pub open spec fn plot_check(b: Seq<char>, num: usize) -> Result<usize, &'static str> {
    if 1 <= num <= 9 {
        if b[num - 1] == EMPTY {
            Ok(num)
        } else {
            Err(SLOT_FULL_MSG)
        }
    } else {
        Err(OUT_OF_RANGE_MSG)
    }
}

/// The number of slots in `b` that hold a mark.
pub open spec fn filled(b: Seq<char>) -> nat
    decreases b.len(),
{
    if b.len() == 0 {
        0
    } else if b.last() != EMPTY {
        filled(b.drop_last()) + 1
    } else {
        filled(b.drop_last())
    }
}

/// The slots at indexes `a`, `m` and `z` hold one mark, which is not empty.
pub open spec fn line_won(b: Seq<char>, a: int, m: int, z: int) -> bool {
    b[a] == b[m] && b[m] == b[z] && b[m] != EMPTY
}

/// The first winning line among rows and columns `i` to 2, taken in the
/// order row `i`, column `i`, row `i + 1`, ...; with the mark on it.
pub open spec fn straight_winner(b: Seq<char>, i: int) -> Option<char>
    decreases 3 - i,
{
    if i >= 3 {
        None
    } else if line_won(b, 3 * i, 3 * i + 1, 3 * i + 2) {
        Some(b[3 * i + 1])
    } else if line_won(b, i, 3 + i, 6 + i) {
        Some(b[3 + i])
    } else {
        straight_winner(b, i + 1)
    }
}

/// The state of a game on slots `b` after `turns` counted turns: the first
/// winning line (rows and columns, then the two diagonals) decides; without
/// one it is a tie once `turns` reaches `MAX_TURNS`.
pub open spec fn winner_of(b: Seq<char>, turns: u32) -> GameStates {
    match straight_winner(b, 0) {
        Some(c) => GameStates::Win(c),
        None => if line_won(b, 0, 4, 8) || line_won(b, 6, 4, 2) {
            GameStates::Win(b[4])
        } else if turns < MAX_TURNS {
            GameStates::StillPlaying
        } else {
            GameStates::Tie
        },
    }
}

/// The mark of whoever plays after `count` counted turns.
pub open spec fn mark_for(count: u32) -> char {
    if count % 2 == 0 {
        'X'
    } else {
        'O'
    }
}

/// The current player's mark: `'X'` when `count` is even, `'O'` when odd.
pub fn turn(count: u32) -> (r: char)
    ensures
        r == mark_for(count),
{
    if count % 2 == 0 {
        'X'
    } else {
        'O'
    }
}

/// The end-of-game message for state `s`, which is not `StillPlaying`.
pub open spec fn win_msg_of(s: GameStates) -> Seq<char> {
    match s {
        GameStates::Win(c) => seq![c] + " wins!"@,
        _ => TIE_MSG@,
    }
}

impl GameStates {
    /// The message that announces the end of a game.
    pub fn win_msg(&self) -> (r: String)
        requires
            !(self is StillPlaying),
        ensures
            r@ == win_msg_of(*self),
    {
        match self {
            GameStates::Win(c) => {
                let mut s = String::new();
                push_char(&mut s, *c);
                s.append(" wins!");
                s
            },
            _ => String::from_str(TIE_MSG),
        }
    }
}

/// Slot numbers and matrix indexes are in one-to-one correspondence: each
/// slot 1 to 9 has a row and a column in 0 to 2, no two slots share them,
/// and every row and column pair belongs to some slot.
pub proof fn lemma_grid_mapping_bijective()
    ensures
        forall|p: int|
            1 <= p <= 9 ==> 0 <= #[trigger] indexes_of(p).0 < 3 && 0 <= indexes_of(p).1 < 3,
        forall|p: int, q: int|
            1 <= p <= 9 && 1 <= q <= 9 && #[trigger] indexes_of(p) == #[trigger] indexes_of(q)
                ==> p == q,
        forall|r: int, c: int|
            0 <= r < 3 && 0 <= c < 3 ==> 1 <= #[trigger] slot_of(r, c) <= 9 && indexes_of(
                slot_of(r, c),
            ) == (r, c),
{
}

/// Reading the state of a game twice off unchanged slots gives the same
/// answer: it depends on the slots and the turn count alone.
pub proof fn lemma_get_winner_stable(a: Grid, b: Grid, turns: u32)
    requires
        a@ == b@,
    ensures
        winner_of(a@, turns) == winner_of(b@, turns),
{
}

/// Marks alternate from one counted turn to the next, starting with `'X'`.
pub proof fn lemma_marks_alternate(count: u32)
    requires
        count < MAX_TURNS,
    ensures
        mark_for(0) == 'X',
        mark_for(count) == 'X' ==> mark_for((count + 1) as u32) == 'O',
        mark_for(count) == 'O' ==> mark_for((count + 1) as u32) == 'X',
        mark_for(count) == 'X' || mark_for(count) == 'O',
{
}

/// A 3x3 matrix of characters.
#[derive(Debug, Clone, Copy)]
pub struct Grid {
    grid: [[char; 3]; 3],
}

impl View for Grid {
    type V = Seq<char>;

    /// The nine slots, row by row: slot number `p` is at index `p - 1`.
    closed spec fn view(&self) -> Seq<char> {
        Seq::new(9, |i: int| self.grid@[i / 3]@[i % 3])
    }
}

impl Grid {
    /// A grid whose slots are all empty.
    pub fn empty() -> (r: Self)
        ensures
            r@ == Seq::new(9, |i: int| EMPTY),
    {
        let r = Self { grid: [[EMPTY; 3]; 3] };
        assert(r@ =~= Seq::new(9, |i: int| EMPTY));
        r
    }

    /// A grid whose slots are all empty, or, with `gen`, whose slot at index
    /// `i` (0 to 8, row by row) holds `gen(i)`.
    pub fn new<F: Fn(usize) -> char>(gen: Option<F>) -> (r: Self)
        requires
            gen matches Some(f) ==> forall|i: usize| i < 9 ==> call_requires(f, (i,)),
        ensures
            gen is None ==> r@ == Seq::new(9, |i: int| EMPTY),
            gen matches Some(f) ==> forall|i: usize|
                i < 9 ==> call_ensures(f, (i,), #[trigger] r@[i as int]),
            r@.len() == 9,
    {
        let mut grid: [[char; 3]; 3] = Self::empty().grid;
        if let Some(gf) = gen {
            let mut g_r: usize = 0;
            while g_r < 3
                invariant
                    g_r <= 3,
                    forall|i: usize| i < 9 ==> call_requires(gf, (i,)),
                    forall|i: usize|
                        i < 3 * g_r ==> call_ensures(gf, (i,), #[trigger] Self { grid }@[i as int]),
                decreases 3 - g_r,
            {
                let mut c: usize = 0;
                while c < 3
                    invariant
                        g_r < 3,
                        c <= 3,
                        forall|i: usize| i < 9 ==> call_requires(gf, (i,)),
                        forall|i: usize|
                            i < 3 * g_r + c ==> call_ensures(gf, (i,), #[trigger] Self { grid }@[i as int]),
                    decreases 3 - c,
                {
                    let v = gf(3 * g_r + c);
                    let ghost before = Self { grid }@;
                    grid[g_r][c] = v;
                    assert(Self { grid }@ =~= before.update(3 * g_r + c, v));
                    c = c + 1;
                }
                g_r = g_r + 1;
            }
        }
        Self { grid }
    }

    fn at_indexes(&self, x: usize, y: usize) -> (r: char)
        requires
            x < 3,
            y < 3,
        ensures
            r == self@[3 * x + y],
    {
        self.grid[x][y]
    }

    fn plot_at_indexes(&mut self, x: usize, y: usize, c: char) -> (r: char)
        requires
            x < 3,
            y < 3,
        ensures
            r == old(self)@[3 * x + y],
            final(self)@ == old(self)@.update(3 * x + y, c),
    {
        let old_c = self.grid[x][y];
        self.grid[x][y] = c;
        assert(self@ =~= old(self)@.update(3 * x + y, c));
        old_c
    }

    /// The character in slot `plotting` (1 to 9).
    pub fn at(&self, plotting: usize) -> (r: char)
        requires
            1 <= plotting <= 9,
        ensures
            r == self@[plotting - 1],
    {
        let mapped: [usize; 2] = grid_mapping_to_indexes(plotting);
        self.at_indexes(mapped[0], mapped[1])
    }

    /// Puts `c` in slot `plotting` (1 to 9) and returns what was there.
    pub fn plot(&mut self, plotting: usize, c: char) -> (r: char)
        requires
            1 <= plotting <= 9,
        ensures
            r == old(self)@[plotting - 1],
            final(self)@ == old(self)@.update(plotting - 1, c),
    {
        let mapped: [usize; 2] = grid_mapping_to_indexes(plotting);
        self.plot_at_indexes(mapped[0], mapped[1], c)
    }

    /// Whether slot `num` can be played: it must be in 1 to 9 and empty.
    pub fn valid_plot(&self, num: usize) -> (r: Result<usize, &'static str>)
        ensures
            r == plot_check(self@, num),
    {
        if 1 <= num && num <= 9 {
            if self.at(num) == EMPTY {
                Ok(num)
            } else {
                Err(SLOT_FULL_MSG)
            }
        } else {
            Err(OUT_OF_RANGE_MSG)
        }
    }

    /// The state of the game after `turns` counted turns.
    pub fn get_winner(&self, turns: u32) -> (r: GameStates)
        ensures
            r == winner_of(self@, turns),
    {
        let ghost b = self@;
        let mut i: usize = 0;
        while i < 3
            invariant
                i <= 3,
                b == self@,
                straight_winner(b, 0) == straight_winner(b, i as int),
            decreases 3 - i,
        {
            if self.grid[i][0] == self.grid[i][1] && self.grid[i][1] == self.grid[i][2]
                && self.grid[i][1] != EMPTY {
                return GameStates::Win(self.grid[i][1]);
            }
            if self.grid[0][i] == self.grid[1][i] && self.grid[1][i] == self.grid[2][i]
                && self.grid[1][i] != EMPTY {
                return GameStates::Win(self.grid[1][i]);
            }
            i = i + 1;
        }
        if self.grid[1][1] != EMPTY {
            if self.grid[0][0] == self.grid[1][1] && self.grid[1][1] == self.grid[2][2] {
                return GameStates::Win(self.grid[1][1]);
            }
            if self.grid[2][0] == self.grid[1][1] && self.grid[1][1] == self.grid[0][2] {
                return GameStates::Win(self.grid[1][1]);
            }
        }
        if turns < MAX_TURNS {
            GameStates::StillPlaying
        } else {
            GameStates::Tie
        }
    }
}

} // verus!
