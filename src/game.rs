//! A game session: the board, the move counter, the play clock and the
//! state machine that events drive.

use crate::board::{
    after_move, blank_index, is_board, is_first_blank, is_legal_move, is_move_key, is_solved, shuffle, solvable,
    swap_cells, target_cell,
};
use std::time::Instant;
use vstd::prelude::*;

verus! {

#[verifier::external_type_specification]
#[verifier::external_body]
pub struct ExInstant(Instant);

/// Relies on `Instant::now`: a reading of the monotonic clock.
#[verifier::external_body]
fn clock_start() -> (r: Instant) {
    Instant::now()
}

/// Relies on `Instant::elapsed`: whole seconds since `start` was read.
#[verifier::external_body]
fn secs_since(start: &Instant) -> (r: u64) {
    start.elapsed().as_secs()
}

/// The states of a game. `EXIT` is final.
#[allow(non_camel_case_types)]
#[derive(Clone, Copy, PartialEq, Eq, Debug, Structural)]
pub enum GameState {
    STARTED,
    PLAYING,
    PAUSED,
    FINISHED,
    EXIT,
}

/// One game session.
pub struct GameInfo {
    /// The cells in reading order; 0 is the blank.
    pub numbers: [u16; 16],
    /// Tiles moved since the board was dealt.
    pub moves: u32,
    /// Seconds played before the current stretch of play began.
    pub seconds: u64,
    pub game_state: GameState,
    /// Reading of the session clock, in seconds, when the current stretch of play began.
    pub start_time: u64,
    /// Origin of the session clock.
    pub clock: Instant,
}

/// Key that pauses a game in play, and resumes it.
pub const PAUSE_KEY: char = 'p';

/// Key that deals a new board once a game is finished.
pub const RESTART_KEY: char = 'r';

/// Key that ends the session.
pub const QUIT_KEY: char = 'q';

/// The transition table. While playing, the pause key wins over a solved board.
pub open spec fn next_state(state: GameState, ch: char, solved: bool) -> GameState {
    match state {
        GameState::STARTED => if is_move_key(ch) {
            GameState::PLAYING
        } else {
            GameState::STARTED
        },
        GameState::PLAYING => if ch == PAUSE_KEY {
            GameState::PAUSED
        } else if solved {
            GameState::FINISHED
        } else {
            GameState::PLAYING
        },
        GameState::PAUSED => GameState::PLAYING,
        GameState::FINISHED => if ch == RESTART_KEY {
            GameState::STARTED
        } else {
            GameState::FINISHED
        },
        GameState::EXIT => GameState::EXIT,
    }
}

/// Seconds from clock reading `from` to clock reading `to`; none if the clock went back.
pub open spec fn interval(from: u64, to: u64) -> int {
    if to >= from {
        to - from
    } else {
        0
    }
}

/// `seconds` plus the interval, held at `u64::MAX`.
pub open spec fn accrued(seconds: u64, from: u64, to: u64) -> u64 {
    if seconds + interval(from, to) <= u64::MAX {
        (seconds + interval(from, to)) as u64
    } else {
        u64::MAX
    }
}

/// Seconds played, as the session clock reads `now`: the time only runs while playing.
pub open spec fn elapsed(g: GameInfo, now: u64) -> u64 {
    if g.game_state == GameState::PLAYING {
        accrued(g.seconds, g.start_time, now)
    } else {
        g.seconds
    }
}

/// Key `ch` in state `state` deals a new board.
pub open spec fn restarts(state: GameState, ch: char) -> bool {
    state == GameState::FINISHED && ch == RESTART_KEY
}

/// The session after an event: key `ch`, where `key_moved` tells whether it
/// moved a tile, seen when the session clock reads `now`; `fresh` is the board
/// dealt if the event restarts the game.
pub open spec fn advanced(g: GameInfo, key_moved: bool, ch: char, now: u64, fresh: [u16; 16]) -> GameInfo {
    let next = next_state(g.game_state, ch, is_solved(g.numbers@));
    if g.game_state == GameState::EXIT {
        g
    } else if restarts(g.game_state, ch) {
        GameInfo { numbers: fresh, moves: 0, seconds: 0, game_state: next, ..g }
    } else {
        GameInfo {
            moves: if key_moved && g.game_state != GameState::FINISHED {
                (g.moves + 1) as u32
            } else {
                g.moves
            },
            seconds: if g.game_state == GameState::PLAYING && next != GameState::PLAYING {
                accrued(g.seconds, g.start_time, now)
            } else {
                g.seconds
            },
            start_time: if g.game_state != GameState::PLAYING && next == GameState::PLAYING {
                now
            } else {
                g.start_time
            },
            game_state: next,
            ..g
        }
    }
}

/// `a` and `b` differ at most in their boards.
pub open spec fn same_but_board(a: GameInfo, b: GameInfo) -> bool {
    &&& a.moves == b.moves
    &&& a.seconds == b.seconds
    &&& a.game_state == b.game_state
    &&& a.start_time == b.start_time
    &&& a.clock == b.clock
}


impl Default for GameInfo {
    /// A fresh session: a shuffled board that meets the parity rule, nothing
    /// moved, no time played.
    fn default() -> (r: Self)
        ensures
            is_board(r.numbers@),
            solvable(r.numbers@),
            r.moves == 0,
            r.seconds == 0,
            r.game_state == GameState::STARTED,
            r.start_time == 0,
    {
        GameInfo {
            numbers: shuffle(),
            moves: 0,
            seconds: 0,
            game_state: GameState::STARTED,
            start_time: 0,
            clock: clock_start(),
        }
    }
}

impl GameInfo {
    /// A fresh session, as `default` makes it.
    pub fn new() -> (r: Self)
        ensures
            is_board(r.numbers@),
            solvable(r.numbers@),
            r.moves == 0,
            r.seconds == 0,
            r.game_state == GameState::STARTED,
            r.start_time == 0,
    {
        Self::default()
    }

    /// Deals a new shuffled board when `event` is `STARTED`; otherwise leaves
    /// the session as it is.
    pub fn generate_puzzle(&mut self, event: GameState)
        ensures
            same_but_board(*final(self), *old(self)),
            event == GameState::STARTED ==> is_board(final(self).numbers@) && solvable(
                final(self).numbers@,
            ),
            event != GameState::STARTED ==> final(self).numbers == old(self).numbers,
    {
        if event == GameState::STARTED {
            self.numbers = shuffle();
        }
    }

    /// Exchanges the tiles of two cells.
    fn swap(&mut self, in1: u16, in2: u16)
        requires
            in1 < 16,
            in2 < 16,
        ensures
            same_but_board(*final(self), *old(self)),
            final(self).numbers@ == swap_cells(old(self).numbers@, in1 as int, in2 as int),
    {
        let index1 = in1 as usize;
        let index2 = in2 as usize;
        let temp = self.numbers[index1];
        self.numbers[index1] = self.numbers[index2];
        self.numbers[index2] = temp;
        assert(self.numbers@ =~= swap_cells(old(self).numbers@, in1 as int, in2 as int));
    }

    /// The cell of the first blank, or 0 where the board holds none.
    pub fn find_empty(&self) -> (r: u16)
        ensures
            r == blank_index(self.numbers@),
            r < 16,
    {
        let mut i: usize = 0;
        while i < 16
            invariant
                i <= 16,
                forall|k: int| 0 <= k < i ==> self.numbers@[k] != 0,
            decreases 16 - i,
        {
            if self.numbers[i] == 0 {
                assert(is_first_blank(self.numbers@, i as int));
                let ghost j = choose|j: int| is_first_blank(self.numbers@, j);
                assert(j == i);
                return i as u16;
            }
            i = i + 1;
        }
        assert(!exists|j: int| is_first_blank(self.numbers@, j));
        0
    }

    /// Moves the blank on key `ch` (`w` up, `a` left, `s` down, `d` right),
    /// trading places with the neighbouring tile. Returns whether it moved;
    /// a key that would leave the grid, or any other key, changes nothing.
    pub fn move_key(&mut self, ch: char) -> (r: bool)
        ensures
            r == is_legal_move(old(self).numbers@, ch),
            final(self).numbers@ == after_move(old(self).numbers@, ch),
            same_but_board(*final(self), *old(self)),
    {
        let empty = self.find_empty();
        let zero_row = empty / 4;
        let zero_col = empty % 4;
        let ghost e = empty as int;
        assert(target_cell(e, ch) == target_cell(blank_index(self.numbers@), ch));
        if ch == 'w' && zero_row > 0 {
            self.swap(empty, empty - 4);
            true
        } else if ch == 'a' && zero_col > 0 {
            self.swap(empty, empty - 1);
            true
        } else if ch == 's' && zero_row < 3 {
            self.swap(empty, empty + 4);
            true
        } else if ch == 'd' && zero_col < 3 {
            self.swap(empty, empty + 1);
            true
        } else {
            false
        }
    }

    /// Whether `arr` is the solved board: 1 to 15 in reading order, then the blank.
    pub fn check_win(&self, arr: [u16; 16]) -> (r: bool)
        ensures
            r == is_solved(arr@),
    {
        let mut i: usize = 0;
        while i < 15
            invariant
                i <= 15,
                forall|k: int| 0 <= k < i ==> #[trigger] arr@[k] == k + 1,
            decreases 15 - i,
        {
            if arr[i] != (i + 1) as u16 {
                return false;
            }
            i = i + 1;
        }
        arr[15] == 0
    }

    /// One event of the state machine, with the clock read and the board to
    /// deal given: key `ch`, where `key_moved` tells whether it moved a tile,
    /// when the session clock reads `now`; `fresh` is dealt on a restart.
    /// A move counts unless the game is finished; an exited session stays as it is.
    pub fn advance(&mut self, key_moved: bool, ch: char, now: u64, fresh: [u16; 16])
        requires
            key_moved && old(self).game_state != GameState::FINISHED ==> old(self).moves
                < u32::MAX,
        ensures
            *final(self) == advanced(*old(self), key_moved, ch, now, fresh),
    {
        let state = self.game_state;
        if state == GameState::EXIT {
            return ;
        }
        let is_done = self.check_win(self.numbers);
        let next = match state {
            GameState::STARTED => if ch == 'w' || ch == 'a' || ch == 's' || ch == 'd' {
                GameState::PLAYING
            } else {
                GameState::STARTED
            },
            GameState::PLAYING => if ch == PAUSE_KEY {
                GameState::PAUSED
            } else if is_done {
                GameState::FINISHED
            } else {
                GameState::PLAYING
            },
            GameState::PAUSED => GameState::PLAYING,
            GameState::FINISHED => if ch == RESTART_KEY {
                GameState::STARTED
            } else {
                GameState::FINISHED
            },
            GameState::EXIT => GameState::EXIT,
        };
        if state == GameState::FINISHED && ch == RESTART_KEY {
            self.numbers = fresh;
            self.moves = 0;
            self.seconds = 0;
            self.game_state = next;
            return ;
        }
        if key_moved && state != GameState::FINISHED {
            self.moves = self.moves + 1;
        }
        if state == GameState::PLAYING && next != GameState::PLAYING {
            let played = if now >= self.start_time {
                now - self.start_time
            } else {
                0
            };
            self.seconds = if self.seconds <= u64::MAX - played {
                self.seconds + played
            } else {
                u64::MAX
            };
        }
        if state != GameState::PLAYING && next == GameState::PLAYING {
            self.start_time = now;
        }
        self.game_state = next;
    }

    /// One event, read against the session clock: as `advance`, with a new
    /// shuffled board dealt on a restart.
    pub fn handle_game_change(&mut self, key_moved: bool, ch: char)
        requires
            key_moved && old(self).game_state != GameState::FINISHED ==> old(self).moves
                < u32::MAX,
        ensures
            exists|now: u64|
                *final(self) == #[trigger] advanced(
                    *old(self),
                    key_moved,
                    ch,
                    now,
                    final(self).numbers,
                ),
            restarts(old(self).game_state, ch) ==> is_board(final(self).numbers@) && solvable(
                final(self).numbers@,
            ),
    {
        let now = secs_since(&self.clock);
        let mut fresh = self.numbers;
        if self.game_state == GameState::FINISHED && ch == RESTART_KEY {
            fresh = shuffle();
        }
        self.advance(key_moved, ch, now, fresh);
        assert(*self == advanced(*old(self), key_moved, ch, now, self.numbers));
    }

    /// One key pressed: the quit key ends the session; any other key moves
    /// the blank where it can and then drives the state machine. An exited
    /// session ignores every key.
    pub fn handle_key(&mut self, ch: char)
        requires
            ch != QUIT_KEY ==> old(self).moves < u32::MAX,
        ensures
            old(self).game_state == GameState::EXIT ==> *final(self) == *old(self),
            old(self).game_state != GameState::EXIT && ch == QUIT_KEY ==> *final(self) == (
            GameInfo { game_state: GameState::EXIT, ..*old(self) }),
            old(self).game_state != GameState::EXIT && ch != QUIT_KEY ==> exists|
                mid: GameInfo,
                now: u64,
            |
                {
                    &&& mid.numbers@ == after_move(old(self).numbers@, ch)
                    &&& same_but_board(mid, *old(self))
                    &&& *final(self) == #[trigger] advanced(
                        mid,
                        is_legal_move(old(self).numbers@, ch),
                        ch,
                        now,
                        final(self).numbers,
                    )
                },
    {
        if self.game_state == GameState::EXIT {
            return ;
        }
        if ch == QUIT_KEY {
            self.exit();
            return ;
        }
        let moved = self.move_key(ch);
        let ghost mid = *self;
        self.handle_game_change(moved, ch);
        assert(mid.numbers@ == after_move(old(self).numbers@, ch));
    }

    /// Ends the session, whatever its state.
    pub fn exit(&mut self)
        ensures
            *final(self) == (GameInfo { game_state: GameState::EXIT, ..*old(self) }),
    {
        self.game_state = GameState::EXIT;
    }

    /// Seconds played when the session clock reads `now`.
    pub fn elapsed_at(&self, now: u64) -> (r: u64)
        ensures
            r == elapsed(*self, now),
    {
        if self.game_state == GameState::PLAYING {
            let played = if now >= self.start_time {
                now - self.start_time
            } else {
                0
            };
            if self.seconds <= u64::MAX - played {
                self.seconds + played
            } else {
                u64::MAX
            }
        } else {
            self.seconds
        }
    }

    /// Seconds played so far, read against the session clock; out of play
    /// the count stands still.
    pub fn tick(&self) -> (r: u64)
        ensures
            exists|now: u64| r == #[trigger] elapsed(*self, now),
            self.game_state != GameState::PLAYING ==> r == self.seconds,
    {
        let now = secs_since(&self.clock);
        self.elapsed_at(now)
    }
}


/// From `STARTED` a move key starts play and any other key keeps the game
/// waiting; in play the pause key pauses, and otherwise a solved board
/// finishes the game; from `FINISHED` only the restart key leads back to
/// `STARTED`, which deals `fresh` and sets moves and time to zero.
pub proof fn lemma_state_table(g: GameInfo, key_moved: bool, ch: char, now: u64, fresh: [u16; 16])
    ensures
        g.game_state == GameState::STARTED ==> advanced(g, key_moved, ch, now, fresh).game_state
            == (if is_move_key(ch) {
            GameState::PLAYING
        } else {
            GameState::STARTED
        }),
        g.game_state == GameState::PLAYING && ch == PAUSE_KEY ==> advanced(
            g,
            key_moved,
            ch,
            now,
            fresh,
        ).game_state == GameState::PAUSED,
        g.game_state == GameState::PLAYING && ch != PAUSE_KEY && is_solved(g.numbers@)
            ==> advanced(g, key_moved, ch, now, fresh).game_state == GameState::FINISHED,
        g.game_state == GameState::FINISHED ==> (advanced(g, key_moved, ch, now, fresh).game_state
            == GameState::STARTED <==> ch == RESTART_KEY),
        g.game_state == GameState::FINISHED && ch != RESTART_KEY ==> advanced(
            g,
            key_moved,
            ch,
            now,
            fresh,
        ).game_state == GameState::FINISHED,
        restarts(g.game_state, ch) ==> advanced(g, key_moved, ch, now, fresh).numbers == fresh
            && advanced(g, key_moved, ch, now, fresh).moves == 0 && advanced(
            g,
            key_moved,
            ch,
            now,
            fresh,
        ).seconds == 0,
{
}

/// A move counts once, unless the game is finished, exited, or restarting;
/// an event that moved nothing leaves the count as it was.
pub proof fn lemma_move_count(g: GameInfo, key_moved: bool, ch: char, now: u64, fresh: [u16; 16])
    requires
        g.moves < u32::MAX,
        g.game_state != GameState::EXIT,
        !restarts(g.game_state, ch),
    ensures
        advanced(g, key_moved, ch, now, fresh).moves == (if key_moved && g.game_state
            != GameState::FINISHED {
            g.moves + 1
        } else {
            g.moves as int
        }),
{
}

/// Once exited, a session stays exactly as it is, whatever event comes.
pub proof fn lemma_exit_is_final(g: GameInfo, key_moved: bool, ch: char, now: u64, fresh: [u16; 16])
    requires
        g.game_state == GameState::EXIT,
    ensures
        advanced(g, key_moved, ch, now, fresh) == g,
{
}

} // verus!
