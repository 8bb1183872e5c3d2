//! The move enumerator: candidate moves for the active piece, and the
//! replay of a move on a game.
//!
//! The first candidate, where holding is allowed, holds the piece and does
//! nothing else. Every other candidate turns the piece a number of times,
//! shifts it to a column, and drops it. Turns always come before shifts, so placements that need a
//! shift between two turns are not among the candidates.

use vstd::prelude::*;
use crate::board::{lemma_within_walls, Cell};
use crate::game::{spawn_placement, Game, GameState, GameView};
use crate::randomizer::BagView;
use crate::BOARD_WIDTH;

verus! {

/// A move: what to do with the active piece, in the order hold, clockwise
/// turns, counter-clockwise turns, shifts to the left, shifts to the right,
/// hard drop.
#[derive(Clone, Copy, PartialEq, Eq, Debug, Structural)]
pub struct Move {
    /// Number of shifts to the left.
    pub left_moves: u8,
    /// Number of shifts to the right.
    pub right_moves: u8,
    /// Number of clockwise turns.
    pub clockwise_rotations: u8,
    /// Number of counter-clockwise turns.
    pub counterclockwise_rotations: u8,
    /// Whether to drop the piece at the end.
    pub hard_drop: bool,
    /// Whether to hold the piece first.
    pub hold: bool,
}

impl Move {
    /// Creates a move.
    pub fn new(
        left_moves: u8,
        right_moves: u8,
        clockwise_rotations: u8,
        counterclockwise_rotations: u8,
        hard_drop: bool,
        hold: bool,
    ) -> (created: Move)
        ensures
            created == (Move {
                left_moves,
                right_moves,
                clockwise_rotations,
                counterclockwise_rotations,
                hard_drop,
                hold,
            }),
    {
        Move {
            left_moves,
            right_moves,
            clockwise_rotations,
            counterclockwise_rotations,
            hard_drop,
            hold,
        }
    }
}

/// Number of moves at which the enumeration stops by default.
pub const DEFAULT_MAX_MOVES: usize = 500;

/// Number of turn counts that are tried clockwise: 0 to 3.
pub const CLOCKWISE_TURN_COUNTS: usize = 4;

/// The state after up to `count` quarter turns, and whether all of them
/// were accepted. The turns stop at the first one that is rejected.
pub open spec fn turns(state: GameView, count: nat, clockwise: bool) -> (GameView, bool)
    decreases count,
{
    if count == 0 {
        (state, true)
    } else if state.turn_target(clockwise) is Some {
        turns(state.turned(clockwise), (count - 1) as nat, clockwise)
    } else {
        (state, false)
    }
}

/// The state after up to `count` shifts by one column, to the left if
/// `cols` is -1 and to the right if it is 1, and whether all of them were
/// accepted. The shifts stop at the first one that is rejected.
pub open spec fn shifts(state: GameView, count: nat, cols: int) -> (GameView, bool)
    decreases count,
{
    if count == 0 {
        (state, true)
    } else if state.shift_target(0, cols) is Some {
        shifts(state.moved_sideways(cols), (count - 1) as nat, cols)
    } else {
        (state, false)
    }
}

/// The state after the hold of a move, and whether the replay goes on. A
/// move holds if it asks for it and holding is allowed; `after` is the
/// source after the draw, if the hold draws.
pub open spec fn held(state: GameView, action: Move, after: BagView) -> (GameView, bool) {
    if action.hold && state.can_hold {
        (state.with_hold(after), state.can_hold_now())
    } else {
        (state, true)
    }
}

/// The state after the turns and shifts of a move, and whether all of them
/// were accepted.
pub open spec fn steered(state: GameView, action: Move) -> (GameView, bool) {
    let clockwise = turns(state, action.clockwise_rotations as nat, true);
    let counter = if clockwise.1 {
        turns(clockwise.0, action.counterclockwise_rotations as nat, false)
    } else {
        clockwise
    };
    let left = if counter.1 {
        shifts(counter.0, action.left_moves as nat, -1)
    } else {
        counter
    };
    if left.1 {
        shifts(left.0, action.right_moves as nat, 1)
    } else {
        left
    }
}

/// The state before the drop of a move, and whether every step so far was
/// accepted.
pub open spec fn before_drop(state: GameView, action: Move, after_hold: BagView) -> (
    GameView,
    bool,
) {
    let start = held(state, action, after_hold);
    if start.1 {
        steered(start.0, action)
    } else {
        start
    }
}

/// Whether the replay of a move reaches its drop with a piece to drop.
pub open spec fn drops(state: GameView, action: Move, after_hold: BagView) -> bool {
    let ready = before_drop(state, action, after_hold);
    ready.1 && action.hard_drop && ready.0.piece is Some
}

/// The state after the replay of a move, and whether every step was
/// accepted. The replay stops at the first step that is rejected and keeps
/// what the steps before it did. `after_hold` is the source after the hold,
/// if it draws, and `after_drop` the source after the drop.
pub open spec fn replay(state: GameView, action: Move, after_hold: BagView, after_drop: BagView) -> (
    GameView,
    bool,
) {
    let ready = before_drop(state, action, after_hold);
    if ready.1 && action.hard_drop {
        (ready.0.hard_dropped(after_drop), ready.0.piece is Some)
    } else {
        ready
    }
}

/// Whether replaying a move from `before` may lead to `after` with the
/// result `accepted`, with `after_hold` as the source after the hold.
pub open spec fn replays_via(
    before: GameView,
    action: Move,
    after_hold: BagView,
    after: GameView,
    accepted: bool,
) -> bool {
    &&& action.hold && before.hold_draws() ==> before.source.draws(
        before.source.queue[0],
        after_hold,
    )
    &&& (after, accepted) == replay(before, action, after_hold, after.source)
    &&& drops(before, action, after_hold) ==> before_drop(
        before,
        action,
        after_hold,
    ).0.source.draws(before_drop(before, action, after_hold).0.source.queue[0], after.source)
}

/// Whether replaying a move from `before` may lead to `after` with the
/// result `accepted`. Everything but the order of refilled bags is decided
/// by `before` and the move.
pub open spec fn replays(before: GameView, action: Move, after: GameView, accepted: bool) -> bool {
    exists|after_hold: BagView| #[trigger] replays_via(before, action, after_hold, after, accepted)
}

/// The column of the pivot after up to `count` quarter turns.
pub open spec fn column_after_turns(state: GameView, count: nat, clockwise: bool) -> int {
    match turns(state, count, clockwise).0.piece {
        Some(piece) => piece.col,
        None => 0,
    }
}

/// The candidate that turns the piece `count` times, shifts it until its
/// pivot is in the given column, and drops it. The number of shifts is the
/// distance between the column of the pivot after the turns and the given
/// column: to the left if the pivot lies right of it, else to the right.
pub open spec fn candidate(state: GameView, count: nat, clockwise: bool, column: int) -> Move {
    let pivot = column_after_turns(state, count, clockwise);
    Move {
        left_moves: if column < pivot {
            (pivot - column) as u8
        } else {
            0
        },
        right_moves: if column < pivot {
            0
        } else {
            (column - pivot) as u8
        },
        clockwise_rotations: if clockwise {
            count as u8
        } else {
            0
        },
        counterclockwise_rotations: if clockwise {
            0
        } else {
            count as u8
        },
        hard_drop: true,
        hold: false,
    }
}

/// The candidate that holds the piece and does nothing else.
pub open spec fn hold_move() -> Move {
    Move {
        left_moves: 0,
        right_moves: 0,
        clockwise_rotations: 0,
        counterclockwise_rotations: 0,
        hard_drop: false,
        hold: true,
    }
}

/// All candidates for a state with an active piece, in the order in which
/// they are tried: the hold, if holding is allowed; then, for 0 to 3
/// clockwise turns, every column from left to right; then the same for 1 to
/// 3 counter-clockwise turns.
pub open spec fn all_candidates(state: GameView) -> Seq<Move> {
    (if state.can_hold {
        seq![hold_move()]
    } else {
        Seq::<Move>::empty()
    }) + Seq::new(
        (CLOCKWISE_TURN_COUNTS * BOARD_WIDTH) as nat,
        |i: int| candidate(state, (i / BOARD_WIDTH as int) as nat, true, i % BOARD_WIDTH as int),
    ) + Seq::new(
        ((CLOCKWISE_TURN_COUNTS - 1) * BOARD_WIDTH) as nat,
        |i: int|
            candidate(state, (i / BOARD_WIDTH as int + 1) as nat, false, i % BOARD_WIDTH as int),
    )
}

/// The candidates that the enumeration returns when it stops at
/// `max_moves` moves: none without an active piece; otherwise the first
/// `max_moves` of all candidates, or all of them if there are fewer.
pub open spec fn candidates(state: GameView, max_moves: int) -> Seq<Move> {
    if state.piece is None {
        Seq::<Move>::empty()
    } else {
        let all = all_candidates(state);
        if 0 <= max_moves < all.len() {
            all.take(max_moves)
        } else {
            all
        }
    }
}

/// Turns keep a valid state valid and an active piece active.
pub proof fn lemma_turns_valid(state: GameView, count: nat, clockwise: bool)
    requires
        state.valid(),
    ensures
        turns(state, count, clockwise).0.valid(),
        state.piece is Some ==> turns(state, count, clockwise).0.piece is Some,
    decreases count,
{
    if count > 0 && state.turn_target(clockwise) is Some {
        let piece = state.piece.unwrap();
        crate::rotation::lemma_resolved_fits(
            state.board,
            piece,
            if clockwise {
                piece.rotation.cw()
            } else {
                piece.rotation.ccw()
            },
        );
        lemma_turns_valid(state.turned(clockwise), (count - 1) as nat, clockwise);
    }
}

/// The board after the replay of a move. It does not depend on how the
/// source goes on.
pub open spec fn outcome_board(state: GameView, action: Move) -> Seq<Seq<Cell>> {
    replay(state, action, state.source, state.source).0.board
}

/// Whether the replay of a move accepts every step. This does not depend
/// on how the source goes on.
pub open spec fn accepted(state: GameView, action: Move) -> bool {
    replay(state, action, state.source, state.source).1
}

/// Whether two states differ in their sources at most.
pub open spec fn same_play(a: GameView, b: GameView) -> bool {
    a == (GameView { source: a.source, ..b })
}

/// Turns do not look at the source and leave it as it is.
pub proof fn lemma_turns_same_play(a: GameView, b: GameView, count: nat, clockwise: bool)
    requires
        same_play(a, b),
    ensures
        same_play(turns(a, count, clockwise).0, turns(b, count, clockwise).0),
        turns(a, count, clockwise).1 == turns(b, count, clockwise).1,
        turns(a, count, clockwise).0.source == a.source,
    decreases count,
{
    if count > 0 && a.turn_target(clockwise) is Some {
        lemma_turns_same_play(
            a.turned(clockwise),
            b.turned(clockwise),
            (count - 1) as nat,
            clockwise,
        );
    }
}

/// Shifts do not look at the source and leave it as it is.
pub proof fn lemma_shifts_same_play(a: GameView, b: GameView, count: nat, cols: int)
    requires
        same_play(a, b),
    ensures
        same_play(shifts(a, count, cols).0, shifts(b, count, cols).0),
        shifts(a, count, cols).1 == shifts(b, count, cols).1,
        shifts(a, count, cols).0.source == a.source,
    decreases count,
{
    if count > 0 && a.shift_target(0, cols) is Some {
        lemma_shifts_same_play(
            a.moved_sideways(cols),
            b.moved_sideways(cols),
            (count - 1) as nat,
            cols,
        );
    }
}

/// Turns and shifts do not look at the source and leave it as it is.
pub proof fn lemma_steered_same_play(a: GameView, b: GameView, action: Move)
    requires
        same_play(a, b),
    ensures
        same_play(steered(a, action).0, steered(b, action).0),
        steered(a, action).1 == steered(b, action).1,
        steered(a, action).0.source == a.source,
{
    let a1 = turns(a, action.clockwise_rotations as nat, true);
    let b1 = turns(b, action.clockwise_rotations as nat, true);
    lemma_turns_same_play(a, b, action.clockwise_rotations as nat, true);
    if a1.1 {
        let a2 = turns(a1.0, action.counterclockwise_rotations as nat, false);
        let b2 = turns(b1.0, action.counterclockwise_rotations as nat, false);
        lemma_turns_same_play(a1.0, b1.0, action.counterclockwise_rotations as nat, false);
        if a2.1 {
            let a3 = shifts(a2.0, action.left_moves as nat, -1);
            let b3 = shifts(b2.0, action.left_moves as nat, -1);
            lemma_shifts_same_play(a2.0, b2.0, action.left_moves as nat, -1);
            if a3.1 {
                lemma_shifts_same_play(a3.0, b3.0, action.right_moves as nat, 1);
            }
        }
    }
}

/// The board after the replay of a move, and whether every step was
/// accepted, do not depend on how the source goes on.
pub proof fn lemma_replay_outcome(
    state: GameView,
    action: Move,
    after_hold: BagView,
    after_drop: BagView,
)
    ensures
        replay(state, action, after_hold, after_drop).0.board == outcome_board(state, action),
        replay(state, action, after_hold, after_drop).1 == accepted(state, action),
{
    let a = held(state, action, after_hold);
    let b = held(state, action, state.source);
    assert(same_play(a.0, b.0));
    if a.1 {
        lemma_steered_same_play(a.0, b.0, action);
    }
}

/// Whatever a replay of a move leads to, its board and its result are the
/// ones that the state and the move decide.
pub proof fn lemma_replays_outcome(before: GameView, action: Move, after: GameView, result: bool)
    requires
        replays(before, action, after, result),
    ensures
        after.board == outcome_board(before, action),
        result == accepted(before, action),
{
    let after_hold = choose|after_hold: BagView| #[trigger]
        replays_via(before, action, after_hold, after, result);
    lemma_replay_outcome(before, action, after_hold, after.source);
}

/// A move that ends with a drop and whose replay accepts every step locks
/// a piece: afterwards the next piece is active, or the game is over. If the
/// hold of the move draws no piece, the replay draws exactly one: the front
/// of the look-ahead queue, which is the piece that is active afterwards.
pub proof fn lemma_accepted_drop(before: GameView, action: Move, after: GameView)
    requires
        action.hard_drop,
        replays(before, action, after, true),
    ensures
        after.piece is Some || after.state == GameState::GameOver,
        !(action.hold && before.hold_draws()) ==> before.source.draws(
            before.source.queue[0],
            after.source,
        ) && (after.piece matches Some(piece) ==> piece == spawn_placement(
            before.source.queue[0],
        )),
{
    let after_hold = choose|after_hold: BagView| #[trigger]
        replays_via(before, action, after_hold, after, true);
    let start = held(before, action, after_hold);
    if start.1 {
        lemma_steered_same_play(start.0, start.0, action);
    }
}

/// Turns and shifts change the active piece and the lock delay at most:
/// the board, the source, and the score stay as they are.
pub proof fn lemma_steered_keeps(state: GameView, action: Move)
    ensures
        same_course(state, steered(state, action).0),
{
    let clockwise = turns(state, action.clockwise_rotations as nat, true);
    lemma_turns_keep(state, action.clockwise_rotations as nat, true);
    let counter = turns(clockwise.0, action.counterclockwise_rotations as nat, false);
    lemma_turns_keep(clockwise.0, action.counterclockwise_rotations as nat, false);
    let left = shifts(counter.0, action.left_moves as nat, -1);
    lemma_shifts_keep(counter.0, action.left_moves as nat, -1);
    lemma_shifts_keep(left.0, action.right_moves as nat, 1);
}

/// Whether two states differ in the active piece and the lock delay at
/// most.
pub open spec fn same_course(a: GameView, b: GameView) -> bool {
    b == (GameView { piece: b.piece, lock_timer: b.lock_timer, lock_resets: b.lock_resets, ..a })
}

proof fn lemma_turns_keep(state: GameView, count: nat, clockwise: bool)
    ensures
        same_course(state, turns(state, count, clockwise).0),
    decreases count,
{
    if count > 0 && state.turn_target(clockwise) is Some {
        lemma_turns_keep(state.turned(clockwise), (count - 1) as nat, clockwise);
    }
}

proof fn lemma_shifts_keep(state: GameView, count: nat, cols: int)
    ensures
        same_course(state, shifts(state, count, cols).0),
    decreases count,
{
    if count > 0 && state.shift_target(0, cols) is Some {
        lemma_shifts_keep(state.moved_sideways(cols), (count - 1) as nat, cols);
    }
}

/// The hold candidate holds and does nothing else: the board stays as it
/// is, and if the hold draws, the piece drawn is the front of the
/// look-ahead queue and becomes the active piece, unless the game is over.
pub proof fn lemma_hold_candidate(before: GameView, after: GameView, result: bool)
    requires
        before.can_hold,
        replays(before, hold_move(), after, result),
    ensures
        outcome_board(before, hold_move()) == before.board,
        result == before.can_hold_now(),
        before.hold_draws() ==> before.source.draws(before.source.queue[0], after.source) && (
        after.piece == Some(spawn_placement(before.source.queue[0])) || (after.piece is None
            && after.state == GameState::GameOver)),
{
    let after_hold = choose|after_hold: BagView| #[trigger]
        replays_via(before, hold_move(), after_hold, after, result);
    assert(replay(before, hold_move(), after_hold, after.source) == (
        before.with_hold(after_hold),
        before.can_hold_now(),
    ));
    assert(replay(before, hold_move(), before.source, before.source).0.board == before.board);
}

/// A move without a hold changes the board only by its drop. If it does,
/// the replay has drawn exactly one piece: the front of the look-ahead
/// queue, which is the active piece afterwards, unless the game is over.
pub proof fn lemma_drop_changes_board(
    before: GameView,
    action: Move,
    after: GameView,
    result: bool,
)
    requires
        !action.hold,
        replays(before, action, after, result),
        after.board != before.board,
    ensures
        result,
        action.hard_drop,
        before.source.draws(before.source.queue[0], after.source),
        after.piece == Some(spawn_placement(before.source.queue[0])) || (after.piece is None
            && after.state == GameState::GameOver),
{
    let after_hold = choose|after_hold: BagView| #[trigger]
        replays_via(before, action, after_hold, after, result);
    lemma_steered_keeps(before, action);
    let ready = before_drop(before, action, after_hold);
    assert(ready == steered(before, action));
    assert(ready.0.board == before.board);
    assert(ready.0.source == before.source);
}

/// Of the candidates of a state in which holding is allowed, the first is
/// the hold candidate, and the others do not hold and end with a drop.
pub proof fn lemma_candidates_shape(state: GameView, max_moves: int, index: int)
    requires
        state.can_hold,
        0 <= index < candidates(state, max_moves).len(),
    ensures
        index == 0 ==> candidates(state, max_moves)[index] == hold_move(),
        index > 0 ==> !candidates(state, max_moves)[index].hold && candidates(
            state,
            max_moves,
        )[index].hard_drop,
{
    let all = all_candidates(state);
    assert(candidates(state, max_moves)[index] == all[index]);
}

/// Enumerates candidate moves and replays moves on a game.
pub struct MoveFinder {
    max_moves_to_consider: usize,
}

impl MoveFinder {
    /// The number of moves at which the enumeration stops.
    pub closed spec fn max_moves(&self) -> usize {
        self.max_moves_to_consider
    }

    /// Creates a move finder that stops at `DEFAULT_MAX_MOVES` moves.
    pub fn new() -> (finder: MoveFinder)
        ensures
            finder.max_moves() == DEFAULT_MAX_MOVES,
    {
        MoveFinder { max_moves_to_consider: DEFAULT_MAX_MOVES }
    }

    /// Creates a move finder that stops at `max_moves` moves.
    pub fn with_max_moves(max_moves: usize) -> (finder: MoveFinder)
        ensures
            finder.max_moves() == max_moves,
    {
        MoveFinder { max_moves_to_consider: max_moves }
    }

    /// Turns the active piece up to `count` times, stopping at the first
    /// turn that is rejected. Returns whether all turns were accepted.
    fn turn_times(game: &mut Game, count: u8, clockwise: bool) -> (done: bool)
        requires
            old(game).wf(),
        ensures
            final(game).wf(),
            (final(game)@, done) == turns(old(game)@, count as nat, clockwise),
    {
        let mut left: u8 = count;
        while left > 0
            invariant
                game.wf(),
                turns(old(game)@, count as nat, clockwise) == turns(game@, left as nat, clockwise),
            decreases left,
        {
            let turned = if clockwise {
                game.rotate_clockwise()
            } else {
                game.rotate_counterclockwise()
            };
            if !turned {
                return false;
            }
            left -= 1;
        }
        true
    }

    /// Shifts the active piece up to `count` columns, stopping at the first
    /// shift that is rejected. Returns whether all shifts were accepted.
    fn shift_times(game: &mut Game, count: u8, to_left: bool) -> (done: bool)
        requires
            old(game).wf(),
        ensures
            final(game).wf(),
            (final(game)@, done) == shifts(
                old(game)@,
                count as nat,
                if to_left {
                    -1
                } else {
                    1
                },
            ),
    {
        let ghost cols: int = if to_left {
            -1
        } else {
            1
        };
        let mut left: u8 = count;
        while left > 0
            invariant
                game.wf(),
                cols == if to_left {
                    -1int
                } else {
                    1int
                },
                shifts(old(game)@, count as nat, cols) == shifts(game@, left as nat, cols),
            decreases left,
        {
            let moved = if to_left {
                game.move_left()
            } else {
                game.move_right()
            };
            if !moved {
                return false;
            }
            left -= 1;
        }
        true
    }

    /// One candidate: the game is copied, the copy is turned, and the
    /// shifts follow from where its pivot then is.
    fn candidate_for(game: &Game, count: u8, clockwise: bool, position: usize) -> (found: Move)
        requires
            game.wf(),
            game.current_piece is Some,
            position < BOARD_WIDTH,
        ensures
            found == candidate(game@, count as nat, clockwise, position as int),
    {
        let mut game_clone = game.clone();
        Self::turn_times(&mut game_clone, count, clockwise);
        proof {
            lemma_turns_valid(game@, count as nat, clockwise);
            lemma_within_walls(game_clone@.board, game_clone@.piece.unwrap());
        }
        let current_position: i32 = game_clone.current_piece.unwrap().col;
        let target: i32 = position as i32;
        let (left_moves, right_moves): (u8, u8) = if target < current_position {
            ((current_position - target) as u8, 0)
        } else {
            (0, (target - current_position) as u8)
        };
        if clockwise {
            Move::new(left_moves, right_moves, count, 0, true, false)
        } else {
            Move::new(left_moves, right_moves, 0, count, true, false)
        }
    }

    /// The candidate moves for the active piece, in the order in which they
    /// are tried, cut off once `max_moves` of them have been found. Without
    /// an active piece, or with `max_moves` zero, there are none.
    pub fn find_possible_moves(&self, game: &Game) -> (moves: Vec<Move>)
        requires
            game.wf(),
        ensures
            moves@ == candidates(game@, self.max_moves() as int),
    {
        let mut moves: Vec<Move> = Vec::new();
        let ghost all = all_candidates(game@);
        assert(moves@ =~= all.take(0));
        if game.current_piece.is_none() || self.max_moves_to_consider == 0 {
            return moves;
        }
        if game.can_hold {
            moves.push(Move::new(0, 0, 0, 0, false, true));
            assert(moves@ =~= all.take(1));
            if moves.len() >= self.max_moves_to_consider {
                return moves;
            }
        }
        let ghost first: int = moves.len() as int;
        assert(moves@ =~= all.take(first));
        for clockwise_rotations in 0..CLOCKWISE_TURN_COUNTS
            invariant
                game.wf(),
                game.current_piece is Some,
                all == all_candidates(game@),
                first == if game.can_hold {
                    1int
                } else {
                    0int
                },
                moves@ == all.take(first + BOARD_WIDTH * clockwise_rotations),
                moves@.len() < self.max_moves(),
        {
            for position in 0..BOARD_WIDTH
                invariant
                    game.wf(),
                    game.current_piece is Some,
                    clockwise_rotations < CLOCKWISE_TURN_COUNTS,
                    all == all_candidates(game@),
                    first == if game.can_hold {
                        1int
                    } else {
                        0int
                    },
                    moves@ == all.take(first + BOARD_WIDTH * clockwise_rotations + position),
                    moves@.len() < self.max_moves(),
            {
                let new_move = Self::candidate_for(
                    game,
                    clockwise_rotations as u8,
                    true,
                    position,
                );
                let ghost index = first + BOARD_WIDTH * clockwise_rotations + position;
                assert(all[index] == new_move);
                moves.push(new_move);
                assert(moves@ =~= all.take(index + 1));
                if moves.len() >= self.max_moves_to_consider {
                    return moves;
                }
            }
        }
        let ghost second: int = first + CLOCKWISE_TURN_COUNTS * BOARD_WIDTH;
        for counterclockwise_rotations in 1..CLOCKWISE_TURN_COUNTS
            invariant
                game.wf(),
                game.current_piece is Some,
                all == all_candidates(game@),
                first == if game.can_hold {
                    1int
                } else {
                    0int
                },
                second == first + CLOCKWISE_TURN_COUNTS * BOARD_WIDTH,
                moves@ == all.take(second + BOARD_WIDTH * (counterclockwise_rotations - 1)),
                moves@.len() < self.max_moves(),
        {
            for position in 0..BOARD_WIDTH
                invariant
                    game.wf(),
                    game.current_piece is Some,
                    1 <= counterclockwise_rotations < CLOCKWISE_TURN_COUNTS,
                    all == all_candidates(game@),
                    first == if game.can_hold {
                        1int
                    } else {
                        0int
                    },
                    second == first + CLOCKWISE_TURN_COUNTS * BOARD_WIDTH,
                    moves@ == all.take(
                        second + BOARD_WIDTH * (counterclockwise_rotations - 1) + position,
                    ),
                    moves@.len() < self.max_moves(),
            {
                let new_move = Self::candidate_for(
                    game,
                    counterclockwise_rotations as u8,
                    false,
                    position,
                );
                let ghost index = second + BOARD_WIDTH * (counterclockwise_rotations - 1)
                    + position;
                assert(all[index] == new_move);
                moves.push(new_move);
                assert(moves@ =~= all.take(index + 1));
                if moves.len() >= self.max_moves_to_consider {
                    return moves;
                }
            }
        }
        assert(moves@ =~= all);
        moves
    }

    /// Replays a move on the game: the hold, if the move asks for it and
    /// holding is allowed, then the turns, the shifts, and the drop. The
    /// replay stops at the first step that is rejected, returns `false`, and
    /// keeps what the steps before it did.
    pub fn apply_move(&self, game: &mut Game, move_to_apply: &Move) -> (applied: bool)
        requires
            old(game).wf(),
        ensures
            final(game).wf(),
            replays(old(game)@, *move_to_apply, final(game)@, applied),
    {
        if move_to_apply.hold && game.can_hold {
            if !game.hold_piece() {
                assert(replays_via(old(game)@, *move_to_apply, game@.source, game@, false));
                return false;
            }
        }
        let ghost after_hold = game@.source;
        let ghost start = game@;
        assert((start, true) == held(old(game)@, *move_to_apply, after_hold));
        if !Self::turn_times(game, move_to_apply.clockwise_rotations, true) {
            assert(replays_via(old(game)@, *move_to_apply, after_hold, game@, false));
            return false;
        }
        if !Self::turn_times(game, move_to_apply.counterclockwise_rotations, false) {
            assert(replays_via(old(game)@, *move_to_apply, after_hold, game@, false));
            return false;
        }
        if !Self::shift_times(game, move_to_apply.left_moves, true) {
            assert(replays_via(old(game)@, *move_to_apply, after_hold, game@, false));
            return false;
        }
        if !Self::shift_times(game, move_to_apply.right_moves, false) {
            assert(replays_via(old(game)@, *move_to_apply, after_hold, game@, false));
            return false;
        }
        assert((game@, true) == before_drop(old(game)@, *move_to_apply, after_hold));
        if move_to_apply.hard_drop {
            if !game.hard_drop() {
                assert(replays_via(old(game)@, *move_to_apply, after_hold, game@, false));
                return false;
            }
        }
        assert(replays_via(old(game)@, *move_to_apply, after_hold, game@, true));
        true
    }

    /// Whether the replay of a move on the game accepts every step. The
    /// game is not changed.
    pub fn is_valid_move(&self, game: &Game, move_to_test: &Move) -> (valid: bool)
        requires
            game.wf(),
        ensures
            valid == accepted(game@, *move_to_test),
    {
        let mut game_clone = game.clone();
        let valid = self.apply_move(&mut game_clone, move_to_test);
        proof {
            lemma_replays_outcome(game@, *move_to_test, game_clone@, valid);
        }
        valid
    }
}

} // verus!
