//! The game controller: one board, the active piece, the held shape, the
//! score, the piece source, and the timers for gravity and lock delay.
//!
//! Every action is described by a function on `GameView`, the mathematical
//! model of a game. Where an action draws a piece, the drawn piece is the
//! front of the look-ahead queue; only the order of a refilled bag is left
//! open, so such a function takes the source after the draw as an argument.
//! Times are in milliseconds.

use vstd::prelude::*;
use crate::board::{
    accepts, all_empty, cleared, complete_rows, empty_grid, grid_shape, in_bounds,
    is_within_walls, lemma_within_walls, placed, within_walls, Board, Cell,
};
use crate::piece::{placement_of, Piece, PieceType, Placement, Rotation};
use crate::randomizer::{is_full_bag, BagRandomizer, BagView, Randomizer, PREVIEW_SIZE};
use crate::rotation::{lemma_resolved_fits, quarter_turn, RotationSystem};
use crate::score::{ScoreSystem, TSpinType};
use crate::{BOARD_HEIGHT, BOARD_WIDTH};

verus! {

/// Whether a game is running, paused, or over.
#[derive(Clone, Copy, PartialEq, Eq, Debug, Structural)]
pub enum GameState {
    Playing,
    Paused,
    GameOver,
}

/// Time for which a piece that cannot fall rests before it locks.
pub const LOCK_DELAY_MS: u64 = 500;

/// Number of times that a move or a turn may restart the lock delay.
pub const MAX_LOCK_RESETS: u8 = 15;

/// Time between two steps of gravity at level 1.
pub const INITIAL_GRAVITY_MS: u64 = 1000;

/// Column of the pivot of a new piece.
pub const SPAWN_COLUMN: i32 = 4;

/// The value that a timer takes for a mathematical value: the value itself,
/// or `u64::MAX` if it is larger.
pub open spec fn capped_ms(value: int) -> u64 {
    if value > u64::MAX {
        u64::MAX
    } else if value < 0 {
        0
    } else {
        value as u64
    }
}

/// Frames between two steps of gravity at a level, at 60 frames a second.
pub open spec fn gravity_frames(level: int) -> int {
    if level == 1 {
        60
    } else if level == 2 {
        48
    } else if level == 3 {
        36
    } else if level == 4 {
        28
    } else if level == 5 {
        22
    } else if level == 6 {
        16
    } else if level == 7 {
        12
    } else if level == 8 {
        8
    } else if level == 9 {
        6
    } else if 10 <= level <= 12 {
        4
    } else if 13 <= level <= 15 {
        3
    } else if 16 <= level <= 18 {
        2
    } else {
        1
    }
}

/// Time in milliseconds between two steps of gravity at a level.
pub open spec fn gravity_ms(level: int) -> int {
    gravity_frames(level) * 1000 / 60
}

/// Where a new piece of a shape appears: facing North, pivot in the spawn
/// column of the top row, the long shape one row higher.
pub open spec fn spawn_placement(shape: PieceType) -> Placement {
    Placement {
        piece_type: shape,
        rotation: Rotation::North,
        row: if shape == PieceType::I {
            -1
        } else {
            0
        },
        col: SPAWN_COLUMN as int,
    }
}

/// Whether the cell diagonal to a pivot counts as filled: it is filled or
/// lies outside the grid.
pub open spec fn corner_filled(grid: Seq<Seq<Cell>>, row: int, col: int) -> bool {
    !in_bounds(row, col) || grid[row][col] != Cell::Empty
}

/// The number 1 for `true` and 0 for `false`.
pub open spec fn count_of(flag: bool) -> int {
    if flag {
        1
    } else {
        0
    }
}

/// The spin bonus of a piece at rest. Only the T shape can earn one, and
/// only with at least three of the four cells diagonal to its pivot filled.
/// The bonus is full if one of the two diagonal cells in front of the piece
/// is filled, and mini otherwise. In front means: the two lower ones facing
/// North, the two left ones facing East, the two upper ones facing South,
/// the two right ones facing West.
pub open spec fn classify_spin(grid: Seq<Seq<Cell>>, piece: Placement) -> TSpinType {
    let upper_left = corner_filled(grid, piece.row - 1, piece.col - 1);
    let upper_right = corner_filled(grid, piece.row - 1, piece.col + 1);
    let lower_left = corner_filled(grid, piece.row + 1, piece.col - 1);
    let lower_right = corner_filled(grid, piece.row + 1, piece.col + 1);
    let corners = count_of(upper_left) + count_of(upper_right) + count_of(lower_left) + count_of(
        lower_right,
    );
    let front = match piece.rotation {
        Rotation::North => lower_left || lower_right,
        Rotation::East => upper_left || lower_left,
        Rotation::South => upper_left || upper_right,
        Rotation::West => upper_right || lower_right,
    };
    if piece.piece_type != PieceType::T || corners < 3 {
        TSpinType::NoSpin
    } else if front {
        TSpinType::Full
    } else {
        TSpinType::Mini
    }
}

/// By these rules a spin is full or none: with three of the four diagonal
/// cells filled, one of the two in front is filled, so that the mini bonus
/// is never earned.
pub proof fn lemma_spin_is_full_or_none(grid: Seq<Seq<Cell>>, piece: Placement)
    ensures
        classify_spin(grid, piece) != TSpinType::Mini,
{
}

/// Where a piece comes to rest if it falls as far as the grid lets it.
pub open spec fn landing(grid: Seq<Seq<Cell>>, piece: Placement) -> Placement
    decreases BOARD_HEIGHT - piece.row,
{
    if piece.row < BOARD_HEIGHT && accepts(grid, piece.moved(1, 0)) {
        landing(grid, piece.moved(1, 0))
    } else {
        piece
    }
}

/// The mathematical model of a game.
pub struct GameView {
    pub board: Seq<Seq<Cell>>,
    pub piece: Option<Placement>,
    pub held: Option<PieceType>,
    pub can_hold: bool,
    pub state: GameState,
    pub score: ScoreSystem,
    pub source: BagView,
    pub since_drop: u64,
    pub gravity: u64,
    pub lock_timer: u64,
    pub lock_active: bool,
    pub lock_resets: u8,
}

impl GameView {
    /// The invariant of a game: the source can be drawn from, the lock
    /// delay has been restarted no more often than allowed, a game that is
    /// over has no active piece, and an active piece lies within the walls.
    pub open spec fn valid(self) -> bool {
        &&& grid_shape(self.board)
        &&& self.source.ready()
        &&& self.lock_resets <= MAX_LOCK_RESETS
        &&& self.state == GameState::GameOver ==> self.piece is None
        &&& self.piece matches Some(piece) ==> piece.representable() && within_walls(piece)
    }

    /// The state at the start of a game with the given active shape.
    pub open spec fn fresh(shape: PieceType, source: BagView) -> GameView {
        GameView {
            board: empty_grid(),
            piece: Some(spawn_placement(shape)),
            held: None,
            can_hold: true,
            state: GameState::Playing,
            score: ScoreSystem { score: 0, level: 1, lines_cleared: 0 },
            source,
            since_drop: 0,
            gravity: INITIAL_GRAVITY_MS,
            lock_timer: 0,
            lock_active: false,
            lock_resets: 0,
        }
    }

    /// Whether a move or a turn restarts the lock delay: the delay is
    /// running and has been restarted fewer than `MAX_LOCK_RESETS` times.
    pub open spec fn lock_restartable(self) -> bool {
        self.lock_active && self.lock_resets < MAX_LOCK_RESETS
    }

    /// A move or a turn restarts a running lock delay, unless it has been
    /// restarted `MAX_LOCK_RESETS` times already.
    pub open spec fn lock_reset(self) -> GameView {
        if self.lock_restartable() {
            GameView { lock_timer: 0, lock_resets: (self.lock_resets + 1) as u8, ..self }
        } else {
            self
        }
    }

    /// The lock delay starts, unless it is running already.
    pub open spec fn lock_started(self) -> GameView {
        if self.lock_active {
            self
        } else {
            GameView { lock_active: true, lock_timer: 0, lock_resets: 0, ..self }
        }
    }

    /// Where the active piece gets by a shift, if there is a piece and the
    /// board accepts it there.
    pub open spec fn shift_target(self, rows: int, cols: int) -> Option<Placement> {
        match self.piece {
            Some(piece) => if accepts(self.board, piece.moved(rows, cols)) {
                Some(piece.moved(rows, cols))
            } else {
                None
            },
            None => None,
        }
    }

    /// The state after a move by one column, to the left if `cols` is -1
    /// and to the right if it is 1. A rejected move changes nothing.
    pub open spec fn moved_sideways(self, cols: int) -> GameView {
        match self.shift_target(0, cols) {
            Some(piece) => GameView { piece: Some(piece), ..self }.lock_reset(),
            None => self,
        }
    }

    /// The state after a soft drop by one row, which earns a point. A piece
    /// that cannot fall starts the lock delay instead.
    pub open spec fn moved_down(self) -> GameView {
        match self.shift_target(1, 0) {
            Some(piece) => GameView {
                piece: Some(piece),
                score: self.score.after_soft_drop(1),
                ..self
            },
            None => if self.piece is Some {
                self.lock_started()
            } else {
                self
            },
        }
    }

    /// Where the active piece gets by a quarter turn, if there is a piece
    /// and a kick of the table fits.
    pub open spec fn turn_target(self, clockwise: bool) -> Option<Placement> {
        match self.piece {
            Some(piece) => quarter_turn(self.board, piece, clockwise),
            None => None,
        }
    }

    /// The state after a quarter turn. A rejected turn changes nothing.
    pub open spec fn turned(self, clockwise: bool) -> GameView {
        match self.turn_target(clockwise) {
            Some(piece) => GameView { piece: Some(piece), ..self }.lock_reset(),
            None => self,
        }
    }

    /// The state after a piece of the given shape has been spawned. If the
    /// board does not accept the new piece, the game is over.
    pub open spec fn spawned(self, shape: PieceType) -> GameView {
        if accepts(self.board, spawn_placement(shape)) {
            GameView { piece: Some(spawn_placement(shape)), ..self }
        } else {
            GameView { piece: None, state: GameState::GameOver, ..self }
        }
    }

    /// The state after the front of the look-ahead queue has been drawn and
    /// spawned; `after` is the source after the draw.
    pub open spec fn spawned_next(self, after: BagView) -> GameView {
        GameView { source: after, ..self }.spawned(self.source.queue[0])
    }

    /// The state after the active piece has locked; `after` is the source
    /// after the draw of the next piece. The spin bonus is classified, the
    /// piece is committed to the board, complete lines are removed, the lock
    /// is scored, with the bonus for a perfect clear if lines were removed
    /// and the board is empty, gravity follows the level, holding is allowed
    /// again, the lock delay ends, and the next piece is spawned. Without an
    /// active piece nothing happens.
    pub open spec fn locked(self, after: BagView) -> GameView {
        match self.piece {
            None => self,
            Some(piece) => {
                let spin = classify_spin(self.board, piece);
                let filled = if accepts(self.board, piece) {
                    placed(self.board, piece)
                } else {
                    self.board
                };
                let lines = complete_rows(filled) as int;
                let board = cleared(filled);
                let scored = self.score.after_lines_with_tspin(lines, spin);
                let score = if lines > 0 && all_empty(board) {
                    scored.after_perfect_clear(lines)
                } else {
                    scored
                };
                GameView {
                    board,
                    piece: None,
                    score,
                    gravity: capped_ms(gravity_ms(score.level as int)),
                    can_hold: true,
                    lock_active: false,
                    lock_timer: 0,
                    ..self
                }.spawned_next(after)
            },
        }
    }

    /// The state after a hard drop; `after` is the source after the draw of
    /// the next piece. The piece falls as far as it can, which earns two
    /// points per row, and locks at once.
    pub open spec fn hard_dropped(self, after: BagView) -> GameView {
        match self.piece {
            None => self,
            Some(piece) => {
                let rest = landing(self.board, piece);
                GameView {
                    piece: Some(rest),
                    score: self.score.after_hard_drop(rest.row - piece.row),
                    ..self
                }.locked(after)
            },
        }
    }

    /// Whether a hold is accepted: holding is allowed and a piece is active.
    pub open spec fn can_hold_now(self) -> bool {
        self.can_hold && self.piece is Some
    }

    /// Whether a hold draws a piece from the source: it is accepted and no
    /// shape is held yet.
    pub open spec fn hold_draws(self) -> bool {
        self.can_hold_now() && self.held is None
    }

    /// The state after a hold; `after` is the source after the draw, if the
    /// hold draws. The shape of the active piece becomes the held shape. The
    /// shape held before, if any, becomes the active piece at the spawn
    /// position; otherwise the next piece is drawn and spawned. Holding is
    /// then not allowed until the next lock. A rejected hold changes
    /// nothing.
    pub open spec fn with_hold(self, after: BagView) -> GameView {
        match self.piece {
            Some(piece) if self.can_hold => {
                let swapped = match self.held {
                    Some(shape) => GameView { piece: Some(spawn_placement(shape)), ..self },
                    None => GameView { piece: None, ..self }.spawned_next(after),
                };
                GameView { held: Some(piece.piece_type), can_hold: false, ..swapped }
            },
            _ => self,
        }
    }

    /// The state after gravity has been given `elapsed` milliseconds. Once
    /// the time since the last step reaches the gravity interval, the piece
    /// falls by one row, which ends a running lock delay; a piece that
    /// cannot fall starts the lock delay instead.
    pub open spec fn after_gravity(self, elapsed: u64) -> GameView {
        let since = capped_ms(self.since_drop + elapsed);
        if since < self.gravity {
            GameView { since_drop: since, ..self }
        } else {
            let ticked = GameView { since_drop: 0, ..self };
            match ticked.shift_target(1, 0) {
                Some(piece) => GameView {
                    piece: Some(piece),
                    lock_active: false,
                    lock_timer: 0,
                    ..ticked
                },
                None => if ticked.piece is Some {
                    ticked.lock_started()
                } else {
                    ticked
                },
            }
        }
    }

    /// Whether a running lock delay ends when given `elapsed` milliseconds.
    pub open spec fn lock_expires(self, elapsed: u64) -> bool {
        self.lock_active && capped_ms(self.lock_timer + elapsed) >= LOCK_DELAY_MS
    }

    /// The state after a running lock delay has been given `elapsed`
    /// milliseconds; `after` is the source after the draw, if the piece
    /// locks. The piece locks once the delay has reached `LOCK_DELAY_MS`.
    pub open spec fn after_lock_delay(self, elapsed: u64, after: BagView) -> GameView {
        if !self.lock_active {
            self
        } else if self.lock_expires(elapsed) {
            GameView {
                lock_active: false,
                lock_timer: 0,
                ..GameView { lock_timer: capped_ms(self.lock_timer + elapsed), ..self }.locked(
                    after,
                )
            }
        } else {
            GameView { lock_timer: capped_ms(self.lock_timer + elapsed), ..self }
        }
    }

    /// Whether a time step draws a piece from the source: the game is
    /// running, and after gravity the lock delay ends with a piece active.
    pub open spec fn update_draws(self, elapsed: u64) -> bool {
        &&& self.state == GameState::Playing
        &&& self.after_gravity(elapsed).lock_expires(elapsed)
        &&& self.after_gravity(elapsed).piece is Some
    }

    /// The state after a time step of `elapsed` milliseconds; `after` is
    /// the source after the draw, if the step draws. Gravity acts first,
    /// then the lock delay. A game that is not running does not change.
    pub open spec fn updated(self, elapsed: u64, after: BagView) -> GameView {
        if self.state != GameState::Playing {
            self
        } else {
            self.after_gravity(elapsed).after_lock_delay(elapsed, after)
        }
    }

    /// The state after the pause has been toggled. A game that is over
    /// stays over.
    pub open spec fn pause_toggled(self) -> GameView {
        GameView {
            state: match self.state {
                GameState::Playing => GameState::Paused,
                GameState::Paused => GameState::Playing,
                GameState::GameOver => GameState::GameOver,
            },
            ..self
        }
    }
}

/// A new piece of any shape lies within the walls, and an empty grid
/// accepts it.
pub proof fn lemma_spawn_placement(shape: PieceType)
    ensures
        spawn_placement(shape).representable(),
        within_walls(spawn_placement(shape)),
        accepts(empty_grid(), spawn_placement(shape)),
{
    let piece = spawn_placement(shape);
    assert forall|i: int| 0 <= i < 4 implies 0 <= (#[trigger] piece.cells()[i]).1 < BOARD_WIDTH
        && piece.cells()[i].0 < BOARD_HEIGHT && crate::board::cell_free(
        empty_grid(),
        piece.cells()[i],
    ) by {}
}

/// The game controller.
pub struct Game {
    pub board: Board,
    pub current_piece: Option<Piece>,
    pub held_piece: Option<PieceType>,
    pub can_hold: bool,
    pub state: GameState,
    pub score_system: ScoreSystem,
    pub randomizer: BagRandomizer,
    pub time_since_last_drop: u64,
    pub gravity_delay: u64,
    pub lock_delay_timer: u64,
    pub lock_delay_active: bool,
    pub lock_delay_resets: u8,
}

impl View for Game {
    type V = GameView;

    open spec fn view(&self) -> GameView {
        GameView {
            board: self.board@,
            piece: placement_of(self.current_piece),
            held: self.held_piece,
            can_hold: self.can_hold,
            state: self.state,
            score: self.score_system,
            source: self.randomizer@,
            since_drop: self.time_since_last_drop,
            gravity: self.gravity_delay,
            lock_timer: self.lock_delay_timer,
            lock_active: self.lock_delay_active,
            lock_resets: self.lock_delay_resets,
        }
    }
}

impl Clone for Game {
    /// An independent copy of the game, piece source included.
    fn clone(&self) -> (copy: Game)
        ensures
            copy@ == self@,
    {
        Game {
            board: self.board.clone(),
            current_piece: self.current_piece,
            held_piece: self.held_piece,
            can_hold: self.can_hold,
            state: self.state,
            score_system: self.score_system,
            randomizer: self.randomizer.clone(),
            time_since_last_drop: self.time_since_last_drop,
            gravity_delay: self.gravity_delay,
            lock_delay_timer: self.lock_delay_timer,
            lock_delay_active: self.lock_delay_active,
            lock_delay_resets: self.lock_delay_resets,
        }
    }
}

impl Game {
    /// The invariant of a game, which every action keeps.
    pub open spec fn wf(&self) -> bool {
        self@.valid()
    }

    /// Whether the game meets its invariant. Every action keeps it; it can
    /// be lost only by writing to the fields of the game.
    pub fn is_well_formed(&self) -> (ok: bool)
        ensures
            ok == self.wf(),
    {
        proof {
            self.board.lemma_shape();
        }
        if !self.randomizer.is_ready() || self.lock_delay_resets > MAX_LOCK_RESETS {
            return false;
        }
        match self.current_piece {
            Some(piece) => self.state != GameState::GameOver && is_within_walls(&piece),
            None => true,
        }
    }

    /// Creates a game: an empty board, no held shape, level 1, and the
    /// first piece of a new source as the active piece. The active shape and
    /// the pieces upcoming in the source are together one full bag.
    pub fn new() -> (game: Game)
        ensures
            game.wf(),
            game.current_piece matches Some(piece) && game@ == GameView::fresh(
                piece.piece_type,
                game@.source,
            ) && is_full_bag(seq![piece.piece_type] + game@.source.upcoming()),
    {
        let mut game = Game {
            board: Board::new(),
            current_piece: None,
            held_piece: None,
            can_hold: true,
            state: GameState::Playing,
            score_system: ScoreSystem::new(),
            randomizer: BagRandomizer::new(),
            time_since_last_drop: 0,
            gravity_delay: INITIAL_GRAVITY_MS,
            lock_delay_timer: 0,
            lock_delay_active: false,
            lock_delay_resets: 0,
        };
        let ghost stocked = game@.source;
        proof {
            game.board.lemma_shape();
        }
        game.spawn_new_piece();
        proof {
            lemma_spawn_placement(stocked.queue[0]);
            lemma_first_draw(stocked, game@.source);
        }
        game
    }

    /// Advances the game by `elapsed_ms` milliseconds: gravity first, then
    /// the lock delay. Returns whether the game is running; a game that is
    /// paused or over does not change.
    pub fn update(&mut self, elapsed_ms: u64) -> (ticked: bool)
        requires
            old(self).wf(),
        ensures
            final(self).wf(),
            ticked == (old(self).state == GameState::Playing),
            final(self)@ == old(self)@.updated(elapsed_ms, final(self)@.source),
            old(self)@.update_draws(elapsed_ms) ==> old(self)@.source.draws(
                old(self)@.source.queue[0],
                final(self)@.source,
            ),
    {
        if self.state != GameState::Playing {
            return false;
        }
        self.time_since_last_drop = self.time_since_last_drop.saturating_add(elapsed_ms);
        if self.time_since_last_drop >= self.gravity_delay {
            self.time_since_last_drop = 0;
            if let Some(current_piece) = self.current_piece {
                proof {
                    lemma_within_walls(self.board@, current_piece@);
                }
                let moved_piece = current_piece.with_down_move();
                if self.board.can_place(&moved_piece) {
                    self.current_piece = Some(moved_piece);
                    self.lock_delay_active = false;
                    self.lock_delay_timer = 0;
                    proof {
                        lemma_within_walls(self.board@, moved_piece@);
                    }
                } else if !self.lock_delay_active {
                    self.lock_delay_active = true;
                    self.lock_delay_timer = 0;
                    self.lock_delay_resets = 0;
                }
            }
        }
        assert(self@ == old(self)@.after_gravity(elapsed_ms));
        if self.lock_delay_active {
            self.lock_delay_timer = self.lock_delay_timer.saturating_add(elapsed_ms);
            if self.lock_delay_timer >= LOCK_DELAY_MS {
                self.lock_piece();
                self.lock_delay_active = false;
                self.lock_delay_timer = 0;
            }
        }
        true
    }

    /// Restarts a running lock delay after a move or a turn, unless it has
    /// been restarted `MAX_LOCK_RESETS` times already. While the delay runs
    /// with fewer restarts than that, the timer goes back to zero and the
    /// restart is counted; otherwise timer and counter stay as they are.
    /// Nothing else changes.
    pub fn try_reset_lock_delay(&mut self)
        ensures
            final(self)@ == old(self)@.lock_reset(),
            final(self)@ == (GameView {
                lock_timer: final(self).lock_delay_timer,
                lock_resets: final(self).lock_delay_resets,
                ..old(self)@
            }),
            old(self)@.lock_restartable() ==> (final(self).lock_delay_timer == 0
                && final(self).lock_delay_resets == old(self).lock_delay_resets + 1),
            !old(self)@.lock_restartable() ==> (final(self).lock_delay_timer
                == old(self).lock_delay_timer
                && final(self).lock_delay_resets == old(self).lock_delay_resets),
            old(self).lock_delay_resets <= MAX_LOCK_RESETS ==> final(self).lock_delay_resets
                <= MAX_LOCK_RESETS,
            old(self).wf() ==> final(self).wf(),
    {
        if self.lock_delay_active && self.lock_delay_resets < MAX_LOCK_RESETS {
            self.lock_delay_timer = 0;
            self.lock_delay_resets += 1;
        }
    }

    /// Moves the active piece one column to the left, if the board accepts
    /// it there. An accepted move restarts a running lock delay.
    pub fn move_left(&mut self) -> (moved: bool)
        requires
            old(self).wf(),
        ensures
            final(self).wf(),
            moved == (old(self)@.shift_target(0, -1) is Some),
            final(self)@ == old(self)@.moved_sideways(-1),
    {
        if let Some(current_piece) = self.current_piece {
            proof {
                lemma_within_walls(self.board@, current_piece@);
            }
            let moved_piece = current_piece.with_left_move();
            if self.board.can_place(&moved_piece) {
                self.current_piece = Some(moved_piece);
                self.try_reset_lock_delay();
                proof {
                    lemma_within_walls(self.board@, moved_piece@);
                }
                return true;
            }
        }
        false
    }

    /// Moves the active piece one column to the right, if the board accepts
    /// it there. An accepted move restarts a running lock delay.
    pub fn move_right(&mut self) -> (moved: bool)
        requires
            old(self).wf(),
        ensures
            final(self).wf(),
            moved == (old(self)@.shift_target(0, 1) is Some),
            final(self)@ == old(self)@.moved_sideways(1),
    {
        if let Some(current_piece) = self.current_piece {
            proof {
                lemma_within_walls(self.board@, current_piece@);
            }
            let moved_piece = current_piece.with_right_move();
            if self.board.can_place(&moved_piece) {
                self.current_piece = Some(moved_piece);
                self.try_reset_lock_delay();
                proof {
                    lemma_within_walls(self.board@, moved_piece@);
                }
                return true;
            }
        }
        false
    }

    /// Moves the active piece one row down, if the board accepts it there;
    /// this earns one point. A piece that cannot fall starts the lock delay
    /// instead, unless it is running already.
    pub fn move_down(&mut self) -> (moved: bool)
        requires
            old(self).wf(),
        ensures
            final(self).wf(),
            moved == (old(self)@.shift_target(1, 0) is Some),
            final(self)@ == old(self)@.moved_down(),
    {
        if let Some(current_piece) = self.current_piece {
            proof {
                lemma_within_walls(self.board@, current_piece@);
            }
            let moved_piece = current_piece.with_down_move();
            if self.board.can_place(&moved_piece) {
                self.score_system.add_soft_drop_score(1);
                self.current_piece = Some(moved_piece);
                proof {
                    lemma_within_walls(self.board@, moved_piece@);
                }
                return true;
            } else if !self.lock_delay_active {
                self.lock_delay_active = true;
                self.lock_delay_timer = 0;
                self.lock_delay_resets = 0;
            }
        }
        false
    }

    /// Turns the active piece clockwise, taking the first kick that fits.
    /// An accepted turn restarts a running lock delay.
    pub fn rotate_clockwise(&mut self) -> (turned: bool)
        requires
            old(self).wf(),
        ensures
            final(self).wf(),
            turned == (old(self)@.turn_target(true) is Some),
            final(self)@ == old(self)@.turned(true),
    {
        if let Some(current_piece) = self.current_piece {
            if let Some(rotated_piece) = RotationSystem::rotate_clockwise(
                &current_piece,
                &self.board,
            ) {
                self.current_piece = Some(rotated_piece);
                self.try_reset_lock_delay();
                proof {
                    lemma_resolved_fits(self.board@, current_piece@, current_piece.rotation.cw());
                }
                return true;
            }
        }
        false
    }

    /// Turns the active piece counter-clockwise, taking the first kick that
    /// fits. An accepted turn restarts a running lock delay.
    pub fn rotate_counterclockwise(&mut self) -> (turned: bool)
        requires
            old(self).wf(),
        ensures
            final(self).wf(),
            turned == (old(self)@.turn_target(false) is Some),
            final(self)@ == old(self)@.turned(false),
    {
        if let Some(current_piece) = self.current_piece {
            if let Some(rotated_piece) = RotationSystem::rotate_counterclockwise(
                &current_piece,
                &self.board,
            ) {
                self.current_piece = Some(rotated_piece);
                self.try_reset_lock_delay();
                proof {
                    lemma_resolved_fits(self.board@, current_piece@, current_piece.rotation.ccw());
                }
                return true;
            }
        }
        false
    }

    /// Drops the active piece as far as it can fall, which earns two points
    /// per row, and locks it at once. Returns whether a piece was active.
    pub fn hard_drop(&mut self) -> (dropped: bool)
        requires
            old(self).wf(),
        ensures
            final(self).wf(),
            dropped == (old(self).current_piece is Some),
            final(self)@ == old(self)@.hard_dropped(final(self)@.source),
            dropped ==> old(self)@.source.draws(old(self)@.source.queue[0], final(self)@.source),
    {
        if let Some(start) = self.current_piece {
            let mut piece = start;
            let mut drop_distance: u32 = 0;
            proof {
                lemma_within_walls(self.board@, start@);
            }
            loop
                invariant_except_break
                    landing(self.board@, piece@) == landing(self.board@, start@),
                invariant
                    within_walls(piece@),
                    piece.row <= BOARD_HEIGHT,
                    start.row <= piece.row,
                    drop_distance == piece.row - start.row,
                    self.board == old(self).board,
                ensures
                    piece@ == landing(self.board@, start@),
                decreases BOARD_HEIGHT - piece.row,
            {
                let moved_piece = piece.with_down_move();
                if !self.board.can_place(&moved_piece) {
                    break ;
                }
                proof {
                    lemma_within_walls(self.board@, moved_piece@);
                }
                piece = moved_piece;
                drop_distance += 1;
            }
            self.score_system.add_hard_drop_score(drop_distance);
            self.current_piece = Some(piece);
            self.lock_piece();
            return true;
        }
        false
    }

    /// Holds the shape of the active piece. The shape held before, if any,
    /// becomes the active piece at the spawn position; otherwise the next
    /// piece is drawn and spawned. Rejected, with nothing changed, if
    /// holding is not allowed or no piece is active.
    pub fn hold_piece(&mut self) -> (held: bool)
        requires
            old(self).wf(),
        ensures
            final(self).wf(),
            held == old(self)@.can_hold_now(),
            final(self)@ == old(self)@.with_hold(final(self)@.source),
            old(self)@.hold_draws() ==> old(self)@.source.draws(
                old(self)@.source.queue[0],
                final(self)@.source,
            ),
    {
        if !self.can_hold {
            return false;
        }
        if let Some(current_piece) = self.current_piece {
            let current_type = current_piece.piece_type;
            self.current_piece = None;
            if let Some(held_type) = self.held_piece {
                let col: i32 = SPAWN_COLUMN;
                let row: i32 = match held_type {
                    PieceType::I => -1,
                    _ => 0,
                };
                self.current_piece = Some(Piece::new(held_type, row, col));
                proof {
                    lemma_spawn_placement(held_type);
                }
            } else {
                self.spawn_new_piece();
            }
            self.held_piece = Some(current_type);
            self.can_hold = false;
            return true;
        }
        false
    }

    /// The spin bonus that the active piece would earn if it locked where
    /// it is; no bonus without an active piece.
    pub fn detect_tspin(&self) -> (spin: TSpinType)
        ensures
            spin == match self@.piece {
                Some(piece) => classify_spin(self@.board, piece),
                None => TSpinType::NoSpin,
            },
    {
        if let Some(piece) = self.current_piece {
            if piece.piece_type == PieceType::T {
                let row: i64 = piece.row as i64;
                let col: i64 = piece.col as i64;
                let upper_left = self.is_cell_filled(row - 1, col - 1);
                let upper_right = self.is_cell_filled(row - 1, col + 1);
                let lower_left = self.is_cell_filled(row + 1, col - 1);
                let lower_right = self.is_cell_filled(row + 1, col + 1);
                let mut filled_corners: u8 = 0;
                if upper_left {
                    filled_corners += 1;
                }
                if upper_right {
                    filled_corners += 1;
                }
                if lower_left {
                    filled_corners += 1;
                }
                if lower_right {
                    filled_corners += 1;
                }
                if filled_corners >= 3 {
                    let front_filled = match piece.rotation {
                        Rotation::North => lower_left || lower_right,
                        Rotation::East => upper_left || lower_left,
                        Rotation::South => upper_left || upper_right,
                        Rotation::West => upper_right || lower_right,
                    };
                    if front_filled {
                        return TSpinType::Full;
                    } else {
                        return TSpinType::Mini;
                    }
                }
            }
        }
        TSpinType::NoSpin
    }

    /// Whether the cell at the given signed coordinates is filled; a
    /// position outside the grid counts as filled.
    fn is_cell_filled(&self, row: i64, col: i64) -> (filled: bool)
        ensures
            filled == corner_filled(self@.board, row as int, col as int),
    {
        if row < 0 || col < 0 || row >= BOARD_HEIGHT as i64 || col >= BOARD_WIDTH as i64 {
            return true;
        }
        match self.board.get_cell(row as usize, col as usize) {
            Some(cell) => match cell {
                Cell::Empty => false,
                Cell::Filled(_) => true,
            },
            None => true,
        }
    }

    /// Locks the active piece and spawns the next one.
    fn lock_piece(&mut self)
        requires
            old(self).wf(),
        ensures
            final(self).wf(),
            final(self)@ == old(self)@.locked(final(self)@.source),
            old(self).current_piece is Some ==> old(self)@.source.draws(
                old(self)@.source.queue[0],
                final(self)@.source,
            ),
    {
        if let Some(piece) = self.current_piece {
            let tspin_type = self.detect_tspin();
            self.current_piece = None;
            self.board.place_piece(&piece);
            let lines_cleared = self.board.clear_lines();
            let is_perfect_clear = lines_cleared > 0 && self.board.is_perfect_clear();
            self.score_system.add_score_for_lines_with_tspin(lines_cleared, tspin_type);
            if is_perfect_clear {
                self.score_system.add_perfect_clear_bonus(lines_cleared);
            }
            self.gravity_delay = Self::calculate_gravity_delay(self.score_system.level);
            self.can_hold = true;
            self.lock_delay_active = false;
            self.lock_delay_timer = 0;
            proof {
                self.board.lemma_shape();
            }
            self.spawn_new_piece();
        }
    }

    /// Time in milliseconds between two steps of gravity at a level.
    pub fn calculate_gravity_delay(level: u32) -> (delay: u64)
        ensures
            delay == gravity_ms(level as int),
    {
        let frames: u64 = match level {
            1 => 60,
            2 => 48,
            3 => 36,
            4 => 28,
            5 => 22,
            6 => 16,
            7 => 12,
            8 => 8,
            9 => 6,
            10..=12 => 4,
            13..=15 => 3,
            16..=18 => 2,
            _ => 1,
        };
        (frames * 1000) / 60
    }

    /// Starts the game anew, with a new piece source.
    pub fn reset(&mut self)
        ensures
            final(self).wf(),
            final(self).current_piece matches Some(piece) && final(self)@ == GameView::fresh(
                piece.piece_type,
                final(self)@.source,
            ) && is_full_bag(seq![piece.piece_type] + final(self)@.source.upcoming()),
    {
        self.board.clear();
        self.current_piece = None;
        self.held_piece = None;
        self.can_hold = true;
        self.state = GameState::Playing;
        self.score_system = ScoreSystem::new();
        self.randomizer = BagRandomizer::new();
        self.time_since_last_drop = 0;
        self.gravity_delay = INITIAL_GRAVITY_MS;
        self.lock_delay_active = false;
        self.lock_delay_timer = 0;
        self.lock_delay_resets = 0;
        let ghost stocked = self@.source;
        proof {
            self.board.lemma_shape();
        }
        self.spawn_new_piece();
        proof {
            lemma_spawn_placement(stocked.queue[0]);
            lemma_first_draw(stocked, self@.source);
        }
    }

    /// Pauses a running game and resumes a paused one. A game that is over
    /// stays over.
    pub fn toggle_pause(&mut self)
        ensures
            final(self)@ == old(self)@.pause_toggled(),
    {
        self.state = match self.state {
            GameState::Playing => GameState::Paused,
            GameState::Paused => GameState::Playing,
            GameState::GameOver => GameState::GameOver,
        };
    }

    /// Draws the next piece and spawns it. If the board does not accept
    /// the new piece, the game is over and no piece is active.
    fn spawn_new_piece(&mut self)
        requires
            old(self)@.source.ready(),
            old(self).lock_delay_resets <= MAX_LOCK_RESETS,
            old(self).state != GameState::GameOver,
        ensures
            final(self).wf(),
            final(self)@ == old(self)@.spawned_next(final(self)@.source),
            old(self)@.source.draws(old(self)@.source.queue[0], final(self)@.source),
    {
        let piece_type = self.randomizer.next();
        let col: i32 = SPAWN_COLUMN;
        let row: i32 = match piece_type {
            PieceType::I => -1,
            _ => 0,
        };
        let new_piece = Piece::new(piece_type, row, col);
        proof {
            lemma_spawn_placement(piece_type);
            self.board.lemma_shape();
        }
        if !self.board.can_place(&new_piece) {
            self.state = GameState::GameOver;
            self.current_piece = None;
            return ;
        }
        self.current_piece = Some(new_piece);
    }

    /// The next `count` upcoming shapes, at most as many as the look-ahead
    /// queue holds. Nothing is drawn.
    pub fn peek_next_pieces(&self, count: usize) -> (pieces: Vec<PieceType>)
        requires
            self@.source.ready(),
        ensures
            pieces@ == self@.source.queue.take(
                if count <= PREVIEW_SIZE {
                    count as int
                } else {
                    PREVIEW_SIZE as int
                },
            ),
    {
        self.randomizer.peek(count)
    }
}

/// A game that is over stays as it is: no move, turn, drop, hold, or time
/// step is accepted, and the pause cannot be toggled.
pub proof fn lemma_game_over_is_final(state: GameView, elapsed: u64, after: BagView)
    requires
        state.valid(),
        state.state == GameState::GameOver,
    ensures
        state.moved_sideways(-1) == state,
        state.moved_sideways(1) == state,
        state.moved_down() == state,
        state.turned(true) == state,
        state.turned(false) == state,
        state.hard_dropped(after) == state,
        state.with_hold(after) == state,
        state.updated(elapsed, after) == state,
        state.pause_toggled() == state,
{
}

/// No action lowers the score.
pub proof fn lemma_score_never_falls(state: GameView, elapsed: u64, after: BagView)
    ensures
        state.moved_sideways(-1).score.score >= state.score.score,
        state.moved_sideways(1).score.score >= state.score.score,
        state.moved_down().score.score >= state.score.score,
        state.turned(true).score.score >= state.score.score,
        state.turned(false).score.score >= state.score.score,
        state.with_hold(after).score.score >= state.score.score,
        state.locked(after).score.score >= state.score.score,
        state.hard_dropped(after).score.score >= state.score.score,
        state.updated(elapsed, after).score.score >= state.score.score,
        state.pause_toggled().score.score >= state.score.score,
{
    lemma_locked_score(state, after);
    lemma_locked_score(state.after_gravity(elapsed), after);
    lemma_locked_score(
        GameView {
            lock_timer: capped_ms(state.after_gravity(elapsed).lock_timer + elapsed),
            ..state.after_gravity(elapsed)
        },
        after,
    );
    crate::score::lemma_score_never_falls(state.score, 0, TSpinType::NoSpin, 1);
    if let Some(piece) = state.piece {
        let rest = landing(state.board, piece);
        lemma_landing_below(state.board, piece);
        crate::score::lemma_score_never_falls(
            state.score,
            0,
            TSpinType::NoSpin,
            rest.row - piece.row,
        );
        lemma_locked_score(
            GameView {
                piece: Some(rest),
                score: state.score.after_hard_drop(rest.row - piece.row),
                ..state
            },
            after,
        );
    }
}

/// A lock does not lower the score.
proof fn lemma_locked_score(state: GameView, after: BagView)
    ensures
        state.locked(after).score.score >= state.score.score,
{
    if let Some(piece) = state.piece {
        let spin = classify_spin(state.board, piece);
        let filled = if accepts(state.board, piece) {
            placed(state.board, piece)
        } else {
            state.board
        };
        let lines = complete_rows(filled) as int;
        crate::score::lemma_score_never_falls(state.score, lines, spin, 0);
        crate::score::lemma_score_never_falls(
            state.score.after_lines_with_tspin(lines, spin),
            lines,
            spin,
            0,
        );
    }
}

/// A piece comes to rest in its column, at or below the row that it falls
/// from, in a position that the grid accepts if it accepted the piece
/// before, and from which the piece cannot fall further.
pub proof fn lemma_landing_below(grid: Seq<Seq<Cell>>, piece: Placement)
    ensures
        landing(grid, piece).row >= piece.row,
        landing(grid, piece) == piece.moved(landing(grid, piece).row - piece.row, 0),
        accepts(grid, piece) ==> accepts(grid, landing(grid, piece)),
        !accepts(grid, landing(grid, piece).moved(1, 0)),
    decreases BOARD_HEIGHT - piece.row,
{
    lemma_within_walls(grid, piece.moved(1, 0));
    if piece.row < BOARD_HEIGHT && accepts(grid, piece.moved(1, 0)) {
        lemma_landing_below(grid, piece.moved(1, 0));
        let rest = landing(grid, piece);
        assert(piece.moved(1, 0).moved(rest.row - piece.row - 1, 0) == piece.moved(
            rest.row - piece.row,
            0,
        ));
    } else {
        assert(piece.moved(0, 0) == piece);
    }
}

/// The lock delay can be restarted `MAX_LOCK_RESETS` times and no more:
/// while it has been restarted fewer times, an accepted move or turn sets
/// the timer back to zero and counts; after that, moves and turns leave the
/// timer as it is.
pub proof fn lemma_lock_reset_cap(state: GameView, cols: int, clockwise: bool)
    requires
        state.lock_active,
    ensures
        state.lock_resets < MAX_LOCK_RESETS ==> state.lock_reset().lock_timer == 0
            && state.lock_reset().lock_resets == state.lock_resets + 1,
        state.lock_resets >= MAX_LOCK_RESETS ==> state.lock_reset() == state
            && state.moved_sideways(cols).lock_timer == state.lock_timer && state.turned(
            clockwise,
        ).lock_timer == state.lock_timer,
        state.lock_resets <= MAX_LOCK_RESETS ==> state.moved_sideways(cols).lock_resets
            <= MAX_LOCK_RESETS && state.turned(clockwise).lock_resets <= MAX_LOCK_RESETS,
{
}

/// A running lock delay adds up the time of the steps: a step that does
/// not bring it to `LOCK_DELAY_MS` adds its time to the timer, and the step
/// that does locks the piece, if the piece cannot fall.
pub proof fn lemma_lock_delay_runs(state: GameView, elapsed: u64, after: BagView)
    requires
        state.state == GameState::Playing,
        state.lock_active,
        state.piece is Some,
        state.shift_target(1, 0) is None,
    ensures
        state.lock_timer + elapsed < LOCK_DELAY_MS ==> !state.update_draws(elapsed)
            && state.updated(elapsed, after) == (GameView {
            since_drop: state.after_gravity(elapsed).since_drop,
            lock_timer: (state.lock_timer + elapsed) as u64,
            ..state
        }),
        state.lock_timer + elapsed >= LOCK_DELAY_MS ==> state.update_draws(elapsed)
            && state.updated(elapsed, after) == (GameView {
            since_drop: state.after_gravity(elapsed).since_drop,
            ..state.locked(after)
        }),
{
}

/// The first draw from a source whose upcoming pieces are one full bag
/// hands out a piece that forms a full bag with the pieces then upcoming.
pub proof fn lemma_first_draw(stocked: BagView, after: BagView)
    requires
        is_full_bag(stocked.upcoming()),
        stocked.bag.len() > 0,
        stocked.draws(stocked.queue[0], after),
    ensures
        seq![stocked.queue[0]] + after.upcoming() == stocked.upcoming(),
{
    assert(after.queue =~= after.queue.drop_last().push(after.queue.last()));
    assert(seq![stocked.queue[0]] + after.upcoming() =~= stocked.upcoming());
}

} // verus!
