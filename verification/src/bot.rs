//! The bot: for the active piece it tries every candidate move on a copy
//! of the game, scores the board that results, and plays the candidate with
//! the highest score on the game itself. Of candidates with the same score
//! the one found first is played.

use vstd::prelude::*;
use crate::evaluator::{board_score, default_weights, BoardEvaluator, EvaluationWeights};
use crate::game::{spawn_placement, Game, GameState, GameView};
use crate::move_finder::{
    accepted, candidates, hold_move, lemma_candidates_shape, lemma_drop_changes_board,
    lemma_hold_candidate, lemma_replays_outcome, outcome_board, replay, replays, Move, MoveFinder,
    DEFAULT_MAX_MOVES,
};

verus! {

/// The scores of the boards that the given moves lead to from a state.
pub open spec fn move_scores(weights: EvaluationWeights, state: GameView, options: Seq<Move>) -> Seq<
    int,
> {
    Seq::new(options.len(), |i: int| board_score(weights, outcome_board(state, options[i])))
}

/// Whether `index` is the position of the first of the highest scores.
pub open spec fn is_first_best(scores: Seq<int>, index: int) -> bool {
    &&& 0 <= index < scores.len()
    &&& forall|j: int| 0 <= j < scores.len() ==> scores[j] <= scores[index]
    &&& forall|j: int| 0 <= j < index ==> scores[j] < scores[index]
}

/// The first of the highest scores is at one position only.
pub proof fn lemma_first_best_unique(scores: Seq<int>, a: int, b: int)
    requires
        is_first_best(scores, a),
        is_first_best(scores, b),
    ensures
        a == b,
{
    if a < b {
        assert(scores[a] < scores[b]);
        assert(scores[b] <= scores[a]);
    } else if b < a {
        assert(scores[b] < scores[a]);
        assert(scores[a] <= scores[b]);
    }
}

/// Plays the game by picking, for each piece, the candidate move that
/// leads to the board with the highest score.
pub struct TetrisBot {
    evaluator: BoardEvaluator,
    move_finder: MoveFinder,
}

impl TetrisBot {
    /// A bot looks at one candidate at least.
    #[verifier::type_invariant]
    closed spec fn looks_at_candidates(&self) -> bool {
        self.move_finder.max_moves() > 0
    }

    /// The weights by which the bot scores boards.
    pub closed spec fn weights(&self) -> EvaluationWeights {
        self.evaluator.weights()
    }

    /// The number of candidates at which the bot stops looking.
    pub closed spec fn max_moves(&self) -> usize {
        self.move_finder.max_moves()
    }

    /// The candidates that the bot considers in a state.
    pub open spec fn options(&self, state: GameView) -> Seq<Move> {
        candidates(state, self.max_moves() as int)
    }

    /// Whether `index` is the position of the candidate that the bot plays
    /// in a state: the first of those whose board scores highest.
    pub open spec fn picks(&self, state: GameView, index: int) -> bool {
        is_first_best(move_scores(self.weights(), state, self.options(state)), index)
    }

    /// Whether one move of the bot may lead from `before` to `after`: the
    /// candidate that the bot picks is replayed.
    pub open spec fn moves(&self, before: GameView, after: GameView) -> bool {
        exists|best: int|
            #![trigger self.picks(before, best)]
            self.picks(before, best) && replays(
                before,
                self.options(before)[best],
                after,
                accepted(before, self.options(before)[best]),
            )
    }

    /// Whether the states are those of a game that the bot plays: in each
    /// state but the last the game is running with a piece active, and one
    /// move of the bot leads to the next state.
    pub open spec fn plays(&self, states: Seq<GameView>) -> bool {
        forall|i: int|
            0 <= i < states.len() - 1 ==> (#[trigger] states[i]).state == GameState::Playing
                && states[i].piece is Some && self.moves(states[i], states[i + 1])
    }

    /// Creates a bot with the default weights that looks at up to
    /// `DEFAULT_MAX_MOVES` candidates.
    pub fn new() -> (bot: TetrisBot)
        ensures
            bot.weights() == default_weights(),
            bot.max_moves() == DEFAULT_MAX_MOVES,
    {
        TetrisBot { evaluator: BoardEvaluator::new(), move_finder: MoveFinder::new() }
    }

    /// Plays one move: the candidate whose board scores highest, and of
    /// several such the first. Returns `false`, with the game unchanged, if
    /// there is no candidate, which is the case exactly if no piece is
    /// active. The replay of the move that is played may stop early if one
    /// of its steps is rejected; the result is `true` all the same. While
    /// holding is allowed and no shape is held, as at the start of a game,
    /// the move takes exactly one piece from the look-ahead queue.
    pub fn make_move(&self, game: &mut Game) -> (moved: bool)
        requires
            old(game).wf(),
        ensures
            final(game).wf(),
            moved == (old(game)@.piece is Some),
            !moved ==> final(game)@ == old(game)@,
            moved ==> self.moves(old(game)@, final(game)@),
            old(game)@.hold_draws() ==> old(game)@.source.draws(
                old(game)@.source.queue[0],
                final(game)@.source,
            ) && (final(game)@.piece == Some(spawn_placement(old(game)@.source.queue[0])) || (
            final(game)@.piece is None && final(game).state == GameState::GameOver)),
    {
        proof {
            use_type_invariant(self);
        }
        let possible_moves = self.move_finder.find_possible_moves(game);
        if possible_moves.len() == 0 {
            return false;
        }
        let ghost scores = move_scores(self.weights(), game@, possible_moves@);
        let mut best_index: usize = 0;
        let mut best_score: i64 = 0;
        for i in 0..possible_moves.len()
            invariant
                game.wf(),
                scores == move_scores(self.weights(), game@, possible_moves@),
                i > 0 ==> is_first_best(scores.take(i as int), best_index as int) && best_score
                    == scores[best_index as int],
        {
            let score = self.score_move(game, &possible_moves[i]);
            proof {
                lemma_first_best_extends(
                    scores,
                    i as int,
                    best_index as int,
                    i == 0 || score > best_score,
                );
            }
            if i == 0 || score > best_score {
                best_score = score;
                best_index = i;
            }
        }
        assert(scores.take(possible_moves@.len() as int) =~= scores);
        let applied = self.move_finder.apply_move(game, &possible_moves[best_index]);
        proof {
            lemma_replays_outcome(
                old(game)@,
                possible_moves@[best_index as int],
                game@,
                applied,
            );
            assert(self.picks(old(game)@, best_index as int));
            if old(game)@.hold_draws() {
                lemma_move_draws_one(*self, old(game)@, game@);
            }
        }
        true
    }

    /// Plays move after move while the game is running, but no more than
    /// `max_moves` moves, and returns how many moves were made. The bot
    /// stops early when the game is paused or over, or when there is no
    /// candidate.
    pub fn play_game(&self, game: &mut Game, max_moves: usize) -> (made: usize)
        requires
            old(game).wf(),
        ensures
            final(game).wf(),
            made <= max_moves,
            made < max_moves ==> (final(game).state != GameState::Playing
                || final(game).current_piece is None),
            exists|states: Seq<GameView>|
                #![trigger self.plays(states)]
                self.plays(states) && states.len() == made + 1 && states[0] == old(game)@
                    && states[made as int] == final(game)@,
    {
        let ghost mut states: Seq<GameView> = seq![game@];
        let mut made: usize = 0;
        while made < max_moves && game.state == GameState::Playing
            invariant
                game.wf(),
                made <= max_moves,
                self.plays(states),
                states.len() == made + 1,
                states[0] == old(game)@,
                states[made as int] == game@,
            ensures
                made < max_moves ==> (game.state != GameState::Playing
                    || game.current_piece is None),
            decreases max_moves - made,
        {
            let ghost before = states;
            if !self.make_move(game) {
                break ;
            }
            proof {
                states = before.push(game@);
                assert forall|i: int| 0 <= i < states.len() - 1 implies (#[trigger] states[i]).state
                    == GameState::Playing && states[i].piece is Some && self.moves(
                    states[i],
                    states[i + 1],
                ) by {
                    if i < before.len() - 1 {
                        assert(before[i].state == GameState::Playing);
                        assert(states[i + 1] == before[i + 1]);
                    }
                }
            }
            made += 1;
        }
        assert(self.plays(states));
        made
    }

    /// The score of the board that a move leads to. The move is replayed
    /// on a copy of the game, also where one of its steps is rejected.
    fn score_move(&self, game: &Game, candidate: &Move) -> (score: i64)
        requires
            game.wf(),
        ensures
            score == board_score(self.weights(), outcome_board(game@, *candidate)),
    {
        let mut game_clone = game.clone();
        let applied = self.move_finder.apply_move(&mut game_clone, candidate);
        proof {
            lemma_replays_outcome(game@, *candidate, game_clone@, applied);
        }
        self.evaluator.evaluate(&game_clone)
    }
}

/// In a state with an active piece in which holding is allowed and no
/// shape is held, as at the start of a game, one move of a bot that looks
/// at candidates takes exactly one piece from the source: the front of the
/// look-ahead queue, which is the active piece afterwards, unless the game
/// is over. The bot either holds, or plays a candidate that drops the piece
/// and leads to a board that scores higher than the board as it is.
pub proof fn lemma_move_draws_one(bot: TetrisBot, before: GameView, after: GameView)
    requires
        before.hold_draws(),
        bot.max_moves() > 0,
        bot.moves(before, after),
    ensures
        before.source.draws(before.source.queue[0], after.source),
        after.piece == Some(spawn_placement(before.source.queue[0])) || (after.piece is None
            && after.state == GameState::GameOver),
{
    let options = bot.options(before);
    let scores = move_scores(bot.weights(), before, options);
    let best = choose|best: int|
        #![trigger bot.picks(before, best)]
        bot.picks(before, best) && replays(
            before,
            options[best],
            after,
            accepted(before, options[best]),
        );
    let result = accepted(before, options[best]);
    lemma_candidates_shape(before, bot.max_moves() as int, best);
    if best == 0 {
        lemma_hold_candidate(before, after, result);
    } else {
        lemma_candidates_shape(before, bot.max_moves() as int, 0);
        lemma_replays_outcome(before, options[best], after, result);
        assert(scores[0] < scores[best]);
        assert(outcome_board(before, hold_move()) == before.board) by {
            assert(replay(before, hold_move(), before.source, before.source).0.board
                == before.board);
        }
        assert(scores[0] == board_score(bot.weights(), before.board));
        assert(scores[best] == board_score(bot.weights(), after.board));
        lemma_drop_changes_board(before, options[best], after, result);
    }
}

/// If `best` is the position of the first of the highest among the first
/// `count` scores, then among one score more it is the position of the new
/// score, if that is higher, and `best` otherwise.
pub proof fn lemma_first_best_extends(scores: Seq<int>, count: int, best: int, higher: bool)
    requires
        0 <= count < scores.len(),
        count > 0 ==> is_first_best(scores.take(count), best),
        higher == (count == 0 || scores[count] > scores[best]),
    ensures
        is_first_best(
            scores.take(count + 1),
            if higher {
                count
            } else {
                best
            },
        ),
{
    let longer = scores.take(count + 1);
    let chosen = if higher {
        count
    } else {
        best
    };
    assert forall|j: int| 0 <= j < longer.len() implies longer[j] <= longer[chosen] by {
        if j < count {
            assert(scores.take(count)[j] <= scores.take(count)[best]);
        }
    }
    assert forall|j: int| 0 <= j < chosen implies longer[j] < longer[chosen] by {
        assert(scores.take(count)[j] <= scores.take(count)[best]);
        if !higher {
            assert(scores.take(count)[j] < scores.take(count)[best]);
        }
    }
}

} // verus!
