//! Scoring: points for line clears, spins, perfect clears, and drops, and the
//! level that follows from the number of lines cleared.
//!
//! All counters are held in `u32` and stop at `u32::MAX` instead of wrapping
//! around, so the score never goes down.

use vstd::prelude::*;

verus! {

/// The spin bonus that a lock earns.
#[derive(Clone, Copy, PartialEq, Eq, Debug, Structural)]
pub enum TSpinType {
    NoSpin,
    Mini,
    Full,
}

/// Score, level, and the number of lines cleared so far.
#[derive(Clone, Copy, PartialEq, Eq, Debug, Structural)]
pub struct ScoreSystem {
    pub score: u32,
    pub level: u32,
    pub lines_cleared: u32,
}

/// Number of cleared lines per level.
pub const LINES_PER_LEVEL: u32 = 10;

/// The value that a `u32` counter takes for a mathematical value: the value
/// itself, or `u32::MAX` if it is larger.
pub open spec fn capped(value: int) -> u32 {
    if value > u32::MAX {
        u32::MAX
    } else if value < 0 {
        0
    } else {
        value as u32
    }
}

/// Points at level 1 for clearing `lines` lines without a spin.
pub open spec fn plain_line_points(lines: int) -> int {
    if lines == 1 {
        100
    } else if lines == 2 {
        300
    } else if lines == 3 {
        500
    } else if lines == 4 {
        800
    } else {
        0
    }
}

/// Points at level 1 for a lock that clears `lines` lines with the given
/// spin. Combinations that the rules do not name earn nothing.
pub open spec fn line_points(lines: int, spin: TSpinType) -> int {
    match spin {
        TSpinType::Full => if lines == 0 {
            400
        } else if lines == 1 {
            800
        } else if lines == 2 {
            1200
        } else if lines == 3 {
            1600
        } else {
            0
        },
        TSpinType::Mini => if lines == 0 {
            100
        } else if lines == 1 {
            200
        } else if lines == 2 {
            400
        } else {
            0
        },
        TSpinType::NoSpin => plain_line_points(lines),
    }
}

/// Bonus points at level 1 for a perfect clear that removed `lines` lines.
pub open spec fn perfect_clear_points(lines: int) -> int {
    if lines == 1 {
        800
    } else if lines == 2 {
        1200
    } else if lines == 3 {
        1800
    } else if lines == 4 {
        2000
    } else {
        0
    }
}

/// The level that belongs to a number of cleared lines.
pub open spec fn level_for(lines_cleared: int) -> int {
    lines_cleared / (LINES_PER_LEVEL as int) + 1
}

/// No way of scoring lowers the score.
pub proof fn lemma_score_never_falls(counters: ScoreSystem, lines: int, spin: TSpinType, rows: int)
    requires
        rows >= 0,
    ensures
        counters.after_lines(lines).score >= counters.score,
        counters.after_lines_with_tspin(lines, spin).score >= counters.score,
        counters.after_perfect_clear(lines).score >= counters.score,
        counters.after_soft_drop(rows).score >= counters.score,
        counters.after_hard_drop(rows).score >= counters.score,
{
    assert(plain_line_points(lines) * counters.level >= 0) by (nonlinear_arith)
        requires
            plain_line_points(lines) >= 0,
            counters.level >= 0,
    ;
    assert(line_points(lines, spin) * counters.level >= 0) by (nonlinear_arith)
        requires
            line_points(lines, spin) >= 0,
            counters.level >= 0,
    ;
    assert(line_points(0, spin) * counters.level >= 0) by (nonlinear_arith)
        requires
            line_points(0, spin) >= 0,
            counters.level >= 0,
    ;
    assert(perfect_clear_points(lines) * counters.level >= 0) by (nonlinear_arith)
        requires
            perfect_clear_points(lines) >= 0,
            counters.level >= 0,
    ;
}

impl ScoreSystem {
    /// The counters after `points` level-1 points have been earned at the
    /// current level.
    pub open spec fn with_points(self, points: int) -> ScoreSystem {
        ScoreSystem { score: capped(self.score + points * self.level), ..self }
    }

    /// The counters after `lines` more lines have been counted; the level
    /// follows the new count.
    pub open spec fn with_lines(self, lines: int) -> ScoreSystem {
        let lines_cleared = capped(self.lines_cleared + lines);
        ScoreSystem { lines_cleared, level: capped(level_for(lines_cleared as int)), ..self }
    }

    /// The counters after a lock without a spin that cleared `lines` lines.
    pub open spec fn after_lines(self, lines: int) -> ScoreSystem {
        if lines == 0 {
            self
        } else {
            self.with_points(plain_line_points(lines)).with_lines(lines)
        }
    }

    /// The counters after a lock with the given spin that cleared `lines`
    /// lines. Without cleared lines only the score changes.
    pub open spec fn after_lines_with_tspin(self, lines: int, spin: TSpinType) -> ScoreSystem {
        if lines == 0 {
            self.with_points(line_points(0, spin))
        } else {
            self.with_points(line_points(lines, spin)).with_lines(lines)
        }
    }

    /// The counters after the bonus for a perfect clear of `lines` lines.
    pub open spec fn after_perfect_clear(self, lines: int) -> ScoreSystem {
        self.with_points(perfect_clear_points(lines))
    }

    /// The counters after a soft drop of `rows` rows: one point per row.
    pub open spec fn after_soft_drop(self, rows: int) -> ScoreSystem {
        ScoreSystem { score: capped(self.score + rows), ..self }
    }

    /// The counters after a hard drop of `rows` rows: two points per row.
    pub open spec fn after_hard_drop(self, rows: int) -> ScoreSystem {
        ScoreSystem { score: capped(self.score + 2 * rows), ..self }
    }

    /// The counters at the start of a game: no points, level 1, no lines.
    pub fn new() -> (counters: ScoreSystem)
        ensures
            counters == (ScoreSystem { score: 0, level: 1, lines_cleared: 0 }),
    {
        ScoreSystem { score: 0, level: 1, lines_cleared: 0 }
    }

    /// Adds `points` level-1 points at the current level.
    fn add_points(&mut self, points: u32)
        requires
            points <= 2000,
        ensures
            *final(self) == old(self).with_points(points as int),
    {
        assert(points * self.level <= 2000 * 0xFFFF_FFFF) by (nonlinear_arith)
            requires
                points <= 2000,
                self.level <= 0xFFFF_FFFF,
        ;
        let earned: u64 = points as u64 * self.level as u64;
        let total: u64 = self.score as u64 + earned;
        self.score = if total > u32::MAX as u64 {
            u32::MAX
        } else {
            total as u32
        };
    }

    /// Counts `lines` more cleared lines and sets the level that follows.
    fn add_lines(&mut self, lines: usize)
        ensures
            *final(self) == old(self).with_lines(lines as int),
    {
        let total: u128 = self.lines_cleared as u128 + lines as u128;
        self.lines_cleared = if total > u32::MAX as u128 {
            u32::MAX
        } else {
            total as u32
        };
        self.level = self.lines_cleared / LINES_PER_LEVEL + 1;
    }

    /// Scores a lock without a spin that cleared `lines` lines.
    pub fn add_score_for_lines(&mut self, lines: usize)
        ensures
            *final(self) == old(self).after_lines(lines as int),
            final(self).score >= old(self).score,
    {
        if lines == 0 {
            return ;
        }
        let line_multiplier: u32 = match lines {
            1 => 100,
            2 => 300,
            3 => 500,
            4 => 800,
            _ => 0,
        };
        self.add_points(line_multiplier);
        self.add_lines(lines);
    }

    /// Scores a lock with the given spin that cleared `lines` lines.
    pub fn add_score_for_lines_with_tspin(&mut self, lines: usize, tspin_type: TSpinType)
        ensures
            *final(self) == old(self).after_lines_with_tspin(lines as int, tspin_type),
            final(self).score >= old(self).score,
    {
        if lines == 0 {
            match tspin_type {
                TSpinType::Full => self.add_points(400),
                TSpinType::Mini => self.add_points(100),
                TSpinType::NoSpin => self.add_points(0),
            }
            return ;
        }
        let line_multiplier: u32 = match (lines, tspin_type) {
            (1, TSpinType::Full) => 800,
            (2, TSpinType::Full) => 1200,
            (3, TSpinType::Full) => 1600,
            (1, TSpinType::Mini) => 200,
            (2, TSpinType::Mini) => 400,
            (1, TSpinType::NoSpin) => 100,
            (2, TSpinType::NoSpin) => 300,
            (3, TSpinType::NoSpin) => 500,
            (4, TSpinType::NoSpin) => 800,
            (_, _) => 0,
        };
        self.add_points(line_multiplier);
        self.add_lines(lines);
    }

    /// Adds the bonus for a perfect clear that removed `lines` lines.
    pub fn add_perfect_clear_bonus(&mut self, lines: usize)
        ensures
            *final(self) == old(self).after_perfect_clear(lines as int),
            final(self).score >= old(self).score,
    {
        let bonus: u32 = match lines {
            1 => 800,
            2 => 1200,
            3 => 1800,
            4 => 2000,
            _ => 0,
        };
        self.add_points(bonus);
    }

    /// Adds the points for a soft drop of `rows` rows.
    pub fn add_soft_drop_score(&mut self, rows: u32)
        ensures
            *final(self) == old(self).after_soft_drop(rows as int),
            final(self).score >= old(self).score,
    {
        self.score = self.score.saturating_add(rows);
    }

    /// Adds the points for a hard drop of `rows` rows.
    pub fn add_hard_drop_score(&mut self, rows: u32)
        ensures
            *final(self) == old(self).after_hard_drop(rows as int),
            final(self).score >= old(self).score,
    {
        let total: u64 = self.score as u64 + 2 * (rows as u64);
        self.score = if total > u32::MAX as u64 {
            u32::MAX
        } else {
            total as u32
        };
    }
}

} // verus!
