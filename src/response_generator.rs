//! How slow, verbose and vulnerable-looking replies should be, as a pure
//! function of the chosen strategy and the attacker's observed behaviour.
//!
//! The engagement level is kept in tenths (0 to 10 stands for 0.0 to 1.0),
//! delays and wasted time in milliseconds, and command complexity in
//! thousandths (0 to 1000 stands for 0.0 to 1.0).
use vstd::prelude::*;

verus! {

#[derive(Debug, Clone, Copy, PartialEq, Eq, Structural)]
pub enum ResponseStrategy {
    /// Quick replies, minimal engagement.
    Minimal,
    /// Ordinary realistic replies.
    Standard,
    /// Deep engagement, to waste the attacker's time.
    Deep,
    /// Follows the engagement level.
    Adaptive,
}

/// Reply strategy, engagement level and the running total of time wasted.
pub struct ResponseGenerator {
    strategy: ResponseStrategy,
    engagement_level: u8,
    time_wasted: u64,
}

/// The highest engagement level (1.0).
pub const ENGAGEMENT_MAX: u8 = 10;
/// The lowest level that automated behaviour can push engagement down to (0.1).
pub const ENGAGEMENT_FLOOR: u8 = 1;
/// The level a generator starts at (0.5).
pub const ENGAGEMENT_START: u8 = 5;

/// Delay before any reply under `strategy` at engagement `level`.
pub open spec fn base_delay_ms(strategy: ResponseStrategy, level: u8) -> nat {
    match strategy {
        ResponseStrategy::Minimal => 50,
        ResponseStrategy::Standard => 200,
        ResponseStrategy::Deep => 1000,
        ResponseStrategy::Adaptive => level as nat * 100,
    }
}

/// Base delay plus half a second per unit of complexity.
pub open spec fn delay_ms(strategy: ResponseStrategy, level: u8, complexity: nat) -> nat {
    base_delay_ms(strategy, level) + complexity * 500 / 1000
}

/// The engagement level after one observation of the attacker: a skilled
/// manual attacker raises it by a tenth (at most to 1.0), an automated one
/// lowers it by two tenths (at least to 0.1); anything else leaves it.
pub open spec fn engagement_after(level: u8, is_sophisticated: bool, is_automated: bool) -> u8 {
    if is_sophisticated && !is_automated {
        if level + 1 > ENGAGEMENT_MAX {
            ENGAGEMENT_MAX
        } else {
            (level + 1) as u8
        }
    } else if is_automated {
        if level - 2 < ENGAGEMENT_FLOOR {
            ENGAGEMENT_FLOOR
        } else {
            (level - 2) as u8
        }
    } else {
        level
    }
}

/// Detailed error messages are shown except under `Minimal`, and under
/// `Adaptive` only above 0.3.
pub open spec fn detailed_errors(strategy: ResponseStrategy, level: u8) -> bool {
    match strategy {
        ResponseStrategy::Minimal => false,
        ResponseStrategy::Standard => true,
        ResponseStrategy::Deep => true,
        ResponseStrategy::Adaptive => level > 3,
    }
}

/// Fake vulnerabilities are shown under `Deep`, and under `Adaptive` only
/// above 0.7.
pub open spec fn simulated_vulnerabilities(strategy: ResponseStrategy, level: u8) -> bool {
    match strategy {
        ResponseStrategy::Minimal => false,
        ResponseStrategy::Standard => false,
        ResponseStrategy::Deep => true,
        ResponseStrategy::Adaptive => level > 7,
    }
}

impl ResponseGenerator {
    pub closed spec fn strategy(&self) -> ResponseStrategy {
        self.strategy
    }

    /// The engagement level in tenths.
    pub closed spec fn level(&self) -> u8 {
        self.engagement_level
    }

    /// Milliseconds of attacker time wasted so far.
    pub closed spec fn wasted(&self) -> nat {
        self.time_wasted as nat
    }

    /// The engagement level stays between 0.1 and 1.0.
    pub open spec fn wf(&self) -> bool {
        ENGAGEMENT_FLOOR <= self.level() <= ENGAGEMENT_MAX
    }

    pub fn new(strategy: ResponseStrategy) -> (r: Self)
        ensures
            r.wf(),
            r.strategy() == strategy,
            r.level() == ENGAGEMENT_START,
            r.wasted() == 0,
    {
        ResponseGenerator { strategy, engagement_level: ENGAGEMENT_START, time_wasted: 0 }
    }

    /// The delay before a reply to a command of the given complexity.
    pub fn calculate_delay(&self, complexity_thousandths: u32) -> (r: u64)
        requires
            self.wf(),
            complexity_thousandths <= 1000,
        ensures
            r == delay_ms(self.strategy(), self.level(), complexity_thousandths as nat),
    {
        let base: u64 = match self.strategy {
            ResponseStrategy::Minimal => 50,
            ResponseStrategy::Standard => 200,
            ResponseStrategy::Deep => 1000,
            ResponseStrategy::Adaptive => self.engagement_level as u64 * 100,
        };
        let extra: u64 = complexity_thousandths as u64 * 500 / 1000;
        base + extra
    }

    pub fn should_provide_detailed_error(&self) -> (r: bool)
        ensures
            r == detailed_errors(self.strategy(), self.level()),
    {
        match self.strategy {
            ResponseStrategy::Minimal => false,
            ResponseStrategy::Standard => true,
            ResponseStrategy::Deep => true,
            ResponseStrategy::Adaptive => self.engagement_level > 3,
        }
    }

    pub fn should_simulate_vulnerability(&self) -> (r: bool)
        ensures
            r == simulated_vulnerabilities(self.strategy(), self.level()),
    {
        match self.strategy {
            ResponseStrategy::Minimal => false,
            ResponseStrategy::Standard => false,
            ResponseStrategy::Deep => true,
            ResponseStrategy::Adaptive => self.engagement_level > 7,
        }
    }

    /// Adjusts the engagement level to one observation of the attacker.
    pub fn update_engagement(&mut self, is_sophisticated: bool, is_automated: bool)
        requires
            old(self).wf(),
        ensures
            final(self).wf(),
            final(self).level() == engagement_after(old(self).level(), is_sophisticated, is_automated),
            final(self).strategy() == old(self).strategy(),
            final(self).wasted() == old(self).wasted(),
    {
        if is_sophisticated && !is_automated {
            self.engagement_level = if self.engagement_level + 1 > ENGAGEMENT_MAX {
                ENGAGEMENT_MAX
            } else {
                self.engagement_level + 1
            };
        } else if is_automated {
            self.engagement_level = if self.engagement_level < ENGAGEMENT_FLOOR + 2 {
                ENGAGEMENT_FLOOR
            } else {
                self.engagement_level - 2
            };
        }
    }

    /// Adds `ms` milliseconds to the time wasted.
    pub fn add_wasted_time(&mut self, ms: u64)
        requires
            old(self).wasted() + ms <= u64::MAX,
        ensures
            final(self).wasted() == old(self).wasted() + ms,
            final(self).level() == old(self).level(),
            final(self).strategy() == old(self).strategy(),
    {
        self.time_wasted = self.time_wasted + ms;
    }

    /// Milliseconds of attacker time wasted so far.
    pub fn total_time_wasted(&self) -> (r: u64)
        ensures
            r == self.wasted(),
    {
        self.time_wasted
    }

    /// The engagement level in tenths.
    pub fn engagement_level(&self) -> (r: u8)
        ensures
            r == self.level(),
    {
        self.engagement_level
    }
}

impl Default for ResponseGenerator {
    fn default() -> (r: Self)
        ensures
            r.wf(),
            r.strategy() == ResponseStrategy::Standard,
            r.level() == ENGAGEMENT_START,
            r.wasted() == 0,
    {
        Self::new(ResponseStrategy::Standard)
    }
}

/// For the same complexity, a reply under `Minimal` always comes strictly
/// sooner than under `Deep`, whatever the engagement levels.
pub proof fn lemma_minimal_faster_than_deep(level_a: u8, level_b: u8, complexity: nat)
    ensures
        delay_ms(ResponseStrategy::Minimal, level_a, complexity) < delay_ms(
            ResponseStrategy::Deep,
            level_b,
            complexity,
        ),
{
}

/// A skilled manual attacker strictly raises engagement until it reaches
/// 1.0, an automated one strictly lowers it until it reaches 0.1, and no
/// sequence of observations takes it out of that range.
pub proof fn lemma_engagement_moves_within_bounds(level: u8, is_sophisticated: bool, is_automated: bool)
    requires
        ENGAGEMENT_FLOOR <= level <= ENGAGEMENT_MAX,
    ensures
        ENGAGEMENT_FLOOR <= engagement_after(level, is_sophisticated, is_automated) <= ENGAGEMENT_MAX,
        level < ENGAGEMENT_MAX ==> engagement_after(level, true, false) > level,
        level == ENGAGEMENT_MAX ==> engagement_after(level, true, false) == ENGAGEMENT_MAX,
        level > ENGAGEMENT_FLOOR ==> engagement_after(level, false, true) < level,
        level == ENGAGEMENT_FLOOR ==> engagement_after(level, false, true) == ENGAGEMENT_FLOOR,
{
}

} // verus!
