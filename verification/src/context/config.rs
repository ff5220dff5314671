//! The settings of compression, as whole numbers.
//!
//! Shares of the context window are given in tokens: the window times its share,
//! rounded. They have a meaning only where the window is known.
use vstd::prelude::*;

use crate::context::boundary::TailMode;
use crate::context::summary;
use crate::text;
use crate::text::decimal_text;

verus! {

/// The threshold where neither the context window nor a threshold is known.
pub const DEFAULT_FALLBACK_THRESHOLD: usize = 12_000;

/// The budget of a tail measured by messages where the context window is not known.
pub const LEGACY_TAIL_BUDGET: usize = 6000;

/// The length of a summary in tokens where the context window is not known.
pub const DEFAULT_SUMMARY_TOKENS: usize = 2000;

/// The settings of compression.
#[derive(Debug, Clone, Copy, PartialEq, Eq, Structural)]
pub struct CompressionConfig {
    /// The share of the window at which compression begins.
    pub threshold_share: usize,
    /// How many messages are kept after the opening system messages.
    pub protect_first_n: usize,
    /// How many messages are kept at the end, in a tail measured by messages.
    pub protect_last_n: usize,
    /// The share of the window that a summary may take.
    pub summary_share: usize,
    /// How the tail is measured.
    pub tail_mode: TailMode,
    /// The least budget of a tail measured by tokens.
    pub lean_tail_floor: usize,
    /// The greatest budget of a tail measured by tokens.
    pub lean_tail_cap: usize,
    /// The share of the window that the tail may take.
    pub tail_share: usize,
    /// The context window of the model; zero where it is not known.
    pub context_length: usize,
    /// The threshold where the context window is not known.
    pub fallback_threshold_tokens: Option<usize>,
    /// How long no summary is asked for after a failure.
    pub cooldown_seconds: u64,
    /// How long a result may be.
    pub max_tool_output_chars: usize,
    /// From how many tokens on results are cut early; zero for never.
    pub proactive_prune_tokens: usize,
    /// How long a result may be when results are cut early.
    pub proactive_prune_min_result_chars: usize,
    /// Whether the conversation is left as it is when there is no summary.
    pub abort_on_summary_failure: bool,
    /// How many user messages the tail holds at least.
    pub min_tail_user_messages: usize,
}

/// The greater of two numbers.
pub open spec fn max_of(a: int, b: int) -> int {
    if a >= b {
        a
    } else {
        b
    }
}

/// The lesser of two numbers.
pub open spec fn min_of(a: int, b: int) -> int {
    if a <= b {
        a
    } else {
        b
    }
}

impl CompressionConfig {
    /// The tokens at which compression begins.
    pub open spec fn threshold(self) -> int {
        if self.context_length > 0 {
            max_of(self.threshold_share as int, 1)
        } else {
            match self.fallback_threshold_tokens {
                Some(n) => n as int,
                None => DEFAULT_FALLBACK_THRESHOLD as int,
            }
        }
    }

    /// The budget of the tail in tokens.
    pub open spec fn tail_budget(self) -> int {
        match self.tail_mode {
            TailMode::Lean => if self.context_length > 0 {
                max_of(
                    self.lean_tail_floor as int,
                    min_of(self.lean_tail_cap as int, self.tail_share as int),
                )
            } else {
                self.lean_tail_floor as int
            },
            TailMode::Legacy => if self.context_length > 0 {
                self.tail_share as int
            } else {
                LEGACY_TAIL_BUDGET as int
            },
        }
    }

    /// The length of a summary in tokens.
    pub open spec fn summary_tokens(self) -> int {
        if self.context_length > 0 {
            self.summary_share as int
        } else {
            DEFAULT_SUMMARY_TOKENS as int
        }
    }

    /// What is wrong with the settings.
    pub open spec fn defect(self) -> Option<Seq<char>> {
        if self.lean_tail_floor > self.lean_tail_cap {
            Some(
                "lean_tail_floor ("@ + text::decimal(self.lean_tail_floor as nat)
                    + ") must be <= lean_tail_cap ("@ + text::decimal(self.lean_tail_cap as nat)
                    + ")"@,
            )
        } else if self.context_length > 0 && self.threshold() >= self.context_length {
            Some(
                "threshold ("@ + text::decimal(self.threshold() as nat)
                    + ") must be < context_length ("@ + text::decimal(self.context_length as nat)
                    + ")"@,
            )
        } else {
            None
        }
    }

    /// Checks the settings, but for the shares themselves.
    pub fn validate(&self) -> (r: Result<(), String>)
        ensures
            match r {
                Ok(_) => self.defect() is None,
                Err(e) => self.defect() == Some(e@),
            },
    {
        if self.lean_tail_floor > self.lean_tail_cap {
            let mut s = String::from_str("lean_tail_floor (");
            s.append(decimal_text(self.lean_tail_floor as u64).as_str());
            s.append(") must be <= lean_tail_cap (");
            s.append(decimal_text(self.lean_tail_cap as u64).as_str());
            s.append(")");
            return Err(s);
        }
        let threshold: usize = self.threshold_tokens();
        if self.context_length > 0 && threshold >= self.context_length {
            let mut s = String::from_str("threshold (");
            s.append(decimal_text(threshold as u64).as_str());
            s.append(") must be < context_length (");
            s.append(decimal_text(self.context_length as u64).as_str());
            s.append(")");
            return Err(s);
        }
        Ok(())
    }

    /// The tokens at which compression begins.
    pub fn threshold_tokens(&self) -> (r: usize)
        ensures
            r == self.threshold(),
    {
        if self.context_length == 0 {
            match self.fallback_threshold_tokens {
                Some(n) => n,
                None => DEFAULT_FALLBACK_THRESHOLD,
            }
        } else if self.threshold_share >= 1 {
            self.threshold_share
        } else {
            1
        }
    }

    /// The budget of the tail in tokens.
    pub fn tail_token_budget(&self) -> (r: usize)
        ensures
            r == self.tail_budget(),
    {
        match self.tail_mode {
            TailMode::Lean => {
                if self.context_length == 0 {
                    return self.lean_tail_floor;
                }
                let capped: usize = if self.lean_tail_cap <= self.tail_share {
                    self.lean_tail_cap
                } else {
                    self.tail_share
                };
                if self.lean_tail_floor >= capped {
                    self.lean_tail_floor
                } else {
                    capped
                }
            },
            TailMode::Legacy => {
                if self.context_length == 0 {
                    LEGACY_TAIL_BUDGET
                } else {
                    self.tail_share
                }
            },
        }
    }

    /// The length of a summary in tokens.
    pub fn max_summary_tokens(&self) -> (r: usize)
        ensures
            r == self.summary_tokens(),
    {
        if self.context_length == 0 {
            DEFAULT_SUMMARY_TOKENS
        } else {
            self.summary_share
        }
    }

    /// How many characters of a conversation are given to be summarised.
    pub fn summary_input_max_chars(&self) -> (r: usize)
        ensures
            r == summary::input_max_chars(self.context_length as int),
    {
        summary::summary_input_max_chars(self.context_length)
    }
}

/// The settings where nothing is set. The shares are of no window.
pub open spec fn default_compression() -> CompressionConfig {
    CompressionConfig {
        threshold_share: 0,
        protect_first_n: 3,
        protect_last_n: 20,
        summary_share: 0,
        tail_mode: TailMode::Lean,
        lean_tail_floor: 500,
        lean_tail_cap: 4000,
        tail_share: 0,
        context_length: 0,
        fallback_threshold_tokens: None,
        cooldown_seconds: 600,
        max_tool_output_chars: 4000,
        proactive_prune_tokens: 0,
        proactive_prune_min_result_chars: 8000,
        abort_on_summary_failure: false,
        min_tail_user_messages: 1,
    }
}

impl Default for CompressionConfig {
    fn default() -> (r: Self)
        ensures
            r == default_compression(),
    {
        CompressionConfig {
            threshold_share: 0,
            protect_first_n: default_protect_first_n(),
            protect_last_n: default_protect_last_n(),
            summary_share: 0,
            tail_mode: TailMode::Lean,
            lean_tail_floor: default_lean_tail_floor(),
            lean_tail_cap: default_lean_tail_cap(),
            tail_share: 0,
            context_length: 0,
            fallback_threshold_tokens: None,
            cooldown_seconds: default_cooldown_seconds(),
            max_tool_output_chars: default_max_tool_output_chars(),
            proactive_prune_tokens: 0,
            proactive_prune_min_result_chars: default_proactive_prune_min_chars(),
            abort_on_summary_failure: false,
            min_tail_user_messages: default_min_tail_user_messages(),
        }
    }
}

/// How many messages are kept after the opening system messages.
pub fn default_protect_first_n() -> (r: usize)
    ensures
        r == 3,
{
    3
}

/// How many messages are kept at the end.
pub fn default_protect_last_n() -> (r: usize)
    ensures
        r == 20,
{
    20
}

/// The least budget of a tail measured by tokens.
pub fn default_lean_tail_floor() -> (r: usize)
    ensures
        r == 500,
{
    500
}

/// The greatest budget of a tail measured by tokens.
pub fn default_lean_tail_cap() -> (r: usize)
    ensures
        r == 4000,
{
    4000
}

/// How long no summary is asked for after a failure.
pub fn default_cooldown_seconds() -> (r: u64)
    ensures
        r == 600,
{
    600
}

/// How long a result may be.
pub fn default_max_tool_output_chars() -> (r: usize)
    ensures
        r == 4000,
{
    4000
}

/// How long a result may be when results are cut early.
pub fn default_proactive_prune_min_chars() -> (r: usize)
    ensures
        r == 8000,
{
    8000
}

/// How many user messages the tail holds at least.
pub fn default_min_tail_user_messages() -> (r: usize)
    ensures
        r == 1,
{
    1
}

/// The limits of a conversation follow the window of the model where it is known: it is
/// compressed at the share that is set, at one token at the least; the tail of a lean one
/// has its share within its bounds. Where the window is not known, fixed numbers hold.
pub proof fn limits_follow_the_window(c: CompressionConfig)
    ensures
        c.context_length > 0 && c.threshold_share > 0 ==> c.threshold() == c.threshold_share,
        c.context_length > 0 && c.threshold_share == 0 ==> c.threshold() == 1,
        c.context_length == 0 ==> (c.fallback_threshold_tokens matches Some(n) ==> c.threshold()
            == n),
        c.context_length == 0 && c.fallback_threshold_tokens is None ==> c.threshold() == 12_000,
        c.tail_mode == TailMode::Lean && c.context_length > 0 && c.lean_tail_floor
            <= c.lean_tail_cap ==> {
            &&& c.lean_tail_floor <= c.tail_budget() <= c.lean_tail_cap
            &&& c.lean_tail_floor <= c.tail_share <= c.lean_tail_cap ==> c.tail_budget()
                == c.tail_share
        },
        c.tail_mode == TailMode::Lean && c.context_length == 0 ==> c.tail_budget()
            == c.lean_tail_floor,
        c.tail_mode == TailMode::Legacy && c.context_length > 0 ==> c.tail_budget()
            == c.tail_share,
        c.tail_mode == TailMode::Legacy && c.context_length == 0 ==> c.tail_budget() == 6000,
        c.context_length > 0 ==> c.summary_tokens() == c.summary_share,
        c.context_length == 0 ==> c.summary_tokens() == 2000,
        c.defect() is None == (c.lean_tail_floor <= c.lean_tail_cap && (c.context_length > 0
            ==> c.threshold() < c.context_length)),
{
}

/// The limits of a compression that hold where none are set.
pub proof fn usual_limits_of_a_compression()
    ensures
        ({
            let c = default_compression();
            &&& c.protect_first_n == 3 && c.protect_last_n == 20
            &&& c.tail_mode == TailMode::Lean
            &&& c.lean_tail_floor == 500 && c.lean_tail_cap == 4000
            &&& c.context_length == 0
            &&& c.fallback_threshold_tokens is None
            &&& c.cooldown_seconds == 600
            &&& c.max_tool_output_chars == 4000
            &&& c.proactive_prune_tokens == 0 && c.proactive_prune_min_result_chars == 8000
            &&& !c.abort_on_summary_failure
            &&& c.min_tail_user_messages == 1
            &&& c.threshold() == 12_000
            &&& c.defect() is None
        }),
{
}

} // verus!
