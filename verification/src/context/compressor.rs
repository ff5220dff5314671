//! Compressing a conversation: results of tools are shortened, and the part between
//! the head and the tail gives way to a summary.
//!
//! A summary comes from a model, which is asked outside this library. The compression
//! therefore runs in steps: it either is done, or says what to ask, and goes on with
//! the reply.
use vstd::prelude::*;

use crate::context::boundary;
use crate::context::boundary::{compute_compress_window, CompressWindow};
use crate::context::config::CompressionConfig;
use crate::context::state::{
    CompressionFailure, CompressionState, CompressionStateSnapshot, CompressionStats,
};
use crate::context::summary;
use crate::context::summary::{
    assemble_summary_message, build_summary_prompt, fallback_summary, SummaryResult,
    TRUNCATED_SUMMARY_MARKER,
};
use crate::context::token;
use crate::context::token::{estimate_tokens, TokenTracker};
use crate::context::tool_pruning;
use crate::context::tool_pruning::{
    dedupe_tool_results, pressure_demote_tail, prune_large_skill_results, prune_tool_outputs,
    reinject_pruned_skill_markers,
};
use crate::llm;
use crate::llm::{ChatMessage, MessageModel, Role};
use crate::seqs;
use crate::text;
use crate::text::decimal_text;

verus! {

broadcast use crate::seqs::group_views;

// ---------- what is done to the messages ----------

/// The conversation with every long result cut.
pub open spec fn all_cut(msgs: Seq<MessageModel>, max: int) -> Seq<MessageModel> {
    msgs.map_values(|m: MessageModel| tool_pruning::cut_output(m, max))
}

/// The conversation with every repeated result replaced.
pub open spec fn all_deduped(msgs: Seq<MessageModel>) -> Seq<MessageModel> {
    Seq::new(msgs.len(), |i: int| tool_pruning::deduped(msgs, i))
}

/// The conversation with every large result of viewing a skill replaced.
pub open spec fn all_cleared(msgs: Seq<MessageModel>) -> Seq<MessageModel> {
    msgs.map_values(|m: MessageModel| tool_pruning::skill_cleared(msgs, m))
}

/// The conversation with every large result of the tail replaced.
pub open spec fn tail_demoted(msgs: Seq<MessageModel>, start: int, min: int) -> Seq<MessageModel> {
    Seq::new(msgs.len(), |i: int| tool_pruning::demoted(msgs, start, min, i))
}

/// The conversation once results are cut, early where that is due.
pub open spec fn cut_twice(
    msgs: Seq<MessageModel>,
    cfg: CompressionConfig,
    early: bool,
) -> Seq<MessageModel> {
    all_cut(
        if early {
            all_cut(msgs, cfg.proactive_prune_min_result_chars as int)
        } else {
            msgs
        },
        cfg.max_tool_output_chars as int,
    )
}

/// The conversation once results are cut, and repeated results and skills replaced.
pub open spec fn pruned(
    msgs: Seq<MessageModel>,
    cfg: CompressionConfig,
    early: bool,
) -> Seq<MessageModel> {
    all_cleared(all_deduped(cut_twice(msgs, cfg, early)))
}

/// The skills whose results are replaced.
pub open spec fn pruned_skills(
    msgs: Seq<MessageModel>,
    cfg: CompressionConfig,
    early: bool,
) -> Seq<Seq<char>> {
    let deduped = all_deduped(cut_twice(msgs, cfg, early));
    tool_pruning::cleared_skills(deduped, deduped.len() as int)
}

/// The window of a conversation by the settings.
pub open spec fn window(msgs: Seq<MessageModel>, cfg: CompressionConfig) -> Option<(int, int)> {
    boundary::window_of(
        msgs,
        cfg.protect_first_n as int,
        cfg.tail_mode,
        cfg.tail_budget(),
        cfg.protect_last_n as int,
        cfg.min_tail_user_messages as int,
    )
}

/// Whether large results of the tail are replaced.
pub open spec fn under_pressure(msgs: Seq<MessageModel>, cfg: CompressionConfig) -> bool {
    token::tokens_of(msgs) >= cfg.threshold()
}

/// The conversation whose window is summarised.
pub open spec fn prepared(
    msgs: Seq<MessageModel>,
    cfg: CompressionConfig,
    tail_start: int,
) -> Seq<MessageModel> {
    if under_pressure(msgs, cfg) {
        tail_demoted(msgs, tail_start, cfg.max_tool_output_chars as int)
    } else {
        msgs
    }
}

/// The conversation with a summary in the place of its window.
pub open spec fn compacted(
    msgs: Seq<MessageModel>,
    start: int,
    end: int,
    summary_text: Seq<char>,
) -> Seq<MessageModel> {
    msgs.take(start) + seq![
        llm::plain_message(Role::User, summary::framed_summary(summary_text)),
    ] + msgs.skip(end)
}

/// The summary without a model, with the marks of skills put back.
pub open spec fn own_summary(middle: Seq<MessageModel>, skills: Seq<Seq<char>>) -> Seq<char> {
    tool_pruning::reinjected(summary::fallback_text(middle), skills)
}

/// The summary of a model, with the marks of skills put back and a note where it was
/// cut short.
pub open spec fn given_summary(
    given: Seq<char>,
    truncated: bool,
    skills: Seq<Seq<char>>,
) -> Seq<char> {
    let s = tool_pruning::reinjected(given, skills);
    if truncated {
        s + "\n\n["@ + TRUNCATED_SUMMARY_MARKER@ + "]"@
    } else {
        s
    }
}

/// The statistics of a compression that has not come to a summary.
pub open spec fn stats_of_pruning(
    msgs: Seq<MessageModel>,
    cfg: CompressionConfig,
    early: bool,
) -> CompressionStats {
    let first = if early {
        all_cut(msgs, cfg.proactive_prune_min_result_chars as int)
    } else {
        msgs
    };
    let early_count = if early {
        tool_pruning::long_outputs(msgs, cfg.proactive_prune_min_result_chars as int)
    } else {
        0
    };
    CompressionStats {
        tool_outputs_pruned: (early_count + tool_pruning::long_outputs(
            first,
            cfg.max_tool_output_chars as int,
        )) as usize,
        tool_outputs_deduped: tool_pruning::repeated_outputs(cut_twice(msgs, cfg, early)) as usize,
        tail_outputs_demoted: 0,
        skill_results_pruned: pruned_skills(msgs, cfg, early).len() as usize,
        messages_before: msgs.len() as usize,
        messages_after: 0,
        tokens_before: token::tokens_of(msgs) as usize,
        tokens_after: 0,
        used_llm_summary: false,
    }
}

/// The statistics with the number of results replaced in the tail.
pub open spec fn stats_with_demoted(
    stats: CompressionStats,
    msgs: Seq<MessageModel>,
    cfg: CompressionConfig,
    tail_start: int,
) -> CompressionStats {
    CompressionStats {
        tail_outputs_demoted: if under_pressure(msgs, cfg) {
            tool_pruning::large_outputs(
                msgs,
                tail_start,
                cfg.max_tool_output_chars as int,
            ) as usize
        } else {
            0
        },
        ..stats
    }
}

/// The statistics with what the conversation has come to.
pub open spec fn stats_with_result(
    stats: CompressionStats,
    out: Seq<MessageModel>,
    used_llm_summary: bool,
) -> CompressionStats {
    CompressionStats {
        messages_after: out.len() as usize,
        tokens_after: token::tokens_of(out) as usize,
        used_llm_summary,
        ..stats
    }
}

// ---------- steps ----------

/// Which model is asked.
#[derive(Debug, Clone, Copy, PartialEq, Eq, Structural)]
pub enum SummaryRoute {
    /// The one that summarises.
    Auxiliary,
    /// The one that steps in for it.
    Fallback,
}

/// A compression that waits for a summary.
#[derive(Debug)]
pub struct PendingSummary {
    /// Which model is asked.
    pub route: SummaryRoute,
    /// What it is asked.
    pub prompt: String,
    /// How long the summary may be, in tokens.
    pub max_tokens: usize,
    /// Whether a model has already failed to give this summary.
    pub retried: bool,
    /// The conversation.
    pub messages: Vec<ChatMessage>,
    /// Its window.
    pub window: CompressWindow,
    /// The skills whose results are replaced.
    pub skills: Vec<String>,
    /// The statistics so far.
    pub stats: CompressionStats,
}

impl PendingSummary {
    /// The window lies within the conversation.
    pub open spec fn wf(self) -> bool {
        self.window.compress_start < self.window.compress_end <= self.messages@.len()
    }

    /// The messages that are summarised.
    pub open spec fn middle(self) -> Seq<MessageModel> {
        self.messages.deep_view().subrange(
            self.window.compress_start as int,
            self.window.compress_end as int,
        )
    }

    /// The conversation with that summary in the place of the window.
    pub open spec fn with_summary(self, summary_text: Seq<char>) -> Seq<MessageModel> {
        compacted(
            self.messages.deep_view(),
            self.window.compress_start as int,
            self.window.compress_end as int,
            summary_text,
        )
    }
}

/// How a compression goes on.
#[derive(Debug)]
pub enum CompressStep {
    /// The conversation to go on with.
    Done(Vec<ChatMessage>),
    /// A model is to be asked.
    Ask(PendingSummary),
}

/// Whether a conversation is to be compressed, and why.
#[derive(Debug, PartialEq, Eq)]
pub struct CompressPreflight {
    pub should_compress: bool,
    pub reason: String,
}

/// How near a conversation is to being compressed.
#[derive(Debug, Clone, Copy, PartialEq, Eq, Structural)]
pub struct EngineStatus {
    pub last_prompt_tokens: usize,
    pub threshold_tokens: usize,
    /// Four fifths of the threshold are reached.
    pub approaching_limit: bool,
}

/// The engine that compresses conversations.
#[derive(Debug)]
pub struct ContextCompressor {
    /// The settings.
    pub config: CompressionConfig,
    /// Whether there is a model that summarises.
    pub has_auxiliary: bool,
    /// Whether there is a model that steps in for it.
    pub has_fallback: bool,
    /// Whether the next summary goes to the model that steps in.
    pub pinned: bool,
    /// How summaries have gone.
    pub state: CompressionState,
    /// The tokens that were reported.
    pub tracker: TokenTracker,
    /// What the last compression did.
    pub last_stats: CompressionStats,
}

impl ContextCompressor {
    /// Results are cut early.
    pub open spec fn prunes_early(self, msgs: Seq<MessageModel>) -> bool {
        self.config.proactive_prune_tokens > 0 && self.tracker.tokens(msgs)
            >= self.config.proactive_prune_tokens
    }

    /// A conversation is to be compressed: it has at least four messages and has
    /// reached the threshold.
    pub open spec fn is_due(self, msgs: Seq<MessageModel>) -> bool {
        msgs.len() >= 4 && self.tracker.tokens(msgs) >= self.config.threshold()
    }

    /// The model that is asked first at that moment.
    pub open spec fn first_route(self, now_ms: u64) -> Option<SummaryRoute> {
        if self.state.skips(now_ms) {
            None
        } else if self.pinned {
            Some(SummaryRoute::Fallback)
        } else if self.has_auxiliary {
            Some(SummaryRoute::Auxiliary)
        } else {
            None
        }
    }

    /// An engine whose settings hold together. A threshold that reaches the context
    /// window would never or always call for compression.
    pub fn with_fallback(
        config: CompressionConfig,
        has_auxiliary: bool,
        has_fallback: bool,
    ) -> (r: Self)
        requires
            config.context_length > 0 ==> config.threshold() < config.context_length,
        ensures
            r.config == config,
            r.has_auxiliary == has_auxiliary,
            r.has_fallback == has_fallback,
            !r.pinned,
            r.state.is_new(),
            r.tracker == (TokenTracker {
                last_prompt_tokens: 0,
                last_completion_tokens: 0,
                last_total_tokens: 0,
                last_message_count: 0,
            }),
            r.last_stats == crate::context::state::no_stats(),
    {
        ContextCompressor {
            config,
            has_auxiliary,
            has_fallback,
            pinned: false,
            state: CompressionState::new(),
            tracker: TokenTracker::new(),
            last_stats: CompressionStats::default(),
        }
    }

    /// An engine without a model that steps in.
    pub fn new(config: CompressionConfig, has_auxiliary: bool) -> (r: Self)
        requires
            config.context_length > 0 ==> config.threshold() < config.context_length,
        ensures
            r.config == config,
            r.has_auxiliary == has_auxiliary,
            !r.has_fallback,
            !r.pinned,
            r.state.is_new(),
            r.tracker == (TokenTracker {
                last_prompt_tokens: 0,
                last_completion_tokens: 0,
                last_total_tokens: 0,
                last_message_count: 0,
            }),
            r.last_stats == crate::context::state::no_stats(),
    {
        ContextCompressor::with_fallback(config, has_auxiliary, false)
    }

    /// Sends the next summary to the model that steps in, where there is one.
    pub fn pin_summary_route(&mut self)
        ensures
            final(self).pinned == (old(self).pinned || old(self).has_fallback),
            final(self).config == old(self).config,
            final(self).has_auxiliary == old(self).has_auxiliary,
            final(self).has_fallback == old(self).has_fallback,
            final(self).state == old(self).state,
            final(self).tracker == old(self).tracker,
            final(self).last_stats == old(self).last_stats,
    {
        if self.has_fallback {
            self.pinned = true;
        }
    }

    /// Whether a conversation is to be compressed.
    pub fn should_compress(&self, messages: &[ChatMessage]) -> (r: bool)
        ensures
            r == self.is_due(messages.deep_view()),
    {
        if messages.len() < 4 {
            return false;
        }
        self.tracker.current_tokens(messages) >= self.config.threshold_tokens()
    }

    /// Whether a conversation is to be compressed, and why.
    pub fn should_compress_preflight(&self, messages: &[ChatMessage]) -> (r: CompressPreflight)
        ensures
            r.should_compress == self.is_due(messages.deep_view()),
            r.reason@ == if r.should_compress {
                "token threshold exceeded ("@ + text::decimal(
                    self.tracker.tokens(messages.deep_view()) as nat,
                ) + " >= "@ + text::decimal(self.config.threshold() as nat) + ")"@
            } else {
                "within budget"@
            },
    {
        if self.should_compress(messages) {
            let mut reason = String::from_str("token threshold exceeded (");
            reason.append(decimal_text(self.tracker.current_tokens(messages) as u64).as_str());
            reason.append(" >= ");
            reason.append(decimal_text(self.config.threshold_tokens() as u64).as_str());
            reason.append(")");
            CompressPreflight { should_compress: true, reason }
        } else {
            CompressPreflight {
                should_compress: false,
                reason: String::from_str("within budget"),
            }
        }
    }

    /// Four fifths of the threshold are reached.
    pub open spec fn is_near(self, msgs: Seq<MessageModel>) -> bool {
        self.config.threshold() > 0 && self.tracker.tokens(msgs) * 5 >= self.config.threshold()
            * 4
    }

    /// How near a conversation is to being compressed.
    pub fn get_status(&self, messages: &[ChatMessage]) -> (r: EngineStatus)
        ensures
            r.last_prompt_tokens == self.tracker.tokens(messages.deep_view()),
            r.threshold_tokens == self.config.threshold(),
            r.approaching_limit == self.is_near(messages.deep_view()),
    {
        let last_prompt_tokens: usize = self.tracker.current_tokens(messages);
        let threshold_tokens: usize = self.config.threshold_tokens();
        EngineStatus {
            last_prompt_tokens,
            threshold_tokens,
            approaching_limit: threshold_tokens > 0 && last_prompt_tokens as u128 * 5
                >= threshold_tokens as u128 * 4,
        }
    }

    /// The conversation before a call of the model: its results are shortened where it
    /// comes near the threshold without reaching it.
    pub open spec fn lightened(self, msgs: Seq<MessageModel>) -> Seq<MessageModel> {
        if self.is_near(msgs) && !self.is_due(msgs) {
            all_deduped(all_cut(msgs, self.config.max_tool_output_chars as int))
        } else {
            msgs
        }
    }

    /// The conversation before a call of the model, and whether it is to be compressed
    /// first.
    pub fn preflight(&self, messages: Vec<ChatMessage>) -> (r: (Vec<ChatMessage>, bool))
        ensures
            r.0.deep_view() == self.lightened(messages.deep_view()),
            r.1 == self.is_due(r.0.deep_view()),
    {
        let status = self.get_status(messages.as_slice());
        let due = self.should_compress(messages.as_slice());
        let messages = if status.approaching_limit && !due {
            self.prune_tool_results_only(messages)
        } else {
            messages
        };
        let due = self.should_compress(messages.as_slice());
        (messages, due)
    }

    /// Cuts long results and replaces repeated ones, without a summary.
    pub fn prune_tool_results_only(&self, messages: Vec<ChatMessage>) -> (r: Vec<ChatMessage>)
        ensures
            r.deep_view() == all_deduped(
                all_cut(messages.deep_view(), self.config.max_tool_output_chars as int),
            ),
    {
        let mut messages = messages;
        prune_tool_outputs(&mut messages, self.config.max_tool_output_chars);
        dedupe_tool_results(&mut messages);
        let ghost out = messages.deep_view();
        let n: usize = messages.len();
        pressure_demote_tail(&mut messages, n, self.config.max_tool_output_chars);
        assert(messages.deep_view() =~= out);
        messages
    }

    /// Begins to compress a conversation.
    ///
    /// An empty conversation is left alone. One without a window comes back with its
    /// results shortened. Otherwise the window is summarised: by a model, which is to
    /// be asked, or without one where there is none or none is to be asked now.
    pub fn begin(
        &mut self,
        messages: Vec<ChatMessage>,
        memory_context: Option<&str>,
        now_ms: u64,
    ) -> (r: Option<CompressStep>)
        requires
            messages@.len() <= usize::MAX / 2,
        ensures
            final(self).config == old(self).config,
            final(self).has_auxiliary == old(self).has_auxiliary,
            final(self).has_fallback == old(self).has_fallback,
            final(self).state == old(self).state,
            ({
                let msgs = messages.deep_view();
                let cfg = old(self).config;
                let early = old(self).prunes_early(msgs);
                let short = pruned(msgs, cfg, early);
                let skills = pruned_skills(msgs, cfg, early);
                let stats = stats_of_pruning(msgs, cfg, early);
                if msgs.len() == 0 {
                    &&& r is None
                    &&& final(self).pinned == old(self).pinned
                    &&& final(self).tracker == old(self).tracker
                    &&& final(self).last_stats == old(self).last_stats
                } else {
                    match window(short, cfg) {
                        None => {
                            &&& r matches Some(CompressStep::Done(out))
                            &&& out.deep_view() == short
                            &&& final(self).pinned == old(self).pinned
                            &&& final(self).tracker == old(self).tracker
                            &&& final(self).last_stats == stats_with_result(stats, short, false)
                        },
                        Some((start, end)) => {
                            let ready = prepared(short, cfg, end);
                            let middle = ready.subrange(start, end);
                            let stats = stats_with_demoted(stats, short, cfg, end);
                            &&& !final(self).pinned
                            &&& match old(self).first_route(now_ms) {
                                Some(route) => {
                                    &&& r matches Some(CompressStep::Ask(p))
                                    &&& p.wf()
                                    &&& p.route == route
                                    &&& p.prompt@ == summary::summary_prompt(
                                        middle,
                                        old(self).state.previous_summary.deep_view(),
                                        memory_context.deep_view(),
                                        summary::input_max_chars(cfg.context_length as int),
                                    )
                                    &&& p.max_tokens == cfg.summary_tokens()
                                    &&& !p.retried
                                    &&& p.messages.deep_view() == ready
                                    &&& p.window.compress_start == start
                                    &&& p.window.compress_end == end
                                    &&& p.skills.deep_view() == skills
                                    &&& p.stats == stats
                                    &&& final(self).tracker == old(self).tracker
                                    &&& final(self).last_stats == old(self).last_stats
                                },
                                None => {
                                    let done = compacted(
                                        ready,
                                        start,
                                        end,
                                        own_summary(middle, skills),
                                    );
                                    &&& r matches Some(CompressStep::Done(out))
                                    &&& out.deep_view() == done
                                    &&& final(self).tracker == (TokenTracker {
                                        last_prompt_tokens: 0,
                                        last_message_count: 0,
                                        ..old(self).tracker
                                    })
                                    &&& final(self).last_stats == stats_with_result(
                                        stats,
                                        done,
                                        false,
                                    )
                                },
                            }
                        },
                    }
                }
            }),
    {
        if messages.len() == 0 {
            return None;
        }
        let ghost msgs = messages.deep_view();
        let cfg = self.config;
        let mut stats = CompressionStats::default();
        stats.messages_before = messages.len();
        stats.tokens_before = estimate_tokens(messages.as_slice());
        let early = cfg.proactive_prune_tokens > 0 && self.tracker.current_tokens(
            messages.as_slice(),
        ) >= cfg.proactive_prune_tokens;
        let mut messages = messages;
        if early {
            stats.tool_outputs_pruned = prune_tool_outputs(
                &mut messages,
                cfg.proactive_prune_min_result_chars,
            );
        }
        let cut_count: usize = prune_tool_outputs(&mut messages, cfg.max_tool_output_chars);
        stats.tool_outputs_pruned = stats.tool_outputs_pruned + cut_count;
        assert(messages.deep_view() == cut_twice(msgs, cfg, early));
        stats.tool_outputs_deduped = dedupe_tool_results(&mut messages);
        assert(messages.deep_view() == all_deduped(cut_twice(msgs, cfg, early)));
        let (skill_count, skills) = prune_large_skill_results(&mut messages);
        stats.skill_results_pruned = skill_count;
        let ghost short = messages.deep_view();
        assert(short == pruned(msgs, cfg, early));
        assert(skills.deep_view() == pruned_skills(msgs, cfg, early));
        assert(stats == stats_of_pruning(msgs, cfg, early));
        let found = compute_compress_window(
            messages.as_slice(),
            cfg.protect_first_n,
            cfg.tail_mode,
            cfg.tail_token_budget(),
            cfg.protect_last_n,
            cfg.min_tail_user_messages,
        );
        match found {
            None => {
                stats.messages_after = messages.len();
                stats.tokens_after = estimate_tokens(messages.as_slice());
                self.last_stats = stats;
                Some(CompressStep::Done(messages))
            },
            Some(window) => {
                let current: usize = estimate_tokens(messages.as_slice());
                if current >= cfg.threshold_tokens() {
                    stats.tail_outputs_demoted = pressure_demote_tail(
                        &mut messages,
                        window.compress_end,
                        cfg.max_tool_output_chars,
                    );
                }
                let ghost ready = messages.deep_view();
                assert(ready == prepared(short, cfg, window.compress_end as int));
                let middle = vstd::slice::slice_subrange(
                    messages.as_slice(),
                    window.compress_start,
                    window.compress_end,
                );
                let skip = self.state.should_skip_llm_summary_at(now_ms);
                let pinned = self.pinned;
                self.pinned = false;
                let route: Option<SummaryRoute> = if skip {
                    None
                } else if pinned {
                    Some(SummaryRoute::Fallback)
                } else if self.has_auxiliary {
                    Some(SummaryRoute::Auxiliary)
                } else {
                    None
                };
                match route {
                    Some(route) => {
                        let previous: Option<&str> = match &self.state.previous_summary {
                            Some(s) => Some(s.as_str()),
                            None => None,
                        };
                        let prompt = build_summary_prompt(
                            middle,
                            previous,
                            memory_context,
                            cfg.summary_input_max_chars(),
                        );
                        Some(
                            CompressStep::Ask(
                                PendingSummary {
                                    route,
                                    prompt,
                                    max_tokens: cfg.max_summary_tokens(),
                                    retried: false,
                                    messages,
                                    window,
                                    skills,
                                    stats,
                                },
                            ),
                        )
                    },
                    None => {
                        let own = fallback_summary(middle);
                        let summary_text = reinject_pruned_skill_markers(
                            own.as_str(),
                            skills.as_slice(),
                        );
                        let out = self.finish(
                            messages,
                            window,
                            summary_text.as_str(),
                            stats,
                            false,
                        );
                        Some(CompressStep::Done(out))
                    },
                }
            },
        }
    }

    /// Puts a summary in the place of the window and notes what was done.
    fn finish(
        &mut self,
        messages: Vec<ChatMessage>,
        window: CompressWindow,
        summary_text: &str,
        stats: CompressionStats,
        used_llm_summary: bool,
    ) -> (out: Vec<ChatMessage>)
        requires
            window.compress_start < window.compress_end <= messages@.len(),
        ensures
            out.deep_view() == compacted(
                messages.deep_view(),
                window.compress_start as int,
                window.compress_end as int,
                summary_text@,
            ),
            final(self).config == old(self).config,
            final(self).has_auxiliary == old(self).has_auxiliary,
            final(self).has_fallback == old(self).has_fallback,
            final(self).pinned == old(self).pinned,
            final(self).state == old(self).state,
            final(self).tracker == (TokenTracker {
                last_prompt_tokens: 0,
                last_message_count: 0,
                ..old(self).tracker
            }),
            final(self).last_stats == stats_with_result(stats, out.deep_view(), used_llm_summary),
    {
        let ghost msgs = messages.deep_view();
        let mut out: Vec<ChatMessage> = Vec::new();
        let mut i: usize = 0;
        while i < window.compress_start
            invariant
                i <= window.compress_start <= messages@.len(),
                msgs == messages.deep_view(),
                out.deep_view() == msgs.take(i as int),
            decreases window.compress_start - i,
        {
            out.push(messages[i].clone());
            i += 1;
            assert(msgs.take(i as int) =~= msgs.take(i - 1).push(msgs[i - 1]));
        }
        out.push(ChatMessage::user(assemble_summary_message(summary_text)));
        let ghost head = out.deep_view();
        let ghost note = llm::plain_message(Role::User, summary::framed_summary(summary_text@));
        assert(head =~= msgs.take(window.compress_start as int) + seq![note]);
        let mut k: usize = window.compress_end;
        assert(head + msgs.subrange(window.compress_end as int, k as int) =~= head);
        while k < messages.len()
            invariant
                window.compress_end <= k <= messages@.len(),
                msgs == messages.deep_view(),
                out.deep_view() == head + msgs.subrange(window.compress_end as int, k as int),
            decreases messages@.len() - k,
        {
            out.push(messages[k].clone());
            k += 1;
            assert(head + msgs.subrange(window.compress_end as int, k as int) =~= (head
                + msgs.subrange(window.compress_end as int, k - 1)).push(msgs[k - 1]));
        }
        assert(out.deep_view() =~= compacted(
            msgs,
            window.compress_start as int,
            window.compress_end as int,
            summary_text@,
        ));
        let mut stats = stats;
        stats.messages_after = out.len();
        stats.tokens_after = estimate_tokens(out.as_slice());
        stats.used_llm_summary = used_llm_summary;
        self.last_stats = stats;
        self.tracker.reset_cache();
        out
    }

    /// Goes on with the reply of the model.
    ///
    /// A summary takes the place of the window, and is remembered unless it was cut
    /// short. Without one the model that steps in is asked once; failing that the
    /// failure is noted, and the conversation is left with its results shortened or
    /// summarised without a model, as the settings say.
    pub fn resume(
        &mut self,
        pending: PendingSummary,
        reply: Result<SummaryResult, CompressionFailure>,
        now_ms: u64,
    ) -> (r: CompressStep)
        requires
            pending.wf(),
            old(self).state.consecutive_failures < usize::MAX,
        ensures
            final(self).config == old(self).config,
            final(self).has_auxiliary == old(self).has_auxiliary,
            final(self).has_fallback == old(self).has_fallback,
            final(self).pinned == old(self).pinned,
            ({
                let skills = pending.skills.deep_view();
                let forgotten = TokenTracker {
                    last_prompt_tokens: 0,
                    last_message_count: 0,
                    ..old(self).tracker
                };
                match reply {
                    Ok(given) => {
                        let s = given_summary(given.text@, given.truncated, skills);
                        let done = pending.with_summary(s);
                        &&& r matches CompressStep::Done(out)
                        &&& out.deep_view() == done
                        &&& if given.truncated {
                            final(self).state == old(self).state
                        } else {
                            final(self).state.is_succeeded(s)
                        }
                        &&& final(self).tracker == forgotten
                        &&& final(self).last_stats == stats_with_result(pending.stats, done, true)
                    },
                    Err(_) => if !pending.retried && old(self).has_fallback {
                        &&& r matches CompressStep::Ask(p)
                        &&& p.wf()
                        &&& p.route == SummaryRoute::Fallback
                        &&& p.retried
                        &&& p.prompt == pending.prompt
                        &&& p.max_tokens == pending.max_tokens
                        &&& p.messages == pending.messages
                        &&& p.window == pending.window
                        &&& p.skills == pending.skills
                        &&& p.stats == pending.stats
                        &&& final(self).state == old(self).state
                        &&& final(self).tracker == old(self).tracker
                        &&& final(self).last_stats == old(self).last_stats
                    } else {
                        &&& final(self).state.is_failed(
                            old(self).state,
                            now_ms,
                            old(self).config.cooldown_seconds,
                        )
                        &&& if old(self).config.abort_on_summary_failure {
                            &&& r matches CompressStep::Done(out)
                            &&& out == pending.messages
                            &&& final(self).tracker == old(self).tracker
                            &&& final(self).last_stats == stats_with_result(
                                pending.stats,
                                out.deep_view(),
                                false,
                            )
                        } else {
                            let done = pending.with_summary(own_summary(pending.middle(), skills));
                            &&& r matches CompressStep::Done(out)
                            &&& out.deep_view() == done
                            &&& final(self).tracker == forgotten
                            &&& final(self).last_stats == stats_with_result(
                                pending.stats,
                                done,
                                false,
                            )
                        }
                    },
                }
            }),
    {
        match reply {
            Ok(given) => {
                let mut s = reinject_pruned_skill_markers(
                    given.text.as_str(),
                    pending.skills.as_slice(),
                );
                if given.truncated {
                    s.append("\n\n[");
                    s.append(TRUNCATED_SUMMARY_MARKER);
                    s.append("]");
                } else {
                    self.state.mark_success(s.clone());
                }
                let out = self.finish(
                    pending.messages,
                    pending.window,
                    s.as_str(),
                    pending.stats,
                    true,
                );
                CompressStep::Done(out)
            },
            Err(_) => {
                if !pending.retried && self.has_fallback {
                    let mut next = pending;
                    next.route = SummaryRoute::Fallback;
                    next.retried = true;
                    return CompressStep::Ask(next);
                }
                self.state.mark_failure_at(now_ms, self.config.cooldown_seconds);
                if self.config.abort_on_summary_failure {
                    let mut stats = pending.stats;
                    stats.messages_after = pending.messages.len();
                    stats.tokens_after = estimate_tokens(pending.messages.as_slice());
                    stats.used_llm_summary = false;
                    self.last_stats = stats;
                    return CompressStep::Done(pending.messages);
                }
                let middle = vstd::slice::slice_subrange(
                    pending.messages.as_slice(),
                    pending.window.compress_start,
                    pending.window.compress_end,
                );
                let own = fallback_summary(middle);
                let s = reinject_pruned_skill_markers(own.as_str(), pending.skills.as_slice());
                let out = self.finish(
                    pending.messages,
                    pending.window,
                    s.as_str(),
                    pending.stats,
                    false,
                );
                CompressStep::Done(out)
            },
        }
    }

    /// Takes up the counts of a response.
    pub fn record_token_usage(&mut self, prompt_tokens: usize, completion_tokens: usize)
        requires
            prompt_tokens + completion_tokens <= usize::MAX,
        ensures
            final(self).tracker == (TokenTracker {
                last_prompt_tokens: prompt_tokens,
                last_completion_tokens: completion_tokens,
                last_total_tokens: (prompt_tokens + completion_tokens) as usize,
                last_message_count: old(self).tracker.last_message_count,
            }),
            final(self).config == old(self).config,
            final(self).state == old(self).state,
            final(self).last_stats == old(self).last_stats,
            final(self).pinned == old(self).pinned,
            final(self).has_auxiliary == old(self).has_auxiliary,
            final(self).has_fallback == old(self).has_fallback,
    {
        self.tracker.update_from_response(prompt_tokens, completion_tokens);
    }

    /// Notes how many messages the conversation had when the counts were taken up.
    pub fn note_message_count(&mut self, count: usize)
        ensures
            final(self).tracker == (TokenTracker {
                last_message_count: count,
                ..old(self).tracker
            }),
            final(self).config == old(self).config,
            final(self).state == old(self).state,
            final(self).last_stats == old(self).last_stats,
            final(self).pinned == old(self).pinned,
            final(self).has_auxiliary == old(self).has_auxiliary,
            final(self).has_fallback == old(self).has_fallback,
    {
        self.tracker.note_message_count(count);
    }

    /// What the last compression did.
    pub fn stats(&self) -> (r: CompressionStats)
        ensures
            r == self.last_stats,
    {
        self.last_stats
    }

    /// What is stored of the engine with a checkpoint.
    pub fn snapshot_state(&self) -> (r: CompressionStateSnapshot)
        ensures
            exists|now_ms: u64| r == self.state.stored(now_ms),
    {
        self.state.snapshot()
    }

    /// Takes a stored state up again.
    pub fn restore_state(&mut self, snapshot: CompressionStateSnapshot)
        ensures
            exists|now_ms: u64| final(self).state.is_restored(snapshot, now_ms),
            final(self).config == old(self).config,
            final(self).tracker == old(self).tracker,
            final(self).last_stats == old(self).last_stats,
            final(self).pinned == old(self).pinned,
            final(self).has_auxiliary == old(self).has_auxiliary,
            final(self).has_fallback == old(self).has_fallback,
    {
        self.state = CompressionState::restore(snapshot);
    }

    /// Returns to the state of a new session.
    pub fn reset(&mut self)
        ensures
            final(self).state.is_new(),
            final(self).tracker == (TokenTracker {
                last_prompt_tokens: 0,
                last_completion_tokens: 0,
                last_total_tokens: 0,
                last_message_count: 0,
            }),
            final(self).last_stats == crate::context::state::no_stats(),
            final(self).config == old(self).config,
            final(self).pinned == old(self).pinned,
            final(self).has_auxiliary == old(self).has_auxiliary,
            final(self).has_fallback == old(self).has_fallback,
    {
        self.state.reset();
        self.tracker = TokenTracker::new();
        self.last_stats = CompressionStats::default();
    }

    /// Takes up the context window of another model and the shares of it, where the
    /// window is known.
    pub fn update_model(
        &mut self,
        context_length: Option<usize>,
        threshold_share: usize,
        tail_share: usize,
        summary_share: usize,
    )
        ensures
            final(self).config == match context_length {
                Some(n) if n > 0 => (CompressionConfig {
                    context_length: n,
                    threshold_share,
                    tail_share,
                    summary_share,
                    ..old(self).config
                }),
                _ => old(self).config,
            },
            final(self).state == old(self).state,
            final(self).tracker == old(self).tracker,
            final(self).last_stats == old(self).last_stats,
            final(self).pinned == old(self).pinned,
            final(self).has_auxiliary == old(self).has_auxiliary,
            final(self).has_fallback == old(self).has_fallback,
    {
        if let Some(n) = context_length {
            if n > 0 {
                self.config.context_length = n;
                self.config.threshold_share = threshold_share;
                self.config.tail_share = tail_share;
                self.config.summary_share = summary_share;
            }
        }
    }
}

// ---------- what compression keeps ----------

/// One message is another but for the text of a result.
pub open spec fn same_but_result(a: MessageModel, b: MessageModel) -> bool {
    &&& a.role == b.role
    &&& a.tool_calls == b.tool_calls
    &&& a.tool_call_id == b.tool_call_id
    &&& a.content is Some == b.content is Some
    &&& a.role != Role::Tool ==> a == b
}

/// Shortening results adds, drops and moves no message, and changes nothing but the
/// text of results.
pub proof fn pruning_changes_only_results(
    msgs: Seq<MessageModel>,
    cfg: CompressionConfig,
    early: bool,
    tail_start: int,
)
    ensures
        pruned(msgs, cfg, early).len() == msgs.len(),
        prepared(pruned(msgs, cfg, early), cfg, tail_start).len() == msgs.len(),
        forall|i: int|
            0 <= i < msgs.len() ==> same_but_result(
                #[trigger] pruned(msgs, cfg, early)[i],
                msgs[i],
            ),
        forall|i: int|
            0 <= i < msgs.len() ==> same_but_result(
                #[trigger] prepared(pruned(msgs, cfg, early), cfg, tail_start)[i],
                msgs[i],
            ),
{
    let first = if early {
        all_cut(msgs, cfg.proactive_prune_min_result_chars as int)
    } else {
        msgs
    };
    let cut = cut_twice(msgs, cfg, early);
    let deduped = all_deduped(cut);
    let short = pruned(msgs, cfg, early);
    assert forall|i: int| 0 <= i < msgs.len() implies same_but_result(#[trigger] short[i], msgs[i]) by {
        assert(same_but_result(first[i], msgs[i]));
        assert(same_but_result(cut[i], first[i]));
        assert(same_but_result(deduped[i], cut[i]));
        assert(same_but_result(short[i], deduped[i]));
    }
    let ready = prepared(short, cfg, tail_start);
    assert forall|i: int| 0 <= i < msgs.len() implies same_but_result(#[trigger] ready[i], msgs[i]) by {
        assert(same_but_result(short[i], msgs[i]));
        assert(same_but_result(ready[i], short[i]));
    }
}

/// A compressed conversation is shorter by all but one message of the window. Its head
/// and its tail are those of the conversation, and it holds a user message, the
/// summary, between them.
pub proof fn compacting_keeps_head_and_tail(
    msgs: Seq<MessageModel>,
    start: int,
    end: int,
    summary_text: Seq<char>,
)
    requires
        0 <= start < end <= msgs.len(),
    ensures
        ({
            let out = compacted(msgs, start, end, summary_text);
            &&& out.len() == msgs.len() - (end - start) + 1
            &&& out.len() <= msgs.len()
            &&& out.take(start) == msgs.take(start)
            &&& out.skip(start + 1) == msgs.skip(end)
            &&& out[start].role == Role::User
            &&& out[start].text() == summary::framed_summary(summary_text)
        }),
{
    let out = compacted(msgs, start, end, summary_text);
    assert(out.take(start) =~= msgs.take(start));
    assert(out.skip(start + 1) =~= msgs.skip(end));
}

/// Whatever the summary, a compressed conversation opens with the same system messages
/// and the same protected messages, but for the text of results, and its tail begins
/// with no result of a tool while another message follows.
pub proof fn compression_keeps_protected_messages(
    msgs: Seq<MessageModel>,
    cfg: CompressionConfig,
    early: bool,
    summary_text: Seq<char>,
)
    requires
        window(pruned(msgs, cfg, early), cfg) is Some,
    ensures
        ({
            let short = pruned(msgs, cfg, early);
            let (start, end) = window(short, cfg)->0;
            let out = compacted(prepared(short, cfg, end), start, end, summary_text);
            &&& start >= boundary::leading_system(short) + cfg.protect_first_n
            &&& forall|i: int| 0 <= i < start ==> same_but_result(#[trigger] out[i], msgs[i])
            &&& forall|i: int|
                start < i < out.len() ==> same_but_result(
                    #[trigger] out[i],
                    msgs[i - start - 1 + end],
                )
            &&& start + 1 < out.len() && out[start + 1].role == Role::Tool ==> forall|i: int|
                start < i < out.len() ==> (#[trigger] out[i]).role == Role::Tool
        }),
{
    let short = pruned(msgs, cfg, early);
    let (start, end) = window(short, cfg)->0;
    let ready = prepared(short, cfg, end);
    let out = compacted(ready, start, end, summary_text);
    pruning_changes_only_results(msgs, cfg, early, end);
    boundary::window_keeps_head_and_tail(
        short,
        cfg.protect_first_n as int,
        cfg.tail_mode,
        cfg.tail_budget(),
        cfg.protect_last_n as int,
        cfg.min_tail_user_messages as int,
    );
    boundary::tail_starts_past_tool_results(
        short,
        cfg.tail_mode,
        cfg.tail_budget(),
        cfg.protect_last_n as int,
        cfg.min_tail_user_messages as int,
    );
    assert forall|i: int| 0 <= i < start implies same_but_result(#[trigger] out[i], msgs[i]) by {
        assert(out[i] == ready[i]);
    }
    assert forall|i: int| start < i < out.len() implies same_but_result(
        #[trigger] out[i],
        msgs[i - start - 1 + end],
    ) by {
        assert(out[i] == ready[i - start - 1 + end]);
    }
    if start + 1 < out.len() && out[start + 1].role == Role::Tool {
        assert(out[start + 1] == ready[end]);
        assert(same_but_result(short[end], msgs[end]));
        assert forall|i: int| start < i < out.len() implies (#[trigger] out[i]).role
            == Role::Tool by {
            let k = i - start - 1 + end;
            assert(out[i] == ready[k]);
            assert(same_but_result(short[k], msgs[k]));
            assert(short[k].role == Role::Tool);
        }
    }
}

/// A conversation is compressed where it has four messages or more and its tokens have
/// reached the threshold; results are shortened before where early shortening is switched on
/// and its own threshold reached, or where four fifths of the threshold are.
pub proof fn compression_is_due_at_the_threshold(c: ContextCompressor, msgs: Seq<MessageModel>)
    ensures
        msgs.len() >= 4 && c.tracker.tokens(msgs) >= c.config.threshold() ==> c.is_due(msgs),
        msgs.len() < 4 || c.tracker.tokens(msgs) < c.config.threshold() ==> !c.is_due(msgs),
        c.config.proactive_prune_tokens == 0 ==> !c.prunes_early(msgs),
        c.config.proactive_prune_tokens > 0 ==> c.prunes_early(msgs) == (c.tracker.tokens(msgs)
            >= c.config.proactive_prune_tokens),
        c.config.threshold() > 0 ==> c.is_near(msgs) == (5 * c.tracker.tokens(msgs) >= 4
            * c.config.threshold()),
        c.is_due(msgs) ==> c.lightened(msgs) == msgs,
        !c.is_near(msgs) ==> c.lightened(msgs) == msgs,
{
}

/// A model is asked for a summary where there is one to ask and the asking is not paused:
/// the second one where the first was found wanting, else the first.
pub proof fn who_is_asked_for_a_summary(c: ContextCompressor, now_ms: u64)
    ensures
        c.state.skips(now_ms) ==> c.first_route(now_ms) is None,
        !c.state.skips(now_ms) && c.pinned ==> c.first_route(now_ms) == Some(
            SummaryRoute::Fallback,
        ),
        !c.state.skips(now_ms) && !c.pinned && c.has_auxiliary ==> c.first_route(now_ms) == Some(
            SummaryRoute::Auxiliary,
        ),
        !c.pinned && !c.has_auxiliary ==> c.first_route(now_ms) is None,
{
}

/// What takes the place of the messages that are summed up begins with the summary that was
/// given, or with the one that is made without a model; one that was cut short is marked.
pub proof fn the_summary_given_is_the_one_kept(
    given: Seq<char>,
    truncated: bool,
    skills: Seq<Seq<char>>,
    middle: Seq<MessageModel>,
)
    ensures
        text::starts_with(given_summary(given, truncated, skills), given),
        !truncated && skills.len() == 0 ==> given_summary(given, truncated, skills) == given,
        truncated ==> text::ends_with(
            given_summary(given, truncated, skills),
            "[finish_reason=length]"@,
        ),
        text::starts_with(own_summary(middle, skills), summary::fallback_text(middle)),
{
    tool_pruning::a_summary_keeps_its_text(given, skills);
    tool_pruning::a_summary_keeps_its_text(summary::fallback_text(middle), skills);
    let s = tool_pruning::reinjected(given, skills);
    let g = given_summary(given, truncated, skills);
    assert(g.subrange(0, given.len() as int) =~= s.subrange(0, given.len() as int));
    if truncated {
        let mark = "[finish_reason=length]"@;
        reveal_strlit("[finish_reason=length]");
        reveal_strlit("finish_reason=length");
        reveal_strlit("\n\n[");
        reveal_strlit("]");
        assert(g.subrange(g.len() - mark.len(), g.len() as int) =~= mark);
    }
}

/// A cut result is longer than it may be; one that is not is as it was.
proof fn short_after_cutting(m: MessageModel, max: int)
    requires
        0 <= max,
        m.role == Role::Tool,
        tool_pruning::cut_output(m, max).text().len() <= max,
    ensures
        tool_pruning::cut_output(m, max) == m,
{
    tool_pruning::only_long_results_are_cut(m, max);
}

/// Results that are short and that no later result repeats are still there, unchanged, in the
/// conversation that a summary is made of.
pub proof fn short_results_stay(
    msgs: Seq<MessageModel>,
    cfg: CompressionConfig,
    early: bool,
    i: int,
)
    requires
        0 <= i < msgs.len(),
        msgs[i].role == Role::Tool,
        msgs[i].text().len() <= cfg.max_tool_output_chars,
        early ==> msgs[i].text().len() <= cfg.proactive_prune_min_result_chars,
        msgs[i].text().len() < 5000,
        forall|j: int|
            i < j < msgs.len() ==> !((#[trigger] msgs[j]).role == Role::Tool && msgs[j].text()
                == msgs[i].text()),
    ensures
        pruned(msgs, cfg, early)[i] == msgs[i],
{
    let first = if early {
        all_cut(msgs, cfg.proactive_prune_min_result_chars as int)
    } else {
        msgs
    };
    let max = cfg.max_tool_output_chars as int;
    let cut = cut_twice(msgs, cfg, early);
    assert(first[i] == msgs[i]);
    assert(cut[i] == msgs[i]);
    assert forall|j: int| i < j < cut.len() implies !((#[trigger] cut[j]).role == Role::Tool
        && cut[j].text() == cut[i].text()) by {
        if cut[j].role == Role::Tool && cut[j].text() == cut[i].text() {
            assert(cut[j] == tool_pruning::cut_output(first[j], max));
            tool_pruning::only_long_results_are_cut(first[j], max);
            assert(first[j].role == Role::Tool);
            short_after_cutting(first[j], max);
            if early {
                let least = cfg.proactive_prune_min_result_chars as int;
                assert(first[j] == tool_pruning::cut_output(msgs[j], least));
                tool_pruning::only_long_results_are_cut(msgs[j], least);
                assert(msgs[j].role == Role::Tool);
                short_after_cutting(msgs[j], least);
            }
            assert(msgs[j].text() == msgs[i].text());
        }
    }
    tool_pruning::the_last_of_its_text_stays(cut, i);
    let deduped = all_deduped(cut);
    assert(deduped[i] == msgs[i]);
}

/// What is reported of a compression: the messages and tokens before and after, and whether
/// a model has summed up.
pub proof fn a_compression_is_reported(
    stats: CompressionStats,
    msgs: Seq<MessageModel>,
    cfg: CompressionConfig,
    early: bool,
    out: Seq<MessageModel>,
    used: bool,
)
    requires
        out.len() <= usize::MAX,
        msgs.len() <= usize::MAX,
        0 <= token::tokens_of(out) <= usize::MAX,
        0 <= token::tokens_of(msgs) <= usize::MAX,
    ensures
        ({
            let r = stats_with_result(stats, out, used);
            &&& r.messages_after == out.len()
            &&& r.tokens_after == token::tokens_of(out)
            &&& r.used_llm_summary == used
            &&& r.messages_before == stats.messages_before
            &&& r.tokens_before == stats.tokens_before
            &&& r.tool_outputs_pruned == stats.tool_outputs_pruned
            &&& r.tool_outputs_deduped == stats.tool_outputs_deduped
        }),
        stats_of_pruning(msgs, cfg, early).messages_before == msgs.len(),
        stats_of_pruning(msgs, cfg, early).tokens_before == token::tokens_of(msgs),
{
}

/// A conversation that is still short of the threshold keeps the results of its tail; from
/// the threshold on the long ones among them are cleared, and nothing before the tail.
pub proof fn the_tail_is_cleared_only_under_pressure(
    msgs: Seq<MessageModel>,
    cfg: CompressionConfig,
    tail_start: int,
    stats: CompressionStats,
    i: int,
)
    requires
        0 <= i < msgs.len(),
        msgs.len() <= usize::MAX,
    ensures
        ({
            let max = cfg.max_tool_output_chars as int;
            let out = prepared(msgs, cfg, tail_start);
            let counted = stats_with_demoted(stats, msgs, cfg, tail_start);
            &&& out.len() == msgs.len()
            &&& token::tokens_of(msgs) < cfg.threshold() ==> out == msgs
                && counted.tail_outputs_demoted == 0
            &&& i < tail_start || msgs[i].role != Role::Tool || msgs[i].text().len() <= max
                ==> out[i] == msgs[i]
            &&& token::tokens_of(msgs) >= cfg.threshold() && i >= tail_start && msgs[i].role
                == Role::Tool && msgs[i].text().len() > max && !tool_pruning::is_placeholder(
                msgs[i].text(),
            ) ==> text::starts_with(
                out[i].text(),
                "[Old tool output cleared to save context space]"@,
            )
            &&& token::tokens_of(msgs) >= cfg.threshold() ==> counted.tail_outputs_demoted
                == tool_pruning::large_outputs(msgs, tail_start, max)
            &&& counted == (CompressionStats {
                tail_outputs_demoted: counted.tail_outputs_demoted,
                ..stats
            })
        }),
{
    let max = cfg.max_tool_output_chars as int;
    tool_pruning::only_long_results_of_the_tail_are_cleared(msgs, tail_start, max, i);
    seqs::count_below_bounds(
        |j: int| j >= tail_start && tool_pruning::is_large_output(msgs[j], max),
        msgs.len() as int,
    );
}

/// Without early pruning as many results are counted as are longer than they may be; early
/// pruning counts those above its own limit, and what is then still too long.
pub proof fn pruned_results_are_counted(msgs: Seq<MessageModel>, cfg: CompressionConfig)
    requires
        2 * msgs.len() <= usize::MAX,
    ensures
        ({
            let max = cfg.max_tool_output_chars as int;
            let min = cfg.proactive_prune_min_result_chars as int;
            &&& stats_of_pruning(msgs, cfg, false).tool_outputs_pruned
                == tool_pruning::long_outputs(msgs, max)
            &&& stats_of_pruning(msgs, cfg, true).tool_outputs_pruned
                >= tool_pruning::long_outputs(msgs, min)
            &&& stats_of_pruning(msgs, cfg, true).tool_outputs_pruned
                == tool_pruning::long_outputs(msgs, min) + tool_pruning::long_outputs(
                all_cut(msgs, min),
                max,
            )
        }),
{
    let max = cfg.max_tool_output_chars as int;
    let min = cfg.proactive_prune_min_result_chars as int;
    let n = msgs.len() as int;
    let cut = all_cut(msgs, min);
    seqs::count_below_bounds(|i: int| tool_pruning::is_long_output(msgs[i], max), n);
    seqs::count_below_bounds(|i: int| tool_pruning::is_long_output(msgs[i], min), n);
    seqs::count_below_bounds(|i: int| tool_pruning::is_long_output(cut[i], max), n);
}

} // verus!
