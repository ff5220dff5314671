//! How an agent works: its limits, its prompt, its retries and its guards.
use vstd::prelude::*;

use crate::context::boundary::TailMode;
use crate::context::config as context_config;

verus! {

/// The prompt of an agent that has no other.
pub const DEFAULT_SYSTEM_PROMPT: &'static str =
    "You are a helpful AI agent operating within the Loom Agent OS.\n\nYour goal: {goal}\n\nContext:\n{context}\n\nAvailable tools:\n{tools}\n\nRules:\n- Use tools to accomplish your goal when appropriate\n- For complex sub-tasks, delegate to sub-agents via spawn_agent\n- spawn_agent supports a single \"goal\" OR a \"tasks\" array for batch delegation\n- When \"tasks\" is provided, all sub-agents run concurrently and results are returned together\n- For top-level agents (no parent), spawn_agent with background=true returns immediately with a handle;\n  the result becomes available later. Sub-agents always block synchronously.\n- Use action=\"list\" to list running sub-agents, action=\"stop\" to stop a sub-agent by subagent_id\n- After all necessary tool calls, provide a concise final summary of what was accomplished\n";

/// Who an agent is told that it is.
pub const DEFAULT_IDENTITY: &'static str =
    "You are Loom Agent, an AI agent operating within the Loom Agent OS. Be direct: match the length of your reply to the weight of the ask. No filler, no restating the request back, no narrating tool calls. Use tools to accomplish your goal; for complex sub-tasks, delegate to sub-agents.";

/// How an agent is told to work.
pub const DEFAULT_GUIDANCE: &'static str =
    "## Execution Guidance\n- Use tools to accomplish your goal when appropriate\n- For complex sub-tasks, delegate to sub-agents via spawn_agent\n- spawn_agent supports a single \"goal\" OR a \"tasks\" array for batch delegation\n- When \"tasks\" is provided, all sub-agents run concurrently and results are returned together\n- For top-level agents (no parent), spawn_agent with background=true returns immediately with a handle; the result becomes available later. Sub-agents always block synchronously.\n- After all necessary tool calls, provide a concise final summary of what was accomplished";

/// How an agent is told to use its tools.
pub const DEFAULT_TOOL_RULES: &'static str =
    "## Tool Rules\n- Use action=\"list\" to list running sub-agents, action=\"stop\" to stop a sub-agent by subagent_id\n- When calling spawn_agent, provide a clear goal for the sub-agent\n- Sub-agent results are returned as JSON; parse them to extract useful information\n- If a tool call fails, try an alternative approach or explain the issue";

/// How an agent works.
#[derive(Debug, PartialEq, Eq)]
pub struct AgentLoopConfig {
    pub model: String,
    /// The prompt, with places for the goal, the context and the tools.
    pub system_prompt: String,
    /// After so many rounds an agent is stopped.
    pub max_iterations: usize,
    pub allow_delegation: bool,
    /// How deep sub-agents may have sub-agents.
    pub max_delegation_depth: u32,
    pub max_concurrent_children: usize,
    pub prompt: PromptConfig,
    pub compression: CompressionConfig,
    /// A checkpoint is stored after every so many rounds; none where this is zero.
    pub checkpoint_interval: usize,
    pub max_concurrent_tools: usize,
    pub api_retry: ApiRetryConfig,
    pub guardrails: GuardrailConfig,
    pub liveness: LivenessConfig,
    /// How long the answer of a sub-agent may be; zero for any length.
    pub delegate_summary_max_chars: usize,
}

impl Default for AgentLoopConfig {
    fn default() -> (r: Self)
        ensures
            r.model@ == "gpt-4o-mini"@,
            r.system_prompt@ == DEFAULT_SYSTEM_PROMPT@,
            r.max_iterations == 20,
            r.allow_delegation,
            r.max_delegation_depth == 3,
            r.max_concurrent_children == 5,
            r.prompt.is_default(),
            r.compression.is_default(),
            r.checkpoint_interval == 1,
            r.max_concurrent_tools == 10,
            r.api_retry.is_default(),
            r.guardrails.is_default(),
            r.liveness.is_default(),
            r.delegate_summary_max_chars == 8_000,
    {
        AgentLoopConfig {
            model: String::from_str("gpt-4o-mini"),
            system_prompt: String::from_str(DEFAULT_SYSTEM_PROMPT),
            max_iterations: 20,
            allow_delegation: true,
            max_delegation_depth: 3,
            max_concurrent_children: 5,
            prompt: PromptConfig::default(),
            compression: CompressionConfig::default(),
            checkpoint_interval: default_checkpoint_interval(),
            max_concurrent_tools: default_max_concurrent_tools(),
            api_retry: ApiRetryConfig::default(),
            guardrails: GuardrailConfig::default(),
            liveness: LivenessConfig::default(),
            delegate_summary_max_chars: default_delegate_summary_max_chars(),
        }
    }
}

/// How many rounds lie between two checkpoints.
pub fn default_checkpoint_interval() -> (r: usize)
    ensures
        r == 1,
{
    1
}

/// How many tools of a round run at a time.
pub fn default_max_concurrent_tools() -> (r: usize)
    ensures
        r == 10,
{
    10
}

/// How long the answer of a sub-agent may be.
pub fn default_delegate_summary_max_chars() -> (r: usize)
    ensures
        r == 8_000,
{
    8_000
}

/// When an agent counts as stuck.
#[derive(Debug, Clone, Copy, PartialEq, Eq, Structural)]
pub struct LivenessConfig {
    pub enabled: bool,
    /// After so many seconds without activity an agent is stuck.
    pub timeout_secs: u64,
    /// How many seconds lie between two looks.
    pub check_interval_secs: u64,
}

impl LivenessConfig {
    /// Nothing was set.
    pub open spec fn is_default(self) -> bool {
        self == (LivenessConfig { enabled: false, timeout_secs: 300, check_interval_secs: 30 })
    }
}

impl Default for LivenessConfig {
    fn default() -> (r: Self)
        ensures
            r.is_default(),
    {
        LivenessConfig { enabled: false, timeout_secs: 300, check_interval_secs: 30 }
    }
}

/// How calls of the model are made again.
#[derive(Debug, Clone, Copy, PartialEq, Eq, Structural)]
pub struct ApiRetryConfig {
    /// How often a call is made again.
    pub max_retries: u32,
    pub base_delay_ms: u64,
    pub max_delay_ms: u64,
    /// How many seconds a call may take; zero for any time.
    pub request_timeout_secs: u64,
}

impl ApiRetryConfig {
    /// Nothing was set.
    pub open spec fn is_default(self) -> bool {
        self == (ApiRetryConfig {
            max_retries: 5,
            base_delay_ms: 1000,
            max_delay_ms: 30_000,
            request_timeout_secs: 0,
        })
    }
}

impl Default for ApiRetryConfig {
    fn default() -> (r: Self)
        ensures
            r.is_default(),
    {
        ApiRetryConfig {
            max_retries: 5,
            base_delay_ms: 1000,
            max_delay_ms: 30_000,
            request_timeout_secs: 0,
        }
    }
}

/// How calls of tools are guarded.
#[derive(Debug, Clone, Copy, PartialEq, Eq, Structural)]
pub struct GuardrailConfig {
    /// How often the same call within the window stops an agent.
    pub max_duplicate_calls: u32,
    /// How many failures of a tool in a row stop an agent.
    pub max_consecutive_failures: u32,
    /// How many calls the window holds.
    pub loop_window: usize,
    /// Whether calls of a round that say the same are made once.
    pub deduplicate: bool,
    pub max_web_searches: u32,
    pub max_subagents: u32,
}

impl GuardrailConfig {
    /// Nothing was set.
    pub open spec fn is_default(self) -> bool {
        self == (GuardrailConfig {
            max_duplicate_calls: 3,
            max_consecutive_failures: 5,
            loop_window: 20,
            deduplicate: true,
            max_web_searches: 50,
            max_subagents: 50,
        })
    }
}

impl Default for GuardrailConfig {
    fn default() -> (r: Self)
        ensures
            r.is_default(),
    {
        GuardrailConfig {
            max_duplicate_calls: 3,
            max_consecutive_failures: 5,
            loop_window: 20,
            deduplicate: true,
            max_web_searches: 50,
            max_subagents: 50,
        }
    }
}

/// How histories are compressed, in fixed sizes.
#[derive(Debug, Clone, Copy, PartialEq, Eq, Structural)]
pub struct CompressionConfig {
    pub threshold_tokens: usize,
    /// How many of the last exchanges are kept.
    pub tail_turns: usize,
    pub max_tool_output_chars: usize,
    pub summary_target_chars: usize,
}

impl CompressionConfig {
    /// Nothing was set.
    pub open spec fn is_default(self) -> bool {
        self == (CompressionConfig {
            threshold_tokens: 12_000,
            tail_turns: 6,
            max_tool_output_chars: 4_000,
            summary_target_chars: 2_000,
        })
    }

    /// The settings of the engine for a context window, of which the shares are given.
    pub fn into_context_config(
        self,
        context_length: usize,
        threshold_share: usize,
        tail_share: usize,
        summary_share: usize,
    ) -> (r: context_config::CompressionConfig)
        requires
            self.tail_turns * 2 <= usize::MAX,
        ensures
            r == (context_config::CompressionConfig {
                threshold_share,
                protect_first_n: 3,
                protect_last_n: (self.tail_turns * 2) as usize,
                summary_share,
                tail_mode: TailMode::Lean,
                lean_tail_floor: 500,
                lean_tail_cap: 4000,
                tail_share,
                context_length,
                fallback_threshold_tokens: Some(self.threshold_tokens),
                cooldown_seconds: 600,
                max_tool_output_chars: self.max_tool_output_chars,
                proactive_prune_tokens: 0,
                proactive_prune_min_result_chars: 8000,
                abort_on_summary_failure: false,
                min_tail_user_messages: 1,
            }),
            context_length == 0 ==> r.threshold() == self.threshold_tokens,
    {
        context_config::CompressionConfig {
            threshold_share,
            protect_first_n: 3,
            protect_last_n: self.tail_turns * 2,
            summary_share,
            tail_mode: TailMode::Lean,
            lean_tail_floor: 500,
            lean_tail_cap: 4000,
            tail_share,
            context_length,
            fallback_threshold_tokens: Some(self.threshold_tokens),
            cooldown_seconds: 600,
            max_tool_output_chars: self.max_tool_output_chars,
            proactive_prune_tokens: 0,
            proactive_prune_min_result_chars: 8000,
            abort_on_summary_failure: false,
            min_tail_user_messages: 1,
        }
    }
}

impl Default for CompressionConfig {
    fn default() -> (r: Self)
        ensures
            r.is_default(),
    {
        CompressionConfig {
            threshold_tokens: 12_000,
            tail_turns: 6,
            max_tool_output_chars: 4_000,
            summary_target_chars: 2_000,
        }
    }
}

/// What the prompt of an agent is made of.
#[derive(Debug, PartialEq, Eq)]
pub struct PromptConfig {
    pub identity: String,
    pub guidance: String,
    pub tool_rules: String,
    pub context_files: ContextFilesConfig,
}

impl PromptConfig {
    /// Nothing was set.
    pub open spec fn is_default(self) -> bool {
        &&& self.identity@ == DEFAULT_IDENTITY@
        &&& self.guidance@ == DEFAULT_GUIDANCE@
        &&& self.tool_rules@ == DEFAULT_TOOL_RULES@
        &&& self.context_files.is_default()
    }
}

impl Default for PromptConfig {
    fn default() -> (r: Self)
        ensures
            r.is_default(),
    {
        PromptConfig {
            identity: String::from_str(DEFAULT_IDENTITY),
            guidance: String::from_str(DEFAULT_GUIDANCE),
            tool_rules: String::from_str(DEFAULT_TOOL_RULES),
            context_files: ContextFilesConfig::default(),
        }
    }
}

/// Which files are read into the prompt.
#[derive(Debug, PartialEq, Eq)]
pub struct ContextFilesConfig {
    pub enabled: bool,
    /// The names of the files, the most important first.
    pub names: Vec<String>,
    /// How many characters of a file are read.
    pub max_chars: usize,
}

/// The names of the files that are read into the prompt.
pub open spec fn context_file_names() -> Seq<Seq<char>> {
    seq!["AGENTS.md"@, "AGENTS.override.md"@, ".cursorrules"@, "SOUL.md"@]
}

/// The names of the files that are read into the prompt.
pub fn default_context_file_names() -> (r: Vec<String>)
    ensures
        r.deep_view() == context_file_names(),
{
    let mut v: Vec<String> = Vec::new();
    v.push(String::from_str("AGENTS.md"));
    v.push(String::from_str("AGENTS.override.md"));
    v.push(String::from_str(".cursorrules"));
    v.push(String::from_str("SOUL.md"));
    assert(v.deep_view() =~= context_file_names());
    v
}

impl ContextFilesConfig {
    /// Nothing was set.
    pub open spec fn is_default(self) -> bool {
        &&& self.enabled
        &&& self.names.deep_view() == context_file_names()
        &&& self.max_chars == 20_000
    }
}

impl Default for ContextFilesConfig {
    fn default() -> (r: Self)
        ensures
            r.is_default(),
    {
        ContextFilesConfig {
            enabled: true,
            names: default_context_file_names(),
            max_chars: 20_000,
        }
    }
}

/// The limits that hold where none are set.
pub proof fn usual_limits(
    l: LivenessConfig,
    r: ApiRetryConfig,
    g: GuardrailConfig,
    c: CompressionConfig,
    p: PromptConfig,
)
    requires
        l.is_default(),
        r.is_default(),
        g.is_default(),
        c.is_default(),
        p.is_default(),
    ensures
        !l.enabled && l.timeout_secs == 300 && l.check_interval_secs == 30,
        r.max_retries == 5 && r.base_delay_ms == 1000 && r.max_delay_ms == 30000
            && r.request_timeout_secs == 0,
        g.max_duplicate_calls == 3 && g.max_consecutive_failures == 5 && g.loop_window == 20
            && g.deduplicate && g.max_web_searches == 50 && g.max_subagents == 50,
        c.threshold_tokens == 12000 && c.tail_turns == 6 && c.max_tool_output_chars == 4000
            && c.summary_target_chars == 2000,
        p.context_files.enabled && p.context_files.max_chars == 20000,
        p.context_files.names.deep_view().len() == 4,
        p.context_files.names.deep_view()[0] == "AGENTS.md"@,
        p.identity@ == DEFAULT_IDENTITY@ && p.guidance@ == DEFAULT_GUIDANCE@ && p.tool_rules@
            == DEFAULT_TOOL_RULES@,
{
}

} // verus!
