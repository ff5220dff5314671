//! How the server is set up.
use vstd::prelude::*;

use crate::config;
use crate::config::{
    default_context_file_names, AgentLoopConfig, ApiRetryConfig, CompressionConfig,
    ContextFilesConfig, GuardrailConfig, LivenessConfig, PromptConfig,
};
use crate::text;
use crate::text::{
    chars_of, chars_start_with, cut, decimal_text, same_text, string_of,
};

verus! {

broadcast use crate::seqs::group_views;

/// What is written to the log where nothing else is set.
pub const DEFAULT_LOG_FILTER: &'static str = "loom=debug,tower_http=info";

/// What is written to the log.
#[derive(Debug, PartialEq, Eq)]
pub struct LoggingConfig {
    pub filter: String,
}

impl Default for LoggingConfig {
    fn default() -> (r: Self)
        ensures
            r.filter@ == DEFAULT_LOG_FILTER@,
    {
        LoggingConfig { filter: String::from_str(DEFAULT_LOG_FILTER) }
    }
}

/// Where the server listens.
#[derive(Debug, PartialEq, Eq)]
pub struct ServerConfig {
    pub host: String,
    pub port: u16,
    /// Where the server reaches itself.
    pub self_base_url: Option<String>,
}

impl ServerConfig {
    /// Where the server reaches itself: as it is set, or else where it listens.
    pub fn base_url(&self) -> (r: String)
        ensures
            r@ == match self.self_base_url {
                Some(u) => u@,
                None => "http://"@ + self.host@ + ":"@ + text::decimal(self.port as nat),
            },
    {
        match &self.self_base_url {
            Some(u) => u.clone(),
            None => {
                let mut s = String::from_str("http://");
                s.append(self.host.as_str());
                s.append(":");
                s.append(decimal_text(self.port as u64).as_str());
                s
            },
        }
    }
}

// ---------- the database ----------

/// Where the database is, by the configuration.
#[derive(Debug, PartialEq, Eq)]
pub struct DatabaseConfig {
    pub host: String,
    pub port: u16,
    pub user: String,
    pub password: String,
    pub dbname: String,
    pub max_connections: u32,
    pub connect_timeout_secs: u64,
}

impl Default for DatabaseConfig {
    fn default() -> (r: Self)
        ensures
            r.host@ == "127.0.0.1"@,
            r.port == 5432,
            r.user@ == "postgres"@,
            r.password@ == "postgres"@,
            r.dbname@ == "postgres"@,
            r.max_connections == 5,
            r.connect_timeout_secs == 10,
    {
        DatabaseConfig {
            host: String::from_str("127.0.0.1"),
            port: 5432,
            user: String::from_str("postgres"),
            password: String::from_str("postgres"),
            dbname: String::from_str("postgres"),
            max_connections: 5,
            connect_timeout_secs: 10,
        }
    }
}

/// What the environment says of the database.
#[derive(Debug, PartialEq, Eq)]
pub struct DatabaseEnv {
    pub host: Option<String>,
    pub port: Option<String>,
    pub user: Option<String>,
    pub password: Option<String>,
    pub dbname: Option<String>,
    pub max_connections: Option<String>,
}

/// Where the database is.
#[derive(Debug, PartialEq, Eq)]
pub struct PostgresConfig {
    pub host: String,
    pub port: u16,
    pub user: String,
    pub password: String,
    pub dbname: String,
    pub max_connections: u32,
    pub connect_timeout_secs: u64,
}

/// The characters are digits, of which there is at least one.
pub open spec fn are_digits(s: Seq<char>) -> bool {
    s.len() > 0 && forall|i: int| 0 <= i < s.len() ==> '0' <= #[trigger] s[i] <= '9'
}

/// The number that digits stand for.
pub open spec fn number_of(s: Seq<char>) -> nat
    decreases s.len(),
{
    if s.len() == 0 {
        0
    } else {
        number_of(s.drop_last()) * 10 + (s.last() as nat - '0' as nat) as nat
    }
}

/// The number that a text holds, where it holds one that is not above the limit.
pub open spec fn read_number(s: Seq<char>, max: nat) -> Option<nat> {
    let digits = if s.len() > 0 && s[0] == '+' {
        s.skip(1)
    } else {
        s
    };
    if are_digits(digits) && number_of(digits) <= max {
        Some(number_of(digits))
    } else {
        None
    }
}

/// More digits make no smaller number.
proof fn numbers_grow(s: Seq<char>, n: int)
    requires
        0 <= n <= s.len(),
    ensures
        number_of(s.take(n)) <= number_of(s),
    decreases s.len(),
{
    if n < s.len() {
        assert(s.drop_last().take(n) =~= s.take(n));
        numbers_grow(s.drop_last(), n);
    } else {
        assert(s.take(n) =~= s);
    }
}

/// The number that a text holds, where it holds one that is not above the limit.
pub fn parse_number(s: &str, max: u64) -> (r: Option<u64>)
    ensures
        match r {
            Some(n) => read_number(s@, max as nat) == Some(n as nat),
            None => read_number(s@, max as nat) is None,
        },
{
    let chars = chars_of(s);
    let from: usize = if chars.len() > 0 && chars[0] == '+' {
        1
    } else {
        0
    };
    let ghost digits = if s@.len() > 0 && s@[0] == '+' {
        s@.skip(1)
    } else {
        s@
    };
    assert(digits =~= s@.skip(from as int));
    if chars.len() == from {
        return None;
    }
    let mut n: u64 = 0;
    let mut i: usize = from;
    assert(digits.take(0) =~= Seq::empty());
    while i < chars.len()
        invariant
            from <= i <= chars@.len(),
            chars@ == s@,
            digits == s@.skip(from as int),
            digits == if s@.len() > 0 && s@[0] == '+' {
                s@.skip(1)
            } else {
                s@
            },
            n <= max,
            n == number_of(digits.take(i - from)),
            forall|k: int| 0 <= k < i - from ==> '0' <= #[trigger] digits[k] <= '9',
        decreases chars@.len() - i,
    {
        let c: char = chars[i];
        assert(digits[i - from] == c);
        if !('0' <= c && c <= '9') {
            return None;
        }
        let d: u32 = c as u32 - '0' as u32;
        let next: u128 = (n as u128) * 10 + d as u128;
        proof {
            assert(digits.take(i - from + 1).drop_last() =~= digits.take(i - from));
            assert(digits.take(i - from + 1).last() == c);
            numbers_grow(digits, i - from + 1);
        }
        if next > max as u128 {
            return None;
        }
        n = next as u64;
        i += 1;
    }
    assert(digits.take(i - from) =~= digits);
    Some(n)
}

/// What the environment says, or else the configuration.
pub open spec fn said_or(said: Option<String>, set: String) -> Seq<char> {
    match said {
        Some(s) => s@,
        None => set@,
    }
}

/// The number that the environment says, or else the configuration.
pub open spec fn number_or(said: Option<String>, max: nat, set: nat) -> nat {
    match said {
        Some(s) => match read_number(s@, max) {
            Some(n) => n,
            None => set,
        },
        None => set,
    }
}

impl DatabaseConfig {
    /// Where the database is: what the environment says goes before the configuration,
    /// where it can be read.
    pub fn with_env(self, env: DatabaseEnv) -> (r: PostgresConfig)
        ensures
            r.host@ == said_or(env.host, self.host),
            r.port == number_or(env.port, u16::MAX as nat, self.port as nat),
            r.user@ == said_or(env.user, self.user),
            r.password@ == said_or(env.password, self.password),
            r.dbname@ == said_or(env.dbname, self.dbname),
            r.max_connections == number_or(
                env.max_connections,
                u32::MAX as nat,
                self.max_connections as nat,
            ),
            r.connect_timeout_secs == self.connect_timeout_secs,
    {
        let port: u16 = match &env.port {
            Some(v) => match parse_number(v.as_str(), u16::MAX as u64) {
                Some(n) => n as u16,
                None => self.port,
            },
            None => self.port,
        };
        let max_connections: u32 = match &env.max_connections {
            Some(v) => match parse_number(v.as_str(), u32::MAX as u64) {
                Some(n) => n as u32,
                None => self.max_connections,
            },
            None => self.max_connections,
        };
        PostgresConfig {
            host: match env.host {
                Some(v) => v,
                None => self.host,
            },
            port,
            user: match env.user {
                Some(v) => v,
                None => self.user,
            },
            password: match env.password {
                Some(v) => v,
                None => self.password,
            },
            dbname: match env.dbname {
                Some(v) => v,
                None => self.dbname,
            },
            max_connections,
            connect_timeout_secs: self.connect_timeout_secs,
        }
    }
}

// ---------- the agents ----------

/// Which files are read into the prompt.
#[derive(Debug, PartialEq, Eq)]
pub struct AgentContextFilesConfig {
    pub enabled: bool,
    pub names: Vec<String>,
    pub max_chars: usize,
}

impl Default for AgentContextFilesConfig {
    fn default() -> (r: Self)
        ensures
            r.enabled,
            r.names.deep_view() == config::context_file_names(),
            r.max_chars == 20_000,
    {
        AgentContextFilesConfig {
            enabled: true,
            names: default_context_file_names(),
            max_chars: 20_000,
        }
    }
}

/// What the prompt is made of.
#[derive(Debug, PartialEq, Eq)]
pub struct AgentPromptConfig {
    pub identity: String,
    pub guidance: String,
    pub tool_rules: String,
    pub context_files: AgentContextFilesConfig,
}

impl Default for AgentPromptConfig {
    fn default() -> (r: Self)
        ensures
            r.identity@.len() == 0,
            r.guidance@.len() == 0,
            r.tool_rules@.len() == 0,
            r.context_files.enabled,
            r.context_files.names.deep_view() == config::context_file_names(),
            r.context_files.max_chars == 20_000,
    {
        AgentPromptConfig {
            identity: String::new(),
            guidance: String::new(),
            tool_rules: String::new(),
            context_files: AgentContextFilesConfig::default(),
        }
    }
}

/// How agents work, by the configuration.
#[derive(Debug, PartialEq, Eq)]
pub struct AgentConfig {
    pub max_iterations: usize,
    pub allow_delegation: bool,
    pub max_delegation_depth: u32,
    pub max_concurrent_children: usize,
    pub system_prompt: String,
    pub prompt: AgentPromptConfig,
    pub compression: CompressionConfig,
    pub checkpoint_interval: usize,
    pub max_concurrent_tools: usize,
    pub api_retry: ApiRetryConfig,
    pub guardrails: GuardrailConfig,
    pub liveness: LivenessConfig,
    pub delegate_summary_max_chars: usize,
}

impl AgentConfig {
    /// How agents work that use a model.
    pub fn for_model(self, model: String) -> (r: AgentLoopConfig)
        ensures
            r == (AgentLoopConfig {
                model,
                system_prompt: self.system_prompt,
                max_iterations: self.max_iterations,
                allow_delegation: self.allow_delegation,
                max_delegation_depth: self.max_delegation_depth,
                max_concurrent_children: self.max_concurrent_children,
                prompt: PromptConfig {
                    identity: self.prompt.identity,
                    guidance: self.prompt.guidance,
                    tool_rules: self.prompt.tool_rules,
                    context_files: ContextFilesConfig {
                        enabled: self.prompt.context_files.enabled,
                        names: self.prompt.context_files.names,
                        max_chars: self.prompt.context_files.max_chars,
                    },
                },
                compression: self.compression,
                checkpoint_interval: self.checkpoint_interval,
                max_concurrent_tools: self.max_concurrent_tools,
                api_retry: self.api_retry,
                guardrails: self.guardrails,
                liveness: self.liveness,
                delegate_summary_max_chars: self.delegate_summary_max_chars,
            }),
    {
        AgentLoopConfig {
            model,
            system_prompt: self.system_prompt,
            max_iterations: self.max_iterations,
            allow_delegation: self.allow_delegation,
            max_delegation_depth: self.max_delegation_depth,
            max_concurrent_children: self.max_concurrent_children,
            prompt: PromptConfig {
                identity: self.prompt.identity,
                guidance: self.prompt.guidance,
                tool_rules: self.prompt.tool_rules,
                context_files: ContextFilesConfig {
                    enabled: self.prompt.context_files.enabled,
                    names: self.prompt.context_files.names,
                    max_chars: self.prompt.context_files.max_chars,
                },
            },
            compression: self.compression,
            checkpoint_interval: self.checkpoint_interval,
            max_concurrent_tools: self.max_concurrent_tools,
            api_retry: self.api_retry,
            guardrails: self.guardrails,
            liveness: self.liveness,
            delegate_summary_max_chars: self.delegate_summary_max_chars,
        }
    }
}

// ---------- where the configuration is ----------

/// The file that the arguments name from the `i`-th on.
pub open spec fn named_from(args: Seq<Seq<char>>, i: int) -> Option<Seq<char>>
    decreases args.len() - i,
{
    if i < 0 || i >= args.len() {
        None
    } else if args[i] == "--config"@ || args[i] == "-c"@ {
        if i + 1 < args.len() {
            Some(args[i + 1])
        } else {
            None
        }
    } else if text::starts_with(args[i], "--config="@) {
        Some(args[i].skip("--config="@.len() as int))
    } else {
        named_from(args, i + 1)
    }
}

/// The file that the arguments name.
pub fn parse_config_from_args(args: &[String]) -> (r: Option<String>)
    ensures
        r.deep_view() == named_from(args.deep_view(), 0),
{
    let prefix = chars_of("--config=");
    let mut i: usize = 0;
    while i < args.len()
        invariant
            i <= args@.len(),
            prefix@ == "--config="@,
            named_from(args.deep_view(), 0) == named_from(args.deep_view(), i as int),
        decreases args@.len() - i,
    {
        assert(args.deep_view()[i as int] == args@[i as int]@);
        if same_text(args[i].as_str(), "--config") || same_text(args[i].as_str(), "-c") {
            if i + 1 < args.len() {
                assert(args.deep_view()[i + 1] == args@[i + 1]@);
                return Some(args[i + 1].clone());
            }
            return None;
        }
        let chars = chars_of(args[i].as_str());
        if chars_start_with(chars.as_slice(), prefix.as_slice()) {
            let rest = cut(chars.as_slice(), prefix.len(), chars.len());
            assert(rest@ =~= args@[i as int]@.skip("--config="@.len() as int));
            return Some(string_of(rest.as_slice()));
        }
        i += 1;
    }
    None
}

/// Where the configuration is looked for.
#[derive(Debug, PartialEq, Eq)]
pub enum ConfigSource {
    /// In that file.
    File(String),
    /// In the places where it usually is.
    Search,
}

/// The file that is named: by the arguments, or else by the environment.
pub open spec fn named_file(args: Seq<Seq<char>>, env: Option<Seq<char>>) -> Option<Seq<char>> {
    match named_from(args, 0) {
        Some(p) => Some(p),
        None => match env {
            Some(p) => if p.len() > 0 {
                Some(p)
            } else {
                None
            },
            None => None,
        },
    }
}

/// Where the configuration is looked for.
pub fn config_source(args: &[String], env: Option<String>) -> (r: ConfigSource)
    ensures
        match r {
            ConfigSource::File(p) => named_file(args.deep_view(), env.deep_view()) == Some(p@),
            ConfigSource::Search => named_file(args.deep_view(), env.deep_view()) is None,
        },
{
    match parse_config_from_args(args) {
        Some(p) => ConfigSource::File(p),
        None => match env {
            Some(p) => if p.as_str().unicode_len() > 0 {
                ConfigSource::File(p)
            } else {
                ConfigSource::Search
            },
            None => ConfigSource::Search,
        },
    }
}

/// The places where the configuration usually is.
pub open spec fn usual_places() -> Seq<Seq<char>> {
    seq!["config.toml"@, "./config.toml"@, "../config.toml"@]
}

/// The places where the configuration usually is.
pub fn search_paths() -> (r: Vec<String>)
    ensures
        r.deep_view() == usual_places(),
{
    let mut v: Vec<String> = Vec::new();
    v.push(String::from_str("config.toml"));
    v.push(String::from_str("./config.toml"));
    v.push(String::from_str("../config.toml"));
    assert(v.deep_view() =~= usual_places());
    v
}

/// What is said where there is no configuration.
pub const NO_CONFIG: &'static str =
    "config file not found, searched: config.toml, ./config.toml, ../config.toml. Provide via --config <path> or LOOM_CONFIG env var";

/// A number is its digits, each ten times the one behind it.
proof fn a_written_number_is_read(n: nat)
    ensures
        are_digits(text::decimal(n)),
        number_of(text::decimal(n)) == n,
    decreases n,
{
    let s = text::decimal(n);
    text::numbers_are_written_in_tens(n);
    if n >= 10 {
        a_written_number_is_read(n / 10);
        let front = text::decimal(n / 10);
        assert(s.drop_last() == front);
        assert forall|i: int| 0 <= i < s.len() implies '0' <= #[trigger] s[i] <= '9' by {
            if i < front.len() {
                assert(s[i] == front[i]);
            }
        }
    } else {
        assert(s.drop_last() =~= Seq::<char>::empty());
        assert(number_of(s.drop_last()) == 0);
    }
}

/// A number that is written in digits is read as itself where it is not too great; a text that
/// is no number is not read.
pub proof fn numbers_are_read_as_written(n: nat, max: nat, s: Seq<char>)
    ensures
        n <= max ==> read_number(text::decimal(n), max) == Some(n),
        n > max ==> read_number(text::decimal(n), max) is None,
        s.len() == 0 ==> read_number(s, max) is None,
        s.len() > 0 && s[0] != '+' && !('0' <= s[0] <= '9') ==> read_number(s, max) is None,
{
    a_written_number_is_read(n);
    let d = text::decimal(n);
    assert('0' <= d[0] <= '9');
}

/// What the surroundings say comes before what is set, for a text and for a number that can be
/// read; a number that cannot be read is passed over.
pub proof fn the_surroundings_come_first(said: String, set: String, max: nat, n: nat)
    ensures
        said_or(Some(said), set) == said@,
        said_or(None, set) == set@,
        number_or(None, max, n) == n,
        read_number(said@, max) matches Some(m) ==> number_or(Some(said), max, n) == m,
        read_number(said@, max) is None ==> number_or(Some(said), max, n) == n,
{
}

/// The file of the settings is the one that the command line names, in either form, and else
/// the one that the surroundings name; otherwise it is looked for.
pub proof fn which_settings_are_read(
    before: Seq<Seq<char>>,
    path: Seq<char>,
    after: Seq<Seq<char>>,
    env: Option<Seq<char>>,
)
    requires
        forall|i: int|
            0 <= i < before.len() ==> (#[trigger] before[i]) != "--config"@ && before[i] != "-c"@
                && !text::starts_with(before[i], "--config="@),
    ensures
        named_file(before + seq!["--config"@, path] + after, env) == Some(path),
        named_file(before + seq!["-c"@, path] + after, env) == Some(path),
        named_file(before + seq!["--config="@ + path] + after, env) == Some(path),
        env matches Some(p) ==> p.len() > 0 ==> named_file(before, env) == Some(p),
        env is None ==> named_file(before, env) is None,
        env matches Some(p) ==> p.len() == 0 ==> named_file(before, env) is None,
{
    let k = before.len() as int;
    let a = before + seq!["--config"@, path] + after;
    let b = before + seq!["-c"@, path] + after;
    let c = before + seq!["--config="@ + path] + after;
    unnamed_before(a, 0, k);
    unnamed_before(b, 0, k);
    unnamed_before(c, 0, k);
    assert(a[k] == "--config"@ && a[k + 1] == path);
    assert(b[k] == "-c"@ && b[k + 1] == path);
    let word = "--config="@ + path;
    let mark = "--config="@;
    assert(c[k] == word);
    reveal_strlit("--config=");
    reveal_strlit("--config");
    reveal_strlit("-c");
    assert(word.subrange(0, mark.len() as int) =~= mark);
    assert(word[8] == '=');
    assert("--config"@.len() == 8 && "-c"@.len() == 2);
    assert(word.len() >= 9);
    assert(word.skip(mark.len() as int) =~= path);
    unnamed_before(before, 0, k);
}

/// Arguments that name no file are passed over.
proof fn unnamed_before(args: Seq<Seq<char>>, i: int, k: int)
    requires
        0 <= i <= k <= args.len(),
        forall|j: int|
            i <= j < k ==> (#[trigger] args[j]) != "--config"@ && args[j] != "-c"@
                && !text::starts_with(args[j], "--config="@),
    ensures
        named_from(args, i) == named_from(args, k),
    decreases k - i,
{
    if i < k {
        unnamed_before(args, i + 1, k);
    }
}

} // verus!
