use vstd::prelude::*;

use crate::paths::{is_absolute_path, joined_path, parent_path, path_is_absolute, path_join, path_parent};
use crate::agent::history::opt_view;
use crate::text::str_equal;

verus! {

/// The application's directory name under the platform's data and config directories.
pub const APP_NAME: &'static str = "angelica";

pub const DEFAULT_MAX_ITERATIONS: u32 = 10;

pub const DEFAULT_EPISODES_PATH: &'static str = "episodes.jsonl";

pub const DEFAULT_SELF_PATH: &'static str = "SELF.md";

pub const DEFAULT_PROFILES_DIR: &'static str = "profiles";

pub const DEFAULT_NOTEBOOK_PATH: &'static str = "notebook.md";

pub const DEFAULT_MAX_FILE_SIZE_KB: usize = 32;

pub const DEFAULT_RECENT_THRESHOLD: usize = 5;

pub const DEFAULT_EPISODE_INJECT_BUDGET: usize = 2;

pub const DEFAULT_HARD_LIMIT: usize = 8192;

pub const DEFAULT_EMBED_MODEL: &'static str = "qwen3-embedding";

pub const DEFAULT_EMBED_BASE_URL: &'static str = "http://localhost:11434";

pub const DEFAULT_TRANSPORT: &'static str = "stdio";

pub const DEFAULT_SKILLS_DIR: &'static str = "skills";

pub const DEFAULT_STATE_PATH: &'static str = "state.json";

pub const DEFAULT_CONVERSATION_PATH: &'static str = "conversation.jsonl";

pub const DEFAULT_MAX_CONTEXT_TOKENS: u64 = 120000;

pub const DEFAULT_GROGGY_TURNS: u32 = 3;

/// The model named when a provider has none.
pub const UNKNOWN_MODEL: &'static str = "unknown";

/// How memories are embedded for recall.
#[derive(Debug)]
pub struct EmbeddingConfig {
    pub enabled: bool,
    pub model: String,
    pub base_url: String,
    pub api_key_env: String,
}

impl Default for EmbeddingConfig {
    fn default() -> (r: Self)
        ensures
            r.enabled,
            r.model@ == DEFAULT_EMBED_MODEL@,
            r.base_url@ == DEFAULT_EMBED_BASE_URL@,
            r.api_key_env@.len() == 0,
    {
        EmbeddingConfig {
            enabled: true,
            model: String::from_str(DEFAULT_EMBED_MODEL),
            base_url: String::from_str(DEFAULT_EMBED_BASE_URL),
            api_key_env: String::new(),
        }
    }
}

/// How to reach one MCP server.
#[derive(Debug)]
pub struct McpServerConfig {
    pub transport: String,
    pub command: Option<String>,
    pub args: Vec<String>,
    pub url: Option<String>,
    /// Environment variables for the server, by name.
    pub env: Vec<(String, String)>,
}

impl McpServerConfig {
    /// A server started as `command` over standard input and output.
    pub fn stdio(command: String, args: Vec<String>) -> (r: Self)
        ensures
            r.transport@ == DEFAULT_TRANSPORT@,
            r.command == Some(command),
            r.args == args,
            r.url is None,
            r.env@.len() == 0,
    {
        McpServerConfig {
            transport: String::from_str(DEFAULT_TRANSPORT),
            command: Some(command),
            args,
            url: None,
            env: Vec::new(),
        }
    }
}

/// The MCP servers, by name.
#[derive(Debug)]
pub struct McpConfig {
    pub servers: Vec<(String, McpServerConfig)>,
}

impl Default for McpConfig {
    fn default() -> (r: Self)
        ensures
            r.servers@.len() == 0,
    {
        McpConfig { servers: Vec::new() }
    }
}

/// Where the skills live.
#[derive(Debug)]
pub struct SkillsConfig {
    pub directory: String,
}

impl Default for SkillsConfig {
    fn default() -> (r: Self)
        ensures
            r.directory@ == DEFAULT_SKILLS_DIR@,
    {
        SkillsConfig { directory: String::from_str(DEFAULT_SKILLS_DIR) }
    }
}

/// Where the agent's state and conversation are kept.
#[derive(Debug)]
pub struct StateConfig {
    pub path: String,
    pub conversation_path: String,
}

impl Default for StateConfig {
    fn default() -> (r: Self)
        ensures
            r.path@ == DEFAULT_STATE_PATH@,
            r.conversation_path@ == DEFAULT_CONVERSATION_PATH@,
    {
        StateConfig {
            path: String::from_str(DEFAULT_STATE_PATH),
            conversation_path: String::from_str(DEFAULT_CONVERSATION_PATH),
        }
    }
}

impl StateConfig {
    /// The directory that holds the conversation file; `fallback` (the
    /// application's data directory) when its path has no parent.
    pub fn data_dir(&self, fallback: String) -> (r: String)
        ensures
            r@ == match parent_path(self.conversation_path@) {
                Some(p) => p,
                None => fallback@,
            },
    {
        match path_parent(self.conversation_path.as_str()) {
            Some(p) => p,
            None => fallback,
        }
    }
}

/// `path` itself when absolute, else `path` under `base`.
pub fn absolute_or(base: &str, path: &str) -> (r: String)
    ensures
        r@ == if is_absolute_path(path@) { path@ } else { joined_path(base@, path@) },
{
    if path_is_absolute(path) {
        String::from_str(path)
    } else {
        path_join(base, path)
    }
}

/// What model selection reads of a provider: its name and its model.
#[derive(Debug)]
pub struct ProviderModel {
    pub name: String,
    pub model: Option<String>,
}

/// The first provider from `i` on whose name is `d`.
pub open spec fn first_named(providers: Seq<ProviderModel>, d: Seq<char>, i: int) -> Option<int>
    decreases providers.len() - i,
{
    if i < 0 || i >= providers.len() {
        None
    } else if providers[i].name@ == d {
        Some(i)
    } else {
        first_named(providers, d, i + 1)
    }
}

pub open spec fn model_text(p: ProviderModel) -> Seq<char> {
    match p.model {
        Some(m) => m@,
        None => UNKNOWN_MODEL@,
    }
}

/// The model of the first provider named `default_provider`; with no
/// provider of that name, the first provider's model. `unknown` where the
/// chosen provider names no model, or there is none.
pub open spec fn default_model(providers: Seq<ProviderModel>, default_provider: Option<Seq<char>>) -> Seq<char> {
    let named = match default_provider {
        Some(d) => first_named(providers, d, 0),
        None => None,
    };
    match named {
        Some(i) => model_text(providers[i]),
        None => if providers.len() > 0 { model_text(providers[0]) } else { UNKNOWN_MODEL@ },
    }
}

fn model_or_unknown(p: &ProviderModel) -> (r: &str)
    ensures
        r@ == model_text(*p),
{
    match &p.model {
        Some(m) => m.as_str(),
        None => UNKNOWN_MODEL,
    }
}

/// The model of the default provider (see `default_model`).
pub fn default_model_name<'a>(providers: &'a Vec<ProviderModel>, default_provider: &Option<String>) -> (r: &'a str)
    ensures
        r@ == default_model(providers@, opt_view(*default_provider)),
{
    let ghost dp: Option<Seq<char>> = opt_view(*default_provider);
    if let Some(target) = default_provider {
        let mut i: usize = 0;
        while i < providers.len()
            invariant
                i <= providers.len(),
                dp == Some(target@),
                dp == opt_view(*default_provider),
                first_named(providers@, target@, 0) == first_named(providers@, target@, i as int),
            decreases providers.len() - i,
        {
            if str_equal(providers[i].name.as_str(), target.as_str()) {
                let r = model_or_unknown(&providers[i]);
                return r;
            }
            i = i + 1;
        }
    }
    if providers.len() > 0 {
        model_or_unknown(&providers[0])
    } else {
        UNKNOWN_MODEL
    }
}

} // verus!
