//! Settings resolved from the command line, the optional config file and the
//! environment: flags win over the config file, which wins over the
//! environment, which wins over the built-in defaults.
use vstd::prelude::*;

use crate::cli::{Args, DEFAULT_BASE_URL, DEFAULT_MODEL};
use crate::text::{copy_opt, opt_view};

verus! {

/// The `[ui]` table of the config file.
#[derive(Debug)]
pub struct UiConfig {
    pub mystical_messages: Option<bool>,
}

/// The contents of `~/.config/ponder/config.toml`; every key may be absent.
#[derive(Debug)]
pub struct FileConfig {
    pub base_url: Option<String>,
    pub model: Option<String>,
    pub api_key: Option<String>,
    pub tavily_api_key: Option<String>,
    pub ui: Option<UiConfig>,
}

impl FileConfig {
    /// The configuration used when there is no config file: every key absent.
    pub fn empty() -> (r: FileConfig)
        ensures
            r.base_url is None,
            r.model is None,
            r.api_key is None,
            r.tavily_api_key is None,
            r.ui is None,
    {
        FileConfig { base_url: None, model: None, api_key: None, tavily_api_key: None, ui: None }
    }
}

impl Default for FileConfig {
    fn default() -> (r: FileConfig)
        ensures
            r.base_url is None,
            r.model is None,
            r.api_key is None,
            r.tavily_api_key is None,
            r.ui is None,
    {
        FileConfig::empty()
    }
}

/// Everything that a run of `ponder` is configured by.
#[derive(Debug)]
pub struct Settings {
    pub base_url: String,
    pub model: String,
    pub api_key: String,
    pub tavily_api_key: Option<String>,
    pub show_mystical: bool,
    pub stream: bool,
    pub tools: bool,
}

/// What a run of `ponder` does with the prompt.
#[derive(Debug, PartialEq, Eq, Structural, Clone, Copy)]
pub enum RunMode {
    /// Stream tokens as they arrive; no tools.
    Stream,
    /// One request that may call the built-in tools.
    WithTools,
    /// One request without tools.
    Plain,
}

/// The first of `a`, `b` that is present (`Option::or`), by view.
pub open spec fn first_of(a: Option<String>, b: Option<String>) -> Option<Seq<char>> {
    match a {
        Some(s) => Some(s@),
        None => match b {
            Some(s) => Some(s@),
            None => None,
        },
    }
}

/// The first of three optional strings that is present, else `default`.
pub open spec fn resolve(a: Option<String>, b: Option<String>, c: Option<Seq<char>>, default: Seq<char>) -> Seq<char> {
    match first_of(a, b) {
        Some(s) => s,
        None => match c {
            Some(s) => s,
            None => default,
        },
    }
}

/// Whether mystical messages are on in the config file: on unless
/// `ui.mystical_messages` says `false`.
pub open spec fn config_mystical(config: &FileConfig) -> bool {
    match config.ui {
        Some(ui) => match ui.mystical_messages {
            Some(b) => b,
            None => true,
        },
        None => true,
    }
}

/// The API key from the environment: the value of `LM_API_TOKEN` when that
/// variable is set, else that of `OPENAI_API_KEY`; the value chosen counts as
/// no key when it is empty (a set but empty `LM_API_TOKEN` gives none).
pub open spec fn spec_env_api_key(lm_api_token: Option<String>, openai_api_key: Option<String>) -> Option<Seq<char>> {
    match first_of(lm_api_token, openai_api_key) {
        Some(k) => if k.len() > 0 { Some(k) } else { None },
        None => None,
    }
}

/// A present but empty value counts as none.
pub open spec fn non_empty(v: Option<String>) -> Option<Seq<char>> {
    match v {
        Some(k) => if k@.len() > 0 { Some(k@) } else { None },
        None => None,
    }
}

fn either(a: &Option<String>, b: Option<String>) -> (r: Option<String>)
    ensures
        opt_view(r) == first_of(*a, b),
{
    match a {
        Some(_) => copy_opt(a),
        None => b,
    }
}

/// The API key found in the environment, from the values of `LM_API_TOKEN`
/// and `OPENAI_API_KEY` (`None` for a variable that is unset).
pub fn env_api_key(lm_api_token: Option<String>, openai_api_key: Option<String>) -> (r: Option<String>)
    ensures
        opt_view(r) == spec_env_api_key(lm_api_token, openai_api_key),
{
    let chosen = either(&lm_api_token, openai_api_key);
    match chosen {
        Some(k) => if k.as_str().is_empty() { None } else { Some(k) },
        None => None,
    }
}

/// The Tavily key found in the environment, from the value of
/// `TAVILY_API_KEY` (`None` when it is unset); an empty value counts as none.
pub fn env_tavily_api_key(tavily_api_key: Option<String>) -> (r: Option<String>)
    ensures
        opt_view(r) == non_empty(tavily_api_key),
{
    match tavily_api_key {
        Some(k) => if k.as_str().is_empty() { None } else { Some(k) },
        None => None,
    }
}

/// A value given as a flag is used whatever the config file and the
/// environment hold; else the config file's value is used whatever the
/// environment holds; else the environment's; else the default.
pub proof fn law_flags_then_config_then_environment(
    flag: Option<String>,
    file: Option<String>,
    env: Option<Seq<char>>,
    default: Seq<char>,
)
    ensures
        flag matches Some(v) ==> resolve(flag, file, env, default) == v@,
        flag is None ==> (file matches Some(v) ==> resolve(flag, file, env, default) == v@),
        flag is None && file is None ==> (env matches Some(v) ==> resolve(flag, file, env, default) == v),
        flag is None && file is None && env is None ==> resolve(flag, file, env, default) == default,
{
}

/// Mystical messages are off exactly when the flag turns them off or the
/// config file's `ui.mystical_messages` is `false`.
pub proof fn law_mystical_messages(config: &FileConfig, no_mystical: bool)
    ensures
        (config_mystical(config) && !no_mystical) <==> !(no_mystical || (config.ui matches Some(ui)
            && ui.mystical_messages == Some(false))),
{
}

/// The API key from the environment: when `LM_API_TOKEN` is set, its value
/// decides (an empty value gives no key, `OPENAI_API_KEY` is not read); when
/// it is unset, the value of `OPENAI_API_KEY` decides in the same way.
pub proof fn law_env_api_key(lm_api_token: Option<String>, openai_api_key: Option<String>)
    ensures
        lm_api_token matches Some(k) ==> spec_env_api_key(lm_api_token, openai_api_key) == (if k@.len() > 0 {
            Some(k@)
        } else {
            None
        }),
        lm_api_token is None ==> (openai_api_key matches Some(k) ==> spec_env_api_key(lm_api_token, openai_api_key) == (if k@.len() > 0 {
            Some(k@)
        } else {
            None
        })),
        lm_api_token is None && openai_api_key is None ==> spec_env_api_key(
            lm_api_token,
            openai_api_key,
        ) is None,
{
}

impl Settings {
    /// Resolves the settings: each value comes from the command line if it
    /// was given there, else from the config file, else (for the keys) from
    /// the environment, else from the built-in default.
    /// `env_api_key` and `env_tavily_api_key` are what the functions of the
    /// same names found in the environment.
    pub fn load(
        args: &Args,
        config: FileConfig,
        env_api_key: Option<String>,
        env_tavily_api_key: Option<String>,
    ) -> (s: Settings)
        ensures
            s.base_url@ == resolve(args.base_url, config.base_url, None, DEFAULT_BASE_URL@),
            s.model@ == resolve(args.model, config.model, None, DEFAULT_MODEL@),
            s.api_key@ == resolve(args.api_key, config.api_key, opt_view(env_api_key), Seq::empty()),
            opt_view(s.tavily_api_key) == (match first_of(args.tavily_api_key, config.tavily_api_key) {
                Some(k) => Some(k),
                None => opt_view(env_tavily_api_key),
            }),
            s.show_mystical == (config_mystical(&config) && !args.no_mystical),
            s.stream == args.stream,
            s.tools == !args.no_tools,
    {
        let show_mystical = match &config.ui {
            Some(ui) => match ui.mystical_messages {
                Some(b) => b,
                None => true,
            },
            None => true,
        } && !args.no_mystical;
        let api_key = match either(&args.api_key, config.api_key) {
            Some(k) => k,
            None => match env_api_key {
                Some(k) => k,
                None => String::new(),
            },
        };
        let tavily_api_key = match either(&args.tavily_api_key, config.tavily_api_key) {
            Some(k) => Some(k),
            None => env_tavily_api_key,
        };
        let base_url = match either(&args.base_url, config.base_url) {
            Some(u) => u,
            None => DEFAULT_BASE_URL.to_owned(),
        };
        let model = match either(&args.model, config.model) {
            Some(m) => m,
            None => DEFAULT_MODEL.to_owned(),
        };
        Settings {
            base_url,
            model,
            api_key,
            tavily_api_key,
            show_mystical,
            stream: args.stream,
            tools: !args.no_tools,
        }
    }

    /// What the run does: stream when asked to (streaming never uses tools),
    /// else one request with or without the built-in tools.
    pub fn run_mode(&self) -> (m: RunMode)
        ensures
            m == (if self.stream {
                RunMode::Stream
            } else if self.tools {
                RunMode::WithTools
            } else {
                RunMode::Plain
            }),
    {
        if self.stream {
            RunMode::Stream
        } else if self.tools {
            RunMode::WithTools
        } else {
            RunMode::Plain
        }
    }
}

} // verus!
