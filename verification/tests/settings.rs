use ponder::cli::{prompt_from_args, prompt_from_input, Args, PromptError, DEFAULT_BASE_URL, DEFAULT_MODEL};
use ponder::config::{env_api_key, env_tavily_api_key, FileConfig, RunMode, Settings, UiConfig};

fn args() -> Args {
    Args {
        prompt: vec![],
        base_url: None,
        model: None,
        api_key: None,
        tavily_api_key: None,
        no_orb: false,
        no_mystical: false,
        stream: false,
        no_tools: false,
    }
}

fn s(x: &str) -> String {
    x.to_string()
}

#[test]
fn prompt_words_are_joined_by_single_spaces() {
    let mut a = args();
    a.prompt = vec![s("say"), s("hi"), s("in five words")];
    assert_eq!(a.prompt_text(), "say hi in five words");
    a.prompt = vec![s("one")];
    assert_eq!(a.prompt_text(), "one");
    a.prompt = vec![];
    assert_eq!(a.prompt_text(), "");
}

#[test]
fn prompt_from_args_is_none_without_words() {
    let mut a = args();
    assert_eq!(prompt_from_args(&a), None);
    a.prompt = vec![s("what"), s("next?")];
    assert_eq!(prompt_from_args(&a), Some(s("what next?")));
}

#[test]
fn typed_prompt_is_trimmed_and_refused_when_blank() {
    assert_eq!(prompt_from_input("  what's the next step?\n"), Ok(s("what's the next step?")));
    assert_eq!(prompt_from_input(" \t\n"), Err(PromptError::Empty));
    assert_eq!(prompt_from_input(""), Err(PromptError::Empty));
    assert_eq!(PromptError::Empty.message(), "prompt cannot be empty");
}

#[test]
fn defaults_apply_when_nothing_is_given() {
    let st = Settings::load(&args(), FileConfig::empty(), None, None);
    assert_eq!(st.base_url, DEFAULT_BASE_URL);
    assert_eq!(st.base_url, "http://192.168.1.40:8787/v1");
    assert_eq!(st.model, DEFAULT_MODEL);
    assert_eq!(st.model, "google/gemma-4-e2b");
    assert_eq!(st.api_key, "");
    assert_eq!(st.tavily_api_key, None);
    assert!(st.show_mystical);
    assert!(!st.stream);
    assert!(st.tools);
}

#[test]
fn flags_override_config_which_overrides_environment() {
    let mut a = args();
    a.base_url = Some(s("http://localhost:1234/v1"));
    a.api_key = Some(s("flag-key"));
    let config = FileConfig {
        base_url: Some(s("http://config/v1")),
        model: Some(s("config-model")),
        api_key: Some(s("config-key")),
        tavily_api_key: Some(s("config-tavily")),
        ui: None,
    };
    let st = Settings::load(&a, config, Some(s("env-key")), Some(s("env-tavily")));
    assert_eq!(st.base_url, "http://localhost:1234/v1");
    assert_eq!(st.model, "config-model");
    assert_eq!(st.api_key, "flag-key");
    assert_eq!(st.tavily_api_key, Some(s("config-tavily")));

    let st = Settings::load(&args(), FileConfig::default(), Some(s("env-key")), Some(s("env-tavily")));
    assert_eq!(st.api_key, "env-key");
    assert_eq!(st.tavily_api_key, Some(s("env-tavily")));

    let mut a = args();
    a.tavily_api_key = Some(s("flag-tavily"));
    let st = Settings::load(&a, FileConfig::empty(), None, Some(s("env-tavily")));
    assert_eq!(st.tavily_api_key, Some(s("flag-tavily")));
}

#[test]
fn mystical_messages_follow_config_and_flag() {
    let cfg = |m: Option<bool>| FileConfig {
        base_url: None,
        model: None,
        api_key: None,
        tavily_api_key: None,
        ui: Some(UiConfig { mystical_messages: m }),
    };
    assert!(!Settings::load(&args(), cfg(Some(false)), None, None).show_mystical);
    assert!(Settings::load(&args(), cfg(Some(true)), None, None).show_mystical);
    assert!(Settings::load(&args(), cfg(None), None, None).show_mystical);
    let mut a = args();
    a.no_mystical = true;
    assert!(!Settings::load(&a, cfg(Some(true)), None, None).show_mystical);
}

#[test]
fn streaming_never_uses_tools() {
    let mut a = args();
    assert_eq!(Settings::load(&a, FileConfig::empty(), None, None).run_mode(), RunMode::WithTools);
    a.no_tools = true;
    assert_eq!(Settings::load(&a, FileConfig::empty(), None, None).run_mode(), RunMode::Plain);
    a.stream = true;
    assert_eq!(Settings::load(&a, FileConfig::empty(), None, None).run_mode(), RunMode::Stream);
    a.no_tools = false;
    let st = Settings::load(&a, FileConfig::empty(), None, None);
    assert!(st.tools);
    assert_eq!(st.run_mode(), RunMode::Stream);
}

#[test]
fn api_key_prefers_lm_api_token_and_ignores_an_empty_choice() {
    assert_eq!(env_api_key(Some(s("lm")), Some(s("openai"))), Some(s("lm")));
    assert_eq!(env_api_key(None, Some(s("openai"))), Some(s("openai")));
    assert_eq!(env_api_key(None, None), None);
    assert_eq!(env_api_key(Some(s("")), Some(s("openai"))), None);
    assert_eq!(env_api_key(Some(s("")), Some(s(""))), None);
    assert_eq!(env_api_key(Some(s("")), None), None);
    assert_eq!(env_api_key(None, Some(s(""))), None);
    assert_eq!(env_tavily_api_key(Some(s("tv"))), Some(s("tv")));
    assert_eq!(env_tavily_api_key(Some(s(""))), None);
    assert_eq!(env_tavily_api_key(None), None);
}
