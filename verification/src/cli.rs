//! Command-line arguments and the prompt that they carry.
use vstd::prelude::*;

use crate::text::{
    join, join_seq, lemma_join_layout, total_len, trim, trim_seq, views, word_start,
};

verus! {

/// The endpoint used when neither a flag nor the config file names one.
pub const DEFAULT_BASE_URL: &'static str = "http://192.168.1.40:8787/v1";

/// The model used when neither a flag nor the config file names one.
pub const DEFAULT_MODEL: &'static str = "google/gemma-4-e2b";

/// The command line of `ponder`.
#[derive(Debug)]
pub struct Args {
    /// The thing to ponder, as separate words.
    pub prompt: Vec<String>,
    /// OpenAI-compatible API base URL.
    pub base_url: Option<String>,
    /// Model name to request.
    pub model: Option<String>,
    /// API key for endpoints that require authorization.
    pub api_key: Option<String>,
    /// Tavily API key for the web_search tool.
    pub tavily_api_key: Option<String>,
    /// Disable the animated orb while waiting.
    pub no_orb: bool,
    /// Disable mystical status messages while waiting.
    pub no_mystical: bool,
    /// Stream tokens as they arrive instead of showing the wait UI.
    pub stream: bool,
    /// Disable built-in tools for non-streaming requests.
    pub no_tools: bool,
}

/// The words of the prompt joined by single spaces.
pub open spec fn spec_prompt_text(args: &Args) -> Seq<char> {
    join_seq(views(args.prompt@), seq![' '])
}

impl Args {
    /// The prompt words joined by single spaces.
    pub fn prompt_text(&self) -> (r: String)
        ensures
            r@ == spec_prompt_text(self),
    {
        let mut sep = String::new();
        crate::text::append_char(&mut sep, ' ');
        join(&self.prompt, sep.as_str())
    }
}

/// The prompt text holds every word of the command line, in order, with a
/// single space between each two and nothing else: its length is the words'
/// total length plus one less than their number, word `k` stands at
/// `word_start(words, k)`, and a space follows each word but the last.
pub proof fn law_prompt_text_layout(args: &Args)
    ensures
        args.prompt@.len() == 0 ==> spec_prompt_text(args).len() == 0,
        args.prompt@.len() > 0 ==> spec_prompt_text(args).len() == total_len(views(args.prompt@))
            + args.prompt@.len() - 1,
        forall|k: int|
            0 <= k < args.prompt@.len() ==> spec_prompt_text(args).subrange(
                word_start(views(args.prompt@), k),
                word_start(views(args.prompt@), k) + args.prompt@[k]@.len(),
            ) == #[trigger] args.prompt@[k]@,
        forall|k: int|
            0 <= k < args.prompt@.len() - 1 ==> spec_prompt_text(args)[word_start(
                views(args.prompt@),
                k,
            ) + #[trigger] args.prompt@[k]@.len()] == ' ',
{
    let words = views(args.prompt@);
    lemma_join_layout(words, ' ');
    assert forall|k: int| 0 <= k < args.prompt@.len() implies words[k] == #[trigger] args.prompt@[k]@ by {
    }
}

/// Why no prompt could be had.
#[derive(Debug, PartialEq, Eq, Structural)]
pub enum PromptError {
    /// The prompt read from the terminal or from stdin held only whitespace.
    Empty,
}

impl PromptError {
    /// The message shown to the user.
    pub fn message(&self) -> (r: &'static str)
        ensures
            r@ == "prompt cannot be empty"@,
    {
        "prompt cannot be empty"
    }
}

/// The prompt given on the command line: `None` when no word was given, so
/// that the prompt is read from the terminal or from stdin instead.
pub fn prompt_from_args(args: &Args) -> (r: Option<String>)
    ensures
        args.prompt@.len() == 0 ==> r is None,
        args.prompt@.len() > 0 ==> (r matches Some(p) && p@ == spec_prompt_text(args)),
{
    if args.prompt.len() == 0 {
        None
    } else {
        Some(args.prompt_text())
    }
}

/// The prompt typed at the terminal or piped through stdin: the input with
/// surrounding whitespace removed, refused when nothing is left.
pub fn prompt_from_input(input: &str) -> (r: Result<String, PromptError>)
    ensures
        trim_seq(input@).len() == 0 <==> r is Err,
        r matches Ok(p) ==> p@ == trim_seq(input@),
        r matches Err(e) ==> e == PromptError::Empty,
{
    let p = trim(input);
    if p.as_str().is_empty() {
        Err(PromptError::Empty)
    } else {
        Ok(p)
    }
}

} // verus!
