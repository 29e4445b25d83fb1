//! The built-in tools that the model may call: which one a call names, and
//! the checks and request of the web search.
use vstd::prelude::*;

use crate::text::{same_text, trim, trim_seq};

verus! {

broadcast use vstd::string::group_string_axioms;

/// The name of the tool that tells the local date and time.
pub const CURRENT_TIME: &'static str = "current_time";

/// The name of the tool that searches the web through Tavily.
pub const WEB_SEARCH: &'static str = "web_search";

/// The fewest results that a search asks for.
pub const MIN_RESULTS: usize = 1;

/// The most results that a search asks for.
pub const MAX_RESULTS: usize = 5;

/// The results that a search asks for when the model does not say.
pub const DEFAULT_MAX_RESULTS: usize = 5;

/// A built-in tool.
#[derive(Debug, PartialEq, Eq, Structural, Clone, Copy)]
pub enum Tool {
    CurrentTime,
    WebSearch,
}

impl Tool {
    /// The name under which the model calls the tool.
    pub fn name(&self) -> (r: &'static str)
        ensures
            *self == Tool::CurrentTime ==> r@ == CURRENT_TIME@,
            *self == Tool::WebSearch ==> r@ == WEB_SEARCH@,
    {
        match self {
            Tool::CurrentTime => CURRENT_TIME,
            Tool::WebSearch => WEB_SEARCH,
        }
    }
}

/// Why a tool call failed.
pub enum ToolError {
    /// The call named no built-in tool; holds the name.
    Unknown(String),
    /// web_search was called with no Tavily key configured.
    MissingTavilyKey,
    /// web_search's arguments were not a JSON object with a string `query`;
    /// holds the arguments.
    InvalidArguments(String),
    /// web_search's query held only whitespace.
    EmptyQuery,
    /// The search found nothing.
    NoResults,
}

/// The message shown for a tool error.
pub open spec fn error_message(e: &ToolError) -> Seq<char> {
    match e {
        ToolError::Unknown(name) => "unknown tool requested: "@ + name@,
        ToolError::MissingTavilyKey => "web_search requires a Tavily API key. Set TAVILY_API_KEY or tavily_api_key in ~/.config/ponder/config.toml"@,
        ToolError::InvalidArguments(args) => "invalid web_search arguments: "@ + args@,
        ToolError::EmptyQuery => "web_search query cannot be empty"@,
        ToolError::NoResults => "web_search did not find any results"@,
    }
}

impl ToolError {
    /// The message shown to the user.
    pub fn message(&self) -> (r: String)
        ensures
            r@ == error_message(self),
    {
        match self {
            ToolError::Unknown(name) => {
                let mut r = "unknown tool requested: ".to_owned();
                r.append(name.as_str());
                r
            },
            ToolError::MissingTavilyKey => "web_search requires a Tavily API key. Set TAVILY_API_KEY or tavily_api_key in ~/.config/ponder/config.toml".to_owned(),
            ToolError::InvalidArguments(args) => {
                let mut r = "invalid web_search arguments: ".to_owned();
                r.append(args.as_str());
                r
            },
            ToolError::EmptyQuery => "web_search query cannot be empty".to_owned(),
            ToolError::NoResults => "web_search did not find any results".to_owned(),
        }
    }
}

/// The tool that `name` names, if any.
pub open spec fn tool_named(name: Seq<char>) -> Option<Tool> {
    if name == CURRENT_TIME@ {
        Some(Tool::CurrentTime)
    } else if name == WEB_SEARCH@ {
        Some(Tool::WebSearch)
    } else {
        None
    }
}

/// The tool that a call names, or `Unknown` with the name.
pub fn select_tool(name: &str) -> (r: Result<Tool, ToolError>)
    ensures
        tool_named(name@) matches Some(t) ==> r == Ok::<Tool, ToolError>(t),
        tool_named(name@) is None ==> (r matches Err(ToolError::Unknown(n)) && n@ == name@),
{
    proof {
        reveal_strlit("current_time");
        reveal_strlit("web_search");
        assert(CURRENT_TIME@.len() != WEB_SEARCH@.len());
    }
    if same_text(name, CURRENT_TIME) {
        Ok(Tool::CurrentTime)
    } else if same_text(name, WEB_SEARCH) {
        Ok(Tool::WebSearch)
    } else {
        Err(ToolError::Unknown(name.to_owned()))
    }
}

/// The JSON type of a tool parameter.
#[derive(Debug, PartialEq, Eq, Structural, Clone, Copy)]
pub enum ParamKind {
    Text,
    Integer,
}

/// One parameter of a tool, as offered to the model.
pub struct ParamSpec {
    pub name: String,
    pub kind: ParamKind,
    pub description: String,
    pub required: bool,
    /// The smallest value accepted, for an integer.
    pub minimum: Option<usize>,
    /// The largest value accepted, for an integer.
    pub maximum: Option<usize>,
}

/// A tool as offered to the model: a function whose arguments are an object
/// with the given parameters and no others.
pub struct ToolSpec {
    pub tool: Tool,
    pub name: String,
    pub description: String,
    pub params: Vec<ParamSpec>,
}

/// What `current_time` is offered as.
pub open spec fn current_time_spec(t: &ToolSpec) -> bool {
    &&& t.tool == Tool::CurrentTime
    &&& t.name@ == CURRENT_TIME@
    &&& t.description@ == "Get the current local date and time for the machine running ponder."@
    &&& t.params@.len() == 0
}

/// What `web_search` is offered as: a required text `query`, and an optional
/// integer `max_results` bounded as `max_results` clamps it.
pub open spec fn web_search_spec(t: &ToolSpec) -> bool {
    &&& t.tool == Tool::WebSearch
    &&& t.name@ == WEB_SEARCH@
    &&& t.description@
        == "Search the web for current or external information. Returns result titles, URLs, and snippets."@
    &&& t.params@.len() == 2
    &&& t.params@[0].name@ == "query"@
    &&& t.params@[0].kind == ParamKind::Text
    &&& t.params@[0].description@ == "The web search query."@
    &&& t.params@[0].required
    &&& t.params@[0].minimum is None
    &&& t.params@[0].maximum is None
    &&& t.params@[1].name@ == "max_results"@
    &&& t.params@[1].kind == ParamKind::Integer
    &&& t.params@[1].description@ == "Maximum number of results to return, from 1 to 5."@
    &&& !t.params@[1].required
    &&& t.params@[1].minimum == Some(MIN_RESULTS)
    &&& t.params@[1].maximum == Some(MAX_RESULTS)
}

/// The built-in tools as offered to the model: `current_time`, then
/// `web_search`; each is found by its name.
pub fn tool_specs() -> (r: Vec<ToolSpec>)
    ensures
        r@.len() == 2,
        current_time_spec(&r@[0]),
        web_search_spec(&r@[1]),
        forall|i: int| 0 <= i < r@.len() ==> tool_named(#[trigger] r@[i].name@) == Some(r@[i].tool),
{
    let mut r: Vec<ToolSpec> = Vec::new();
    r.push(ToolSpec {
        tool: Tool::CurrentTime,
        name: CURRENT_TIME.to_owned(),
        description: "Get the current local date and time for the machine running ponder.".to_owned(),
        params: Vec::new(),
    });
    let mut params: Vec<ParamSpec> = Vec::new();
    params.push(ParamSpec {
        name: "query".to_owned(),
        kind: ParamKind::Text,
        description: "The web search query.".to_owned(),
        required: true,
        minimum: None,
        maximum: None,
    });
    params.push(ParamSpec {
        name: "max_results".to_owned(),
        kind: ParamKind::Integer,
        description: "Maximum number of results to return, from 1 to 5.".to_owned(),
        required: false,
        minimum: Some(MIN_RESULTS),
        maximum: Some(MAX_RESULTS),
    });
    r.push(ToolSpec {
        tool: Tool::WebSearch,
        name: WEB_SEARCH.to_owned(),
        description: "Search the web for current or external information. Returns result titles, URLs, and snippets.".to_owned(),
        params,
    });
    proof {
        reveal_strlit("current_time");
        reveal_strlit("web_search");
        assert(CURRENT_TIME@.len() != WEB_SEARCH@.len());
    }
    r
}

/// The arguments of a web_search call.
pub struct WebSearchArgs {
    pub query: String,
    pub max_results: Option<usize>,
}

/// The body of a Tavily search request.
pub struct TavilyRequest {
    pub api_key: String,
    pub query: String,
    pub search_depth: String,
    pub max_results: usize,
    pub include_answer: bool,
    pub include_raw_content: bool,
}

/// The request that a call with key `api_key` and arguments `args` sends:
/// the trimmed query, a basic search, the clamped number of results, no
/// generated answer and no raw page content.
pub open spec fn search_request(req: TavilyRequest, api_key: Seq<char>, args: WebSearchArgs) -> bool {
    &&& req.api_key@ == api_key
    &&& req.query@ == trim_seq(args.query@)
    &&& req.search_depth@ == "basic"@
    &&& req.max_results == spec_max_results(args.max_results)
    &&& !req.include_answer
    &&& !req.include_raw_content
}

/// The number of results asked for: the model's number held between 1 and
/// 5, or 5 when it gave none.
pub open spec fn spec_max_results(requested: Option<usize>) -> usize {
    match requested {
        Some(n) => if n < MIN_RESULTS { MIN_RESULTS } else if n > MAX_RESULTS { MAX_RESULTS } else { n },
        None => DEFAULT_MAX_RESULTS,
    }
}

/// A search asks for the number of results that the model requested when
/// it lies between 1 and 5, for 1 when it requested fewer, for 5 when it
/// requested more, and for 5 when it requested none.
pub proof fn law_max_results_clamps(n: usize)
    ensures
        1 <= n <= 5 ==> spec_max_results(Some(n)) == n,
        n < 1 ==> spec_max_results(Some(n)) == 1,
        n > 5 ==> spec_max_results(Some(n)) == 5,
        spec_max_results(None) == 5,
{
}

/// The number of results to ask for.
pub fn max_results(requested: Option<usize>) -> (r: usize)
    ensures
        r == spec_max_results(requested),
        MIN_RESULTS <= r <= MAX_RESULTS,
{
    let n = match requested {
        Some(n) => n,
        None => DEFAULT_MAX_RESULTS,
    };
    if n < MIN_RESULTS {
        MIN_RESULTS
    } else if n > MAX_RESULTS {
        MAX_RESULTS
    } else {
        n
    }
}

/// The search request for a web_search call. `arguments` is the call's JSON
/// text and `parsed` what it parsed to (`None` when it is no valid argument
/// object). The key is checked first, then the arguments, then the query.
pub fn prepare_web_search(
    api_key: Option<&str>,
    arguments: &str,
    parsed: Option<WebSearchArgs>,
) -> (r: Result<TavilyRequest, ToolError>)
    ensures
        api_key is None ==> r matches Err(ToolError::MissingTavilyKey),
        api_key is Some && parsed is None ==> (r matches Err(ToolError::InvalidArguments(a))
            && a@ == arguments@),
        api_key is Some ==> (parsed matches Some(p) ==> {
            &&& trim_seq(p.query@).len() == 0 ==> (r matches Err(ToolError::EmptyQuery))
            &&& trim_seq(p.query@).len() > 0 ==> (r matches Ok(req) && search_request(
                req,
                api_key->0@,
                p,
            ))
        }),
{
    let key = match api_key {
        Some(k) => k,
        None => return Err(ToolError::MissingTavilyKey),
    };
    let args = match parsed {
        Some(a) => a,
        None => return Err(ToolError::InvalidArguments(arguments.to_owned())),
    };
    let query = trim(args.query.as_str());
    if query.as_str().is_empty() {
        return Err(ToolError::EmptyQuery);
    }
    Ok(TavilyRequest {
        api_key: key.to_owned(),
        query,
        search_depth: "basic".to_owned(),
        max_results: max_results(args.max_results),
        include_answer: false,
        include_raw_content: false,
    })
}

/// Refuses a search that found nothing.
pub fn check_search_results(count: usize) -> (r: Result<(), ToolError>)
    ensures
        count == 0 <==> r is Err,
        r matches Err(e) ==> e is NoResults,
{
    if count == 0 {
        Err(ToolError::NoResults)
    } else {
        Ok(())
    }
}

} // verus!
