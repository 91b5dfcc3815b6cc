//! The decisions of the tool server: which method a request names, which
//! tool a call is for, and what a call needs. Reading and writing JSON is
//! left to the caller.

use vstd::prelude::*;
use vstd::string::StringExecFns;

use crate::text::same_text;

verus! {

/// JSON-RPC code for a request that is no JSON.
pub const PARSE_ERROR: i32 = -32700;

/// JSON-RPC code for a tool that the server does not have.
pub const METHOD_NOT_FOUND: i32 = -32601;

/// JSON-RPC code for a failure inside the server.
pub const INTERNAL_ERROR: i32 = -32603;

/// Number of results of a search that names none.
pub const DEFAULT_TOP_K: u64 = 5;

/// What a request asks of the server.
#[derive(Debug, Clone, Copy, PartialEq, Eq, Structural)]
pub enum Method {
    /// `initialize`: the handshake.
    Initialize,
    /// `tools/list`: the list of tools.
    ToolsList,
    /// `tools/call`: a call of a tool.
    ToolsCall,
    /// Anything else, which is acknowledged and not acted on.
    Other,
}

/// A tool of the server.
#[derive(Debug, Clone, Copy, PartialEq, Eq, Structural)]
pub enum Tool {
    /// `memory_insert`
    MemoryInsert,
    /// `memory_search`
    MemorySearch,
}

/// The method that a name stands for.
pub open spec fn method_named(name: Seq<char>) -> Method {
    if name == "initialize"@ {
        Method::Initialize
    } else if name == "tools/list"@ {
        Method::ToolsList
    } else if name == "tools/call"@ {
        Method::ToolsCall
    } else {
        Method::Other
    }
}

/// The tool that a name stands for, if any.
pub open spec fn tool_named(name: Seq<char>) -> Option<Tool> {
    if name == "memory_insert"@ {
        Some(Tool::MemoryInsert)
    } else if name == "memory_search"@ {
        Some(Tool::MemorySearch)
    } else {
        None
    }
}

/// Reads the method of a request from its name.
pub fn classify_method(name: &str) -> (method: Method)
    ensures
        method == method_named(name@),
{
    if same_text(name, "initialize") {
        Method::Initialize
    } else if same_text(name, "tools/list") {
        Method::ToolsList
    } else if same_text(name, "tools/call") {
        Method::ToolsCall
    } else {
        Method::Other
    }
}

/// Reads the tool of a call from its name.
pub fn find_tool(name: &str) -> (tool: Option<Tool>)
    ensures
        tool == tool_named(name@),
{
    if same_text(name, "memory_insert") {
        Some(Tool::MemoryInsert)
    } else if same_text(name, "memory_search") {
        Some(Tool::MemorySearch)
    } else {
        None
    }
}

/// What the server does with a call of a tool.
#[derive(Debug, Clone, Copy, PartialEq, Eq, Structural)]
pub enum Route {
    /// Answer with an internal error: the tool needs the embedding model,
    /// and none is loaded.
    ModelMissing,
    /// Run the tool.
    Run(Tool),
    /// Answer that there is no such tool.
    UnknownTool,
}

/// Decides what the server does with a call of the tool of the given name,
/// given whether the embedding model is loaded.
pub fn route_call(name: &str, model_loaded: bool) -> (route: Route)
    ensures
        route == (match tool_named(name@) {
            Some(tool) => if model_loaded {
                Route::Run(tool)
            } else {
                Route::ModelMissing
            },
            None => Route::UnknownTool,
        }),
{
    match find_tool(name) {
        Some(tool) => if model_loaded {
            Route::Run(tool)
        } else {
            Route::ModelMissing
        },
        None => Route::UnknownTool,
    }
}

/// The JSON-RPC code with which a route that answers with an error does so.
pub fn route_error_code(route: Route) -> (code: Option<i32>)
    ensures
        code == (match route {
            Route::ModelMissing => Some(INTERNAL_ERROR),
            Route::UnknownTool => Some(METHOD_NOT_FOUND),
            Route::Run(_) => None,
        }),
{
    match route {
        Route::ModelMissing => Some(INTERNAL_ERROR),
        Route::UnknownTool => Some(METHOD_NOT_FOUND),
        Route::Run(_) => None,
    }
}

/// A call of a tool with what it needs.
#[derive(Debug, Clone, PartialEq, Eq)]
pub enum ToolCall {
    /// Remember `text`.
    Insert { text: String },
    /// Search for the `top_k` memories nearest to `query`.
    Search { query: String, top_k: usize },
}

/// Why a call of a tool cannot be made.
#[derive(Debug, Clone, Copy, PartialEq, Eq, Structural)]
pub enum ToolError {
    /// `memory_insert` was called without a text.
    MissingText,
    /// `memory_search` was called without a query.
    MissingQuery,
    /// There is no tool of the name called.
    UnknownTool,
}

/// The number of results that a search is to return: the number asked for,
/// cut to the machine's word, or five when none is asked for.
pub open spec fn top_k_of(asked: Option<u64>) -> usize {
    match asked {
        Some(k) => k as usize,
        None => DEFAULT_TOP_K as usize,
    }
}

/// Puts a call together from the name of the tool and the arguments that
/// the request holds: the text, the query and the number of results, each
/// if it is there and of the right kind.
pub fn plan_tool_call(
    name: &str,
    text: Option<String>,
    query: Option<String>,
    top_k: Option<u64>,
) -> (plan: Result<ToolCall, ToolError>)
    ensures
        plan == (match tool_named(name@) {
            Some(Tool::MemoryInsert) => match text {
                Some(text) => Ok(ToolCall::Insert { text }),
                None => Err(ToolError::MissingText),
            },
            Some(Tool::MemorySearch) => match query {
                Some(query) => Ok(ToolCall::Search { query, top_k: top_k_of(top_k) }),
                None => Err(ToolError::MissingQuery),
            },
            None => Err(ToolError::UnknownTool),
        }),
{
    match find_tool(name) {
        Some(Tool::MemoryInsert) => match text {
            Some(text) => Ok(ToolCall::Insert { text }),
            None => Err(ToolError::MissingText),
        },
        Some(Tool::MemorySearch) => match query {
            Some(query) => {
                let k = match top_k {
                    Some(k) => #[verifier::truncate]
                    (k as usize),
                    None => 5,
                };
                Ok(ToolCall::Search { query, top_k: k })
            },
            None => Err(ToolError::MissingQuery),
        },
        None => Err(ToolError::UnknownTool),
    }
}

/// What is said of a call that cannot be made.
pub fn tool_error_message(error: ToolError, name: &str) -> (message: String)
    ensures
        message@ == (match error {
            ToolError::MissingText => "Missing 'text' argument"@,
            ToolError::MissingQuery => "Missing 'query' argument"@,
            ToolError::UnknownTool => "Unknown tool: "@ + name@,
        }),
{
    match error {
        ToolError::MissingText => String::from_str("Missing 'text' argument"),
        ToolError::MissingQuery => String::from_str("Missing 'query' argument"),
        ToolError::UnknownTool => {
            let mut message = String::from_str("Unknown tool: ");
            message.append(name);
            message
        },
    }
}

} // verus!
