//! The agent tool loop: which tools an agent is offered, what each tool call
//! is to do, and when the request/response loop stops.

use vstd::prelude::*;
use vstd::string::*;

use base64::Engine;

use crate::ident::views;
use crate::journal::{accumulate_usage, count_or_zero, sat_add, zero_usage, BusTokenUsage, ProviderUsage};
use crate::sandbox::{resolve_tool_path, tool_target};
use crate::text::{ascii_lower, ascii_lower_str, cat, cat3, str_eq, trim, trim_str};

verus! {

/// Largest number of request/response round trips of one delegation step.
pub const TEAM_MAX_TOOL_LOOPS: usize = 6;

/// The bytes that standard base64 decoding makes of a text, if it is valid.
pub uninterp spec fn base64_decoded(s: Seq<char>) -> Option<Seq<u8>>;

/// Relies on base64's `STANDARD` engine `decode`: the bytes a valid text
/// encodes, or an error for an invalid one; the outcome depends on the text alone.
#[verifier::external_body]
fn decode_base64(s: &str) -> (r: Result<Vec<u8>, String>)
    ensures
        r is Ok <==> base64_decoded(s@) is Some,
        r is Ok ==> r->Ok_0@ == base64_decoded(s@)->Some_0,
{
    base64::engine::general_purpose::STANDARD.decode(s).map_err(|err| err.to_string())
}

proof fn lemma_tool_names_distinct()
    ensures
        "read_file"@ != "list_files"@,
        "read_file"@ != "write_file"@,
        "read_file"@ != "web_search"@,
        "list_files"@ != "write_file"@,
        "list_files"@ != "web_search"@,
        "write_file"@ != "web_search"@,
{
    reveal_strlit("read_file");
    reveal_strlit("list_files");
    reveal_strlit("write_file");
    reveal_strlit("web_search");
    assert("read_file"@.len() != "list_files"@.len());
    assert("read_file"@.len() != "write_file"@.len());
    assert("read_file"@.len() != "web_search"@.len());
    assert("list_files"@[0] != "write_file"@[0]);
    assert("list_files"@[0] != "web_search"@[0]);
    assert("write_file"@[1] != "web_search"@[1]);
}

/// The four tool names the loop knows.
pub open spec fn is_known_tool(name: Seq<char>) -> bool {
    name == "read_file"@ || name == "list_files"@ || name == "write_file"@ || name == "web_search"@
}

pub fn known_tool(name: &str) -> (r: bool)
    ensures
        r == is_known_tool(name@),
{
    str_eq(name, "read_file") || str_eq(name, "list_files") || str_eq(name, "write_file") || str_eq(
        name,
        "web_search",
    )
}

/// The names of `subset` that are known tools, in order.
pub open spec fn offered_tools(subset: Seq<Seq<char>>) -> Seq<Seq<char>> {
    subset.filter(|n: Seq<char>| is_known_tool(n))
}

/// The tools an agent is offered: its allowed names that the loop knows,
/// unknown names dropped.
pub fn tool_names_for_subset(subset: &Vec<String>) -> (r: Vec<String>)
    ensures
        views(r@) == offered_tools(views(subset@)),
{
    let mut out: Vec<String> = Vec::new();
    let mut i: usize = 0;
    while i < subset.len()
        invariant
            i <= subset@.len(),
            views(out@) == offered_tools(views(subset@.subrange(0, i as int))),
        decreases subset.len() - i,
    {
        let ghost prev = out@;
        proof {
            let cur = views(subset@.subrange(0, i + 1));
            assert(cur =~= views(subset@.subrange(0, i as int)).push(subset@[i as int]@));
            views(subset@.subrange(0, i as int)).lemma_filter_push(subset@[i as int]@, |n: Seq<char>| is_known_tool(n));
        }
        if known_tool(subset[i].as_str()) {
            out.push(subset[i].clone());
            assert(views(out@) =~= views(prev).push(subset@[i as int]@));
        }
        i = i + 1;
    }
    assert(subset@.subrange(0, subset@.len() as int) =~= subset@);
    out
}

/// The arguments of one tool call, as read from its JSON arguments.
pub struct ToolArgs {
    pub path: Option<String>,
    pub content: Option<String>,
    pub encoding: Option<String>,
}

/// What a tool call is to do. Every path has been checked against the sandbox.
pub enum ToolAction {
    /// Read the file at `target`; `path` is the argument as given.
    ReadFile { target: String, path: String },
    /// List the files below `target`.
    ListFiles { target: String, path: String },
    /// Write `bytes` to `target`.
    WriteFile { target: String, path: String, bytes: Vec<u8> },
    /// The call fails with this message; nothing is touched.
    Fail(String),
}

pub open spec fn opt_view(o: Option<String>) -> Option<Seq<char>> {
    match o {
        Some(s) => Some(s@),
        None => None,
    }
}

/// The bytes a `write_file` call writes: its content as UTF-8, or decoded
/// from base64 when the encoding says so.
pub open spec fn write_bytes(content: String, encoding: Option<Seq<char>>) -> Option<Seq<u8>> {
    let enc = match encoding {
        Some(e) => ascii_lower(e),
        None => "utf-8"@,
    };
    if enc == "base64"@ {
        base64_decoded(content@)
    } else {
        Some(vstd::utf8::encode_utf8(content@))
    }
}

/// Decides what a tool call does inside the context directory `root`.
/// A missing name, bad arguments, a path that leaves the sandbox, an
/// unavailable or unknown tool all give `Fail`.
pub fn plan_tool_call(root: &str, name: Option<String>, args: Result<ToolArgs, String>) -> (r: ToolAction)
    ensures
        name is None ==> r is Fail && r->Fail_0@ == "Tool call missing function.name"@,
        name is Some && args is Err ==> r is Fail && r->Fail_0@ == args->Err_0@,
        name is Some && args is Ok ==> {
            let n = name->Some_0@;
            let a = args->Ok_0;
            &&& n == "read_file"@ ==> match opt_view(a.path) {
                None => r is Fail && r->Fail_0@ == "read_file requires `path` string argument."@,
                Some(p) => match tool_target(root@, p, false) {
                    Err(e) => r is Fail && r->Fail_0@ == e,
                    Ok(t) => r is ReadFile && r->ReadFile_target@ == t && r->ReadFile_path@ == p,
                },
            }
            &&& n == "list_files"@ ==> {
                let p = match opt_view(a.path) { Some(p) => p, None => Seq::empty() };
                match tool_target(root@, p, true) {
                    Err(e) => r is Fail && r->Fail_0@ == e,
                    Ok(t) => r is ListFiles && r->ListFiles_target@ == t && r->ListFiles_path@ == p,
                }
            }
            &&& n == "write_file"@ ==> match (opt_view(a.path), a.content) {
                (None, _) => r is Fail && r->Fail_0@ == "write_file requires `path` string argument."@,
                (Some(_), None) => r is Fail && r->Fail_0@ == "write_file requires `content` string argument."@,
                (Some(p), Some(c)) => match tool_target(root@, p, false) {
                    Err(e) => r is Fail && r->Fail_0@ == e,
                    Ok(t) => match write_bytes(c, opt_view(a.encoding)) {
                        None => r is Fail,
                        Some(b) => r is WriteFile && r->WriteFile_target@ == t && r->WriteFile_path@ == p
                            && r->WriteFile_bytes@ == b,
                    },
                },
            }
            &&& n == "web_search"@ ==> r is Fail && r->Fail_0@
                == "web_search is not available in local deterministic team mode."@
            &&& !is_known_tool(n) ==> r is Fail && r->Fail_0@ == "Unsupported tool `"@ + n + "`."@
        },
{
    proof {
        lemma_tool_names_distinct();
    }
    let name = match name {
        Some(n) => n,
        None => return ToolAction::Fail("Tool call missing function.name".to_string()),
    };
    let args = match args {
        Ok(a) => a,
        Err(e) => return ToolAction::Fail(e),
    };
    if str_eq(name.as_str(), "read_file") {
        let path = match args.path {
            Some(p) => p,
            None => {
                let r = ToolAction::Fail("read_file requires `path` string argument.".to_string());
                return r;
            },
        };
        match resolve_tool_path(root, path.as_str(), false) {
            Ok(t) => ToolAction::ReadFile { target: t, path },
            Err(e) => ToolAction::Fail(e),
        }
    } else if str_eq(name.as_str(), "list_files") {
        let path = match args.path {
            Some(p) => p,
            None => String::new(),
        };
        match resolve_tool_path(root, path.as_str(), true) {
            Ok(t) => ToolAction::ListFiles { target: t, path },
            Err(e) => ToolAction::Fail(e),
        }
    } else if str_eq(name.as_str(), "write_file") {
        let path = match args.path {
            Some(p) => p,
            None => return ToolAction::Fail("write_file requires `path` string argument.".to_string()),
        };
        let content = match args.content {
            Some(c) => c,
            None => return ToolAction::Fail("write_file requires `content` string argument.".to_string()),
        };
        let target = match resolve_tool_path(root, path.as_str(), false) {
            Ok(t) => t,
            Err(e) => return ToolAction::Fail(e),
        };
        let encoding = match args.encoding {
            Some(e) => ascii_lower_str(e.as_str()),
            None => "utf-8".to_string(),
        };
        if str_eq(encoding.as_str(), "base64") {
            match decode_base64(content.as_str()) {
                Ok(bytes) => ToolAction::WriteFile { target, path, bytes },
                Err(e) => ToolAction::Fail(cat("Invalid base64 content: ", e.as_str())),
            }
        } else {
            let bytes = content.as_str().as_bytes_vec();
            ToolAction::WriteFile { target, path, bytes }
        }
    } else if str_eq(name.as_str(), "web_search") {
        ToolAction::Fail("web_search is not available in local deterministic team mode.".to_string())
    } else {
        ToolAction::Fail(cat3("Unsupported tool `", name.as_str(), "`."))
    }
}


/// What one delegation step produced.
#[derive(Debug, Clone)]
pub struct AgentStepResult {
    pub step_id: String,
    pub agent_id: String,
    pub output_text: String,
    pub draft_path: String,
    pub context_writes: Vec<String>,
    pub token_usage: BusTokenUsage,
}

/// The running state of one delegation step's request/response loop.
pub struct ToolLoop {
    /// Responses received so far.
    pub rounds: usize,
    /// The trimmed text of the latest response.
    pub final_output: String,
    /// Usage summed over every response.
    pub token_usage: BusTokenUsage,
    /// Relative paths written by tools, in order.
    pub context_writes: Vec<String>,
}

/// What follows a response.
pub enum LoopStep {
    /// The response asked for no tool: its text is the step's output.
    Done,
    /// Run the requested tools in order, then send another request only when
    /// `request_again` holds.
    RunTools { request_again: bool },
}

/// Whether a response received after `rounds` earlier ones leads to another request.
pub open spec fn continues(rounds: nat, has_tool_calls: bool) -> bool {
    has_tool_calls && rounds + 1 < TEAM_MAX_TOOL_LOOPS
}

/// Requests made by a loop that has already made `rounds`, when the model's
/// answers, in order, ask for tools as `calls` says.
pub open spec fn requests_made(rounds: nat, calls: Seq<bool>) -> nat
    decreases calls.len(),
{
    if calls.len() == 0 {
        rounds
    } else if continues(rounds, calls[0]) {
        requests_made(rounds + 1, calls.drop_first())
    } else {
        rounds + 1
    }
}

impl ToolLoop {
    pub fn new() -> (r: ToolLoop)
        ensures
            r.rounds == 0,
            r.final_output@ == Seq::<char>::empty(),
            r.token_usage.input == 0 && r.token_usage.output == 0,
            r.context_writes@.len() == 0,
    {
        ToolLoop { rounds: 0, final_output: String::new(), token_usage: zero_usage(), context_writes: Vec::new() }
    }

    /// Whether another request may still be sent.
    pub open spec fn may_request(&self) -> bool {
        self.rounds < TEAM_MAX_TOOL_LOOPS
    }

    /// Takes in one response: counts it, adds its usage, keeps its trimmed
    /// text as the output so far, and says what comes next.
    pub fn record_response(&mut self, output_text: &str, usage: &ProviderUsage, has_tool_calls: bool) -> (r: LoopStep)
        requires
            old(self).may_request(),
        ensures
            final(self).rounds == old(self).rounds + 1,
            final(self).final_output@ == trim(output_text@),
            final(self).token_usage.input == sat_add(old(self).token_usage.input, count_or_zero(usage.prompt_tokens)),
            final(self).token_usage.output == sat_add(old(self).token_usage.output, count_or_zero(usage.completion_tokens)),
            final(self).context_writes == old(self).context_writes,
            !has_tool_calls <==> r is Done,
            r is RunTools ==> r->request_again == continues(old(self).rounds as nat, has_tool_calls),
            continues(old(self).rounds as nat, has_tool_calls) ==> final(self).may_request(),
    {
        self.rounds = self.rounds + 1;
        accumulate_usage(&mut self.token_usage, usage);
        self.final_output = trim_str(output_text);
        if !has_tool_calls {
            LoopStep::Done
        } else {
            LoopStep::RunTools { request_again: self.rounds < TEAM_MAX_TOOL_LOOPS }
        }
    }

    /// Records a path that a tool wrote.
    pub fn record_write(&mut self, path: String)
        ensures
            final(self).context_writes@ == old(self).context_writes@.push(path),
            final(self).rounds == old(self).rounds,
            final(self).final_output == old(self).final_output,
            final(self).token_usage == old(self).token_usage,
    {
        self.context_writes.push(path);
    }
}

proof fn lemma_requests_from(k: nat, calls: Seq<bool>)
    requires
        k <= TEAM_MAX_TOOL_LOOPS,
        calls.len() + k >= TEAM_MAX_TOOL_LOOPS,
        forall|i: int| 0 <= i < calls.len() ==> calls[i],
        k < TEAM_MAX_TOOL_LOOPS,
    ensures
        requests_made(k, calls) == TEAM_MAX_TOOL_LOOPS,
    decreases TEAM_MAX_TOOL_LOOPS - k,
{
    if k + 1 < TEAM_MAX_TOOL_LOOPS {
        assert(calls[0]);
        lemma_requests_from(k + 1, calls.drop_first());
    } else {
        assert(calls[0]);
    }
}

/// A model that asks for a tool in every answer gets exactly six requests.
pub proof fn tool_loop_stops_after_six(calls: Seq<bool>)
    requires
        calls.len() >= TEAM_MAX_TOOL_LOOPS,
        forall|i: int| 0 <= i < calls.len() ==> calls[i],
    ensures
        requests_made(0, calls) == 6,
{
    lemma_requests_from(0, calls);
}

/// A loop never sends more than six requests, whatever the answers.
pub proof fn tool_loop_bounded(rounds: nat, calls: Seq<bool>)
    requires
        rounds < TEAM_MAX_TOOL_LOOPS,
    ensures
        requests_made(rounds, calls) <= 6,
    decreases calls.len(),
{
    if calls.len() > 0 && continues(rounds, calls[0]) {
        tool_loop_bounded(rounds + 1, calls.drop_first());
    }
}


/// The JSON function description of each known tool.
pub open spec fn tool_spec_text(name: Seq<char>) -> Seq<char> {
    if name == "read_file"@ {
        "{\"type\":\"function\",\"function\":{\"name\":\"read_file\",\"description\":\"Read a file from the current agent context directory.\",\"parameters\":{\"type\":\"object\",\"properties\":{\"path\":{\"type\":\"string\"}},\"required\":[\"path\"],\"additionalProperties\":false}}}"@
    } else if name == "list_files"@ {
        "{\"type\":\"function\",\"function\":{\"name\":\"list_files\",\"description\":\"List files from the current agent context directory.\",\"parameters\":{\"type\":\"object\",\"properties\":{\"path\":{\"type\":\"string\"}},\"required\":[],\"additionalProperties\":false}}}"@
    } else if name == "write_file"@ {
        "{\"type\":\"function\",\"function\":{\"name\":\"write_file\",\"description\":\"Write a file in the current agent context directory.\",\"parameters\":{\"type\":\"object\",\"properties\":{\"path\":{\"type\":\"string\"},\"content\":{\"type\":\"string\"},\"encoding\":{\"type\":\"string\",\"enum\":[\"utf-8\",\"base64\"]}},\"required\":[\"path\",\"content\"],\"additionalProperties\":false}}}"@
    } else {
        "{\"type\":\"function\",\"function\":{\"name\":\"web_search\",\"description\":\"Search the web for current information.\",\"parameters\":{\"type\":\"object\",\"properties\":{\"query\":{\"type\":\"string\"}},\"required\":[\"query\"],\"additionalProperties\":false}}}"@
    }
}

/// The JSON function description offered to a model for a known tool;
/// none for any other name.
pub fn tool_spec_json(name: &str) -> (r: Option<String>)
    ensures
        r is Some <==> is_known_tool(name@),
        r is Some ==> r->Some_0@ == tool_spec_text(name@),
{
    proof {
        lemma_tool_names_distinct();
    }
    if str_eq(name, "read_file") {
        Some("{\"type\":\"function\",\"function\":{\"name\":\"read_file\",\"description\":\"Read a file from the current agent context directory.\",\"parameters\":{\"type\":\"object\",\"properties\":{\"path\":{\"type\":\"string\"}},\"required\":[\"path\"],\"additionalProperties\":false}}}".to_string())
    } else if str_eq(name, "list_files") {
        Some("{\"type\":\"function\",\"function\":{\"name\":\"list_files\",\"description\":\"List files from the current agent context directory.\",\"parameters\":{\"type\":\"object\",\"properties\":{\"path\":{\"type\":\"string\"}},\"required\":[],\"additionalProperties\":false}}}".to_string())
    } else if str_eq(name, "write_file") {
        Some("{\"type\":\"function\",\"function\":{\"name\":\"write_file\",\"description\":\"Write a file in the current agent context directory.\",\"parameters\":{\"type\":\"object\",\"properties\":{\"path\":{\"type\":\"string\"},\"content\":{\"type\":\"string\"},\"encoding\":{\"type\":\"string\",\"enum\":[\"utf-8\",\"base64\"]}},\"required\":[\"path\",\"content\"],\"additionalProperties\":false}}}".to_string())
    } else if str_eq(name, "web_search") {
        Some("{\"type\":\"function\",\"function\":{\"name\":\"web_search\",\"description\":\"Search the web for current information.\",\"parameters\":{\"type\":\"object\",\"properties\":{\"query\":{\"type\":\"string\"}},\"required\":[\"query\"],\"additionalProperties\":false}}}".to_string())
    } else {
        None
    }
}

/// The JSON descriptions of the tools an agent is offered, in order.
pub fn tool_specs_for_subset(subset: &Vec<String>) -> (r: Vec<String>)
    ensures
        r@.len() == offered_tools(views(subset@)).len(),
        forall|k: int| 0 <= k < r@.len() ==> #[trigger] r@[k]@ == tool_spec_text(offered_tools(views(subset@))[k]),
{
    let names = tool_names_for_subset(subset);
    proof {
        assert forall|k: int| 0 <= k < names@.len() implies is_known_tool(#[trigger] names@[k]@) by {
            views(subset@).lemma_filter_pred(|n: Seq<char>| is_known_tool(n), k);
            assert(views(names@)[k] == names@[k]@);
        }
    }
    let mut out: Vec<String> = Vec::new();
    let mut i: usize = 0;
    while i < names.len()
        invariant
            i <= names@.len(),
            out@.len() == i,
            forall|k: int| 0 <= k < names@.len() ==> is_known_tool(#[trigger] names@[k]@),
            views(names@) == offered_tools(views(subset@)),
            forall|k: int| 0 <= k < i ==> #[trigger] out@[k]@ == tool_spec_text(names@[k]@),
        decreases names.len() - i,
    {
        match tool_spec_json(names[i].as_str()) {
            Some(spec) => out.push(spec),
            None => {},
        }
        i = i + 1;
    }
    out
}

} // verus!
