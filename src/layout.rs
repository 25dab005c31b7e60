//! Where a team's files live below its camp directory, and where the
//! inspector writes its debug files.

use vstd::prelude::*;
use vstd::string::*;

use crate::text::{cat3, cat5};

verus! {

/// `base/name`.
pub open spec fn below(base: Seq<char>, name: Seq<char>) -> Seq<char> {
    base + "/"@ + name
}

pub fn join_name(base: &str, name: &str) -> (r: String)
    ensures
        r@ == below(base@, name@),
{
    cat3(base, "/", name)
}

pub fn team_json_path(camp_dir: &str) -> (r: String)
    ensures
        r@ == below(camp_dir@, "team.json"@),
{
    join_name(camp_dir, "team.json")
}

pub fn team_bus_path(camp_dir: &str) -> (r: String)
    ensures
        r@ == below(camp_dir@, "team_bus.jsonl"@),
{
    join_name(camp_dir, "team_bus.jsonl")
}

pub fn supervisor_dir(camp_dir: &str) -> (r: String)
    ensures
        r@ == below(camp_dir@, "supervisor"@),
{
    join_name(camp_dir, "supervisor")
}

pub fn agents_root(camp_dir: &str) -> (r: String)
    ensures
        r@ == below(camp_dir@, "agents"@),
{
    join_name(camp_dir, "agents")
}

pub fn agent_dir(camp_dir: &str, agent_id: &str) -> (r: String)
    ensures
        r@ == below(below(camp_dir@, "agents"@), agent_id@),
{
    let root = agents_root(camp_dir);
    join_name(root.as_str(), agent_id)
}

pub fn agent_prompt_path(camp_dir: &str, agent_id: &str) -> (r: String)
    ensures
        r@ == below(below(below(camp_dir@, "agents"@), agent_id@), "system_prompt.md"@),
{
    let dir = agent_dir(camp_dir, agent_id);
    join_name(dir.as_str(), "system_prompt.md")
}

pub fn agent_transcript_path(camp_dir: &str, agent_id: &str) -> (r: String)
    ensures
        r@ == below(below(below(camp_dir@, "agents"@), agent_id@), "transcript.jsonl"@),
{
    let dir = agent_dir(camp_dir, agent_id);
    join_name(dir.as_str(), "transcript.jsonl")
}

pub fn agent_tools_path(camp_dir: &str, agent_id: &str) -> (r: String)
    ensures
        r@ == below(below(below(camp_dir@, "agents"@), agent_id@), "tools.json"@),
{
    let dir = agent_dir(camp_dir, agent_id);
    join_name(dir.as_str(), "tools.json")
}

pub fn agent_context_dir(camp_dir: &str, agent_id: &str) -> (r: String)
    ensures
        r@ == below(below(below(camp_dir@, "agents"@), agent_id@), "context"@),
{
    let dir = agent_dir(camp_dir, agent_id);
    join_name(dir.as_str(), "context")
}

pub fn supervisor_prompt_path(camp_dir: &str) -> (r: String)
    ensures
        r@ == below(below(camp_dir@, "supervisor"@), "system_prompt.md"@),
{
    let dir = supervisor_dir(camp_dir);
    join_name(dir.as_str(), "system_prompt.md")
}

pub fn supervisor_transcript_path(camp_dir: &str) -> (r: String)
    ensures
        r@ == below(below(camp_dir@, "supervisor"@), "transcript.jsonl"@),
{
    let dir = supervisor_dir(camp_dir);
    join_name(dir.as_str(), "transcript.jsonl")
}

pub fn supervisor_tools_path(camp_dir: &str) -> (r: String)
    ensures
        r@ == below(below(camp_dir@, "supervisor"@), "tools.json"@),
{
    let dir = supervisor_dir(camp_dir);
    join_name(dir.as_str(), "tools.json")
}

pub fn team_artifacts_dir(camp_dir: &str) -> (r: String)
    ensures
        r@ == below(camp_dir@, "artifacts"@),
{
    join_name(camp_dir, "artifacts")
}

pub fn team_drafts_dir(camp_dir: &str) -> (r: String)
    ensures
        r@ == below(below(camp_dir@, "artifacts"@), "drafts"@),
{
    let dir = team_artifacts_dir(camp_dir);
    join_name(dir.as_str(), "drafts")
}

pub fn team_promoted_dir(camp_dir: &str) -> (r: String)
    ensures
        r@ == below(below(camp_dir@, "artifacts"@), "promoted"@),
{
    let dir = team_artifacts_dir(camp_dir);
    join_name(dir.as_str(), "promoted")
}

/// The inspector's folder of a camp.
pub fn debug_dir(camp_dir: &str) -> (r: String)
    ensures
        r@ == below(below(camp_dir@, ".camp"@), "debug"@),
{
    let top = join_name(camp_dir, ".camp");
    join_name(top.as_str(), "debug")
}

/// The inspector's event log of a camp.
pub fn events_path(camp_dir: &str) -> (r: String)
    ensures
        r@ == below(below(below(camp_dir@, ".camp"@), "debug"@), "events.jsonl"@),
{
    let dir = debug_dir(camp_dir);
    join_name(dir.as_str(), "events.jsonl")
}

/// A character kept in a file name component.
pub open spec fn is_component_char(c: char) -> bool {
    ('a' <= c && c <= 'z') || ('A' <= c && c <= 'Z') || ('0' <= c && c <= '9') || c == '-' || c == '_'
}

/// The characters of `s` that may stand in a file name component.
pub open spec fn component_chars(s: Seq<char>) -> Seq<char> {
    s.filter(|c: char| is_component_char(c))
}

/// `value` reduced to ASCII letters, digits, `-` and `_`; "unknown" when nothing is left.
pub fn sanitize_filename_component(value: &str) -> (r: String)
    ensures
        component_chars(value@).len() > 0 ==> r@ == component_chars(value@),
        component_chars(value@).len() == 0 ==> r@ == "unknown"@,
{
    let n = value.unicode_len();
    let mut out = String::new();
    let mut i: usize = 0;
    while i < n
        invariant
            n == value@.len(),
            i <= n,
            out@ == component_chars(value@.subrange(0, i as int)),
        decreases n - i,
    {
        let c = value.get_char(i);
        proof {
            assert(value@.subrange(0, i + 1) =~= value@.subrange(0, i as int).push(c));
            value@.subrange(0, i as int).lemma_filter_push(c, |c: char| is_component_char(c));
        }
        if ('a' <= c && c <= 'z') || ('A' <= c && c <= 'Z') || ('0' <= c && c <= '9') || c == '-' || c == '_' {
            out.append(value.substring_char(i, i + 1));
            assert(value@.subrange(i as int, i + 1) =~= seq![c]);
        }
        i = i + 1;
    }
    assert(value@.subrange(0, n as int) =~= value@);
    if out.unicode_len() == 0 {
        "unknown".to_string()
    } else {
        out
    }
}

/// The debug file of one turn: `turn_<id>_<suffix>.json` in the inspector's folder.
pub open spec fn turn_file(camp_dir: Seq<char>, correlation_id: Seq<char>, suffix: Seq<char>) -> Seq<char> {
    let id = if component_chars(correlation_id).len() > 0 {
        component_chars(correlation_id)
    } else {
        "unknown"@
    };
    below(below(below(camp_dir, ".camp"@), "debug"@), "turn_"@ + id + "_"@ + suffix + ".json"@)
}

pub fn turn_file_path(camp_dir: &str, correlation_id: &str, suffix: &str) -> (r: String)
    ensures
        r@ == turn_file(camp_dir@, correlation_id@, suffix@),
{
    let safe = sanitize_filename_component(correlation_id);
    let name = cat5("turn_", safe.as_str(), "_", suffix, ".json");
    let dir = debug_dir(camp_dir);
    join_name(dir.as_str(), name.as_str())
}

pub fn turn_request_file_path(camp_dir: &str, correlation_id: &str) -> (r: String)
    ensures
        r@ == turn_file(camp_dir@, correlation_id@, "request"@),
{
    turn_file_path(camp_dir, correlation_id, "request")
}

pub fn turn_response_file_path(camp_dir: &str, correlation_id: &str) -> (r: String)
    ensures
        r@ == turn_file(camp_dir@, correlation_id@, "response"@),
{
    turn_file_path(camp_dir, correlation_id, "response")
}

pub fn turn_bundle_file_path(camp_dir: &str, correlation_id: &str) -> (r: String)
    ensures
        r@ == turn_file(camp_dir@, correlation_id@, "bundle"@),
{
    turn_file_path(camp_dir, correlation_id, "bundle")
}

} // verus!
