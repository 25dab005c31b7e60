//! The texts exchanged with models: prompts, requests, and the JSON
//! candidates read back from a model's answer.

use vstd::prelude::*;
use vstd::string::*;

use crate::ident::{simple_identifier, validate_simple_identifier, views};
use crate::plan::DelegationStep;
use crate::roster::{answers_to_role, find_agent, find_agent_by_role, first_with_id, TeamAgentConfig, TeamConfig};
use crate::text::{
    cat, cat3, cat4, cat5, is_blank, join, join_texts, replace_all, replace_text, str_is_blank,
    strip_prefix_text, strip_prefixes, strip_suffix_text, strip_suffixes, trim, trim_str,
};

verus! {

/// The placeholder of a supervisor prompt that the roster replaces.
pub const ROSTER_PLACEHOLDER: &'static str = "{{agent_roster}}";

/// The supervisor prompt used when a team stores none.
pub const DEFAULT_SUPERVISOR_PROMPT: &'static str = "You are the Supervisor of a local agent team running inside Basecamp.\n\nYour team:\n{{agent_roster}}\n\nYour job is to decompose the user's task into a delegation plan.\nOutput ONLY valid JSON matching this schema:\n\n{\n  \"task_summary\": \"string\",\n  \"steps\": [\n    {\n      \"step_id\": \"string\",\n      \"assigned_to\": \"agent_id\",\n      \"instruction\": \"string \u{2014} precise task for this agent\",\n      \"depends_on\": [\"step_id\"] | [],\n      \"expected_output\": \"string \u{2014} what artifact or file to produce\"\n    }\n  ],\n  \"reflection_required\": true | false\n}\n\nRules:\n- Assign each step to exactly one agent by their id\n- Respect dependencies \u{2014} don't assign a step if its dependency isn't complete\n- Be precise in instructions \u{2014} agents only read what you write here\n- If quality matters, set reflection_required: true";

pub fn default_supervisor_prompt() -> (r: String)
    ensures
        r@ == DEFAULT_SUPERVISOR_PROMPT@,
{
    DEFAULT_SUPERVISOR_PROMPT.to_string()
}

/// Message of a decomposition asked of a team without agents.
pub open spec fn no_agents_message() -> Seq<char> {
    "Team has no agents. Add at least one agent before decomposition."@
}

/// What a decomposition request needs: at least one agent, and a task that
/// is not blank. Returns the task trimmed.
pub fn decomposition_request(team_config: &TeamConfig, user_task: &str) -> (r: Result<String, String>)
    ensures
        team_config.agents@.len() == 0 ==> r is Err && r->Err_0@ == no_agents_message(),
        team_config.agents@.len() > 0 && is_blank(user_task@) ==> r is Err && r->Err_0@
            == "user_task is required."@,
        team_config.agents@.len() > 0 && !is_blank(user_task@) ==> r is Ok && r->Ok_0@ == trim(
            user_task@,
        ),
{
    if team_config.agents.len() == 0 {
        return Err("Team has no agents. Add at least one agent before decomposition.".to_string());
    }
    let t = trim_str(user_task);
    if t.unicode_len() == 0 {
        return Err("user_task is required.".to_string());
    }
    Ok(t)
}

/// A trimmed text, or `default` when it is blank.
pub open spec fn or_default(s: Seq<char>, default: Seq<char>) -> Seq<char> {
    if is_blank(s) {
        default
    } else {
        trim(s)
    }
}

fn text_or_default(s: &str, default: &str) -> (r: String)
    ensures
        r@ == or_default(s@, default@),
{
    if str_is_blank(s) {
        default.to_string()
    } else {
        trim_str(s)
    }
}

/// The roster line of one agent.
pub open spec fn roster_line(a: TeamAgentConfig) -> Seq<char> {
    let tools = if a.tool_subset@.len() == 0 {
        "none"@
    } else {
        join(views(a.tool_subset@), ", "@)
    };
    "- id: "@ + a.id@ + ", role: "@ + a.role@ + ", model: "@ + a.model@ + ", tools: ["@ + tools
        + "], description: "@ + or_default(a.description@, "No description"@)
}

pub open spec fn roster_lines(agents: Seq<TeamAgentConfig>) -> Seq<Seq<char>> {
    agents.map_values(|a: TeamAgentConfig| roster_line(a))
}

/// The roster as the supervisor reads it: one line per agent.
pub open spec fn rendered_roster(agents: Seq<TeamAgentConfig>) -> Seq<char> {
    if agents.len() == 0 {
        "- No agents configured"@
    } else {
        join(roster_lines(agents), "\n"@)
    }
}

fn render_roster_line(a: &TeamAgentConfig) -> (r: String)
    ensures
        r@ == roster_line(*a),
{
    let tools = if a.tool_subset.len() == 0 {
        "none".to_string()
    } else {
        join_texts(&a.tool_subset, ", ")
    };
    assert(a.tool_subset@.map_values(|s: String| s@) =~= views(a.tool_subset@));
    let desc = text_or_default(a.description.as_str(), "No description");
    let head = cat4("- id: ", a.id.as_str(), ", role: ", a.role.as_str());
    let mid = cat5(head.as_str(), ", model: ", a.model.as_str(), ", tools: [", tools.as_str());
    cat3(mid.as_str(), "], description: ", desc.as_str())
}

/// The roster, one line per agent, for the supervisor prompt.
pub fn render_agent_roster(team_config: &TeamConfig) -> (r: String)
    ensures
        r@ == rendered_roster(team_config.agents@),
{
    if team_config.agents.len() == 0 {
        return "- No agents configured".to_string();
    }
    let mut lines: Vec<String> = Vec::new();
    let mut i: usize = 0;
    while i < team_config.agents.len()
        invariant
            i <= team_config.agents@.len(),
            views(lines@) == roster_lines(team_config.agents@.subrange(0, i as int)),
        decreases team_config.agents.len() - i,
    {
        let ghost prev = lines@;
        lines.push(render_roster_line(&team_config.agents[i]));
        assert(team_config.agents@.subrange(0, i + 1) =~= team_config.agents@.subrange(0, i as int).push(team_config.agents@[i as int]));
        assert(views(lines@) =~= views(prev).push(roster_line(team_config.agents@[i as int])));
        assert(views(lines@) =~= roster_lines(team_config.agents@.subrange(0, i + 1)));
        i = i + 1;
    }
    assert(team_config.agents@.subrange(0, team_config.agents@.len() as int) =~= team_config.agents@);
    assert(lines@.map_values(|s: String| s@) =~= views(lines@));
    join_texts(&lines, "\n")
}

/// The supervisor's system prompt: `template` with the roster in place of
/// every `{{agent_roster}}`.
pub fn render_supervisor_prompt(template: &str, roster: &str) -> (r: String)
    ensures
        r@ == replace_all(template@, ROSTER_PLACEHOLDER@, roster@),
{
    proof {
        reveal_strlit("{{agent_roster}}");
    }
    replace_text(template, ROSTER_PLACEHOLDER, roster)
}

/// The user turn of a decomposition.
pub fn supervisor_task_message(task: &str) -> (r: String)
    ensures
        r@ == "User task:\n"@ + task@ + "\n\nReturn ONLY valid JSON. Do not wrap in markdown fences."@,
{
    cat3("User task:\n", task, "\n\nReturn ONLY valid JSON. Do not wrap in markdown fences.")
}

/// The system prompt of an agent that stores none.
pub fn default_agent_prompt(agent: &TeamAgentConfig) -> (r: String)
    ensures
        r@ == "You are "@ + agent.role@ + " ("@ + agent.id@ + ") in a local Basecamp team.\n\nRole summary: "@
            + or_default(agent.description@, "Specialized contributor"@)
            + "\n\nRules:\n- Follow the supervisor delegation exactly.\n- Use only available tools.\n- Write outputs that are deterministic and reproducible.\n- If asked for structured output, return valid JSON only.\n- Keep answers concise and implementation-focused."@,
{
    let desc = text_or_default(agent.description.as_str(), "Specialized contributor");
    let head = cat5("You are ", agent.role.as_str(), " (", agent.id.as_str(), ") in a local Basecamp team.\n\nRole summary: ");
    cat3(
        head.as_str(),
        desc.as_str(),
        "\n\nRules:\n- Follow the supervisor delegation exactly.\n- Use only available tools.\n- Write outputs that are deterministic and reproducible.\n- If asked for structured output, return valid JSON only.\n- Keep answers concise and implementation-focused.",
    )
}

/// Message of a model answer with nothing in it.
pub open spec fn empty_output_message() -> Seq<char> {
    "Model returned empty output where JSON was expected."@
}

/// The text with code fences removed from its ends, trimmed.
pub open spec fn unfenced(t: Seq<char>) -> Seq<char> {
    trim(strip_suffixes(strip_prefixes(strip_prefixes(t, "```json"@), "```"@), "```"@))
}

/// Positions of the first `{` and the last `}`.
pub open spec fn first_at(s: Seq<char>, c: char, i: int) -> bool {
    0 <= i < s.len() && s[i] == c && forall|j: int| 0 <= j < i ==> s[j] != c
}

pub open spec fn last_at(s: Seq<char>, c: char, i: int) -> bool {
    0 <= i < s.len() && s[i] == c && forall|j: int| i < j < s.len() ==> s[j] != c
}

/// The part of `u` from its first `{` to its last `}`, when the first comes before the last.
pub open spec fn braced(u: Seq<char>) -> Option<Seq<char>> {
    if exists|a: int, b: int| first_at(u, '{', a) && last_at(u, '}', b) && a < b {
        let (a, b) = choose|a: int, b: int| first_at(u, '{', a) && last_at(u, '}', b) && a < b;
        Some(u.subrange(a, b + 1))
    } else {
        None
    }
}

/// The texts to try, in order, as the JSON of a model's answer: the answer
/// trimmed, then without code fences, then from its first `{` to its last `}`.
pub open spec fn json_candidate_texts(raw: Seq<char>) -> Seq<Seq<char>> {
    let t = trim(raw);
    let u = unfenced(t);
    match braced(u) {
        Some(b) => seq![t, u, b],
        None => seq![t, u],
    }
}

fn find_first(s: &str, c: char) -> (r: Option<usize>)
    ensures
        r is Some <==> exists|i: int| first_at(s@, c, i),
        r is Some ==> first_at(s@, c, r->Some_0 as int),
{
    let n = s.unicode_len();
    let mut i: usize = 0;
    while i < n
        invariant
            n == s@.len(),
            i <= n,
            forall|j: int| 0 <= j < i ==> s@[j] != c,
        decreases n - i,
    {
        if s.get_char(i) == c {
            assert(first_at(s@, c, i as int));
            return Some(i);
        }
        i = i + 1;
    }
    assert(!exists|i: int| first_at(s@, c, i));
    None
}

fn find_last(s: &str, c: char) -> (r: Option<usize>)
    ensures
        r is Some <==> exists|i: int| last_at(s@, c, i),
        r is Some ==> last_at(s@, c, r->Some_0 as int),
{
    let n = s.unicode_len();
    let mut k: usize = n;
    while k > 0
        invariant
            n == s@.len(),
            k <= n,
            forall|j: int| k <= j < n ==> s@[j] != c,
        decreases k,
    {
        if s.get_char(k - 1) == c {
            assert(last_at(s@, c, k - 1));
            return Some(k - 1);
        }
        k = k - 1;
    }
    assert(!exists|i: int| last_at(s@, c, i));
    None
}

/// The texts to try as the JSON of a model's answer, in order; an error
/// when the answer is blank.
pub fn json_candidates(raw: &str) -> (r: Result<Vec<String>, String>)
    ensures
        is_blank(raw@) <==> r is Err,
        r is Err ==> r->Err_0@ == empty_output_message(),
        r is Ok ==> views(r->Ok_0@) == json_candidate_texts(raw@),
{
    let t = trim_str(raw);
    if t.unicode_len() == 0 {
        return Err("Model returned empty output where JSON was expected.".to_string());
    }
    let a = strip_prefix_text(t.as_str(), "```json");
    let b = strip_prefix_text(a.as_str(), "```");
    let c = strip_suffix_text(b.as_str(), "```");
    let u = trim_str(c.as_str());
    let mut out: Vec<String> = Vec::new();
    out.push(t.clone());
    out.push(u.clone());
    let u_len = u.unicode_len();
    match (find_first(u.as_str(), '{'), find_last(u.as_str(), '}')) {
        (Some(start), Some(end)) => {
            if start < end && end < u_len {
                let piece = u.as_str().substring_char(start, end + 1).to_string();
                proof {
                    let (x, y) = choose|x: int, y: int| first_at(u@, '{', x) && last_at(u@, '}', y) && x < y;
                    assert(x == start as int && y == end as int) by {
                        if x < start { assert(u@[x] != '{'); }
                        if x > start { assert(u@[start as int] != '{'); }
                        if y < end { assert(u@[end as int] != '}'); }
                        if y > end { assert(u@[y] != '}'); }
                    }
                }
                out.push(piece);
            } else {
                proof {
                    assert(!exists|x: int, y: int| first_at(u@, '{', x) && last_at(u@, '}', y) && x < y) by {
                        if exists|x: int, y: int| first_at(u@, '{', x) && last_at(u@, '}', y) && x < y {
                            let (x, y) = choose|x: int, y: int| first_at(u@, '{', x) && last_at(u@, '}', y) && x < y;
                            if x < start { assert(u@[x] != '{'); }
                            if x > start { assert(u@[start as int] != '{'); }
                            if y < end { assert(u@[end as int] != '}'); }
                            if y > end { assert(u@[y] != '}'); }
                        }
                    }
                }
            }
        },
        _ => {},
    }
    assert(views(out@) =~= json_candidate_texts(raw@));
    Ok(out)
}

/// Message of model output from which no JSON could be read.
pub fn json_parse_failure() -> (r: String)
    ensures
        r@ == "Unable to parse JSON payload from model output."@,
{
    "Unable to parse JSON payload from model output.".to_string()
}


/// What `step_request` accepts: the validated agent id names a roster agent,
/// the step is assigned to it, and the step id is valid.
pub open spec fn step_request_error(agents: Seq<TeamAgentConfig>, agent_id: Seq<char>, step: DelegationStep) -> Option<Seq<char>> {
    match simple_identifier(agent_id, "agent_id"@) {
        Err(e) => Some(e),
        Ok(id) => if !(exists|i: int| first_with_id(agents, id, i)) {
            Some("Agent not found in team roster."@)
        } else if step.assigned_to@ != id {
            Some("Requested agent does not match step.assigned_to."@)
        } else {
            match simple_identifier(step.step_id@, "step.step_id"@) {
                Err(e) => Some(e),
                Ok(_) => None,
            }
        },
    }
}

/// Checks a request to run `step` as agent `agent_id`; returns the index of
/// that agent in the roster and the validated step id.
pub fn step_request(team_config: &TeamConfig, agent_id: &str, step: &DelegationStep) -> (r: Result<(usize, String), String>)
    ensures
        step_request_error(team_config.agents@, agent_id@, *step) is Some <==> r is Err,
        r is Err ==> r->Err_0@ == step_request_error(team_config.agents@, agent_id@, *step)->Some_0,
        r is Ok ==> first_with_id(team_config.agents@, simple_identifier(agent_id@, "agent_id"@)->Ok_0, r->Ok_0.0 as int)
            && r->Ok_0.1@ == simple_identifier(step.step_id@, "step.step_id"@)->Ok_0,
{
    let id = match validate_simple_identifier(agent_id, "agent_id") {
        Ok(v) => v,
        Err(e) => return Err(e),
    };
    let index = match find_agent(team_config, id.as_str()) {
        Some(i) => i,
        None => return Err("Agent not found in team roster.".to_string()),
    };
    if !crate::text::str_eq(step.assigned_to.as_str(), id.as_str()) {
        return Err("Requested agent does not match step.assigned_to.".to_string());
    }
    let step_id = match validate_simple_identifier(step.step_id.as_str(), "step.step_id") {
        Ok(v) => v,
        Err(e) => return Err(e),
    };
    Ok((index, step_id))
}

/// The dependencies of a step as the agent reads them: comma-separated, or "none".
pub open spec fn dependency_text(deps: Seq<Seq<char>>) -> Seq<char> {
    if deps.len() == 0 {
        "none"@
    } else {
        join(deps, ", "@)
    }
}

/// The user turn that hands a step to its agent.
pub fn step_instruction(step_id: &str, role: &str, step: &DelegationStep) -> (r: String)
    ensures
        r@ == "Delegation step id: "@ + step_id@ + "\nAssigned role: "@ + role@ + "\n\nInstruction:\n"@
            + trim(step.instruction@) + "\n\nDependencies: "@ + dependency_text(views(step.depends_on@))
            + "\n\nExpected output:\n"@ + trim(step.expected_output@)
            + "\n\nWhen complete, provide the final result text for this step."@,
{
    let deps = if step.depends_on.len() == 0 {
        "none".to_string()
    } else {
        join_texts(&step.depends_on, ", ")
    };
    assert(step.depends_on@.map_values(|s: String| s@) =~= views(step.depends_on@));
    let instruction = trim_str(step.instruction.as_str());
    let expected = trim_str(step.expected_output.as_str());
    let a = cat4("Delegation step id: ", step_id, "\nAssigned role: ", role);
    let b = cat5(a.as_str(), "\n\nInstruction:\n", instruction.as_str(), "\n\nDependencies: ", deps.as_str());
    cat4(b.as_str(), "\n\nExpected output:\n", expected.as_str(), "\n\nWhen complete, provide the final result text for this step.")
}

/// The request that asks the critic to review an artifact.
pub fn critic_request(artifact: &str) -> (r: String)
    ensures
        r@ == "Review this artifact. Output structured critique as JSON with fields: issues: string[], suggestions: string[], pass: boolean.\n\nArtifact:\n\n"@ + artifact@,
{
    cat(
        "Review this artifact. Output structured critique as JSON with fields: issues: string[], suggestions: string[], pass: boolean.\n\nArtifact:\n\n",
        artifact,
    )
}

/// The request that asks the writer to revise an artifact after a critique.
pub fn writer_request(artifact: &str, critique_json: &str) -> (r: String)
    ensures
        r@ == "Revise this artifact based on the critique. Output only the revised artifact text.\n\nCurrent artifact:\n\n"@
            + artifact@ + "\n\nCritique JSON:\n"@ + critique_json@,
{
    cat4(
        "Revise this artifact based on the critique. Output only the revised artifact text.\n\nCurrent artifact:\n\n",
        artifact,
        "\n\nCritique JSON:\n",
        critique_json,
    )
}

/// The writer and the critic of a reflection loop: the first agents whose
/// role or id is "writer" and "critic", ignoring case.
pub fn reflection_agents(team_config: &TeamConfig) -> (r: Result<(usize, usize), String>)
    ensures
        (exists|i: int| 0 <= i < team_config.agents@.len() && answers_to_role(team_config.agents@[i], "writer"@))
            && (exists|i: int| 0 <= i < team_config.agents@.len() && answers_to_role(team_config.agents@[i], "critic"@))
            <==> r is Ok,
        !(exists|i: int| 0 <= i < team_config.agents@.len() && answers_to_role(team_config.agents@[i], "writer"@))
            ==> r is Err && r->Err_0@ == "Team is missing a Writer agent required for reflection loop."@,
        (exists|i: int| 0 <= i < team_config.agents@.len() && answers_to_role(team_config.agents@[i], "writer"@))
            && !(exists|i: int| 0 <= i < team_config.agents@.len() && answers_to_role(team_config.agents@[i], "critic"@))
            ==> r is Err && r->Err_0@ == "Team is missing a Critic agent required for reflection loop."@,
        r is Ok ==> {
            let (w, c) = r->Ok_0;
            &&& w < team_config.agents@.len() && answers_to_role(team_config.agents@[w as int], "writer"@)
            &&& forall|j: int| 0 <= j < w ==> !answers_to_role(team_config.agents@[j], "writer"@)
            &&& c < team_config.agents@.len() && answers_to_role(team_config.agents@[c as int], "critic"@)
            &&& forall|j: int| 0 <= j < c ==> !answers_to_role(team_config.agents@[j], "critic"@)
        },
{
    let w = match find_agent_by_role(team_config, "writer") {
        Some(i) => i,
        None => return Err("Team is missing a Writer agent required for reflection loop.".to_string()),
    };
    let c = match find_agent_by_role(team_config, "critic") {
        Some(i) => i,
        None => return Err("Team is missing a Critic agent required for reflection loop.".to_string()),
    };
    Ok((w, c))
}

} // verus!
