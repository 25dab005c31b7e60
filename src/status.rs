//! Team status, recomputed from the roster and the journal alone.

use vstd::prelude::*;
use vstd::string::*;

use crate::ident::{copy_strings, views};
use crate::listing::{sort_file_names, sort_names};
use crate::journal::{sat_add, saturating_sum, zero_usage, BusContent, BusEntry, BusEntryType, BusTokenUsage};
use crate::plan::{DecompositionPlan, DelegationStep};
use crate::roster::{TeamConfig, TEAM_DEFAULT_MAX_REFLECTION_ROUNDS};
use crate::text::{str_eq, trim, trim_str};

verus! {

/// Longest preview of an agent's latest output, in characters.
pub const PREVIEW_CHARS: usize = 200;

#[derive(Debug, Clone)]
pub struct TeamStepStatus {
    pub step_id: String,
    pub assigned_to: String,
    pub expected_output: String,
    pub status: String,
}

#[derive(Debug, Clone)]
pub struct TeamAgentStatus {
    pub id: String,
    pub role: String,
    pub model: String,
    pub tool_subset: Vec<String>,
    pub status: String,
    pub token_usage: BusTokenUsage,
    pub last_output_preview: Option<String>,
}

#[derive(Debug, Clone, Default)]
pub struct TeamArtifactsStatus {
    pub drafts: Vec<String>,
    pub promoted: Vec<String>,
}

#[derive(Debug, Clone)]
pub struct TeamStatus {
    pub is_team: bool,
    pub supervisor_model: String,
    pub reflection_loops: bool,
    pub max_reflection_rounds: u8,
    pub agents: Vec<TeamAgentStatus>,
    pub steps: Vec<TeamStepStatus>,
    pub bus_entries: usize,
    pub artifacts: TeamArtifactsStatus,
}

/// The status a step takes from one record, if the record speaks of it.
pub open spec fn status_set_by(e: BusEntry, step_id: Seq<char>) -> Option<Seq<char>> {
    match e.step_id {
        Some(s) => if s@ != step_id {
            None
        } else {
            match e.entry_type {
                BusEntryType::Delegation => Some("running"@),
                BusEntryType::Result => Some("complete"@),
                BusEntryType::Error => Some("failed"@),
                _ => None,
            }
        },
        None => None,
    }
}

/// A step's status after `entries`: set by the last record that speaks of it,
/// "pending" when none does.
pub open spec fn step_status(entries: Seq<BusEntry>, step_id: Seq<char>) -> Seq<char>
    decreases entries.len(),
{
    if entries.len() == 0 {
        "pending"@
    } else {
        match status_set_by(entries.last(), step_id) {
            Some(s) => s,
            None => step_status(entries.drop_last(), step_id),
        }
    }
}

/// Whether a record counts towards agent `id`: it comes from that agent,
/// and not from the supervisor.
pub open spec fn counts_for(e: BusEntry, id: Seq<char>) -> bool {
    e.from@ == id && e.from@ != "supervisor"@
}

/// Tokens spent by agent `id` over `entries`.
pub open spec fn agent_usage(entries: Seq<BusEntry>, id: Seq<char>) -> BusTokenUsage
    decreases entries.len(),
{
    if entries.len() == 0 {
        BusTokenUsage { input: 0, output: 0 }
    } else {
        let prev = agent_usage(entries.drop_last(), id);
        let e = entries.last();
        if counts_for(e, id) {
            BusTokenUsage {
                input: sat_add(prev.input, e.token_usage.input),
                output: sat_add(prev.output, e.token_usage.output),
            }
        } else {
            prev
        }
    }
}

/// `s` with each line break turned into a space.
pub open spec fn one_line(s: Seq<char>) -> Seq<char> {
    s.map_values(|c: char| if c == '\n' { ' ' } else { c })
}

/// The preview of an output text: on one line, trimmed, at most 200
/// characters; none when nothing is left.
pub open spec fn preview_of_text(s: Seq<char>) -> Option<Seq<char>> {
    let t = trim(one_line(s));
    if t.len() == 0 {
        None
    } else if t.len() > PREVIEW_CHARS {
        Some(t.subrange(0, PREVIEW_CHARS as int))
    } else {
        Some(t)
    }
}

/// The preview a record's payload gives: that of its text or output text.
pub open spec fn preview_of(c: BusContent) -> Option<Seq<char>> {
    match c {
        BusContent::Text(s) => preview_of_text(s@),
        BusContent::StepOutput { output_text, .. } => preview_of_text(output_text@),
        BusContent::Revision { output_text, .. } => preview_of_text(output_text@),
        _ => None,
    }
}

/// The preview of the latest result of agent `id` that has one.
pub open spec fn latest_preview(entries: Seq<BusEntry>, id: Seq<char>) -> Option<Seq<char>>
    decreases entries.len(),
{
    if entries.len() == 0 {
        None
    } else {
        let e = entries.last();
        if counts_for(e, id) && e.entry_type == BusEntryType::Result && preview_of(e.content) is Some {
            preview_of(e.content)
        } else {
            latest_preview(entries.drop_last(), id)
        }
    }
}

/// Index of the latest decomposition record.
pub open spec fn latest_decomposition(entries: Seq<BusEntry>) -> Option<int>
    decreases entries.len(),
{
    if entries.len() == 0 {
        None
    } else if entries.last().entry_type == BusEntryType::Decomposition {
        Some(entries.len() - 1)
    } else {
        latest_decomposition(entries.drop_last())
    }
}

/// The plan in force: that of the latest decomposition record, if it holds one.
pub open spec fn current_plan(entries: Seq<BusEntry>) -> Option<DecompositionPlan> {
    match latest_decomposition(entries) {
        Some(i) => match entries[i].content {
            BusContent::Plan(p) => Some(p),
            _ => None,
        },
        None => None,
    }
}

pub fn one_line_text(s: &str) -> (r: String)
    ensures
        r@ == one_line(s@),
{
    let n = s.unicode_len();
    let mut out = String::new();
    let mut i: usize = 0;
    while i < n
        invariant
            n == s@.len(),
            i <= n,
            out@ == one_line(s@.subrange(0, i as int)),
        decreases n - i,
    {
        if s.get_char(i) == '\n' {
            out.append(" ");
        } else {
            out.append(s.substring_char(i, i + 1));
        }
        proof {
            reveal_strlit(" ");
            assert(one_line(s@.subrange(0, i + 1)) =~= one_line(s@.subrange(0, i as int)).push(
                if s@[i as int] == '\n' { ' ' } else { s@[i as int] },
            ));
        }
        assert(out@ =~= one_line(s@.subrange(0, i + 1)));
        i = i + 1;
    }
    assert(s@.subrange(0, n as int) =~= s@);
    out
}

pub fn preview_from_text(s: &str) -> (r: Option<String>)
    ensures
        r is Some <==> preview_of_text(s@) is Some,
        r is Some ==> r->Some_0@ == preview_of_text(s@)->Some_0,
{
    let flat = one_line_text(s);
    let t = trim_str(flat.as_str());
    let n = t.unicode_len();
    if n == 0 {
        None
    } else if n > PREVIEW_CHARS {
        Some(t.as_str().substring_char(0, PREVIEW_CHARS).to_string())
    } else {
        Some(t)
    }
}

/// The preview of a record's payload.
pub fn preview_from_content(content: &BusContent) -> (r: Option<String>)
    ensures
        r is Some <==> preview_of(*content) is Some,
        r is Some ==> r->Some_0@ == preview_of(*content)->Some_0,
{
    match content {
        BusContent::Text(s) => preview_from_text(s.as_str()),
        BusContent::StepOutput { output_text, .. } => preview_from_text(output_text.as_str()),
        BusContent::Revision { output_text, .. } => preview_from_text(output_text.as_str()),
        _ => None,
    }
}

fn status_text(e: &BusEntry, step_id: &str) -> (r: Option<String>)
    ensures
        r is Some <==> status_set_by(*e, step_id@) is Some,
        r is Some ==> r->Some_0@ == status_set_by(*e, step_id@)->Some_0,
{
    match &e.step_id {
        Some(s) => {
            if !str_eq(s.as_str(), step_id) {
                None
            } else {
                match e.entry_type {
                    BusEntryType::Delegation => Some("running".to_string()),
                    BusEntryType::Result => Some("complete".to_string()),
                    BusEntryType::Error => Some("failed".to_string()),
                    _ => None,
                }
            }
        },
        None => None,
    }
}

/// The status of step `step_id` after the journal `entries`.
pub fn status_of_step(entries: &Vec<BusEntry>, step_id: &str) -> (r: String)
    ensures
        r@ == step_status(entries@, step_id@),
{
    let mut k: usize = entries.len();
    assert(entries@.subrange(0, k as int) =~= entries@);
    while k > 0
        invariant
            k <= entries@.len(),
            forall|j: int| k <= j < entries@.len() ==> status_set_by(#[trigger] entries@[j], step_id@) is None,
            step_status(entries@, step_id@) == step_status(entries@.subrange(0, k as int), step_id@),
        decreases k,
    {
        match status_text(&entries[k - 1], step_id) {
            Some(s) => {
                assert(entries@.subrange(0, k as int).last() == entries@[k - 1]);
                return s;
            },
            None => {},
        }
        assert(entries@.subrange(0, k as int).drop_last() =~= entries@.subrange(0, k - 1));
        k = k - 1;
    }
    "pending".to_string()
}


fn counts_for_agent(e: &BusEntry, id: &str) -> (r: bool)
    ensures
        r == counts_for(*e, id@),
{
    str_eq(e.from.as_str(), id) && !str_eq(e.from.as_str(), "supervisor")
}

/// Tokens spent by agent `agent_id` over the journal.
pub fn usage_of_agent(entries: &Vec<BusEntry>, agent_id: &str) -> (r: BusTokenUsage)
    ensures
        r == agent_usage(entries@, agent_id@),
{
    let mut total = zero_usage();
    let mut i: usize = 0;
    while i < entries.len()
        invariant
            i <= entries@.len(),
            total == agent_usage(entries@.subrange(0, i as int), agent_id@),
        decreases entries.len() - i,
    {
        assert(entries@.subrange(0, i + 1).drop_last() =~= entries@.subrange(0, i as int));
        assert(entries@.subrange(0, i + 1).last() == entries@[i as int]);
        let e = &entries[i];
        if counts_for_agent(e, agent_id) {
            total = BusTokenUsage {
                input: saturating_sum(total.input, e.token_usage.input),
                output: saturating_sum(total.output, e.token_usage.output),
            };
        }
        i = i + 1;
    }
    assert(entries@.subrange(0, entries@.len() as int) =~= entries@);
    total
}

/// The preview of agent `agent_id`'s latest result that has one.
pub fn preview_of_agent(entries: &Vec<BusEntry>, agent_id: &str) -> (r: Option<String>)
    ensures
        r is Some <==> latest_preview(entries@, agent_id@) is Some,
        r is Some ==> r->Some_0@ == latest_preview(entries@, agent_id@)->Some_0,
{
    let mut k: usize = entries.len();
    assert(entries@.subrange(0, k as int) =~= entries@);
    while k > 0
        invariant
            k <= entries@.len(),
            latest_preview(entries@, agent_id@) == latest_preview(entries@.subrange(0, k as int), agent_id@),
        decreases k,
    {
        let e = &entries[k - 1];
        assert(entries@.subrange(0, k as int).last() == entries@[k - 1]);
        assert(entries@.subrange(0, k as int).drop_last() =~= entries@.subrange(0, k - 1));
        if counts_for_agent(e, agent_id) && e.entry_type == BusEntryType::Result {
            match preview_from_content(&e.content) {
                Some(p) => return Some(p),
                None => {},
            }
        }
        k = k - 1;
    }
    None
}

/// Index of the latest decomposition record.
pub fn latest_decomposition_index(entries: &Vec<BusEntry>) -> (r: Option<usize>)
    ensures
        r is Some <==> latest_decomposition(entries@) is Some,
        r is Some ==> r->Some_0 as int == latest_decomposition(entries@)->Some_0,
        r is Some ==> r->Some_0 < entries@.len(),
{
    let mut k: usize = entries.len();
    assert(entries@.subrange(0, k as int) =~= entries@);
    while k > 0
        invariant
            k <= entries@.len(),
            latest_decomposition(entries@) == latest_decomposition(entries@.subrange(0, k as int)),
        decreases k,
    {
        assert(entries@.subrange(0, k as int).last() == entries@[k - 1]);
        assert(entries@.subrange(0, k as int).drop_last() =~= entries@.subrange(0, k - 1));
        if entries[k - 1].entry_type == BusEntryType::Decomposition {
            return Some(k - 1);
        }
        k = k - 1;
    }
    None
}

/// Whether the latest record that agent `id` sent is a critique.
pub open spec fn last_sent_is_critique(entries: Seq<BusEntry>, id: Seq<char>) -> bool
    decreases entries.len(),
{
    if entries.len() == 0 {
        false
    } else if entries.last().from@ == id {
        entries.last().entry_type == BusEntryType::Critique
    } else {
        last_sent_is_critique(entries.drop_last(), id)
    }
}

/// Whether a step assigned to `id` is running.
pub open spec fn has_running_step(steps: Seq<TeamStepStatus>, id: Seq<char>) -> bool {
    exists|j: int| 0 <= j < steps.len() && steps[j].assigned_to@ == id && steps[j].status@ == "running"@
}

/// An agent is "working" while one of its steps runs, else "reflecting" when
/// the latest record it sent is a critique, else "idle".
pub open spec fn agent_display_status(steps: Seq<TeamStepStatus>, entries: Seq<BusEntry>, id: Seq<char>) -> Seq<char> {
    if has_running_step(steps, id) {
        "working"@
    } else if last_sent_is_critique(entries, id) {
        "reflecting"@
    } else {
        "idle"@
    }
}

fn any_running_step(steps: &Vec<TeamStepStatus>, id: &str) -> (r: bool)
    ensures
        r == has_running_step(steps@, id@),
{
    let mut j: usize = 0;
    while j < steps.len()
        invariant
            j <= steps@.len(),
            forall|k: int| 0 <= k < j ==> !(steps@[k].assigned_to@ == id@ && steps@[k].status@ == "running"@),
        decreases steps.len() - j,
    {
        if str_eq(steps[j].assigned_to.as_str(), id) && str_eq(steps[j].status.as_str(), "running") {
            return true;
        }
        j = j + 1;
    }
    false
}

fn latest_sent_is_critique(entries: &Vec<BusEntry>, id: &str) -> (r: bool)
    ensures
        r == last_sent_is_critique(entries@, id@),
{
    let mut k: usize = entries.len();
    assert(entries@.subrange(0, k as int) =~= entries@);
    while k > 0
        invariant
            k <= entries@.len(),
            last_sent_is_critique(entries@, id@) == last_sent_is_critique(entries@.subrange(0, k as int), id@),
        decreases k,
    {
        assert(entries@.subrange(0, k as int).last() == entries@[k - 1]);
        assert(entries@.subrange(0, k as int).drop_last() =~= entries@.subrange(0, k - 1));
        if str_eq(entries[k - 1].from.as_str(), id) {
            return entries[k - 1].entry_type == BusEntryType::Critique;
        }
        k = k - 1;
    }
    false
}

/// The display status of agent `agent_id`.
pub fn agent_status(steps: &Vec<TeamStepStatus>, entries: &Vec<BusEntry>, agent_id: &str) -> (r: String)
    ensures
        r@ == agent_display_status(steps@, entries@, agent_id@),
{
    if any_running_step(steps, agent_id) {
        "working".to_string()
    } else if latest_sent_is_critique(entries, agent_id) {
        "reflecting".to_string()
    } else {
        "idle".to_string()
    }
}

/// `st` reports step `s` with status `status_text`.
pub open spec fn reports_step(st: TeamStepStatus, s: DelegationStep, entries: Seq<BusEntry>) -> bool {
    &&& st.step_id == s.step_id
    &&& st.assigned_to == s.assigned_to
    &&& st.expected_output == s.expected_output
    &&& st.status@ == step_status(entries, s.step_id@)
}

/// The steps of the plan in force, each with its status.
pub fn step_statuses(entries: &Vec<BusEntry>) -> (r: Vec<TeamStepStatus>)
    ensures
        match current_plan(entries@) {
            Some(p) => r@.len() == p.steps@.len() && forall|i: int|
                0 <= i < r@.len() ==> reports_step(#[trigger] r@[i], p.steps@[i], entries@),
            None => r@.len() == 0,
        },
{
    let mut out: Vec<TeamStepStatus> = Vec::new();
    let idx = match latest_decomposition_index(entries) {
        Some(i) => i,
        None => return out,
    };
    match &entries[idx].content {
        BusContent::Plan(p) => {
            let mut i: usize = 0;
            while i < p.steps.len()
                invariant
                    current_plan(entries@) == Some(*p),
                    i <= p.steps@.len(),
                    out@.len() == i,
                    forall|k: int| 0 <= k < i ==> reports_step(#[trigger] out@[k], p.steps@[k], entries@),
                decreases p.steps.len() - i,
            {
                let s = &p.steps[i];
                out.push(TeamStepStatus {
                    step_id: s.step_id.clone(),
                    assigned_to: s.assigned_to.clone(),
                    expected_output: s.expected_output.clone(),
                    status: status_of_step(entries, s.step_id.as_str()),
                });
                i = i + 1;
            }
            out
        },
        _ => out,
    }
}

/// `st` reports agent `a` given the step statuses and the journal.
pub open spec fn reports_agent(st: TeamAgentStatus, a: crate::roster::TeamAgentConfig, steps: Seq<TeamStepStatus>, entries: Seq<BusEntry>) -> bool {
    &&& st.id == a.id
    &&& st.role == a.role
    &&& st.model == a.model
    &&& st.tool_subset@ == a.tool_subset@
    &&& st.status@ == agent_display_status(steps, entries, a.id@)
    &&& st.token_usage == agent_usage(entries, a.id@)
    &&& (st.last_output_preview is Some <==> latest_preview(entries, a.id@) is Some)
    &&& (st.last_output_preview is Some ==> st.last_output_preview->Some_0@ == latest_preview(entries, a.id@)->Some_0)
}

/// The status of a team, rebuilt from its configuration, its whole journal
/// and the listings of its draft and promoted artifacts, which it sorts.
pub fn team_status(team_config: &TeamConfig, entries: &Vec<BusEntry>, drafts: Vec<String>, promoted: Vec<String>) -> (r: TeamStatus)
    ensures
        r.is_team,
        r.supervisor_model == team_config.supervisor_model,
        r.reflection_loops == team_config.reflection_loops,
        r.max_reflection_rounds == team_config.max_reflection_rounds,
        r.bus_entries == entries@.len(),
        views(r.artifacts.drafts@) == sort_names(views(drafts@)),
        views(r.artifacts.promoted@) == sort_names(views(promoted@)),
        match current_plan(entries@) {
            Some(p) => r.steps@.len() == p.steps@.len() && forall|i: int|
                0 <= i < r.steps@.len() ==> reports_step(#[trigger] r.steps@[i], p.steps@[i], entries@),
            None => r.steps@.len() == 0,
        },
        r.agents@.len() == team_config.agents@.len(),
        forall|i: int| 0 <= i < r.agents@.len() ==> reports_agent(#[trigger] r.agents@[i], team_config.agents@[i], r.steps@, entries@),
{
    let steps = step_statuses(entries);
    let mut agents: Vec<TeamAgentStatus> = Vec::new();
    let mut i: usize = 0;
    while i < team_config.agents.len()
        invariant
            i <= team_config.agents@.len(),
            agents@.len() == i,
            forall|k: int| 0 <= k < i ==> reports_agent(#[trigger] agents@[k], team_config.agents@[k], steps@, entries@),
        decreases team_config.agents.len() - i,
    {
        let a = &team_config.agents[i];
        agents.push(TeamAgentStatus {
            id: a.id.clone(),
            role: a.role.clone(),
            model: a.model.clone(),
            tool_subset: copy_strings(&a.tool_subset),
            status: agent_status(&steps, entries, a.id.as_str()),
            token_usage: usage_of_agent(entries, a.id.as_str()),
            last_output_preview: preview_of_agent(entries, a.id.as_str()),
        });
        i = i + 1;
    }
    TeamStatus {
        is_team: true,
        supervisor_model: team_config.supervisor_model.clone(),
        reflection_loops: team_config.reflection_loops,
        max_reflection_rounds: team_config.max_reflection_rounds,
        agents,
        steps,
        bus_entries: entries.len(),
        artifacts: TeamArtifactsStatus { drafts: sort_file_names(drafts), promoted: sort_file_names(promoted) },
    }
}

/// The status of a camp that is not a team.
pub fn solo_status() -> (r: TeamStatus)
    ensures
        !r.is_team,
        r.supervisor_model@.len() == 0,
        !r.reflection_loops,
        r.max_reflection_rounds == TEAM_DEFAULT_MAX_REFLECTION_ROUNDS,
        r.agents@.len() == 0,
        r.steps@.len() == 0,
        r.bus_entries == 0,
        r.artifacts.drafts@.len() == 0,
        r.artifacts.promoted@.len() == 0,
{
    TeamStatus {
        is_team: false,
        supervisor_model: String::new(),
        reflection_loops: false,
        max_reflection_rounds: TEAM_DEFAULT_MAX_REFLECTION_ROUNDS,
        agents: Vec::new(),
        steps: Vec::new(),
        bus_entries: 0,
        artifacts: TeamArtifactsStatus { drafts: Vec::new(), promoted: Vec::new() },
    }
}

} // verus!
