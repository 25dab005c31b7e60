//! Journal records of each orchestration event.

use vstd::prelude::*;

use crate::ident::copy_strings;
use crate::journal::{zero_usage, BusContent, BusEntry, BusEntryType, BusTokenUsage};
use crate::plan::{DecompositionPlan, DelegationStep};
use crate::providers::now_timestamp_ms;
use crate::reflection::CritiqueResult;
use crate::text::decimal_text;

verus! {

/// Relies on `uuid::Uuid::new_v4` and its hyphenated `Display`: a fresh random id.
#[verifier::external_body]
fn new_entry_id() -> (r: String) {
    uuid::Uuid::new_v4().to_string()
}

/// Relies on `time::OffsetDateTime::now_utc` formatted as RFC 3339: the
/// current time, or none when formatting fails.
#[verifier::external_body]
fn now_rfc3339() -> (r: Option<String>) {
    time::OffsetDateTime::now_utc().format(&time::format_description::well_known::Rfc3339).ok()
}

/// A record of `entry_type` from `from` to `to`, with a fresh id and the
/// current time (in milliseconds when the clock cannot be formatted).
pub fn make_bus_entry(
    entry_type: BusEntryType,
    from: &str,
    to: &str,
    step_id: Option<String>,
    content: BusContent,
    token_usage: BusTokenUsage,
) -> (r: BusEntry)
    ensures
        r.entry_type == entry_type,
        r.from@ == from@,
        r.to@ == to@,
        r.step_id == step_id,
        r.content == content,
        r.token_usage == token_usage,
{
    let timestamp = match now_rfc3339() {
        Some(t) => t,
        None => decimal_text(now_timestamp_ms()),
    };
    BusEntry {
        id: new_entry_id(),
        timestamp,
        entry_type,
        from: from.to_string(),
        to: to.to_string(),
        step_id,
        content,
        token_usage,
    }
}

/// `e` is the delegation record of step `s`.
pub open spec fn delegates(e: BusEntry, s: DelegationStep) -> bool {
    &&& e.entry_type == BusEntryType::Delegation
    &&& e.from@ == "supervisor"@
    &&& e.to@ == s.assigned_to@
    &&& e.step_id is Some && e.step_id->Some_0@ == s.step_id@
    &&& e.token_usage.input == 0 && e.token_usage.output == 0
    &&& match e.content {
        BusContent::Delegation { instruction, depends_on, expected_output } => instruction@ == s.instruction@
            && depends_on@ == s.depends_on@ && expected_output@ == s.expected_output@,
        _ => false,
    }
}

/// The records of a validated plan: one decomposition record holding the
/// plan, then one delegation record per step, in step order.
pub fn decomposition_entries(plan: DecompositionPlan, usage: BusTokenUsage) -> (r: Vec<BusEntry>)
    ensures
        r@.len() == plan.steps@.len() + 1,
        r@[0].entry_type == BusEntryType::Decomposition,
        r@[0].from@ == "supervisor"@,
        r@[0].to@ == "all"@,
        r@[0].step_id is None,
        r@[0].content == BusContent::Plan(plan),
        r@[0].token_usage == usage,
        forall|i: int| 0 <= i < plan.steps@.len() ==> delegates(#[trigger] r@[i + 1], plan.steps@[i]),
{
    let mut out: Vec<BusEntry> = Vec::new();
    let mut i: usize = 0;
    while i < plan.steps.len()
        invariant
            i <= plan.steps@.len(),
            out@.len() == i,
            forall|k: int| 0 <= k < i ==> delegates(#[trigger] out@[k], plan.steps@[k]),
        decreases plan.steps.len() - i,
    {
        let s = &plan.steps[i];
        let e = make_bus_entry(
            BusEntryType::Delegation,
            "supervisor",
            s.assigned_to.as_str(),
            Some(s.step_id.clone()),
            BusContent::Delegation {
                instruction: s.instruction.clone(),
                depends_on: copy_strings(&s.depends_on),
                expected_output: s.expected_output.clone(),
            },
            zero_usage(),
        );
        out.push(e);
        i = i + 1;
    }
    let head = make_bus_entry(BusEntryType::Decomposition, "supervisor", "all", None, BusContent::Plan(plan), usage);
    out.insert(0, head);
    out
}

/// The record of a finished step: from the agent to the supervisor.
pub fn step_result_entry(
    agent_id: &str,
    step_id: String,
    output_text: String,
    draft_path: String,
    context_writes: Vec<String>,
    usage: BusTokenUsage,
) -> (r: BusEntry)
    ensures
        r.entry_type == BusEntryType::Result,
        r.from@ == agent_id@,
        r.to@ == "supervisor"@,
        r.step_id == Some(step_id),
        r.content == (BusContent::StepOutput { output_text, draft_path, context_writes }),
        r.token_usage == usage,
{
    make_bus_entry(
        BusEntryType::Result,
        agent_id,
        "supervisor",
        Some(step_id),
        BusContent::StepOutput { output_text, draft_path, context_writes },
        usage,
    )
}

/// The record of one critique: from the critic to the supervisor.
pub fn critique_entry(critic_id: &str, round: u8, critique: &CritiqueResult, usage: BusTokenUsage) -> (r: BusEntry)
    ensures
        r.entry_type == BusEntryType::Critique,
        r.from@ == critic_id@,
        r.to@ == "supervisor"@,
        r.step_id is None,
        match r.content {
            BusContent::Critique { round: n, issues, suggestions, pass } => n == round && issues@
                == critique.issues@ && suggestions@ == critique.suggestions@ && pass == critique.pass,
            _ => false,
        },
        r.token_usage == usage,
{
    make_bus_entry(
        BusEntryType::Critique,
        critic_id,
        "supervisor",
        None,
        BusContent::Critique {
            round,
            issues: copy_strings(&critique.issues),
            suggestions: copy_strings(&critique.suggestions),
            pass: critique.pass,
        },
        usage,
    )
}

/// The record of a writer's revision: from the writer to the critic.
pub fn revision_entry(
    writer_id: &str,
    critic_id: &str,
    round: u8,
    artifact_path: String,
    output_text: String,
    usage: BusTokenUsage,
) -> (r: BusEntry)
    ensures
        r.entry_type == BusEntryType::Result,
        r.from@ == writer_id@,
        r.to@ == critic_id@,
        r.step_id is None,
        r.content == (BusContent::Revision { round, artifact_path, output_text }),
        r.token_usage == usage,
{
    make_bus_entry(
        BusEntryType::Result,
        writer_id,
        critic_id,
        None,
        BusContent::Revision { round, artifact_path, output_text },
        usage,
    )
}

/// The record of a promotion: from the supervisor to all, with no usage.
/// A reflection loop adds its verdict and the rounds it completed.
pub fn promotion_entry(from: String, to: String, outcome: Option<(bool, u8)>) -> (r: BusEntry)
    ensures
        r.entry_type == BusEntryType::Promotion,
        r.from@ == "supervisor"@,
        r.to@ == "all"@,
        r.step_id is None,
        r.content == (BusContent::Promotion {
            from,
            to,
            pass: match outcome { Some(o) => Some(o.0), None => None },
            rounds_completed: match outcome { Some(o) => Some(o.1), None => None },
        }),
        r.token_usage.input == 0 && r.token_usage.output == 0,
{
    let (pass, rounds_completed) = match outcome {
        Some(o) => (Some(o.0), Some(o.1)),
        None => (None, None),
    };
    make_bus_entry(
        BusEntryType::Promotion,
        "supervisor",
        "all",
        None,
        BusContent::Promotion { from, to, pass, rounds_completed },
        zero_usage(),
    )
}

} // verus!
