//! Decomposition plans and their validation against the roster.

use vstd::prelude::*;

use crate::ident::{contains_str, simple_identifier, validate_simple_identifier, views};
use crate::roster::{roster_ids, TeamConfig};
use crate::text::{cat, cat3, cat4, digits, digits_text, is_blank, str_is_blank};

verus! {

#[derive(Debug, Clone)]
pub struct DelegationStep {
    pub step_id: String,
    pub assigned_to: String,
    pub instruction: String,
    pub depends_on: Vec<String>,
    pub expected_output: String,
}

#[derive(Debug, Clone)]
pub struct DecompositionPlan {
    pub task_summary: String,
    pub steps: Vec<DelegationStep>,
    pub reflection_required: bool,
}

/// A step as plain texts.
pub struct StepModel {
    pub step_id: Seq<char>,
    pub assigned_to: Seq<char>,
    pub instruction: Seq<char>,
    pub depends_on: Seq<Seq<char>>,
    pub expected_output: Seq<char>,
}

pub open spec fn step_model(s: DelegationStep) -> StepModel {
    StepModel {
        step_id: s.step_id@,
        assigned_to: s.assigned_to@,
        instruction: s.instruction@,
        depends_on: views(s.depends_on@),
        expected_output: s.expected_output@,
    }
}

pub open spec fn step_ids(steps: Seq<StepModel>) -> Seq<Seq<char>> {
    steps.map_values(|s: StepModel| s.step_id)
}

/// The dependency list validated entry by entry, first occurrences kept in order.
pub open spec fn checked_deps(deps: Seq<Seq<char>>) -> Result<Seq<Seq<char>>, Seq<char>>
    decreases deps.len(),
{
    if deps.len() == 0 {
        Ok(Seq::empty())
    } else {
        match checked_deps(deps.drop_last()) {
            Err(e) => Err(e),
            Ok(prev) => match simple_identifier(deps.last(), "depends_on"@) {
                Err(e) => Err(e),
                Ok(d) => Ok(
                    if prev.contains(d) {
                        prev
                    } else {
                        prev.push(d)
                    },
                ),
            },
        }
    }
}

/// A validation error of the step at 1-based `position`, whose own id is invalid.
pub open spec fn at_position(position: nat, e: Seq<char>) -> Seq<char> {
    "Decomposition step "@ + digits(position) + ": "@ + e
}

/// A validation error of the step `sid`.
pub open spec fn in_step(sid: Seq<char>, e: Seq<char>) -> Seq<char> {
    "Decomposition step `"@ + sid + "`: "@ + e
}

/// One step, at 1-based `position`, checked against the roster and the ids
/// of the steps before it. Every error names the step: by its id, or by its
/// position when the id itself is invalid.
pub open spec fn checked_step(s: StepModel, position: nat, roster: Seq<Seq<char>>, prior: Seq<Seq<char>>) -> Result<
    StepModel,
    Seq<char>,
> {
    match simple_identifier(s.step_id, "step_id"@) {
        Err(e) => Err(at_position(position, e)),
        Ok(sid) => if prior.contains(sid) {
            Err("Duplicate step_id `"@ + sid + "` in decomposition plan."@)
        } else {
            match simple_identifier(s.assigned_to, "assigned_to"@) {
                Err(e) => Err(in_step(sid, e)),
                Ok(to) => if !roster.contains(to) {
                    Err("Decomposition step `"@ + sid + "` assigned to unknown agent `"@ + to + "`."@)
                } else if is_blank(s.instruction) {
                    Err("Decomposition step `"@ + sid + "` is missing instruction text."@)
                } else {
                    match checked_deps(s.depends_on) {
                        Err(e) => Err(in_step(sid, e)),
                        Ok(deps) => Ok(
                            StepModel {
                                step_id: sid,
                                assigned_to: to,
                                instruction: s.instruction,
                                depends_on: deps,
                                expected_output: if is_blank(s.expected_output) {
                                    sid + ".md"@
                                } else {
                                    s.expected_output
                                },
                            },
                        ),
                    }
                },
            }
        },
    }
}

/// The first pass: each step checked in order.
pub open spec fn checked_steps(steps: Seq<StepModel>, roster: Seq<Seq<char>>) -> Result<
    Seq<StepModel>,
    Seq<char>,
>
    decreases steps.len(),
{
    if steps.len() == 0 {
        Ok(Seq::empty())
    } else {
        match checked_steps(steps.drop_last(), roster) {
            Err(e) => Err(e),
            Ok(prev) => match checked_step(steps.last(), steps.len() as nat, roster, step_ids(prev)) {
                Err(e) => Err(e),
                Ok(s) => Ok(prev.push(s)),
            },
        }
    }
}

/// The first dependency of a step, in step order, that names no step of `ids`.
pub open spec fn missing_dependency(steps: Seq<StepModel>, ids: Seq<Seq<char>>) -> Option<Seq<char>>
    decreases steps.len(),
{
    if steps.len() == 0 {
        None
    } else {
        match missing_dependency(steps.drop_last(), ids) {
            Some(e) => Some(e),
            None => missing_in_step(steps.last(), steps.last().depends_on, ids),
        }
    }
}

pub open spec fn missing_in_step(s: StepModel, deps: Seq<Seq<char>>, ids: Seq<Seq<char>>) -> Option<Seq<char>>
    decreases deps.len(),
{
    if deps.len() == 0 {
        None
    } else {
        match missing_in_step(s, deps.drop_last(), ids) {
            Some(e) => Some(e),
            None => if ids.contains(deps.last()) {
                None
            } else {
                Some("Step `"@ + s.step_id + "` depends on unknown step `"@ + deps.last() + "`."@)
            },
        }
    }
}

/// What validation makes of a plan's steps: the validated steps, or the first error.
pub open spec fn validated_steps(steps: Seq<StepModel>, roster: Seq<Seq<char>>) -> Result<
    Seq<StepModel>,
    Seq<char>,
> {
    if steps.len() == 0 {
        Err("Supervisor returned no steps in decomposition plan."@)
    } else {
        match checked_steps(steps, roster) {
            Err(e) => Err(e),
            Ok(vs) => match missing_dependency(vs, step_ids(vs)) {
                Some(e) => Err(e),
                None => Ok(vs),
            },
        }
    }
}

pub open spec fn step_models(steps: Seq<DelegationStep>) -> Seq<StepModel> {
    steps.map_values(|s: DelegationStep| step_model(s))
}

pub open spec fn plan_steps(p: DecompositionPlan) -> Seq<StepModel> {
    step_models(p.steps@)
}


proof fn lemma_deps_err_prefix(s: Seq<Seq<char>>, k: int)
    requires
        0 <= k <= s.len(),
        checked_deps(s.subrange(0, k)) is Err,
    ensures
        checked_deps(s) == checked_deps(s.subrange(0, k)),
    decreases s.len(),
{
    if s.len() > k {
        assert(s.drop_last().subrange(0, k) =~= s.subrange(0, k));
        lemma_deps_err_prefix(s.drop_last(), k);
    } else {
        assert(s.subrange(0, k) =~= s);
    }
}

proof fn lemma_missing_in_step_prefix(st: StepModel, s: Seq<Seq<char>>, ids: Seq<Seq<char>>, k: int)
    requires
        0 <= k <= s.len(),
        missing_in_step(st, s.subrange(0, k), ids) is Some,
    ensures
        missing_in_step(st, s, ids) == missing_in_step(st, s.subrange(0, k), ids),
    decreases s.len(),
{
    if s.len() > k {
        assert(s.drop_last().subrange(0, k) =~= s.subrange(0, k));
        lemma_missing_in_step_prefix(st, s.drop_last(), ids, k);
    } else {
        assert(s.subrange(0, k) =~= s);
    }
}

proof fn lemma_missing_prefix(s: Seq<StepModel>, ids: Seq<Seq<char>>, k: int)
    requires
        0 <= k <= s.len(),
        missing_dependency(s.subrange(0, k), ids) is Some,
    ensures
        missing_dependency(s, ids) == missing_dependency(s.subrange(0, k), ids),
    decreases s.len(),
{
    if s.len() > k {
        assert(s.drop_last().subrange(0, k) =~= s.subrange(0, k));
        lemma_missing_prefix(s.drop_last(), ids, k);
    } else {
        assert(s.subrange(0, k) =~= s);
    }
}

proof fn lemma_steps_err_prefix(s: Seq<StepModel>, roster: Seq<Seq<char>>, k: int)
    requires
        0 <= k <= s.len(),
        checked_steps(s.subrange(0, k), roster) is Err,
    ensures
        checked_steps(s, roster) == checked_steps(s.subrange(0, k), roster),
    decreases s.len(),
{
    if s.len() > k {
        assert(s.drop_last().subrange(0, k) =~= s.subrange(0, k));
        lemma_steps_err_prefix(s.drop_last(), roster, k);
    } else {
        assert(s.subrange(0, k) =~= s);
    }
}

fn check_deps(deps: &Vec<String>) -> (r: Result<Vec<String>, String>)
    ensures
        checked_deps(views(deps@)) is Ok <==> r is Ok,
        r is Ok ==> views(r->Ok_0@) == checked_deps(views(deps@))->Ok_0,
        r is Err ==> r->Err_0@ == checked_deps(views(deps@))->Err_0,
{
    let mut out: Vec<String> = Vec::new();
    let mut i: usize = 0;
    assert(views(deps@.subrange(0, 0)) =~= Seq::<Seq<char>>::empty());
    assert(views(out@) =~= Seq::<Seq<char>>::empty());
    while i < deps.len()
        invariant
            i <= deps@.len(),
            checked_deps(views(deps@.subrange(0, i as int))) == Ok::<Seq<Seq<char>>, Seq<char>>(views(out@)),
        decreases deps.len() - i,
    {
        proof {
            let cur = views(deps@.subrange(0, i + 1));
            assert(cur.drop_last() =~= views(deps@.subrange(0, i as int)));
            assert(cur.last() == deps@[i as int]@);
        }
        let d = match validate_simple_identifier(deps[i].as_str(), "depends_on") {
            Ok(d) => d,
            Err(e) => {
                proof {
                    assert(views(deps@).subrange(0, i + 1) =~= views(deps@.subrange(0, i + 1)));
                    lemma_deps_err_prefix(views(deps@), i + 1);
                }
                return Err(e);
            },
        };
        let ghost prev = out@;
        if !contains_str(&out, d.as_str()) {
            out.push(d);
            assert(views(out@) =~= views(prev).push(d@));
        }
        i = i + 1;
    }
    assert(deps@.subrange(0, deps@.len() as int) =~= deps@);
    Ok(out)
}

fn check_step(s: DelegationStep, position: u64, roster: &Vec<String>, prior: &Vec<String>) -> (r: Result<DelegationStep, String>)
    ensures
        checked_step(step_model(s), position as nat, views(roster@), views(prior@)) is Ok <==> r is Ok,
        r is Ok ==> step_model(r->Ok_0) == checked_step(step_model(s), position as nat, views(roster@), views(prior@))->Ok_0,
        r is Err ==> r->Err_0@ == checked_step(step_model(s), position as nat, views(roster@), views(prior@))->Err_0,
{
    let sid = match validate_simple_identifier(s.step_id.as_str(), "step_id") {
        Ok(v) => v,
        Err(e) => {
            let n = digits_text(position);
            return Err(cat4("Decomposition step ", n.as_str(), ": ", e.as_str()));
        },
    };
    if contains_str(prior, sid.as_str()) {
        return Err(cat3("Duplicate step_id `", sid.as_str(), "` in decomposition plan."));
    }
    let to = match validate_simple_identifier(s.assigned_to.as_str(), "assigned_to") {
        Ok(v) => v,
        Err(e) => return Err(cat4("Decomposition step `", sid.as_str(), "`: ", e.as_str())),
    };
    if !contains_str(roster, to.as_str()) {
        let head = cat3("Decomposition step `", sid.as_str(), "` assigned to unknown agent `");
        return Err(cat3(head.as_str(), to.as_str(), "`."));
    }
    if str_is_blank(s.instruction.as_str()) {
        return Err(cat3("Decomposition step `", sid.as_str(), "` is missing instruction text."));
    }
    let deps = match check_deps(&s.depends_on) {
        Ok(d) => d,
        Err(e) => return Err(cat4("Decomposition step `", sid.as_str(), "`: ", e.as_str())),
    };
    let expected = if str_is_blank(s.expected_output.as_str()) {
        cat(sid.as_str(), ".md")
    } else {
        s.expected_output
    };
    Ok(DelegationStep {
        step_id: sid,
        assigned_to: to,
        instruction: s.instruction,
        depends_on: deps,
        expected_output: expected,
    })
}

fn find_missing_in_step(s: &DelegationStep, ids: &Vec<String>) -> (r: Option<String>)
    ensures
        missing_in_step(step_model(*s), views(s.depends_on@), views(ids@)) is Some <==> r is Some,
        r is Some ==> r->Some_0@ == missing_in_step(step_model(*s), views(s.depends_on@), views(ids@))->Some_0,
{
    let mut i: usize = 0;
    while i < s.depends_on.len()
        invariant
            i <= s.depends_on@.len(),
            missing_in_step(step_model(*s), views(s.depends_on@.subrange(0, i as int)), views(ids@)) is None,
        decreases s.depends_on.len() - i,
    {
        proof {
            let cur = views(s.depends_on@.subrange(0, i + 1));
            assert(cur.drop_last() =~= views(s.depends_on@.subrange(0, i as int)));
            assert(cur.last() == s.depends_on@[i as int]@);
        }
        if !contains_str(ids, s.depends_on[i].as_str()) {
            let head = cat3("Step `", s.step_id.as_str(), "` depends on unknown step `");
            let msg = cat3(head.as_str(), s.depends_on[i].as_str(), "`.");
            proof {
                assert(views(s.depends_on@).subrange(0, i + 1) =~= views(s.depends_on@.subrange(0, i + 1)));
                lemma_missing_in_step_prefix(step_model(*s), views(s.depends_on@), views(ids@), i + 1);
            }
            return Some(msg);
        }
        i = i + 1;
    }
    assert(s.depends_on@.subrange(0, s.depends_on@.len() as int) =~= s.depends_on@);
    None
}

fn find_missing(steps: &Vec<DelegationStep>, ids: &Vec<String>) -> (r: Option<String>)
    ensures
        missing_dependency(step_models(steps@), views(ids@)) is Some <==> r is Some,
        r is Some ==> r->Some_0@ == missing_dependency(step_models(steps@), views(ids@))->Some_0,
{
    let mut i: usize = 0;
    while i < steps.len()
        invariant
            i <= steps@.len(),
            missing_dependency(step_models(steps@.subrange(0, i as int)), views(ids@)) is None,
        decreases steps.len() - i,
    {
        proof {
            let cur = step_models(steps@.subrange(0, i + 1));
            assert(cur.drop_last() =~= step_models(steps@.subrange(0, i as int)));
            assert(cur.last() == step_model(steps@[i as int]));
        }
        match find_missing_in_step(&steps[i], ids) {
            Some(m) => {
                proof {
                    assert(step_models(steps@).subrange(0, i + 1) =~= step_models(steps@.subrange(0, i + 1)));
                    lemma_missing_prefix(step_models(steps@), views(ids@), i + 1);
                }
                return Some(m);
            },
            None => {},
        }
        i = i + 1;
    }
    assert(steps@.subrange(0, steps@.len() as int) =~= steps@);
    None
}

/// The roster's agent ids, in roster order.
fn roster_id_list(team_config: &TeamConfig) -> (r: Vec<String>)
    ensures
        views(r@) == roster_ids(team_config.agents@),
{
    let mut out: Vec<String> = Vec::new();
    let mut i: usize = 0;
    while i < team_config.agents.len()
        invariant
            i <= team_config.agents@.len(),
            views(out@) == roster_ids(team_config.agents@.subrange(0, i as int)),
        decreases team_config.agents.len() - i,
    {
        let ghost prev = out@;
        out.push(team_config.agents[i].id.clone());
        assert(team_config.agents@.subrange(0, i + 1) =~= team_config.agents@.subrange(0, i as int).push(team_config.agents@[i as int]));
        assert(views(out@) =~= views(prev).push(team_config.agents@[i as int].id@));
        assert(views(out@) =~= roster_ids(team_config.agents@.subrange(0, i + 1)));
        i = i + 1;
    }
    assert(team_config.agents@.subrange(0, team_config.agents@.len() as int) =~= team_config.agents@);
    out
}

/// Checks a plan against the roster: at least one step; step ids path-safe and
/// unique; each step assigned to a roster agent; instructions not blank;
/// dependencies path-safe, de-duplicated, and each naming a step of the plan.
/// A blank summary becomes "Task decomposition" and a blank expected output
/// `<step_id>.md`. The first violation, in step order, is the error.
pub fn validate_decomposition_plan(team_config: &TeamConfig, plan: DecompositionPlan) -> (r: Result<DecompositionPlan, String>)
    ensures
        validated_steps(plan_steps(plan), roster_ids(team_config.agents@)) is Ok <==> r is Ok,
        r is Err ==> r->Err_0@ == validated_steps(plan_steps(plan), roster_ids(team_config.agents@))->Err_0,
        r is Ok ==> plan_steps(r->Ok_0) == validated_steps(plan_steps(plan), roster_ids(team_config.agents@))->Ok_0
            && r->Ok_0.task_summary@ == (if is_blank(plan.task_summary@) {
                "Task decomposition"@
            } else {
                plan.task_summary@
            }) && r->Ok_0.reflection_required == plan.reflection_required,
{
    let ghost given = plan;
    let task_summary = plan.task_summary;
    let steps = plan.steps;
    let reflection_required = plan.reflection_required;
    assert(steps@ == given.steps@);
    let summary = if str_is_blank(task_summary.as_str()) {
        "Task decomposition".to_string()
    } else {
        task_summary
    };
    if steps.len() == 0 {
        return Err("Supervisor returned no steps in decomposition plan.".to_string());
    }
    let roster = roster_id_list(team_config);
    let ghost all = step_models(steps@);
    let n = steps.len();
    let mut rest = steps;
    let mut done: Vec<DelegationStep> = Vec::new();
    let mut ids: Vec<String> = Vec::new();
    let mut i: usize = 0;
    assert(all.subrange(0, 0) =~= Seq::<StepModel>::empty());
    assert(step_models(done@) =~= Seq::<StepModel>::empty());
    assert(all.subrange(0, n as int) =~= all);
    while rest.len() > 0
        invariant
            all.len() == n,
            n > 0,
            all == plan_steps(given),
            given == plan,
            views(roster@) == roster_ids(team_config.agents@),
            i + rest@.len() == n,
            step_models(rest@) == all.subrange(i as int, n as int),
            checked_steps(all.subrange(0, i as int), views(roster@)) == Ok::<Seq<StepModel>, Seq<char>>(
                step_models(done@)),
            views(ids@) == step_ids(step_models(done@)),
        decreases rest.len(),
    {
        let ghost before = rest@;
        let s = rest.remove(0);
        proof {
            assert(rest@ =~= before.subrange(1, before.len() as int));
            assert(step_models(before) == all.subrange(i as int, n as int));
            assert(step_models(rest@) =~= step_models(before).subrange(1, before.len() as int));
            assert(step_model(s) == step_models(before)[0]);
            assert(step_models(rest@) =~= all.subrange(i + 1, n as int));
            assert(all.subrange(0, i + 1).drop_last() =~= all.subrange(0, i as int));
            assert(all.subrange(0, i + 1).last() == all[i as int]);
        }
        let ghost done_before = done@;
        let ghost ids_before = ids@;
        let v = match check_step(s, (i as u64) + 1, &roster, &ids) {
            Ok(v) => v,
            Err(e) => {
                proof {
                    let pre = all.subrange(0, i + 1);
                    assert(pre.drop_last() =~= all.subrange(0, i as int));
                    assert(pre.last() == step_model(s));
                    assert(checked_steps(pre, views(roster@)) is Err);
                    lemma_steps_err_prefix(all, views(roster@), i + 1);


                }
                return Err(e);
            },
        };
        ids.push(v.step_id.clone());
        done.push(v);
        proof {
            assert(done@ =~= done_before.push(v));
            assert(ids@ =~= ids_before.push(v.step_id));
            assert(step_models(done@) =~= step_models(done_before).push(step_model(v)));
            assert(views(ids@) =~= views(ids_before).push(v.step_id@));
            assert(step_ids(step_models(done@)) =~= step_ids(step_models(done_before)).push(v.step_id@));
        }
        i = i + 1;
    }
    assert(all.subrange(0, n as int) =~= all);
    match find_missing(&done, &ids) {
        Some(m) => return Err(m),
        None => {},
    }
    Ok(DecompositionPlan { task_summary: summary, steps: done, reflection_required })
}


proof fn lemma_checked_steps_shape(steps: Seq<StepModel>, roster: Seq<Seq<char>>)
    requires
        checked_steps(steps, roster) is Ok,
    ensures
        ({
            let vs = checked_steps(steps, roster)->Ok_0;
            &&& forall|i: int| 0 <= i < vs.len() ==> roster.contains(#[trigger] vs[i].assigned_to)
            &&& step_ids(vs).no_duplicates()
            &&& vs.len() == steps.len()
        }),
    decreases steps.len(),
{
    if steps.len() > 0 {
        lemma_checked_steps_shape(steps.drop_last(), roster);
        let prev = checked_steps(steps.drop_last(), roster)->Ok_0;
        let sv = checked_step(steps.last(), steps.len() as nat, roster, step_ids(prev))->Ok_0;
        let vs = prev.push(sv);
        assert(step_ids(vs) =~= step_ids(prev).push(sv.step_id));
        assert forall|i: int| 0 <= i < vs.len() implies roster.contains(#[trigger] vs[i].assigned_to) by {
            if i < prev.len() {
                assert(vs[i] == prev[i]);
            }
        }
        assert(step_ids(vs).no_duplicates()) by {
            assert forall|a: int, b: int| 0 <= a < b < step_ids(vs).len() implies step_ids(vs)[a]
                != step_ids(vs)[b] by {
                if b == vs.len() - 1 {
                    assert(step_ids(prev)[a] == step_ids(vs)[a]);
                } else {
                    assert(step_ids(prev)[a] == step_ids(vs)[a]);
                    assert(step_ids(prev)[b] == step_ids(vs)[b]);
                }
            }
        }
    }
}

proof fn lemma_no_missing_in_step(st: StepModel, deps: Seq<Seq<char>>, ids: Seq<Seq<char>>)
    requires
        missing_in_step(st, deps, ids) is None,
    ensures
        forall|k: int| 0 <= k < deps.len() ==> ids.contains(#[trigger] deps[k]),
    decreases deps.len(),
{
    if deps.len() > 0 {
        lemma_no_missing_in_step(st, deps.drop_last(), ids);
        assert forall|k: int| 0 <= k < deps.len() implies ids.contains(#[trigger] deps[k]) by {
            if k < deps.len() - 1 {
                assert(deps.drop_last()[k] == deps[k]);
            }
        }
    }
}

proof fn lemma_no_missing(steps: Seq<StepModel>, ids: Seq<Seq<char>>)
    requires
        missing_dependency(steps, ids) is None,
    ensures
        forall|i: int, k: int|
            0 <= i < steps.len() && 0 <= k < steps[i].depends_on.len() ==> ids.contains(
                #[trigger] steps[i].depends_on[k],
            ),
    decreases steps.len(),
{
    if steps.len() > 0 {
        lemma_no_missing(steps.drop_last(), ids);
        lemma_no_missing_in_step(steps.last(), steps.last().depends_on, ids);
        assert forall|i: int, k: int|
            0 <= i < steps.len() && 0 <= k < steps[i].depends_on.len() implies ids.contains(
                #[trigger] steps[i].depends_on[k],
            ) by {
            if i < steps.len() - 1 {
                assert(steps.drop_last()[i] == steps[i]);
            }
        }
    }
}

/// A plan that passes validation assigns every step to a roster agent, has
/// every dependency name one of its own steps, and has no repeated step id.
pub proof fn validated_plan_well_formed(steps: Seq<StepModel>, roster: Seq<Seq<char>>)
    requires
        validated_steps(steps, roster) is Ok,
    ensures
        ({
            let vs = validated_steps(steps, roster)->Ok_0;
            &&& forall|i: int| 0 <= i < vs.len() ==> roster.contains(#[trigger] vs[i].assigned_to)
            &&& forall|i: int, k: int|
                0 <= i < vs.len() && 0 <= k < vs[i].depends_on.len() ==> step_ids(vs).contains(
                    #[trigger] vs[i].depends_on[k],
                )
            &&& step_ids(vs).no_duplicates()
        }),
{
    lemma_checked_steps_shape(steps, roster);
    let vs = checked_steps(steps, roster)->Ok_0;
    lemma_no_missing(vs, step_ids(vs));
}

} // verus!
