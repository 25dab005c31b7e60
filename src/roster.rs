//! The team roster: its configuration types and every change made to it.

use vstd::prelude::*;

use crate::ident::{normalize_tool_subset, normalize_tools, simple_identifier, validate_simple_identifier, views};
use crate::text::{eq_ignore_case, lemma_lex_total, lex_le, lower_of, str_eq, str_eq_ignore_case, str_lex_le, trim, trim_str, unicode_lower_str};

verus! {

/// Largest number of agents a team may hold.
pub const TEAM_MAX_AGENTS: usize = 8;

/// Reflection rounds used where none are configured.
pub const TEAM_DEFAULT_MAX_REFLECTION_ROUNDS: u8 = 2;

/// Largest number of reflection rounds a team may configure.
pub const TEAM_MAX_REFLECTION_ROUNDS: u8 = 8;

#[derive(Debug, Clone)]
pub struct TeamAgentConfig {
    pub id: String,
    pub role: String,
    pub model: String,
    pub tool_subset: Vec<String>,
    pub description: String,
}

#[derive(Debug, Clone)]
pub struct TeamConfig {
    pub is_team: bool,
    pub supervisor_model: String,
    pub agents: Vec<TeamAgentConfig>,
    pub reflection_loops: bool,
    pub max_reflection_rounds: u8,
}

#[derive(Debug, Clone)]
pub struct TeamAgentCreateInput {
    pub id: String,
    pub role: String,
    pub model: String,
    pub tool_subset: Vec<String>,
    pub description: String,
}

#[derive(Debug, Clone)]
pub struct TeamSettingsUpdateInput {
    pub supervisor_model: String,
    pub reflection_loops: bool,
    pub max_reflection_rounds: u8,
}

#[derive(Debug, Clone)]
pub struct AgentMeta {
    pub id: String,
    pub role: String,
    pub model: String,
    pub tool_subset: Vec<String>,
    pub description: String,
    pub path: String,
}

/// The ids of a roster, in roster order.
pub open spec fn roster_ids(agents: Seq<TeamAgentConfig>) -> Seq<Seq<char>> {
    agents.map_values(|a: TeamAgentConfig| a.id@)
}

/// `i` is the first agent of `agents` whose id is `id`.
pub open spec fn first_with_id(agents: Seq<TeamAgentConfig>, id: Seq<char>, i: int) -> bool {
    0 <= i < agents.len() && agents[i].id@ == id && forall|j: int|
        0 <= j < i ==> agents[j].id@ != id
}

/// An agent answers to a role name when its role or its id matches it, ignoring case.
pub open spec fn answers_to_role(a: TeamAgentConfig, role: Seq<char>) -> bool {
    eq_ignore_case(a.role@, role) || eq_ignore_case(a.id@, role)
}

/// The rounds a team keeps: 0 stands for the default, and at most 8.
pub open spec fn kept_rounds(r: u8) -> u8 {
    if r == 0 {
        TEAM_DEFAULT_MAX_REFLECTION_ROUNDS
    } else if r > TEAM_MAX_REFLECTION_ROUNDS {
        TEAM_MAX_REFLECTION_ROUNDS
    } else {
        r
    }
}

/// `a` is `b` with its model defaulted to `base` when blank and its tools normalized.
pub open spec fn agent_normalized(a: TeamAgentConfig, b: TeamAgentConfig, base: Seq<char>) -> bool {
    &&& a.id == b.id
    &&& a.role == b.role
    &&& a.description == b.description
    &&& a.model@ == (if trim(b.model@).len() == 0 {
        base
    } else {
        b.model@
    })
    &&& views(a.tool_subset@) == normalize_tools(views(b.tool_subset@))
}

/// Index of the first agent whose id is `agent_id`.
pub fn find_agent(team_config: &TeamConfig, agent_id: &str) -> (r: Option<usize>)
    ensures
        r is Some ==> first_with_id(team_config.agents@, agent_id@, r->Some_0 as int),
        r is None ==> forall|j: int|
            0 <= j < team_config.agents@.len() ==> team_config.agents@[j].id@ != agent_id@,
{
    let mut i: usize = 0;
    while i < team_config.agents.len()
        invariant
            i <= team_config.agents@.len(),
            forall|j: int| 0 <= j < i ==> team_config.agents@[j].id@ != agent_id@,
        decreases team_config.agents.len() - i,
    {
        if str_eq(team_config.agents[i].id.as_str(), agent_id) {
            return Some(i);
        }
        i = i + 1;
    }
    None
}

/// Index of the first agent whose role or id equals `role_name`, ignoring ASCII case.
pub fn find_agent_by_role(team_config: &TeamConfig, role_name: &str) -> (r: Option<usize>)
    ensures
        r is Some ==> {
            let i = r->Some_0 as int;
            &&& 0 <= i < team_config.agents@.len()
            &&& answers_to_role(team_config.agents@[i], role_name@)
            &&& forall|j: int| 0 <= j < i ==> !answers_to_role(team_config.agents@[j], role_name@)
        },
        r is None ==> forall|j: int|
            0 <= j < team_config.agents@.len() ==> !answers_to_role(
                team_config.agents@[j],
                role_name@,
            ),
{
    let mut i: usize = 0;
    while i < team_config.agents.len()
        invariant
            i <= team_config.agents@.len(),
            forall|j: int|
                0 <= j < i ==> !answers_to_role(team_config.agents@[j], role_name@),
        decreases team_config.agents.len() - i,
    {
        let a = &team_config.agents[i];
        if str_eq_ignore_case(a.role.as_str(), role_name) || str_eq_ignore_case(
            a.id.as_str(),
            role_name,
        ) {
            return Some(i);
        }
        i = i + 1;
    }
    None
}

/// The configuration of a team that has none yet.
pub fn default_team_config(base_model: &str) -> (r: TeamConfig)
    ensures
        r.is_team,
        r.supervisor_model@ == base_model@,
        r.agents@.len() == 0,
        r.reflection_loops,
        r.max_reflection_rounds == TEAM_DEFAULT_MAX_REFLECTION_ROUNDS,
{
    TeamConfig {
        is_team: true,
        supervisor_model: base_model.to_string(),
        agents: Vec::new(),
        reflection_loops: true,
        max_reflection_rounds: TEAM_DEFAULT_MAX_REFLECTION_ROUNDS,
    }
}

/// Brings a stored configuration to its normal form: a blank supervisor or
/// agent model becomes `base_model`, the rounds are kept in `1..=8` (0 stands
/// for the default), tool subsets are normalized and the team flag is set.
pub fn normalize_team_config(team_config: TeamConfig, base_model: &str) -> (r: TeamConfig)
    ensures
        r.is_team,
        r.supervisor_model@ == (if trim(team_config.supervisor_model@).len() == 0 {
            base_model@
        } else {
            team_config.supervisor_model@
        }),
        r.reflection_loops == team_config.reflection_loops,
        r.max_reflection_rounds == kept_rounds(team_config.max_reflection_rounds),
        r.agents@.len() == team_config.agents@.len(),
        forall|i: int|
            0 <= i < r.agents@.len() ==> agent_normalized(
                #[trigger] r.agents@[i],
                team_config.agents@[i],
                base_model@,
            ),
{
    let TeamConfig { is_team: _, supervisor_model, agents, reflection_loops, max_reflection_rounds } =
        team_config;
    let supervisor = if trim_str(supervisor_model.as_str()).unicode_len() == 0 {
        base_model.to_string()
    } else {
        supervisor_model
    };
    let mut rounds = max_reflection_rounds;
    if rounds == 0 {
        rounds = TEAM_DEFAULT_MAX_REFLECTION_ROUNDS;
    }
    if rounds > TEAM_MAX_REFLECTION_ROUNDS {
        rounds = TEAM_MAX_REFLECTION_ROUNDS;
    }
    let mut out: Vec<TeamAgentConfig> = Vec::new();
    let mut i: usize = 0;
    while i < agents.len()
        invariant
            i <= agents@.len(),
            out@.len() == i,
            forall|j: int|
                0 <= j < i ==> agent_normalized(#[trigger] out@[j], agents@[j], base_model@),
        decreases agents.len() - i,
    {
        let a = &agents[i];
        let model = if trim_str(a.model.as_str()).unicode_len() == 0 {
            base_model.to_string()
        } else {
            a.model.clone()
        };
        out.push(
            TeamAgentConfig {
                id: a.id.clone(),
                role: a.role.clone(),
                model,
                tool_subset: normalize_tool_subset(&a.tool_subset),
                description: a.description.clone(),
            },
        );
        i = i + 1;
    }
    TeamConfig {
        is_team: true,
        supervisor_model: supervisor,
        agents: out,
        reflection_loops,
        max_reflection_rounds: rounds,
    }
}


/// The key the roster is sorted by: the agent id in lower case.
pub open spec fn roster_key(a: TeamAgentConfig) -> Seq<char> {
    lower_of(a.id@)
}

/// Each agent's key comes no later than the next one's.
pub open spec fn roster_sorted(agents: Seq<TeamAgentConfig>) -> bool {
    forall|i: int|
        0 <= i < agents.len() - 1 ==> lex_le(
            roster_key(#[trigger] agents[i]),
            roster_key(agents[i + 1]),
        )
}

/// `x` placed into the roster `out` after every agent whose key sorts no
/// later than its own: agents with equal keys keep the order they came in.
pub open spec fn insert_agent(out: Seq<TeamAgentConfig>, x: TeamAgentConfig) -> Seq<TeamAgentConfig>
    decreases out.len(),
{
    if out.len() == 0 || lex_le(roster_key(out.last()), roster_key(x)) {
        out.push(x)
    } else {
        insert_agent(out.drop_last(), x).push(out.last())
    }
}

/// The roster sorted by lower-cased id, one agent at a time, in roster
/// order; agents with equal keys keep their relative order.
pub open spec fn sorted_roster(agents: Seq<TeamAgentConfig>) -> Seq<TeamAgentConfig>
    decreases agents.len(),
{
    if agents.len() == 0 {
        Seq::empty()
    } else {
        insert_agent(sorted_roster(agents.drop_last()), agents.last())
    }
}

proof fn lemma_insert_agent(out: Seq<TeamAgentConfig>, x: TeamAgentConfig)
    requires
        roster_sorted(out),
    ensures
        roster_sorted(insert_agent(out, x)),
        insert_agent(out, x).len() == out.len() + 1,
        insert_agent(out, x).last() == x || (out.len() > 0 && insert_agent(out, x).last() == out.last()),
        insert_agent(out, x).to_multiset() == out.to_multiset().insert(x),
    decreases out.len(),
{
    broadcast use vstd::seq_lib::group_to_multiset_ensures;

    if out.len() == 0 || lex_le(roster_key(out.last()), roster_key(x)) {
        let r = out.push(x);
        assert forall|i: int| 0 <= i < r.len() - 1 implies lex_le(roster_key(#[trigger] r[i]), roster_key(r[i + 1])) by {
            if i < out.len() - 1 {
                assert(r[i] == out[i] && r[i + 1] == out[i + 1]);
            } else {
                assert(r[i] == out.last());
            }
        }
    } else {
        let p = out.drop_last();
        assert forall|i: int| 0 <= i < p.len() - 1 implies lex_le(roster_key(#[trigger] p[i]), roster_key(p[i + 1])) by {
            assert(p[i] == out[i] && p[i + 1] == out[i + 1]);
        }
        lemma_insert_agent(p, x);
        let q = insert_agent(p, x);
        let r = q.push(out.last());
        lemma_lex_total(roster_key(out.last()), roster_key(x));
        assert(lex_le(roster_key(q.last()), roster_key(out.last()))) by {
            if q.last() != x {
                assert(p.last() == out[out.len() - 2]);
                assert(out.last() == out[out.len() - 1]);
            }
        }
        assert forall|i: int| 0 <= i < r.len() - 1 implies lex_le(roster_key(#[trigger] r[i]), roster_key(r[i + 1])) by {
            if i < q.len() - 1 {
                assert(r[i] == q[i] && r[i + 1] == q[i + 1]);
            } else {
                assert(r[i] == q.last());
            }
        }
        assert(p.push(out.last()) =~= out);
        assert(r.to_multiset() =~= p.to_multiset().insert(x).insert(out.last()));
        assert(out.to_multiset() =~= p.to_multiset().insert(out.last()));
    }
}

/// The sorted roster is in order and holds the same agents.
pub proof fn sorted_roster_is_a_sorted_permutation(agents: Seq<TeamAgentConfig>)
    ensures
        roster_sorted(sorted_roster(agents)),
        sorted_roster(agents).to_multiset() == agents.to_multiset(),
    decreases agents.len(),
{
    broadcast use vstd::seq_lib::group_to_multiset_ensures;

    if agents.len() > 0 {
        sorted_roster_is_a_sorted_permutation(agents.drop_last());
        lemma_insert_agent(sorted_roster(agents.drop_last()), agents.last());
        assert(agents.drop_last().push(agents.last()) =~= agents);
    }
}

/// A roster already in order, equal keys included, is left as it is:
/// sorting never reorders agents whose lower-cased ids are equal.
pub proof fn sorting_sorted_roster_changes_nothing(agents: Seq<TeamAgentConfig>)
    requires
        roster_sorted(agents),
    ensures
        sorted_roster(agents) == agents,
    decreases agents.len(),
{
    if agents.len() > 0 {
        let p = agents.drop_last();
        assert forall|i: int| 0 <= i < p.len() - 1 implies lex_le(roster_key(#[trigger] p[i]), roster_key(p[i + 1])) by {
            assert(p[i] == agents[i] && p[i + 1] == agents[i + 1]);
        }
        sorting_sorted_roster_changes_nothing(p);
        if p.len() > 0 {
            assert(p.last() == agents[agents.len() - 2]);
            assert(agents.last() == agents[agents.len() - 1]);
        }
        assert(p.push(agents.last()) =~= agents);
    }
}

/// Whether `a` sorts no later than `b` in the roster.
fn key_le(a: &TeamAgentConfig, b: &TeamAgentConfig) -> (r: bool)
    ensures
        r == lex_le(roster_key(*a), roster_key(*b)),
{
    let ka = unicode_lower_str(a.id.as_str());
    let kb = unicode_lower_str(b.id.as_str());
    str_lex_le(ka.as_str(), kb.as_str())
}

fn insert_agent_exec(out: Vec<TeamAgentConfig>, x: TeamAgentConfig) -> (r: Vec<TeamAgentConfig>)
    ensures
        r@ == insert_agent(out@, x),
    decreases out@.len(),
{
    let mut out = out;
    let ghost before = out@;
    if out.len() == 0 || key_le(&out[out.len() - 1], &x) {
        out.push(x);
        return out;
    }
    let last = out.pop().unwrap();
    assert(out@ =~= before.drop_last());
    let mut r = insert_agent_exec(out, x);
    r.push(last);
    r
}

/// Sorts a roster by lower-cased id; agents with equal keys keep their order.
pub fn sort_roster(agents: Vec<TeamAgentConfig>) -> (r: Vec<TeamAgentConfig>)
    ensures
        r@ == sorted_roster(agents@),
        roster_sorted(r@),
        r@.to_multiset() == agents@.to_multiset(),
{
    let ghost all = agents@;
    let n = agents.len();
    let mut rest = agents;
    let mut out: Vec<TeamAgentConfig> = Vec::new();
    let mut i: usize = 0;
    assert(all.subrange(0, n as int) =~= all);
    assert(out@ =~= sorted_roster(all.subrange(0, 0)));
    while rest.len() > 0
        invariant
            all.len() == n,
            i + rest@.len() == n,
            rest@ == all.subrange(i as int, n as int),
            out@ == sorted_roster(all.subrange(0, i as int)),
        decreases rest.len(),
    {
        let x = rest.remove(0);
        proof {
            assert(x == all[i as int]);
            assert(rest@ =~= all.subrange(i + 1, n as int));
            assert(all.subrange(0, i + 1).drop_last() =~= all.subrange(0, i as int));
            assert(all.subrange(0, i + 1).last() == all[i as int]);
        }
        out = insert_agent_exec(out, x);
        i = i + 1;
    }
    proof {
        sorted_roster_is_a_sorted_permutation(all);
    }
    out
}


/// `a` is the agent that `input` describes under the validated id `id`:
/// role, model and description trimmed, tools normalized.
pub open spec fn agent_from_input(a: TeamAgentConfig, input: TeamAgentCreateInput, id: Seq<char>) -> bool {
    &&& a.id@ == id
    &&& a.role@ == trim(input.role@)
    &&& a.model@ == trim(input.model@)
    &&& views(a.tool_subset@) == normalize_tools(views(input.tool_subset@))
    &&& a.description@ == trim(input.description@)
}

/// The roster with the first agent of `a`'s id replaced by `a`, or `a` appended.
pub open spec fn upserted(agents: Seq<TeamAgentConfig>, a: TeamAgentConfig) -> Seq<TeamAgentConfig> {
    if exists|i: int| first_with_id(agents, a.id@, i) {
        agents.update(choose|i: int| first_with_id(agents, a.id@, i), a)
    } else {
        agents.push(a)
    }
}

/// Message of a full roster.
pub open spec fn team_full_message() -> Seq<char> {
    "A team can have at most 8 agents. Remove one before adding another."@
}

/// The error, if any, that `upsert_agent` returns for `input` on `agents`.
pub open spec fn upsert_error(agents: Seq<TeamAgentConfig>, input: TeamAgentCreateInput) -> Option<Seq<char>> {
    let id = simple_identifier(input.id@, "agent_config.id"@);
    if id is Err {
        Some(id->Err_0)
    } else if agents.len() >= TEAM_MAX_AGENTS && !roster_ids(agents).contains(id->Ok_0) {
        Some(team_full_message())
    } else if trim(input.role@).len() == 0 {
        Some("agent_config.role is required."@)
    } else if trim(input.model@).len() == 0 {
        Some("agent_config.model is required."@)
    } else {
        None
    }
}

fn build_agent(id: &String, input: &TeamAgentCreateInput) -> (r: TeamAgentConfig)
    ensures
        agent_from_input(r, *input, id@),
{
    TeamAgentConfig {
        id: id.clone(),
        role: trim_str(input.role.as_str()),
        model: trim_str(input.model.as_str()),
        tool_subset: normalize_tool_subset(&input.tool_subset),
        description: trim_str(input.description.as_str()),
    }
}

fn roster_has_id(agents: &Vec<TeamAgentConfig>, id: &str) -> (r: bool)
    ensures
        r == roster_ids(agents@).contains(id@),
{
    let mut i: usize = 0;
    while i < agents.len()
        invariant
            i <= agents@.len(),
            forall|j: int| 0 <= j < i ==> agents@[j].id@ != id@,
        decreases agents.len() - i,
    {
        if str_eq(agents[i].id.as_str(), id) {
            assert(roster_ids(agents@)[i as int] == id@);
            return true;
        }
        i = i + 1;
    }
    assert(!roster_ids(agents@).contains(id@)) by {
        if roster_ids(agents@).contains(id@) {
            let j = choose|j: int| 0 <= j < roster_ids(agents@).len() && roster_ids(agents@)[j] == id@;
            assert(agents@[j].id@ == id@);
        }
    }
    false
}

impl TeamConfig {
    /// Adds the agent that `input` describes, or replaces the first agent with
    /// its id, then sorts the roster by lower-cased id. A new id is refused
    /// once the team holds eight agents. On error the configuration is unchanged.
    pub fn upsert_agent(&mut self, input: &TeamAgentCreateInput) -> (r: Result<TeamAgentConfig, String>)
        ensures
            upsert_error(old(self).agents@, *input) is Some <==> r is Err,
            r is Err ==> r->Err_0@ == upsert_error(old(self).agents@, *input)->Some_0,
            r is Err ==> *final(self) == *old(self),
            r is Ok ==> {
                let id = simple_identifier(input.id@, "agent_config.id"@)->Ok_0;
                &&& agent_from_input(r->Ok_0, *input, id)
                &&& exists|n: TeamAgentConfig|
                    agent_from_input(n, *input, id) && final(self).agents@
                        == #[trigger] sorted_roster(upserted(old(self).agents@, n))
                &&& roster_sorted(final(self).agents@)
                &&& final(self).is_team == old(self).is_team
                &&& final(self).supervisor_model == old(self).supervisor_model
                &&& final(self).reflection_loops == old(self).reflection_loops
                &&& final(self).max_reflection_rounds == old(self).max_reflection_rounds
            },
    {
        let id = match validate_simple_identifier(input.id.as_str(), "agent_config.id") {
            Ok(v) => v,
            Err(e) => return Err(e),
        };
        if self.agents.len() >= TEAM_MAX_AGENTS && !roster_has_id(&self.agents, id.as_str()) {
            return Err("A team can have at most 8 agents. Remove one before adding another.".to_string());
        }
        if trim_str(input.role.as_str()).unicode_len() == 0 {
            return Err("agent_config.role is required.".to_string());
        }
        if trim_str(input.model.as_str()).unicode_len() == 0 {
            return Err("agent_config.model is required.".to_string());
        }
        let stored = build_agent(&id, input);
        let returned = build_agent(&id, input);
        let ghost before = self.agents@;
        match find_agent(self, id.as_str()) {
            Some(i) => {
                self.agents.remove(i);
                self.agents.insert(i, stored);
                proof {
                    assert(self.agents@ =~= before.update(i as int, stored));
                }
            },
            None => {
                self.agents.push(stored);
            },
        }
        assert(self.agents@ == upserted(before, stored));
        let mut agents: Vec<TeamAgentConfig> = Vec::new();
        std::mem::swap(&mut agents, &mut self.agents);
        self.agents = sort_roster(agents);
        Ok(returned)
    }
}


/// The roster without the agents whose id is `id`.
pub open spec fn without_id(agents: Seq<TeamAgentConfig>, id: Seq<char>) -> Seq<TeamAgentConfig>
    decreases agents.len(),
{
    if agents.len() == 0 {
        agents
    } else {
        let prev = without_id(agents.drop_last(), id);
        if agents.last().id@ == id {
            prev
        } else {
            prev.push(agents.last())
        }
    }
}

/// Message of an id that names no agent.
pub open spec fn agent_not_found_message() -> Seq<char> {
    "Agent not found in team roster."@
}

/// Message of a blank supervisor model.
pub open spec fn supervisor_required_message() -> Seq<char> {
    "supervisor_model is required."@
}

impl TeamConfig {
    /// Removes every agent whose id is the validated `agent_id`, and returns that id.
    /// Fails, leaving the roster as it was, on an invalid id or one that names no agent.
    pub fn remove_agent(&mut self, agent_id: &str) -> (r: Result<String, String>)
        ensures
            ({
                let id = simple_identifier(agent_id@, "agent_id"@);
                &&& id is Err ==> r is Err && r->Err_0@ == id->Err_0
                &&& id is Ok && !roster_ids(old(self).agents@).contains(id->Ok_0) ==> r is Err
                    && r->Err_0@ == agent_not_found_message()
                &&& id is Ok && roster_ids(old(self).agents@).contains(id->Ok_0) ==> r is Ok
                    && r->Ok_0@ == id->Ok_0 && final(self).agents@ == without_id(
                    old(self).agents@,
                    id->Ok_0,
                )
            }),
            r is Err ==> *final(self) == *old(self),
            final(self).is_team == old(self).is_team,
            final(self).supervisor_model == old(self).supervisor_model,
            final(self).reflection_loops == old(self).reflection_loops,
            final(self).max_reflection_rounds == old(self).max_reflection_rounds,
    {
        let id = match validate_simple_identifier(agent_id, "agent_id") {
            Ok(v) => v,
            Err(e) => return Err(e),
        };
        if !roster_has_id(&self.agents, id.as_str()) {
            return Err("Agent not found in team roster.".to_string());
        }
        let ghost all = self.agents@;
        let n = self.agents.len();
        let mut rest: Vec<TeamAgentConfig> = Vec::new();
        std::mem::swap(&mut rest, &mut self.agents);
        let mut kept: Vec<TeamAgentConfig> = Vec::new();
        let mut i: usize = 0;
        while rest.len() > 0
            invariant
                all.len() == n,
                i + rest@.len() == n,
                rest@ == all.subrange(i as int, n as int),
                kept@ == without_id(all.subrange(0, i as int), id@),
            decreases rest.len(),
        {
            let a = rest.remove(0);
            proof {
                assert(a == all[i as int]);
                assert(rest@ =~= all.subrange(i + 1, n as int));
                assert(all.subrange(0, i + 1).drop_last() =~= all.subrange(0, i as int));
            }
            if !str_eq(a.id.as_str(), id.as_str()) {
                kept.push(a);
            }
            i = i + 1;
        }
        assert(all.subrange(0, n as int) =~= all);
        self.agents = kept;
        Ok(id)
    }

    /// Sets the supervisor model (trimmed; required), the reflection flag and
    /// the rounds, brought into `1..=8`. On error nothing changes.
    pub fn update_settings(&mut self, settings: &TeamSettingsUpdateInput) -> (r: Result<(), String>)
        ensures
            trim(settings.supervisor_model@).len() == 0 <==> r is Err,
            r is Err ==> r->Err_0@ == supervisor_required_message() && *final(self) == *old(self),
            r is Ok ==> final(self).supervisor_model@ == trim(settings.supervisor_model@)
                && final(self).reflection_loops == settings.reflection_loops
                && final(self).max_reflection_rounds == (if settings.max_reflection_rounds < 1 {
                1
            } else if settings.max_reflection_rounds > TEAM_MAX_REFLECTION_ROUNDS {
                TEAM_MAX_REFLECTION_ROUNDS
            } else {
                settings.max_reflection_rounds
            }) && final(self).agents == old(self).agents && final(self).is_team == old(self).is_team,
    {
        let model = trim_str(settings.supervisor_model.as_str());
        if model.unicode_len() == 0 {
            return Err("supervisor_model is required.".to_string());
        }
        self.supervisor_model = model;
        self.reflection_loops = settings.reflection_loops;
        let mut rounds = settings.max_reflection_rounds;
        if rounds < 1 {
            rounds = 1;
        }
        if rounds > TEAM_MAX_REFLECTION_ROUNDS {
            rounds = TEAM_MAX_REFLECTION_ROUNDS;
        }
        self.max_reflection_rounds = rounds;
        Ok(())
    }
}

} // verus!
