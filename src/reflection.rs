//! The writer/critic reflection loop, as a state machine driven by critiques.

use vstd::prelude::*;

verus! {

/// One critique of an artifact.
#[derive(Debug, Clone)]
pub struct CritiqueResult {
    pub issues: Vec<String>,
    pub suggestions: Vec<String>,
    pub pass: bool,
}

/// The outcome of a reflection loop.
#[derive(Debug, Clone)]
pub struct ReflectionSummary {
    pub artifact_path: String,
    pub promoted_path: String,
    pub rounds_completed: u8,
    pub pass: bool,
    pub critiques: Vec<CritiqueResult>,
}

/// Rounds a loop runs: the configured maximum (at least 1) when 0 is asked
/// for, and never more than that maximum.
pub open spec fn rounds_to_run(requested: u8, configured_max: u8) -> u8 {
    let max = if configured_max < 1 {
        1
    } else {
        configured_max
    };
    if requested == 0 || requested > max {
        max
    } else {
        requested
    }
}

pub fn requested_rounds(requested: u8, configured_max: u8) -> (r: u8)
    ensures
        r == rounds_to_run(requested, configured_max),
        1 <= r,
{
    let max = if configured_max < 1 {
        1
    } else {
        configured_max
    };
    if requested == 0 || requested > max {
        max
    } else {
        requested
    }
}

/// Asking for no rounds runs the configured maximum; asking for more than the
/// maximum runs the maximum.
pub proof fn rounds_are_clamped(requested: u8, configured_max: u8)
    requires
        configured_max >= 1,
    ensures
        requested == 0 ==> rounds_to_run(requested, configured_max) == configured_max,
        requested > configured_max ==> rounds_to_run(requested, configured_max) == configured_max,
        1 <= requested <= configured_max ==> rounds_to_run(requested, configured_max) == requested,
{
}

/// The state of a reflection loop between critiques.
pub struct ReflectionRun {
    /// Rounds this loop may run.
    pub rounds: u8,
    /// Whether the writer revises between rounds.
    pub reflection_enabled: bool,
    /// Critiques received so far.
    pub rounds_completed: u8,
    /// Whether a critique has passed the artifact.
    pub pass: bool,
    /// Whether the loop is over.
    pub finished: bool,
    /// Every critique, in order.
    pub critiques: Vec<CritiqueResult>,
}

/// What follows a critique.
pub enum ReflectionStep {
    /// The writer revises the artifact, then the next round begins.
    Revise,
    /// The loop is over: promote the artifact.
    Promote,
}

/// Whether a critique with verdict `pass`, received in round `round` of
/// `rounds`, ends the loop.
pub open spec fn ends_loop(round: nat, rounds: nat, enabled: bool, pass: bool) -> bool {
    pass || !enabled || round >= rounds
}

/// The rounds completed and the verdict of a loop of `rounds` rounds, from
/// round `done + 1` on, when the critics' verdicts come as `verdicts`.
pub open spec fn run_outcome(done: nat, rounds: nat, enabled: bool, verdicts: Seq<bool>) -> (nat, bool)
    decreases verdicts.len(),
{
    if verdicts.len() == 0 {
        (done, false)
    } else if ends_loop(done + 1, rounds, enabled, verdicts[0]) {
        (done + 1, verdicts[0])
    } else {
        run_outcome(done + 1, rounds, enabled, verdicts.drop_first())
    }
}

impl ReflectionRun {
    /// A loop of `requested` rounds (0 for the configured maximum) on a team
    /// whose maximum is `configured_max`.
    pub fn start(requested: u8, configured_max: u8, reflection_enabled: bool) -> (r: ReflectionRun)
        ensures
            r.rounds == rounds_to_run(requested, configured_max),
            r.reflection_enabled == reflection_enabled,
            r.rounds_completed == 0,
            !r.pass,
            !r.finished,
            r.critiques@.len() == 0,
    {
        ReflectionRun {
            rounds: requested_rounds(requested, configured_max),
            reflection_enabled,
            rounds_completed: 0,
            pass: false,
            finished: false,
            critiques: Vec::new(),
        }
    }

    /// Takes in the critique of the current round. The loop ends when it
    /// passes, when reflection is off, or when this was the last round.
    pub fn record_critique(&mut self, critique: CritiqueResult) -> (r: ReflectionStep)
        requires
            !old(self).finished,
            old(self).rounds_completed < old(self).rounds,
        ensures
            final(self).rounds_completed == old(self).rounds_completed + 1,
            final(self).rounds == old(self).rounds,
            final(self).reflection_enabled == old(self).reflection_enabled,
            final(self).critiques@ == old(self).critiques@.push(critique),
            final(self).pass == critique.pass,
            final(self).finished == ends_loop(
                final(self).rounds_completed as nat,
                old(self).rounds as nat,
                old(self).reflection_enabled,
                critique.pass,
            ),
            r is Promote <==> final(self).finished,
            !final(self).finished ==> final(self).rounds_completed < final(self).rounds,
    {
        self.rounds_completed = self.rounds_completed + 1;
        self.pass = critique.pass;
        self.critiques.push(critique);
        if self.pass || !self.reflection_enabled || self.rounds_completed >= self.rounds {
            self.finished = true;
            ReflectionStep::Promote
        } else {
            ReflectionStep::Revise
        }
    }

    /// The summary of a finished loop, once its artifact has been promoted.
    pub fn into_summary(self, artifact_path: String, promoted_path: String) -> (r: ReflectionSummary)
        ensures
            r.artifact_path == artifact_path,
            r.promoted_path == promoted_path,
            r.rounds_completed == self.rounds_completed,
            r.pass == self.pass,
            r.critiques@ == self.critiques@,
    {
        ReflectionSummary {
            artifact_path,
            promoted_path,
            rounds_completed: self.rounds_completed,
            pass: self.pass,
            critiques: self.critiques,
        }
    }
}

proof fn lemma_all_fail(done: nat, rounds: nat, verdicts: Seq<bool>)
    requires
        done < rounds,
        done + verdicts.len() >= rounds,
        forall|i: int| 0 <= i < verdicts.len() ==> !verdicts[i],
    ensures
        run_outcome(done, rounds, true, verdicts) == (rounds, false),
    decreases verdicts.len(),
{
    assert(!verdicts[0]);
    if done + 1 < rounds {
        lemma_all_fail(done + 1, rounds, verdicts.drop_first());
    }
}

/// With reflection on and a critic that never passes the artifact, the loop
/// runs every one of its rounds and ends without a pass.
pub proof fn failing_critic_runs_every_round(requested: u8, configured_max: u8, verdicts: Seq<bool>)
    requires
        verdicts.len() >= rounds_to_run(requested, configured_max),
        forall|i: int| 0 <= i < verdicts.len() ==> !verdicts[i],
    ensures
        run_outcome(0, rounds_to_run(requested, configured_max) as nat, true, verdicts) == (
            rounds_to_run(requested, configured_max) as nat,
            false,
        ),
{
    lemma_all_fail(0, rounds_to_run(requested, configured_max) as nat, verdicts);
}

} // verus!
