//! The event journal: its records, token accounting, and the line framing
//! of the append-only journal file.

use vstd::prelude::*;
use vstd::string::*;

use crate::ident::views;
use crate::plan::DecompositionPlan;
use crate::text::{has_char, is_blank, str_eq, str_has_char, str_is_blank, trim, trim_str};

verus! {

/// Token counts a provider reports for one completion.
#[derive(Debug, Clone, Default)]
pub struct ProviderUsage {
    pub prompt_tokens: Option<i64>,
    pub completion_tokens: Option<i64>,
    pub total_tokens: Option<i64>,
}

/// Token counts of one journal record.
#[derive(Debug, Clone, Copy, Default)]
pub struct BusTokenUsage {
    pub input: i64,
    pub output: i64,
}

/// The kind of a journal record.
#[derive(Debug, Clone, Copy, PartialEq, Eq, Structural)]
pub enum BusEntryType {
    Decomposition,
    Delegation,
    Result,
    Critique,
    Promotion,
    Error,
}

/// The payload of a journal record, one shape per kind of event.
#[derive(Debug, Clone)]
pub enum BusContent {
    /// The full plan of a decomposition.
    Plan(DecompositionPlan),
    /// What a delegation hands an agent.
    Delegation { instruction: String, depends_on: Vec<String>, expected_output: String },
    /// What an agent produced for a step.
    StepOutput { output_text: String, draft_path: String, context_writes: Vec<String> },
    /// One critique of a reflection round.
    Critique { round: u8, issues: Vec<String>, suggestions: Vec<String>, pass: bool },
    /// A writer's revision during a reflection round.
    Revision { round: u8, artifact_path: String, output_text: String },
    /// An artifact moved from the drafts to the promoted set.
    Promotion { from: String, to: String, pass: Option<bool>, rounds_completed: Option<u8> },
    /// A bare text payload.
    Text(String),
    /// A payload of no known shape, kept as its JSON text.
    Other(String),
}

/// One journal record.
#[derive(Debug, Clone)]
pub struct BusEntry {
    pub id: String,
    pub timestamp: String,
    pub entry_type: BusEntryType,
    pub from: String,
    pub to: String,
    pub step_id: Option<String>,
    pub content: BusContent,
    pub token_usage: BusTokenUsage,
}

/// `a + b`, held at the bounds of `i64`.
pub open spec fn sat_add(a: i64, b: i64) -> i64 {
    if a + b > i64::MAX {
        i64::MAX
    } else if a + b < i64::MIN {
        i64::MIN
    } else {
        (a + b) as i64
    }
}

pub fn saturating_sum(a: i64, b: i64) -> (r: i64)
    ensures
        r == sat_add(a, b),
{
    match a.checked_add(b) {
        Some(v) => v,
        None => if b > 0 {
            i64::MAX
        } else {
            i64::MIN
        },
    }
}

pub open spec fn count_or_zero(v: Option<i64>) -> i64 {
    match v {
        Some(x) => x,
        None => 0,
    }
}

/// The journal usage of a provider usage report: absent counts are zero.
pub fn usage_to_bus(usage: &ProviderUsage) -> (r: BusTokenUsage)
    ensures
        r.input == count_or_zero(usage.prompt_tokens),
        r.output == count_or_zero(usage.completion_tokens),
{
    BusTokenUsage {
        input: match usage.prompt_tokens {
            Some(x) => x,
            None => 0,
        },
        output: match usage.completion_tokens {
            Some(x) => x,
            None => 0,
        },
    }
}

/// Adds a provider usage report into a running total.
pub fn accumulate_usage(into: &mut BusTokenUsage, usage: &ProviderUsage)
    ensures
        final(into).input == sat_add(old(into).input, count_or_zero(usage.prompt_tokens)),
        final(into).output == sat_add(old(into).output, count_or_zero(usage.completion_tokens)),
{
    let add = usage_to_bus(usage);
    into.input = saturating_sum(into.input, add.input);
    into.output = saturating_sum(into.output, add.output);
}

/// A usage of zero tokens.
pub fn zero_usage() -> (r: BusTokenUsage)
    ensures
        r.input == 0 && r.output == 0,
{
    BusTokenUsage { input: 0, output: 0 }
}


/// The records of a journal text still to be read from `s`, given the line
/// read so far `cur` and the records `done`: lines end at `\n`, each record is
/// a line trimmed, and blank lines are skipped.
pub open spec fn scan_lines(s: Seq<char>, cur: Seq<char>, done: Seq<Seq<char>>) -> Seq<Seq<char>>
    decreases s.len(),
{
    if s.len() == 0 {
        end_line(done, cur)
    } else if s[0] == '\n' {
        scan_lines(s.drop_first(), Seq::empty(), end_line(done, cur))
    } else {
        scan_lines(s.drop_first(), cur.push(s[0]), done)
    }
}

pub open spec fn end_line(done: Seq<Seq<char>>, line: Seq<char>) -> Seq<Seq<char>> {
    if is_blank(line) {
        done
    } else {
        done.push(trim(line))
    }
}

/// The records of a journal text, in order.
pub open spec fn journal_records(text: Seq<char>) -> Seq<Seq<char>> {
    scan_lines(text, Seq::empty(), Seq::empty())
}

/// The journal text made by appending `lines` one after another, each ended by `\n`.
pub open spec fn framed(lines: Seq<Seq<char>>) -> Seq<char>
    decreases lines.len(),
{
    if lines.len() == 0 {
        Seq::empty()
    } else {
        framed(lines.drop_last()) + lines.last() + seq!['\n']
    }
}

/// A serialized record as the journal holds it: one line, nothing blank
/// at either end.
pub open spec fn is_record_line(l: Seq<char>) -> bool {
    !has_char(l, '\n') && !is_blank(l) && trim(l) == l
}

/// Whether a serialized record can stand as one journal line: no line
/// break, not blank, nothing blank at either end.
pub fn is_record_text(record: &str) -> (r: bool)
    ensures
        r == is_record_line(record@),
{
    !str_has_char(record, '\n') && !str_is_blank(record) && str_eq(trim_str(record).as_str(), record)
}

/// Appends one serialized record to the journal text, as a line of its own.
/// A journal framed from some records stays framed from those records and this one.
pub fn append_journal_line(journal: &mut String, record: &str)
    requires
        is_record_line(record@),
    ensures
        final(journal)@ == old(journal)@ + record@ + seq!['\n'],
        forall|lines: Seq<Seq<char>>|
            old(journal)@ == framed(lines) ==> final(journal)@ == #[trigger] framed(lines.push(record@)),
{
    journal.append(record);
    journal.append("\n");
    proof {
        reveal_strlit("\n");
        assert("\n"@ =~= seq!['\n']);
        assert forall|lines: Seq<Seq<char>>| old(journal)@ == framed(lines) implies journal@ == #[trigger] framed(lines.push(record@)) by {
            assert(lines.push(record@).drop_last() =~= lines);
        }
    }
}

/// The records of a journal text: its lines, trimmed, blank ones skipped.
pub fn journal_lines(text: &str) -> (r: Vec<String>)
    ensures
        views(r@) == journal_records(text@),
{
    let n = text.unicode_len();
    let mut out: Vec<String> = Vec::new();
    let mut cur = String::new();
    let mut i: usize = 0;
    assert(text@.subrange(0, n as int) =~= text@);
    assert(views(out@) =~= Seq::<Seq<char>>::empty());
    assert(cur@ =~= Seq::<char>::empty());
    while i < n
        invariant
            n == text@.len(),
            i <= n,
            scan_lines(text@.subrange(i as int, n as int), cur@, views(out@)) == journal_records(text@),
        decreases n - i,
    {
        let ghost rest = text@.subrange(i as int, n as int);
        assert(rest.drop_first() =~= text@.subrange(i + 1, n as int));
        let c = text.get_char(i);
        assert(rest[0] == c);
        let ghost old_cur = cur@;
        if c == '\n' {
            if !str_is_blank(cur.as_str()) {
                let ghost prev = out@;
                out.push(trim_str(cur.as_str()));
                assert(views(out@) =~= views(prev).push(trim(cur@)));
            }
            cur = String::new();
            assert(cur@ =~= Seq::<char>::empty());
        } else {
            cur.append(text.substring_char(i, i + 1));
            assert(text@.subrange(i as int, i + 1) =~= seq![c]);
            assert(cur@ =~= old_cur.push(c));
        }
        i = i + 1;
    }
    if !str_is_blank(cur.as_str()) {
        let ghost prev = out@;
        out.push(trim_str(cur.as_str()));
        assert(views(out@) =~= views(prev).push(trim(cur@)));
    }
    out
}

proof fn lemma_scan_line_body(l: Seq<char>, tail: Seq<char>, cur: Seq<char>, done: Seq<Seq<char>>)
    requires
        !has_char(l, '\n'),
    ensures
        scan_lines(l + tail, cur, done) == scan_lines(tail, cur + l, done),
    decreases l.len(),
{
    if l.len() == 0 {
        assert(l + tail =~= tail);
        assert(cur + l =~= cur);
    } else {
        let s = l + tail;
        assert(s[0] == l[0]);
        assert(l[0] != '\n');
        assert(s.drop_first() =~= l.drop_first() + tail);
        assert(!has_char(l.drop_first(), '\n')) by {
            if has_char(l.drop_first(), '\n') {
                let j = choose|j: int| 0 <= j < l.drop_first().len() && l.drop_first()[j] == '\n';
                assert(l[j + 1] == '\n');
            }
        }
        lemma_scan_line_body(l.drop_first(), tail, cur.push(l[0]), done);
        assert(cur.push(l[0]) + l.drop_first() =~= cur + l);
    }
}

proof fn lemma_scan_framed(lines: Seq<Seq<char>>, rest: Seq<char>, done: Seq<Seq<char>>)
    requires
        forall|k: int| 0 <= k < lines.len() ==> is_record_line(#[trigger] lines[k]),
    ensures
        scan_lines(framed(lines) + rest, Seq::empty(), done) == scan_lines(rest, Seq::empty(), done + lines),
    decreases lines.len(),
{
    if lines.len() == 0 {
        assert(framed(lines) + rest =~= rest);
        assert(done + lines =~= done);
    } else {
        let init = lines.drop_last();
        let l = lines.last();
        assert(is_record_line(lines[lines.len() - 1]));
        let tail = seq!['\n'] + rest;
        assert(framed(lines) + rest =~= framed(init) + (l + tail));
        assert forall|k: int| 0 <= k < init.len() implies is_record_line(#[trigger] init[k]) by {
            assert(init[k] == lines[k]);
        }
        lemma_scan_framed(init, l + tail, done);
        lemma_scan_line_body(l, tail, Seq::empty(), done + init);
        assert(Seq::<char>::empty() + l =~= l);
        assert(tail[0] == '\n');
        assert(tail.drop_first() =~= rest);
        assert((done + init).push(l) =~= done + lines);
    }
}

/// Reading back a journal written by appending records returns exactly
/// those records, in the order they were appended.
pub proof fn journal_round_trip(lines: Seq<Seq<char>>)
    requires
        forall|k: int| 0 <= k < lines.len() ==> is_record_line(#[trigger] lines[k]),
    ensures
        journal_records(framed(lines)) == lines,
{
    lemma_scan_framed(lines, Seq::empty(), Seq::empty());
    assert(framed(lines) + Seq::<char>::empty() =~= framed(lines));
    assert(Seq::<Seq<char>>::empty() + lines =~= lines);
}

} // verus!
