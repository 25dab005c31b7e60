//! Names of draft and promoted artifacts.

use vstd::prelude::*;
use vstd::string::*;

use crate::sandbox::{relative_path, validate_relative_path};
use crate::text::{cat, cat4, cat5, strip_suffix_text, strip_suffixes, decimal, decimal_text, starts_with, str_eq, str_starts_with, trim, trim_str};

verus! {

/// A character kept as it is in a file name.
pub open spec fn is_name_char(c: char) -> bool {
    ('a' <= c && c <= 'z') || ('A' <= c && c <= 'Z') || ('0' <= c && c <= '9') || c == '-' || c == '_'
        || c == '.'
}

/// Every other character becomes `-`.
pub open spec fn safe_char(c: char) -> char {
    if is_name_char(c) {
        c
    } else {
        '-'
    }
}

/// Runs of `-` shortened to one `-`.
pub open spec fn collapse_dashes(s: Seq<char>) -> Seq<char>
    decreases s.len(),
{
    if s.len() == 0 {
        s
    } else {
        let p = collapse_dashes(s.drop_last());
        if s.last() == '-' && p.len() > 0 && p.last() == '-' {
            p
        } else {
            p.push(s.last())
        }
    }
}

/// `s` without leading copies of `c`.
pub open spec fn strip_leading(s: Seq<char>, c: char) -> Seq<char>
    decreases s.len(),
{
    if s.len() > 0 && s[0] == c {
        strip_leading(s.drop_first(), c)
    } else {
        s
    }
}

/// `s` without trailing copies of `c`.
pub open spec fn strip_trailing(s: Seq<char>, c: char) -> Seq<char>
    decreases s.len(),
{
    if s.len() > 0 && s.last() == c {
        strip_trailing(s.drop_last(), c)
    } else {
        s
    }
}

/// `s` without copies of `c` at either end.
pub open spec fn strip_both(s: Seq<char>, c: char) -> Seq<char> {
    strip_trailing(strip_leading(s, c), c)
}

/// The last `/`-separated part of a path, trailing `/` ignored; none for an
/// empty part or `.` or `..`.
pub open spec fn leaf_of(t: Seq<char>) -> Option<Seq<char>> {
    let u = strip_trailing(t, '/');
    let leaf = if exists|i: int| 0 <= i < u.len() && u[i] == '/' {
        let i = choose|i: int|
            0 <= i < u.len() && u[i] == '/' && forall|j: int| i < j < u.len() ==> u[j] != '/';
        u.subrange(i + 1, u.len() as int)
    } else {
        u
    };
    if leaf.len() == 0 || leaf == "."@ || leaf == ".."@ {
        None
    } else {
        Some(leaf)
    }
}

/// Whether `s` holds a `.`.
pub open spec fn has_dot(s: Seq<char>) -> bool {
    exists|i: int| 0 <= i < s.len() && s[i] == '.'
}

/// A text made of dots alone, such as `.` or `..`.
pub open spec fn only_dots(s: Seq<char>) -> bool {
    forall|i: int| 0 <= i < s.len() ==> s[i] == '.'
}

/// The file name `sanitize_filename` makes of `raw`.
pub open spec fn sanitized_name(raw: Seq<char>, fallback: Seq<char>) -> Seq<char> {
    let leaf = match leaf_of(trim(raw)) {
        Some(l) => trim(l),
        None => trim(fallback),
    };
    let n = strip_both(strip_both(collapse_dashes(leaf.map_values(|c: char| safe_char(c))), '.'), '-');
    if n.len() == 0 || only_dots(n) {
        fallback
    } else if !has_dot(n) {
        n + ".md"@
    } else {
        n
    }
}

fn name_char(c: char) -> (r: bool)
    ensures
        r == is_name_char(c),
{
    ('a' <= c && c <= 'z') || ('A' <= c && c <= 'Z') || ('0' <= c && c <= '9') || c == '-' || c == '_'
        || c == '.'
}

fn strip_both_text(s: &str, c: char) -> (r: String)
    ensures
        r@ == strip_both(s@, c),
{
    let n = s.unicode_len();
    let mut a: usize = 0;
    assert(s@.subrange(0, n as int) =~= s@);
    while a < n && s.get_char(a) == c
        invariant
            n == s@.len(),
            a <= n,
            strip_leading(s@, c) == strip_leading(s@.subrange(a as int, n as int), c),
        decreases n - a,
    {
        assert(s@.subrange(a as int, n as int).drop_first() =~= s@.subrange(a + 1, n as int));
        a = a + 1;
    }
    let ghost lead = s@.subrange(a as int, n as int);
    assert(strip_leading(lead, c) == lead);
    let mut b: usize = n;
    assert(lead.subrange(0, (b - a) as int) =~= lead);
    while b > a && s.get_char(b - 1) == c
        invariant
            n == s@.len(),
            a <= b <= n,
            lead == s@.subrange(a as int, n as int),
            strip_trailing(lead, c) == strip_trailing(s@.subrange(a as int, b as int), c),
        decreases b,
    {
        assert(s@.subrange(a as int, b as int).drop_last() =~= s@.subrange(a as int, b - 1));
        b = b - 1;
    }
    s.substring_char(a, b).to_string()
}

fn collapse_text(s: &str) -> (r: String)
    ensures
        r@ == collapse_dashes(s@),
{
    let n = s.unicode_len();
    let mut out = String::new();
    let mut last_dash = false;
    let mut i: usize = 0;
    while i < n
        invariant
            n == s@.len(),
            i <= n,
            out@ == collapse_dashes(s@.subrange(0, i as int)),
            last_dash == (out@.len() > 0 && out@.last() == '-'),
        decreases n - i,
    {
        let c = s.get_char(i);
        assert(s@.subrange(0, i + 1).drop_last() =~= s@.subrange(0, i as int));
        assert(s@.subrange(0, i + 1).last() == c);
        if !(c == '-' && last_dash) {
            out.append(s.substring_char(i, i + 1));
            assert(s@.subrange(i as int, i + 1) =~= seq![c]);
            last_dash = c == '-';
        }
        i = i + 1;
    }
    assert(s@.subrange(0, n as int) =~= s@);
    out
}

fn safe_text(s: &str) -> (r: String)
    ensures
        r@ == s@.map_values(|c: char| safe_char(c)),
{
    let n = s.unicode_len();
    let mut out = String::new();
    let mut i: usize = 0;
    while i < n
        invariant
            n == s@.len(),
            i <= n,
            out@ == s@.subrange(0, i as int).map_values(|c: char| safe_char(c)),
        decreases n - i,
    {
        let c = s.get_char(i);
        if name_char(c) {
            out.append(s.substring_char(i, i + 1));
            assert(s@.subrange(i as int, i + 1) =~= seq![c]);
        } else {
            out.append("-");
            proof {
                reveal_strlit("-");
            }
        }
        assert(out@ =~= s@.subrange(0, i + 1).map_values(|c: char| safe_char(c)));
        i = i + 1;
    }
    assert(s@.subrange(0, n as int) =~= s@);
    out
}

fn text_only_dots(s: &str) -> (r: bool)
    ensures
        r == only_dots(s@),
{
    let n = s.unicode_len();
    let mut i: usize = 0;
    while i < n
        invariant
            n == s@.len(),
            i <= n,
            forall|j: int| 0 <= j < i ==> s@[j] == '.',
        decreases n - i,
    {
        if s.get_char(i) != '.' {
            return false;
        }
        i = i + 1;
    }
    true
}

fn text_has_dot(s: &str) -> (r: bool)
    ensures
        r == has_dot(s@),
{
    let n = s.unicode_len();
    let mut i: usize = 0;
    while i < n
        invariant
            n == s@.len(),
            i <= n,
            forall|j: int| 0 <= j < i ==> s@[j] != '.',
        decreases n - i,
    {
        if s.get_char(i) == '.' {
            return true;
        }
        i = i + 1;
    }
    false
}

fn leaf_text(t: &str) -> (r: Option<String>)
    ensures
        r is Some <==> leaf_of(t@) is Some,
        r is Some ==> r->Some_0@ == leaf_of(t@)->Some_0,
{
    let n = t.unicode_len();
    let mut b: usize = n;
    assert(t@.subrange(0, n as int) =~= t@);
    while b > 0 && t.get_char(b - 1) == '/'
        invariant
            n == t@.len(),
            b <= n,
            strip_trailing(t@, '/') == strip_trailing(t@.subrange(0, b as int), '/'),
        decreases b,
    {
        assert(t@.subrange(0, b as int).drop_last() =~= t@.subrange(0, b - 1));
        b = b - 1;
    }
    let ghost u = t@.subrange(0, b as int);
    assert(strip_trailing(u, '/') == u);
    let mut k: usize = b;
    while k > 0 && t.get_char(k - 1) != '/'
        invariant
            n == t@.len(),
            k <= b <= n,
            u == t@.subrange(0, b as int),
            forall|j: int| k <= j < b ==> u[j] != '/',
        decreases k,
    {
        k = k - 1;
    }
    let leaf = t.substring_char(k, b);
    proof {
        if k > 0 {
            assert(u[k - 1] == '/');
            let i = choose|i: int|
                0 <= i < u.len() && u[i] == '/' && forall|j: int| i < j < u.len() ==> u[j] != '/';
            assert(i == k - 1) by {
                if i < k - 1 {
                    assert(u[k - 1] != '/');
                } else if i > k - 1 {
                    assert(u[i] != '/');
                }
            }
            assert(leaf@ =~= u.subrange(k as int, u.len() as int));
        } else {
            assert(!(exists|i: int| 0 <= i < u.len() && u[i] == '/'));
            assert(leaf@ =~= u);
        }
    }
    if leaf.unicode_len() == 0 || str_eq(leaf, ".") || str_eq(leaf, "..") {
        None
    } else {
        Some(leaf.to_string())
    }
}

/// Makes a safe file name of the last part of `raw`: characters other than
/// ASCII letters, digits, `-`, `_` and `.` become `-`, runs of `-` shrink to
/// one, `.` and then `-` are stripped from both ends, and `.md` is added when
/// no extension is left. An empty result gives `fallback`.
pub fn sanitize_filename(raw: &str, fallback: &str) -> (r: String)
    ensures
        r@ == sanitized_name(raw@, fallback@),
        r@ == fallback@ || (r@.len() > 0 && !only_dots(r@)),
{
    let t = trim_str(raw);
    let leaf = match leaf_text(t.as_str()) {
        Some(l) => trim_str(l.as_str()),
        None => trim_str(fallback),
    };
    let safe = safe_text(leaf.as_str());
    let collapsed = collapse_text(safe.as_str());
    let no_dots = strip_both_text(collapsed.as_str(), '.');
    let n = strip_both_text(no_dots.as_str(), '-');
    if n.unicode_len() == 0 || text_only_dots(n.as_str()) {
        fallback.to_string()
    } else if !text_has_dot(n.as_str()) {
        let r = cat(n.as_str(), ".md");
        assert(r@[0] == n@[0] && n@[0] != '.');
        r
    } else {
        n
    }
}


/// `i` is the position of the last `.` of `name`.
pub open spec fn last_dot_at(name: Seq<char>, i: int) -> bool {
    0 <= i < name.len() && name[i] == '.' && forall|j: int| i < j < name.len() ==> name[j] != '.'
}

/// The stem and extension of a file name: split at its last `.`, unless that
/// `.` is the first character; no extension when there is no such `.`.
pub open spec fn stem_and_extension(name: Seq<char>) -> (Seq<char>, Option<Seq<char>>) {
    if exists|i: int| last_dot_at(name, i) && i > 0 {
        let i = choose|i: int| last_dot_at(name, i) && i > 0;
        (name.subrange(0, i), Some(name.subrange(i + 1, name.len() as int)))
    } else {
        (name, None)
    }
}

fn split_extension(name: &str) -> (r: (String, Option<String>))
    ensures
        r.0@ == stem_and_extension(name@).0,
        r.1 is Some <==> stem_and_extension(name@).1 is Some,
        r.1 is Some ==> r.1->Some_0@ == stem_and_extension(name@).1->Some_0,
{
    let n = name.unicode_len();
    let mut k: usize = n;
    while k > 0 && name.get_char(k - 1) != '.'
        invariant
            n == name@.len(),
            k <= n,
            forall|j: int| k <= j < n ==> name@[j] != '.',
        decreases k,
    {
        k = k - 1;
    }
    if k > 1 {
        let i = k - 1;
        proof {
            assert(last_dot_at(name@, i as int));
            let c = choose|c: int| last_dot_at(name@, c) && c > 0;
            assert(c == i) by {
                if c < i {
                    assert(name@[i as int] != '.');
                } else if c > i {
                    assert(name@[c] != '.');
                }
            }
        }
        (name.substring_char(0, i).to_string(), Some(name.substring_char(k, n).to_string()))
    } else {
        proof {
            assert(!(exists|i: int| last_dot_at(name@, i) && i > 0)) by {
                if exists|i: int| last_dot_at(name@, i) && i > 0 {
                    let c = choose|c: int| last_dot_at(name@, c) && c > 0;
                    if k == 1 {
                        assert(name@[0] == '.');
                    }
                    assert(c >= k);
                }
            }
        }
        (name.to_string(), None)
    }
}

/// The name a promoted artifact takes: its own, or, when that is taken,
/// `<stem>-<timestamp>.<extension>` (stem "artifact" and extension "md" when missing).
pub open spec fn promoted_name(source: Seq<char>, taken: bool, timestamp_ms: i64) -> Seq<char> {
    if !taken {
        source
    } else {
        let (stem, ext) = stem_and_extension(source);
        let stem = if stem.len() == 0 { "artifact"@ } else { stem };
        let ext = match ext {
            Some(e) => e,
            None => "md"@,
        };
        stem + "-"@ + decimal(timestamp_ms as int) + "."@ + ext
    }
}

/// The file name under which a draft is promoted; `taken` says whether a
/// promoted file of the draft's own name exists already.
pub fn unique_promoted_name(source_filename: &str, taken: bool, timestamp_ms: i64) -> (r: String)
    ensures
        r@ == promoted_name(source_filename@, taken, timestamp_ms),
{
    if !taken {
        return source_filename.to_string();
    }
    let (stem, ext) = split_extension(source_filename);
    let stem = if stem.unicode_len() == 0 {
        "artifact".to_string()
    } else {
        stem
    };
    let ext = match ext {
        Some(e) => e,
        None => "md".to_string(),
    };
    let ts = decimal_text(timestamp_ms);
    cat5(stem.as_str(), "-", ts.as_str(), ".", ext.as_str())
}

/// The draft name of a step's output: its expected output made safe, with
/// `<step_id>-<agent_id>.md` as the fallback.
pub fn draft_filename(expected_output: &str, step_id: &str, agent_id: &str) -> (r: String)
    ensures
        r@ == sanitized_name(expected_output@, step_id@ + "-"@ + agent_id@ + ".md"@),
{
    let fallback = cat4(step_id, "-", agent_id, ".md");
    sanitize_filename(expected_output, fallback.as_str())
}

/// The draft name used when the first choice is taken: `<step>-<timestamp>.md`.
pub fn fallback_draft_filename(step_id: &str, timestamp_ms: i64) -> (r: String)
    ensures
        r@ == strip_suffixes(sanitized_name(step_id@, "step"@), ".md"@) + "-"@ + decimal(timestamp_ms as int) + ".md"@,
{
    let base = sanitize_filename(step_id, "step");
    let stem = strip_suffix_text(base.as_str(), ".md");
    let ts = decimal_text(timestamp_ms);
    cat4(stem.as_str(), "-", ts.as_str(), ".md")
}

/// The path of an artifact as the journal and the caller see it:
/// `artifacts/<folder>/<name>`.
pub fn artifact_display_path(folder: &str, name: &str) -> (r: String)
    ensures
        r@ == "artifacts/"@ + folder@ + "/"@ + name@,
{
    cat4("artifacts/", folder, "/", name)
}

/// The draft path given by a caller, relative to the drafts folder: an
/// `artifacts/drafts/` prefix is dropped, then the rest must be a relative path.
pub open spec fn draft_relative(artifact_path: Seq<char>) -> Result<Seq<char>, Seq<char>> {
    let t = trim(artifact_path);
    if t.len() == 0 {
        Err("artifact_path is required."@)
    } else {
        let rel = if starts_with(t, "artifacts/drafts/"@) {
            t.subrange(17, t.len() as int)
        } else if starts_with(t, "artifacts\\drafts\\"@) {
            t.subrange(17, t.len() as int)
        } else {
            t
        };
        relative_path(rel, "artifact_path"@, false)
    }
}

pub fn draft_relative_path(artifact_path: &str) -> (r: Result<String, String>)
    ensures
        draft_relative(artifact_path@) is Ok <==> r is Ok,
        r is Ok ==> r->Ok_0@ == draft_relative(artifact_path@)->Ok_0,
        r is Err ==> r->Err_0@ == draft_relative(artifact_path@)->Err_0,
{
    proof {
        reveal_strlit("artifacts/drafts/");
        reveal_strlit("artifacts\\drafts\\");
    }
    let t = trim_str(artifact_path);
    let n = t.unicode_len();
    if n == 0 {
        return Err("artifact_path is required.".to_string());
    }
    let rel = if str_starts_with(t.as_str(), "artifacts/drafts/") {
        t.as_str().substring_char(17, n).to_string()
    } else if str_starts_with(t.as_str(), "artifacts\\drafts\\") {
        t.as_str().substring_char(17, n).to_string()
    } else {
        t
    };
    validate_relative_path(rel.as_str(), "artifact_path", false)
}

} // verus!
