//! Path-safe identifiers and tool subsets.

use vstd::prelude::*;

use crate::text::{
    ascii_lower, ascii_lower_str, cat, has_char, has_substr, is_ws, lower_char, str_eq,
    str_has_char, str_has_substr, trim, trim_end, trim_start, trim_str,
};

verus! {

/// A trimmed, non-empty text with no `/`, no `\` and no `..`.
pub open spec fn is_path_safe(t: Seq<char>) -> bool {
    t.len() > 0 && !has_char(t, '/') && !has_char(t, '\\') && !has_substr(t, ".."@)
}

/// What `validate_simple_identifier` returns for `value` under the field name `field`.
pub open spec fn simple_identifier(value: Seq<char>, field: Seq<char>) -> Result<
    Seq<char>,
    Seq<char>,
> {
    let t = trim(value);
    if t.len() == 0 {
        Err(field + " is required."@)
    } else if !is_path_safe(t) {
        Err(field + " must not contain path separators or traversal segments."@)
    } else {
        Ok(t)
    }
}

/// Checks that `value`, once trimmed, is a non-empty identifier that cannot
/// name a path outside its directory, and returns it trimmed.
pub fn validate_simple_identifier(value: &str, field_name: &str) -> (r: Result<String, String>)
    ensures
        r is Ok <==> simple_identifier(value@, field_name@) is Ok,
        r is Ok ==> r->Ok_0@ == simple_identifier(value@, field_name@)->Ok_0,
        r is Err ==> r->Err_0@ == simple_identifier(value@, field_name@)->Err_0,
{
    let t = trim_str(value);
    if t.unicode_len() == 0 {
        return Err(cat(field_name, " is required."));
    }
    if str_has_char(t.as_str(), '/') || str_has_char(t.as_str(), '\\') || str_has_substr(
        t.as_str(),
        "..",
    ) {
        return Err(cat(field_name, " must not contain path separators or traversal segments."));
    }
    Ok(t)
}

/// How one raw tool name is normalized: trimmed and ASCII-lowercased.
pub open spec fn tool_key(s: Seq<char>) -> Seq<char> {
    ascii_lower(trim(s))
}

/// The normalized tool subset of `vals`: each name keyed, empty ones dropped,
/// the first occurrence of each kept in order.
pub open spec fn normalize_tools(vals: Seq<Seq<char>>) -> Seq<Seq<char>>
    decreases vals.len(),
{
    if vals.len() == 0 {
        Seq::empty()
    } else {
        let prev = normalize_tools(vals.drop_last());
        let k = tool_key(vals.last());
        if k.len() == 0 || prev.contains(k) {
            prev
        } else {
            prev.push(k)
        }
    }
}

pub open spec fn views(v: Seq<String>) -> Seq<Seq<char>> {
    v.map_values(|s: String| s@)
}

/// Whether `v` holds a text equal to `s`.
pub fn contains_str(v: &Vec<String>, s: &str) -> (r: bool)
    ensures
        r == views(v@).contains(s@),
{
    let mut i: usize = 0;
    while i < v.len()
        invariant
            i <= v.len(),
            forall|j: int| 0 <= j < i ==> v@[j]@ != s@,
        decreases v.len() - i,
    {
        if str_eq(v[i].as_str(), s) {
            assert(views(v@)[i as int] == s@);
            return true;
        }
        i = i + 1;
    }
    assert(!views(v@).contains(s@)) by {
        if views(v@).contains(s@) {
            let j = choose|j: int| 0 <= j < views(v@).len() && views(v@)[j] == s@;
            assert(v@[j]@ == s@);
        }
    }
    false
}

/// A copy of a list of texts.
pub fn copy_strings(v: &Vec<String>) -> (r: Vec<String>)
    ensures
        r@ == v@,
{
    let mut out: Vec<String> = Vec::new();
    let mut i: usize = 0;
    while i < v.len()
        invariant
            i <= v.len(),
            out@ == v@.subrange(0, i as int),
        decreases v.len() - i,
    {
        out.push(v[i].clone());
        assert(out@ =~= v@.subrange(0, i + 1));
        i = i + 1;
    }
    assert(out@ =~= v@);
    out
}

/// Trims and lowercases each tool name, drops empty ones and later repeats,
/// and keeps the order of first occurrence.
pub fn normalize_tool_subset(values: &Vec<String>) -> (r: Vec<String>)
    ensures
        views(r@) == normalize_tools(views(values@)),
{
    let mut result: Vec<String> = Vec::new();
    let mut i: usize = 0;
    while i < values.len()
        invariant
            i <= values.len(),
            views(result@) == normalize_tools(views(values@.subrange(0, i as int))),
        decreases values.len() - i,
    {
        let t = trim_str(values[i].as_str());
        let k = ascii_lower_str(t.as_str());
        proof {
            let pre = views(values@.subrange(0, i as int));
            let cur = views(values@.subrange(0, i + 1));
            assert(cur.drop_last() =~= pre);
            assert(cur.last() == values@[i as int]@);
        }
        if k.unicode_len() != 0 && !contains_str(&result, k.as_str()) {
            result.push(k);
            assert(views(result@) =~= views(result@).drop_last().push(k@));
            assert(views(result@).drop_last() =~= views(result@.drop_last()));
        }
        i = i + 1;
    }
    assert(values@.subrange(0, values.len() as int) =~= values@);
    result
}

// ---- facts about trimming, used to show that normalizing is stable ----

proof fn lemma_trim_start_shape(s: Seq<char>)
    ensures
        trim_start(s).len() <= s.len(),
        trim_start(s) == s.subrange(s.len() - trim_start(s).len(), s.len() as int),
        trim_start(s).len() > 0 ==> !is_ws(trim_start(s)[0]),
    decreases s.len(),
{
    if s.len() > 0 && is_ws(s[0]) {
        let t = s.subrange(1, s.len() as int);
        lemma_trim_start_shape(t);
        assert(t.subrange(t.len() - trim_start(t).len(), t.len() as int) =~= s.subrange(
            s.len() - trim_start(t).len(),
            s.len() as int,
        ));
    } else {
        assert(s.subrange(0, s.len() as int) =~= s);
    }
}

proof fn lemma_trim_end_shape(s: Seq<char>)
    ensures
        trim_end(s).len() <= s.len(),
        trim_end(s) == s.subrange(0, trim_end(s).len() as int),
        trim_end(s).len() > 0 ==> !is_ws(trim_end(s)[trim_end(s).len() - 1]),
    decreases s.len(),
{
    if s.len() > 0 && is_ws(s[s.len() - 1]) {
        let t = s.subrange(0, s.len() - 1);
        lemma_trim_end_shape(t);
        assert(t.subrange(0, trim_end(t).len() as int) =~= s.subrange(
            0,
            trim_end(t).len() as int,
        ));
    } else {
        assert(s.subrange(0, s.len() as int) =~= s);
    }
}

/// A text whose ends are not whitespace is its own trim.
pub proof fn lemma_trim_fixed(s: Seq<char>)
    requires
        s.len() == 0 || (!is_ws(s[0]) && !is_ws(s[s.len() - 1])),
    ensures
        trim(s) == s,
{
    assert(trim_start(s) == s);
    assert(trim_end(s) == s);
}

/// The trim of a text has no whitespace at either end.
pub proof fn lemma_trim_ends(s: Seq<char>)
    ensures
        trim(s).len() == 0 || (!is_ws(trim(s)[0]) && !is_ws(trim(s)[trim(s).len() - 1])),
{
    let a = trim_start(s);
    lemma_trim_start_shape(s);
    lemma_trim_end_shape(a);
    let b = trim_end(a);
    if b.len() > 0 {
        assert(b[0] == a[0]);
    }
}

proof fn lemma_lower_keeps_ws(c: char)
    ensures
        is_ws(lower_char(c)) == is_ws(c),
{
}

/// Normalizing a normalized name gives it back.
proof fn lemma_tool_key_fixed(s: Seq<char>)
    ensures
        tool_key(tool_key(s)) == tool_key(s),
{
    let t = trim(s);
    lemma_trim_ends(s);
    let l = ascii_lower(t);
    if l.len() > 0 {
        lemma_lower_keeps_ws(t[0]);
        lemma_lower_keeps_ws(t[t.len() - 1]);
    }
    lemma_trim_fixed(l);
    assert(ascii_lower(l) =~= l);
}

/// Every name of a normalized subset is non-empty and normalized, and no name repeats.
proof fn lemma_normalized_shape(vals: Seq<Seq<char>>)
    ensures
        forall|i: int|
            0 <= i < normalize_tools(vals).len() ==> #[trigger] normalize_tools(vals)[i].len() > 0
                && tool_key(normalize_tools(vals)[i]) == normalize_tools(vals)[i],
        normalize_tools(vals).no_duplicates(),
    decreases vals.len(),
{
    if vals.len() > 0 {
        lemma_normalized_shape(vals.drop_last());
        lemma_tool_key_fixed(vals.last());
    }
}

/// A subset that is already normalized is unchanged by normalizing.
proof fn lemma_normalize_fixed(w: Seq<Seq<char>>)
    requires
        forall|i: int| 0 <= i < w.len() ==> #[trigger] w[i].len() > 0 && tool_key(w[i]) == w[i],
        w.no_duplicates(),
    ensures
        normalize_tools(w) == w,
    decreases w.len(),
{
    if w.len() > 0 {
        let p = w.drop_last();
        assert forall|i: int| 0 <= i < p.len() implies #[trigger] p[i].len() > 0 && tool_key(p[i])
            == p[i] by {
            assert(p[i] == w[i]);
        }
        lemma_normalize_fixed(p);
        assert(!p.contains(w.last())) by {
            if p.contains(w.last()) {
                let j = choose|j: int| 0 <= j < p.len() && p[j] == w.last();
                assert(w[j] == w[w.len() - 1]);
            }
        }
        assert(tool_key(w.last()) == w.last()) by {
            assert(w.last() == w[w.len() - 1]);
        }
        assert(p.push(w.last()) =~= w);
    }
}

/// Normalizing a tool subset a second time changes nothing.
pub proof fn normalize_tool_subset_idempotent(vals: Seq<Seq<char>>)
    ensures
        normalize_tools(normalize_tools(vals)) == normalize_tools(vals),
{
    lemma_normalized_shape(vals);
    lemma_normalize_fixed(normalize_tools(vals));
}

} // verus!
