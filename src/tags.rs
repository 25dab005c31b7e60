//! Artifact tags: trimmed, sorted without regard to case, and free of
//! case-insensitive repeats.

use vstd::prelude::*;

use crate::ident::{lemma_trim_ends, lemma_trim_fixed, views};
use crate::text::{
    eq_ignore_case, lemma_lex_total, lex_le, lower_of, str_eq_ignore_case, str_lex_le, trim, trim_str,
    unicode_lower_str,
};

verus! {

/// The tags of `tags` once trimmed, blank ones dropped.
pub open spec fn kept_tags(tags: Seq<Seq<char>>) -> Seq<Seq<char>>
    decreases tags.len(),
{
    if tags.len() == 0 {
        Seq::empty()
    } else {
        let prev = kept_tags(tags.drop_last());
        let t = trim(tags.last());
        if t.len() == 0 {
            prev
        } else {
            prev.push(t)
        }
    }
}

/// Whether tag `a` sorts no later than tag `b`: by their lower-case forms.
pub open spec fn tag_le(a: Seq<char>, b: Seq<char>) -> bool {
    lex_le(lower_of(a), lower_of(b))
}

/// `x` placed into `out` after every tag that sorts no later than it.
pub open spec fn insert_tag(out: Seq<Seq<char>>, x: Seq<char>) -> Seq<Seq<char>>
    decreases out.len(),
{
    if out.len() == 0 || tag_le(out.last(), x) {
        out.push(x)
    } else {
        insert_tag(out.drop_last(), x).push(out.last())
    }
}

/// The tags sorted by their lower-case forms; equal forms keep their order.
pub open spec fn sort_tags(tags: Seq<Seq<char>>) -> Seq<Seq<char>>
    decreases tags.len(),
{
    if tags.len() == 0 {
        Seq::empty()
    } else {
        insert_tag(sort_tags(tags.drop_last()), tags.last())
    }
}

/// Each run of tags equal up to ASCII case reduced to its first tag.
pub open spec fn dedup_tags(tags: Seq<Seq<char>>) -> Seq<Seq<char>>
    decreases tags.len(),
{
    if tags.len() == 0 {
        Seq::empty()
    } else {
        let prev = dedup_tags(tags.drop_last());
        if prev.len() > 0 && eq_ignore_case(prev.last(), tags.last()) {
            prev
        } else {
            prev.push(tags.last())
        }
    }
}

/// What `normalize_artifact_tags` makes of `tags`.
pub open spec fn normalized_tags(tags: Seq<Seq<char>>) -> Seq<Seq<char>> {
    dedup_tags(sort_tags(kept_tags(tags)))
}

fn tag_le_exec(a: &str, b: &str) -> (r: bool)
    ensures
        r == tag_le(a@, b@),
{
    let la = unicode_lower_str(a);
    let lb = unicode_lower_str(b);
    str_lex_le(la.as_str(), lb.as_str())
}

fn insert_tag_exec(out: Vec<String>, x: String) -> (r: Vec<String>)
    ensures
        views(r@) == insert_tag(views(out@), x@),
    decreases out@.len(),
{
    let mut out = out;
    let ghost before = views(out@);
    assert(before.len() == out@.len());
    if out.len() == 0 || tag_le_exec(out[out.len() - 1].as_str(), x.as_str()) {
        out.push(x);
        assert(views(out@) =~= before.push(x@));
        return out;
    }
    let last = out.pop().unwrap();
    assert(views(out@) =~= before.drop_last());
    let mut r = insert_tag_exec(out, x);
    let ghost mid = views(r@);
    r.push(last);
    assert(views(r@) =~= mid.push(last@));
    r
}

/// Trims the tags, drops blank ones, sorts them by lower-case form (equal
/// forms keep their order), and keeps the first of each run of tags equal
/// up to ASCII case.
pub fn normalize_artifact_tags(tags: &Vec<String>) -> (r: Vec<String>)
    ensures
        views(r@) == normalized_tags(views(tags@)),
{
    let mut kept: Vec<String> = Vec::new();
    let mut i: usize = 0;
    while i < tags.len()
        invariant
            i <= tags@.len(),
            views(kept@) == kept_tags(views(tags@.subrange(0, i as int))),
        decreases tags.len() - i,
    {
        let t = trim_str(tags[i].as_str());
        proof {
            let cur = views(tags@.subrange(0, i + 1));
            assert(cur.drop_last() =~= views(tags@.subrange(0, i as int)));
            assert(cur.last() == tags@[i as int]@);
        }
        if t.unicode_len() > 0 {
            let ghost prev = views(kept@);
            kept.push(t);
            assert(views(kept@) =~= prev.push(t@));
        }
        i = i + 1;
    }
    assert(tags@.subrange(0, tags@.len() as int) =~= tags@);

    let mut sorted: Vec<String> = Vec::new();
    let mut j: usize = 0;
    let ghost kv = views(kept@);
    let n = kept.len();
    let mut rest = kept;
    assert(views(sorted@) =~= sort_tags(kv.subrange(0, 0)));
    while rest.len() > 0
        invariant
            kv.len() == n,
            j + rest@.len() == n,
            views(rest@) == kv.subrange(j as int, n as int),
            views(sorted@) == sort_tags(kv.subrange(0, j as int)),
        decreases rest.len(),
    {
        let ghost before = views(rest@);
        let ghost raw = rest@;
        let x = rest.remove(0);
        proof {
            assert(x@ == before[0]);
            assert(rest@ =~= raw.subrange(1, raw.len() as int));
            assert(views(rest@) =~= before.subrange(1, before.len() as int));
            assert(views(rest@) =~= kv.subrange(j + 1, n as int));
            assert(kv.subrange(0, j + 1).drop_last() =~= kv.subrange(0, j as int));
            assert(kv.subrange(0, j + 1).last() == kv[j as int]);
        }
        sorted = insert_tag_exec(sorted, x);
        j = j + 1;
    }
    assert(kv.subrange(0, n as int) =~= kv);

    let mut out: Vec<String> = Vec::new();
    let ghost sv = views(sorted@);
    let m = sorted.len();
    let mut k: usize = 0;
    let mut rest = sorted;
    assert(views(out@) =~= dedup_tags(sv.subrange(0, 0)));
    while rest.len() > 0
        invariant
            sv.len() == m,
            k + rest@.len() == m,
            views(rest@) == sv.subrange(k as int, m as int),
            views(out@) == dedup_tags(sv.subrange(0, k as int)),
        decreases rest.len(),
    {
        let ghost before = views(rest@);
        let ghost raw = rest@;
        let x = rest.remove(0);
        proof {
            assert(x@ == before[0]);
            assert(rest@ =~= raw.subrange(1, raw.len() as int));
            assert(views(rest@) =~= before.subrange(1, before.len() as int));
            assert(views(rest@) =~= sv.subrange(k + 1, m as int));
            assert(sv.subrange(0, k + 1).drop_last() =~= sv.subrange(0, k as int));
            assert(sv.subrange(0, k + 1).last() == sv[k as int]);
        }
        let ghost prev = views(out@);
        let repeat = out.len() > 0 && str_eq_ignore_case(out[out.len() - 1].as_str(), x.as_str());
        if !repeat {
            out.push(x);
            assert(views(out@) =~= prev.push(sv[k as int]));
        }
        k = k + 1;
    }
    assert(sv.subrange(0, m as int) =~= sv);
    out
}

// ---- why normalizing twice changes nothing ----

proof fn lemma_lex_refl(a: Seq<char>)
    ensures
        lex_le(a, a),
    decreases a.len(),
{
    if a.len() > 0 {
        lemma_lex_refl(a.drop_first());
    }
}

proof fn lemma_lex_trans(a: Seq<char>, b: Seq<char>, c: Seq<char>)
    requires
        lex_le(a, b),
        lex_le(b, c),
    ensures
        lex_le(a, c),
    decreases a.len(),
{
    if a.len() > 0 && b.len() > 0 && c.len() > 0 {
        if (a[0] as u32) == (b[0] as u32) && (b[0] as u32) == (c[0] as u32) {
            lemma_lex_trans(a.drop_first(), b.drop_first(), c.drop_first());
        }
    }
}

/// Each tag sorts no later than the next.
pub open spec fn tags_sorted(s: Seq<Seq<char>>) -> bool {
    forall|i: int| 0 <= i < s.len() - 1 ==> tag_le(#[trigger] s[i], s[i + 1])
}

/// No tag equals the next up to ASCII case.
pub open spec fn no_adjacent_repeat(s: Seq<Seq<char>>) -> bool {
    forall|i: int| 0 <= i < s.len() - 1 ==> !eq_ignore_case(#[trigger] s[i], s[i + 1])
}

/// Every tag is trimmed and not blank.
pub open spec fn all_kept(s: Seq<Seq<char>>) -> bool {
    forall|i: int| 0 <= i < s.len() ==> #[trigger] s[i].len() > 0 && trim(s[i]) == s[i]
}

proof fn lemma_kept_shape(tags: Seq<Seq<char>>)
    ensures
        all_kept(kept_tags(tags)),
    decreases tags.len(),
{
    if tags.len() > 0 {
        lemma_kept_shape(tags.drop_last());
        let t = trim(tags.last());
        lemma_trim_ends(tags.last());
        if t.len() > 0 {
            lemma_trim_fixed(t);
        }
    }
}

proof fn lemma_kept_fixed(s: Seq<Seq<char>>)
    requires
        all_kept(s),
    ensures
        kept_tags(s) == s,
    decreases s.len(),
{
    if s.len() > 0 {
        let p = s.drop_last();
        assert forall|i: int| 0 <= i < p.len() implies #[trigger] p[i].len() > 0 && trim(p[i]) == p[i] by {
            assert(p[i] == s[i]);
        }
        lemma_kept_fixed(p);
        assert(s.last() == s[s.len() - 1]);
        assert(p.push(s.last()) =~= s);
    }
}

proof fn lemma_sort_keeps(tags: Seq<Seq<char>>)
    requires
        all_kept(tags),
    ensures
        all_kept(sort_tags(tags)),
    decreases tags.len(),
{
    if tags.len() > 0 {
        let p = tags.drop_last();
        assert forall|i: int| 0 <= i < p.len() implies #[trigger] p[i].len() > 0 && trim(p[i]) == p[i] by {
            assert(p[i] == tags[i]);
        }
        lemma_sort_keeps(p);
        assert(tags.last() == tags[tags.len() - 1]);
        lemma_insert_keeps(sort_tags(p), tags.last());
    }
}

proof fn lemma_insert_keeps(out: Seq<Seq<char>>, x: Seq<char>)
    requires
        all_kept(out),
        x.len() > 0 && trim(x) == x,
    ensures
        all_kept(insert_tag(out, x)),
    decreases out.len(),
{
    if out.len() == 0 || tag_le(out.last(), x) {
    } else {
        let p = out.drop_last();
        assert forall|i: int| 0 <= i < p.len() implies #[trigger] p[i].len() > 0 && trim(p[i]) == p[i] by {
            assert(p[i] == out[i]);
        }
        lemma_insert_keeps(p, x);
        assert(out.last() == out[out.len() - 1]);
    }
}

proof fn lemma_insert_sorted(out: Seq<Seq<char>>, x: Seq<char>)
    requires
        tags_sorted(out),
    ensures
        tags_sorted(insert_tag(out, x)),
        insert_tag(out, x).len() == out.len() + 1,
        insert_tag(out, x).last() == x || (out.len() > 0 && insert_tag(out, x).last() == out.last()),
    decreases out.len(),
{
    if out.len() == 0 || tag_le(out.last(), x) {
        let r = out.push(x);
        assert forall|i: int| 0 <= i < r.len() - 1 implies tag_le(#[trigger] r[i], r[i + 1]) by {
            if i < out.len() - 1 {
                assert(r[i] == out[i] && r[i + 1] == out[i + 1]);
            } else {
                assert(r[i] == out.last());
            }
        }
    } else {
        let p = out.drop_last();
        assert forall|i: int| 0 <= i < p.len() - 1 implies tag_le(#[trigger] p[i], p[i + 1]) by {
            assert(p[i] == out[i] && p[i + 1] == out[i + 1]);
        }
        lemma_insert_sorted(p, x);
        let q = insert_tag(p, x);
        let r = q.push(out.last());
        lemma_lex_total(lower_of(out.last()), lower_of(x));
        assert(tag_le(q.last(), out.last())) by {
            if q.last() == x {
            } else {
                assert(p.len() > 0 && q.last() == p.last());
                assert(p.last() == out[out.len() - 2]);
                assert(out.last() == out[out.len() - 1]);
            }
        }
        assert forall|i: int| 0 <= i < r.len() - 1 implies tag_le(#[trigger] r[i], r[i + 1]) by {
            if i < q.len() - 1 {
                assert(r[i] == q[i] && r[i + 1] == q[i + 1]);
            } else {
                assert(r[i] == q.last());
            }
        }
    }
}

proof fn lemma_sort_sorted(tags: Seq<Seq<char>>)
    ensures
        tags_sorted(sort_tags(tags)),
        sort_tags(tags).len() == tags.len(),
    decreases tags.len(),
{
    if tags.len() > 0 {
        lemma_sort_sorted(tags.drop_last());
        lemma_insert_sorted(sort_tags(tags.drop_last()), tags.last());
    }
}

/// Sorting tags that are already sorted changes nothing.
proof fn lemma_sort_fixed(s: Seq<Seq<char>>)
    requires
        tags_sorted(s),
    ensures
        sort_tags(s) == s,
    decreases s.len(),
{
    if s.len() > 0 {
        let p = s.drop_last();
        assert forall|i: int| 0 <= i < p.len() - 1 implies tag_le(#[trigger] p[i], p[i + 1]) by {
            assert(p[i] == s[i] && p[i + 1] == s[i + 1]);
        }
        lemma_sort_fixed(p);
        if p.len() > 0 {
            assert(p.last() == s[s.len() - 2]);
            assert(s.last() == s[s.len() - 1]);
        }
        assert(p.push(s.last()) =~= s);
    }
}

proof fn lemma_dedup_shape(s: Seq<Seq<char>>)
    requires
        tags_sorted(s),
        all_kept(s),
    ensures
        tags_sorted(dedup_tags(s)),
        no_adjacent_repeat(dedup_tags(s)),
        all_kept(dedup_tags(s)),
        dedup_tags(s).len() > 0 <==> s.len() > 0,
        dedup_tags(s).len() > 0 ==> tag_le(dedup_tags(s).last(), s.last()),
    decreases s.len(),
{
    if s.len() > 0 {
        let p = s.drop_last();
        assert forall|i: int| 0 <= i < p.len() - 1 implies tag_le(#[trigger] p[i], p[i + 1]) by {
            assert(p[i] == s[i] && p[i + 1] == s[i + 1]);
        }
        assert forall|i: int| 0 <= i < p.len() implies #[trigger] p[i].len() > 0 && trim(p[i]) == p[i] by {
            assert(p[i] == s[i]);
        }
        lemma_dedup_shape(p);
        let d = dedup_tags(p);
        assert(s.last() == s[s.len() - 1]);
        if p.len() > 0 {
            assert(p.last() == s[s.len() - 2]);
            lemma_lex_trans(lower_of(d.last()), lower_of(p.last()), lower_of(s.last()));
        }
        lemma_lex_refl(lower_of(s.last()));
        if d.len() > 0 && eq_ignore_case(d.last(), s.last()) {
        } else {
            let r = d.push(s.last());
            assert forall|i: int| 0 <= i < r.len() - 1 implies tag_le(#[trigger] r[i], r[i + 1]) && !eq_ignore_case(r[i], r[i + 1]) by {
                if i < d.len() - 1 {
                    assert(r[i] == d[i] && r[i + 1] == d[i + 1]);
                } else {
                    assert(r[i] == d.last());
                }
            }
            assert forall|i: int| 0 <= i < r.len() implies #[trigger] r[i].len() > 0 && trim(r[i]) == r[i] by {
                if i < d.len() {
                    assert(r[i] == d[i]);
                }
            }
        }
    }
}

proof fn lemma_dedup_fixed(s: Seq<Seq<char>>)
    requires
        no_adjacent_repeat(s),
    ensures
        dedup_tags(s) == s,
    decreases s.len(),
{
    if s.len() > 0 {
        let p = s.drop_last();
        assert forall|i: int| 0 <= i < p.len() - 1 implies !eq_ignore_case(#[trigger] p[i], p[i + 1]) by {
            assert(p[i] == s[i] && p[i + 1] == s[i + 1]);
        }
        lemma_dedup_fixed(p);
        if p.len() > 0 {
            assert(p.last() == s[s.len() - 2]);
            assert(s.last() == s[s.len() - 1]);
        }
        assert(p.push(s.last()) =~= s);
    }
}

/// Normalizing artifact tags a second time changes nothing.
pub proof fn normalize_artifact_tags_idempotent(tags: Seq<Seq<char>>)
    ensures
        normalized_tags(normalized_tags(tags)) == normalized_tags(tags),
{
    let k = kept_tags(tags);
    lemma_kept_shape(tags);
    lemma_sort_keeps(k);
    lemma_sort_sorted(k);
    let s = sort_tags(k);
    lemma_dedup_shape(s);
    let n = dedup_tags(s);
    lemma_kept_fixed(n);
    lemma_sort_fixed(n);
    lemma_dedup_fixed(n);
}

} // verus!
