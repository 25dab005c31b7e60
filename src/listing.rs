//! File listings in lexicographic order.

use vstd::prelude::*;

use crate::ident::views;
use crate::text::{lemma_lex_total, lex_le, str_lex_le};

verus! {

/// `x` placed into `out` after every name that sorts no later than it.
pub open spec fn insert_name(out: Seq<Seq<char>>, x: Seq<char>) -> Seq<Seq<char>>
    decreases out.len(),
{
    if out.len() == 0 || lex_le(out.last(), x) {
        out.push(x)
    } else {
        insert_name(out.drop_last(), x).push(out.last())
    }
}

/// The names in lexicographic order (insertion sort).
pub open spec fn sort_names(names: Seq<Seq<char>>) -> Seq<Seq<char>>
    decreases names.len(),
{
    if names.len() == 0 {
        Seq::empty()
    } else {
        insert_name(sort_names(names.drop_last()), names.last())
    }
}

/// Each name sorts no later than the next.
pub open spec fn names_sorted(s: Seq<Seq<char>>) -> bool {
    forall|i: int| 0 <= i < s.len() - 1 ==> lex_le(#[trigger] s[i], s[i + 1])
}

proof fn lemma_insert_name(out: Seq<Seq<char>>, x: Seq<char>)
    requires
        names_sorted(out),
    ensures
        names_sorted(insert_name(out, x)),
        insert_name(out, x).len() == out.len() + 1,
        insert_name(out, x).last() == x || (out.len() > 0 && insert_name(out, x).last() == out.last()),
        insert_name(out, x).to_multiset() == out.to_multiset().insert(x),
    decreases out.len(),
{
    broadcast use vstd::seq_lib::group_to_multiset_ensures;

    if out.len() == 0 || lex_le(out.last(), x) {
        let r = out.push(x);
        assert forall|i: int| 0 <= i < r.len() - 1 implies lex_le(#[trigger] r[i], r[i + 1]) by {
            if i < out.len() - 1 {
                assert(r[i] == out[i] && r[i + 1] == out[i + 1]);
            } else {
                assert(r[i] == out.last());
            }
        }
    } else {
        let p = out.drop_last();
        assert forall|i: int| 0 <= i < p.len() - 1 implies lex_le(#[trigger] p[i], p[i + 1]) by {
            assert(p[i] == out[i] && p[i + 1] == out[i + 1]);
        }
        lemma_insert_name(p, x);
        let q = insert_name(p, x);
        let r = q.push(out.last());
        lemma_lex_total(out.last(), x);
        assert(lex_le(q.last(), out.last())) by {
            if q.last() != x {
                assert(p.last() == out[out.len() - 2]);
                assert(out.last() == out[out.len() - 1]);
            }
        }
        assert forall|i: int| 0 <= i < r.len() - 1 implies lex_le(#[trigger] r[i], r[i + 1]) by {
            if i < q.len() - 1 {
                assert(r[i] == q[i] && r[i + 1] == q[i + 1]);
            } else {
                assert(r[i] == q.last());
            }
        }
        assert(p.push(out.last()) =~= out);
        assert(r.to_multiset() =~= p.to_multiset().insert(x).insert(out.last()));
        assert(out.to_multiset() =~= p.to_multiset().insert(out.last()));
    }
}

/// Sorting puts the names in order and keeps each of them.
pub proof fn sorted_names_are_a_sorted_permutation(names: Seq<Seq<char>>)
    ensures
        names_sorted(sort_names(names)),
        sort_names(names).to_multiset() == names.to_multiset(),
    decreases names.len(),
{
    broadcast use vstd::seq_lib::group_to_multiset_ensures;

    if names.len() > 0 {
        sorted_names_are_a_sorted_permutation(names.drop_last());
        lemma_insert_name(sort_names(names.drop_last()), names.last());
        assert(names.drop_last().push(names.last()) =~= names);
    }
}

fn insert_name_exec(out: Vec<String>, x: String) -> (r: Vec<String>)
    ensures
        views(r@) == insert_name(views(out@), x@),
    decreases out@.len(),
{
    let mut out = out;
    let ghost before = views(out@);
    if out.len() == 0 || str_lex_le(out[out.len() - 1].as_str(), x.as_str()) {
        out.push(x);
        assert(views(out@) =~= before.push(x@));
        return out;
    }
    let last = out.pop().unwrap();
    assert(views(out@) =~= before.drop_last());
    let mut r = insert_name_exec(out, x);
    let ghost mid = views(r@);
    r.push(last);
    assert(views(r@) =~= mid.push(last@));
    r
}

/// Sorts file names lexicographically, as `str`'s order does.
pub fn sort_file_names(names: Vec<String>) -> (r: Vec<String>)
    ensures
        views(r@) == sort_names(views(names@)),
        names_sorted(views(r@)),
        views(r@).to_multiset() == views(names@).to_multiset(),
{
    let ghost all = views(names@);
    let n = names.len();
    let mut rest = names;
    let mut sorted: Vec<String> = Vec::new();
    let mut j: usize = 0;
    assert(views(sorted@) =~= sort_names(all.subrange(0, 0)));
    assert(all.subrange(0, n as int) =~= all);
    while rest.len() > 0
        invariant
            all.len() == n,
            j + rest@.len() == n,
            views(rest@) == all.subrange(j as int, n as int),
            views(sorted@) == sort_names(all.subrange(0, j as int)),
        decreases rest.len(),
    {
        let ghost before = views(rest@);
        let ghost raw = rest@;
        let x = rest.remove(0);
        proof {
            assert(x@ == before[0]);
            assert(rest@ =~= raw.subrange(1, raw.len() as int));
            assert(views(rest@) =~= before.subrange(1, before.len() as int));
            assert(views(rest@) =~= all.subrange(j + 1, n as int));
            assert(all.subrange(0, j + 1).drop_last() =~= all.subrange(0, j as int));
            assert(all.subrange(0, j + 1).last() == all[j as int]);
        }
        sorted = insert_name_exec(sorted, x);
        j = j + 1;
    }
    proof {
        sorted_names_are_a_sorted_permutation(all);
    }
    sorted
}

} // verus!
