//! Lexicographic ordering of strings and sorting of key/value pairs by key.
//!
//! The renderer emits state machines and states sorted by their mapping key,
//! so that output is deterministic whatever order the document was built in.

use vstd::prelude::*;

verus! {

/// Lexicographic order on character sequences: `a` comes no later than `b`.
pub open spec fn lex_leq(a: Seq<char>, b: Seq<char>) -> bool
    decreases a.len(),
{
    if a.len() == 0 {
        true
    } else if b.len() == 0 {
        false
    } else if a[0] != b[0] {
        (a[0] as u32) < (b[0] as u32)
    } else {
        lex_leq(a.drop_first(), b.drop_first())
    }
}

/// The order is total: of any two strings, one comes no later than the other.
pub proof fn lemma_lex_total(a: Seq<char>, b: Seq<char>)
    ensures
        lex_leq(a, b) || lex_leq(b, a),
    decreases a.len(),
{
    if a.len() == 0 || b.len() == 0 {
    } else if a[0] != b[0] {
        vstd::utf8::char_u32_cast(a[0], a[0] as u32);
        vstd::utf8::char_u32_cast(b[0], b[0] as u32);
    } else {
        lemma_lex_total(a.drop_first(), b.drop_first());
    }
}

/// Decides `lex_leq` on two string slices.
pub fn str_leq(a: &str, b: &str) -> (r: bool)
    ensures
        r == lex_leq(a@, b@),
{
    let alen = a.unicode_len();
    let blen = b.unicode_len();
    let mut i: usize = 0;
    proof {
        assert(a@.skip(0) =~= a@);
        assert(b@.skip(0) =~= b@);
    }
    loop
        invariant
            i <= alen,
            i <= blen,
            alen == a@.len(),
            blen == b@.len(),
            lex_leq(a@, b@) == lex_leq(a@.skip(i as int), b@.skip(i as int)),
        decreases alen - i,
    {
        if i >= alen {
            return true;
        }
        if i >= blen {
            return false;
        }
        let ca = a.get_char(i);
        let cb = b.get_char(i);
        assert(a@.skip(i as int)[0] == ca);
        assert(b@.skip(i as int)[0] == cb);
        if ca != cb {
            return (ca as u32) < (cb as u32);
        }
        proof {
            assert(a@.skip(i as int).drop_first() =~= a@.skip(i + 1));
            assert(b@.skip(i as int).drop_first() =~= b@.skip(i + 1));
        }
        i = i + 1;
    }
}

/// Where a pair belongs in a run of pairs already ordered by key: before the
/// first element whose key is no smaller than the pair's key.
pub open spec fn insert_pair<T>(p: (String, T), s: Seq<(String, T)>) -> Seq<(String, T)>
    decreases s.len(),
{
    if s.len() == 0 {
        seq![p]
    } else if lex_leq(p.0@, s[0].0@) {
        seq![p] + s
    } else {
        seq![s[0]] + insert_pair(p, s.drop_first())
    }
}

/// Insertion sort of key/value pairs by key.
pub open spec fn sort_pairs<T>(s: Seq<(String, T)>) -> Seq<(String, T)>
    decreases s.len(),
{
    if s.len() == 0 {
        Seq::empty()
    } else {
        insert_pair(s.last(), sort_pairs(s.drop_last()))
    }
}

/// Adjacent keys of the run are in lexicographic order.
pub open spec fn sorted_by_keys<T>(s: Seq<(String, T)>) -> bool {
    forall|i: int| 0 <= i && i + 1 < s.len() ==> lex_leq((#[trigger] s[i]).0@, s[i + 1].0@)
}

proof fn lemma_insert_pair_len<T>(p: (String, T), s: Seq<(String, T)>)
    ensures
        insert_pair(p, s).len() == s.len() + 1,
    decreases s.len(),
{
    if s.len() == 0 {
    } else if lex_leq(p.0@, s[0].0@) {
    } else {
        lemma_insert_pair_len(p, s.drop_first());
    }
}

/// Sorting does not change how many pairs there are.
pub proof fn lemma_sort_pairs_len<T>(s: Seq<(String, T)>)
    ensures
        sort_pairs(s).len() == s.len(),
    decreases s.len(),
{
    if s.len() == 0 {
    } else {
        lemma_sort_pairs_len(s.drop_last());
        lemma_insert_pair_len(s.last(), sort_pairs(s.drop_last()));
    }
}

proof fn lemma_insert_pair_sorted<T>(p: (String, T), s: Seq<(String, T)>)
    requires
        sorted_by_keys(s),
    ensures
        sorted_by_keys(insert_pair(p, s)),
    decreases s.len(),
{
    if s.len() == 0 {
    } else if lex_leq(p.0@, s[0].0@) {
        let r = seq![p] + s;
        assert forall|i: int| 0 <= i && i + 1 < r.len() implies lex_leq(
            (#[trigger] r[i]).0@,
            r[i + 1].0@,
        ) by {
            if i == 0 {
            } else {
                assert(r[i] == s[i - 1]);
                assert(r[i + 1] == s[i]);
            }
        }
    } else {
        let tail = s.drop_first();
        assert(sorted_by_keys(tail)) by {
            assert forall|i: int| 0 <= i && i + 1 < tail.len() implies lex_leq(
                (#[trigger] tail[i]).0@,
                tail[i + 1].0@,
            ) by {
                assert(tail[i] == s[i + 1]);
                assert(tail[i + 1] == s[i + 2]);
            }
        }
        lemma_insert_pair_sorted(p, tail);
        let rest = insert_pair(p, tail);
        lemma_insert_pair_len(p, tail);
        let r = seq![s[0]] + rest;
        assert forall|i: int| 0 <= i && i + 1 < r.len() implies lex_leq(
            (#[trigger] r[i]).0@,
            r[i + 1].0@,
        ) by {
            if i == 0 {
                if tail.len() == 0 {
                    assert(rest[0] == p);
                    lemma_lex_total(p.0@, s[0].0@);
                } else if lex_leq(p.0@, tail[0].0@) {
                    assert(rest[0] == p);
                    lemma_lex_total(p.0@, s[0].0@);
                } else {
                    assert(rest[0] == tail[0]);
                    assert(lex_leq(s[0].0@, s[1].0@));
                }
            } else {
                assert(r[i] == rest[i - 1]);
                assert(r[i + 1] == rest[i]);
            }
        }
    }
}

/// The sorted run is indeed ordered by key.
pub proof fn lemma_sort_pairs_sorted<T>(s: Seq<(String, T)>)
    ensures
        sorted_by_keys(sort_pairs(s)),
    decreases s.len(),
{
    if s.len() == 0 {
    } else {
        lemma_sort_pairs_sorted(s.drop_last());
        lemma_insert_pair_sorted(s.last(), sort_pairs(s.drop_last()));
    }
}

proof fn lemma_cons_multiset<T>(x: (String, T), s: Seq<(String, T)>)
    ensures
        (seq![x] + s).to_multiset() == s.to_multiset().insert(x),
{
    broadcast use vstd::seq_lib::group_to_multiset_ensures;
    broadcast use vstd::multiset::group_multiset_axioms;

    let c = seq![x] + s;
    assert(c.remove(0) =~= s);
    assert(c[0] == x);
    assert(s.to_multiset() == c.to_multiset().remove(x));
    assert(c.contains(x)) by {
        assert(c[0] == x);
    }
    assert(c.to_multiset().count(x) > 0);
    assert(c.to_multiset() =~= s.to_multiset().insert(x));
}

proof fn lemma_insert_pair_multiset<T>(p: (String, T), s: Seq<(String, T)>)
    ensures
        insert_pair(p, s).to_multiset() == s.to_multiset().insert(p),
    decreases s.len(),
{
    broadcast use vstd::seq_lib::group_to_multiset_ensures;
    broadcast use vstd::multiset::group_multiset_axioms;

    if s.len() == 0 {
        assert(seq![p] =~= Seq::<(String, T)>::empty().push(p));
        assert(Seq::<(String, T)>::empty().push(p).to_multiset() =~= Seq::<(
            String,
            T,
        )>::empty().to_multiset().insert(p));
        assert(Seq::<(String, T)>::empty().to_multiset() =~= s.to_multiset());
    } else if lex_leq(p.0@, s[0].0@) {
        lemma_cons_multiset(p, s);
    } else {
        let tail = s.drop_first();
        lemma_insert_pair_multiset(p, tail);
        lemma_cons_multiset(s[0], insert_pair(p, tail));
        lemma_cons_multiset(s[0], tail);
        assert(seq![s[0]] + tail =~= s);
        assert(insert_pair(p, s).to_multiset() =~= s.to_multiset().insert(p));
    }
}

/// Sorting keeps exactly the pairs it was given: the sorted run is a
/// permutation of the input.
pub proof fn lemma_sort_pairs_permutes<T>(s: Seq<(String, T)>)
    ensures
        sort_pairs(s).to_multiset() == s.to_multiset(),
    decreases s.len(),
{
    broadcast use vstd::seq_lib::group_to_multiset_ensures;

    if s.len() == 0 {
    } else {
        lemma_sort_pairs_permutes(s.drop_last());
        lemma_insert_pair_multiset(s.last(), sort_pairs(s.drop_last()));
        assert(s =~= s.drop_last().push(s.last()));
        assert(s.drop_last().push(s.last()).to_multiset() =~= s.drop_last().to_multiset().insert(
            s.last(),
        ));
    }
}

proof fn lemma_insert_pair_at<T>(p: (String, T), s: Seq<(String, T)>, j: int)
    requires
        0 <= j <= s.len(),
        forall|k: int| 0 <= k < j ==> !lex_leq(p.0@, s[k].0@),
        j < s.len() ==> lex_leq(p.0@, s[j].0@),
    ensures
        insert_pair(p, s) == s.subrange(0, j) + seq![p] + s.subrange(j, s.len() as int),
    decreases j,
{
    if j == 0 {
        if s.len() == 0 {
            assert(insert_pair(p, s) =~= s.subrange(0, 0) + seq![p] + s.subrange(0, 0));
        } else {
            assert(insert_pair(p, s) =~= s.subrange(0, 0) + seq![p] + s.subrange(
                0,
                s.len() as int,
            ));
        }
    } else {
        let tail = s.drop_first();
        assert(forall|k: int| 0 <= k < j - 1 ==> !lex_leq(p.0@, #[trigger] tail[k].0@));
        assert(j - 1 < tail.len() ==> lex_leq(p.0@, tail[j - 1].0@));
        lemma_insert_pair_at(p, tail, j - 1);
        assert(seq![s[0]] + (tail.subrange(0, j - 1) + seq![p] + tail.subrange(
            j - 1,
            tail.len() as int,
        )) =~= s.subrange(0, j) + seq![p] + s.subrange(j, s.len() as int));
    }
}

fn insert_pos<T>(key: &String, out: &Vec<(String, T)>) -> (j: usize)
    ensures
        j <= out@.len(),
        forall|k: int| 0 <= k < j ==> !lex_leq(key@, out@[k].0@),
        j < out@.len() ==> lex_leq(key@, out@[j as int].0@),
{
    let mut j: usize = 0;
    while j < out.len()
        invariant
            j <= out@.len(),
            forall|k: int| 0 <= k < j ==> !lex_leq(key@, out@[k].0@),
        decreases out@.len() - j,
    {
        if str_leq(key.as_str(), out[j].0.as_str()) {
            return j;
        }
        j = j + 1;
    }
    j
}

/// Sorts key/value pairs by key, as `sort_pairs` describes.
pub fn sort_by_key<T>(v: Vec<(String, T)>) -> (r: Vec<(String, T)>)
    ensures
        r@ == sort_pairs(v@),
{
    let ghost orig = v@;
    let n = v.len();
    let mut v = v;
    let mut out: Vec<(String, T)> = Vec::new();
    let mut i: usize = 0;
    while v.len() > 0
        invariant
            orig.len() == n,
            out@ == sort_pairs(orig.subrange(0, i as int)),
            v@ == orig.skip(i as int),
            i <= n,
            v@.len() == orig.len() - i,
        decreases v@.len(),
    {
        let ghost out_before = out@;
        let p = v.remove(0);
        assert(p == orig[i as int]);
        let j = insert_pos(&p.0, &out);
        proof {
            lemma_insert_pair_at(p, out_before, j as int);
        }
        out.insert(j, p);
        proof {
            assert(out@ =~= insert_pair(p, out_before));
            let upto = orig.subrange(0, i + 1);
            assert(upto.drop_last() =~= orig.subrange(0, i as int));
            assert(upto.last() == orig[i as int]);
            assert(out@ == sort_pairs(upto));
            assert(v@ =~= orig.skip(i + 1));
        }
        i = i + 1;
    }
    proof {
        assert(orig.subrange(0, orig.len() as int) =~= orig);
    }
    out
}

} // verus!
