//! Stable sorting by text keys and duplicate removal.
use vstd::prelude::*;
use crate::outside::{lowercase, to_lowercase};
use crate::text::{to_chars, seq_less, chars_less, lemma_seq_less_total, lemma_seq_less_transitive, lemma_seq_less_irreflexive};

verus! {

broadcast use vstd::seq_lib::group_to_multiset_ensures;

/// Position at which an element with key `k` enters `s`: just after the
/// leading elements whose keys are not greater than `k`.
pub open spec fn insert_position<T>(s: Seq<(Seq<char>, T)>, k: Seq<char>) -> nat
    decreases s.len(),
{
    if s.len() == 0 {
        0
    } else if seq_less(k, s[0].0) {
        0
    } else {
        1 + insert_position(s.drop_first(), k)
    }
}

/// Stable sort by key: each element, taken in input order, goes after every
/// element already placed whose key is not greater than its own.
pub open spec fn sorted_by_key<T>(s: Seq<(Seq<char>, T)>) -> Seq<(Seq<char>, T)>
    decreases s.len(),
{
    if s.len() == 0 {
        s
    } else {
        let r = sorted_by_key(s.drop_last());
        r.insert(insert_position(r, s.last().0) as int, s.last())
    }
}

/// No key is followed by a smaller one.
pub open spec fn keys_ordered<T>(s: Seq<(Seq<char>, T)>) -> bool {
    forall|i: int, j: int| 0 <= i < j < s.len() ==> !seq_less(#[trigger] s[j].0, #[trigger] s[i].0)
}

/// The keys seen as character sequences.
pub open spec fn key_view<T>(s: Seq<(Vec<char>, T)>) -> Seq<(Seq<char>, T)> {
    s.map_values(|p: (Vec<char>, T)| (p.0@, p.1))
}

proof fn lemma_insert_position_is<T>(s: Seq<(Seq<char>, T)>, k: Seq<char>, i: int)
    requires
        0 <= i <= s.len(),
        forall|j: int| 0 <= j < i ==> !seq_less(k, #[trigger] s[j].0),
        i == s.len() || seq_less(k, s[i].0),
    ensures
        insert_position(s, k) == i,
    decreases i,
{
    if i > 0 {
        let t = s.drop_first();
        assert forall|j: int| 0 <= j < i - 1 implies !seq_less(k, #[trigger] t[j].0) by {
            assert(t[j] == s[j + 1]);
        }
        lemma_insert_position_is(t, k, i - 1);
    }
}

proof fn lemma_insert_position_facts<T>(s: Seq<(Seq<char>, T)>, k: Seq<char>)
    ensures
        insert_position(s, k) <= s.len(),
        forall|j: int| 0 <= j < insert_position(s, k) ==> !seq_less(k, #[trigger] s[j].0),
        insert_position(s, k) < s.len() ==> seq_less(k, s[insert_position(s, k) as int].0),
    decreases s.len(),
{
    if s.len() > 0 && !seq_less(k, s[0].0) {
        let t = s.drop_first();
        lemma_insert_position_facts(t, k);
        assert forall|j: int| 0 <= j < insert_position(s, k) implies !seq_less(k, #[trigger] s[j].0) by {
            if j > 0 {
                assert(s[j] == t[j - 1]);
            }
        }
    }
}

/// Sorts `items` stably by their keys, in code point order.
pub fn sort_keyed<T>(items: Vec<(Vec<char>, T)>) -> (res: Vec<(Vec<char>, T)>)
    ensures
        key_view(res@) == sorted_by_key(key_view(items@)),
{
    let ghost orig = key_view(items@);
    let mut rest = items;
    let mut res: Vec<(Vec<char>, T)> = Vec::new();
    let ghost mut done: int = 0;
    assert(orig.skip(0) =~= orig);
    assert(orig.take(0) =~= Seq::<(Seq<char>, T)>::empty());
    assert(key_view(res@) =~= Seq::<(Seq<char>, T)>::empty());
    while rest.len() > 0
        invariant
            0 <= done <= orig.len(),
            key_view(rest@) == orig.skip(done),
            key_view(res@) == sorted_by_key(orig.take(done)),
        decreases rest.len(),
    {
        let ghost old_rest = rest@;
        let x = rest.remove(0);
        proof {
            assert(key_view(old_rest)[0] == (x.0@, x.1));
            assert(key_view(old_rest).len() == old_rest.len());
            assert(rest@.len() == old_rest.len() - 1);
            assert(orig.skip(done).len() == orig.len() - done);
            assert forall|j: int| 0 <= j < rest@.len() implies key_view(rest@)[j] == orig.skip(done + 1)[j] by {
                assert(rest@[j] == old_rest[j + 1]);
                assert(key_view(rest@)[j] == (rest@[j].0@, rest@[j].1));
                assert(key_view(old_rest)[j + 1] == (old_rest[j + 1].0@, old_rest[j + 1].1));
                assert(key_view(old_rest)[j + 1] == orig.skip(done)[j + 1]);
                assert(orig.skip(done)[j + 1] == orig[done + j + 1]);
                assert(orig.skip(done + 1)[j] == orig[done + 1 + j]);
            }
            assert(key_view(rest@) =~= orig.skip(done + 1));
        }
        let mut p: usize = 0;
        loop
            invariant
                p <= res.len(),
                forall|j: int| 0 <= j < p ==> !seq_less(x.0@, #[trigger] res@[j].0@),
            ensures
                p <= res.len(),
                forall|j: int| 0 <= j < p ==> !seq_less(x.0@, #[trigger] res@[j].0@),
                p == res.len() || seq_less(x.0@, res@[p as int].0@),
            decreases res.len() - p,
        {
            if p == res.len() {
                break;
            }
            if chars_less(&x.0, &res[p].0) {
                break;
            }
            p += 1;
        }
        let ghost kr = key_view(res@);
        proof {
            assert forall|j: int| 0 <= j < p implies !seq_less(x.0@, #[trigger] kr[j].0) by {
                assert(kr[j].0 == res@[j].0@);
            }
            if p < res.len() {
                assert(kr[p as int].0 == res@[p as int].0@);
            }
            lemma_insert_position_is(kr, x.0@, p as int);
        }
        let ghost xv = (x.0@, x.1);
        res.insert(p, x);
        proof {
            assert(key_view(res@) =~= kr.insert(p as int, xv));
            let tk = orig.take(done + 1);
            assert(tk.drop_last() =~= orig.take(done));
            assert(tk.last() == orig[done]);
            assert(orig[done] == xv) by {
                assert(orig.skip(done)[0] == orig[done]);
            }
        }
        proof { done = done + 1; }
    }
    proof {
        assert(orig.take(done) =~= orig);
    }
    res
}

/// Law: the stable sort puts keys in non-decreasing order.
pub proof fn lemma_sorted_by_key_ordered<T>(s: Seq<(Seq<char>, T)>)
    ensures
        keys_ordered(sorted_by_key(s)),
    decreases s.len(),
{
    if s.len() > 0 {
        let r = sorted_by_key(s.drop_last());
        lemma_sorted_by_key_ordered(s.drop_last());
        let k = s.last().0;
        let p = insert_position(r, k) as int;
        lemma_insert_position_facts(r, k);
        let n = r.insert(p, s.last());
        // every element from position p on has a key greater than k
        assert forall|j: int| p <= j < r.len() implies seq_less(k, #[trigger] r[j].0) by {
            if j > p {
                assert(!seq_less(r[j].0, r[p].0));
                lemma_seq_less_total(r[j].0, r[p].0);
                if seq_less(r[p].0, r[j].0) {
                    lemma_seq_less_transitive(k, r[p].0, r[j].0);
                }
            }
        }
        assert forall|i: int, j: int| 0 <= i < j < n.len() implies !seq_less(#[trigger] n[j].0, #[trigger] n[i].0) by {
            if i < p && j < p {
                assert(n[i] == r[i] && n[j] == r[j]);
            } else if i < p && j == p {
                assert(n[i] == r[i]);
                lemma_seq_less_total(k, r[i].0);
            } else if i < p {
                assert(n[i] == r[i] && n[j] == r[j - 1]);
            } else if i == p {
                assert(n[j] == r[j - 1]);
                if seq_less(r[j - 1].0, k) {
                    lemma_seq_less_transitive(k, r[j - 1].0, k);
                    lemma_seq_less_irreflexive(k);
                }
            } else {
                assert(n[i] == r[i - 1] && n[j] == r[j - 1]);
            }
        }
    }
}

/// Law: the stable sort leaves a sequence whose keys are already in order
/// as it is.
pub proof fn lemma_sorted_by_key_of_ordered<T>(s: Seq<(Seq<char>, T)>)
    requires
        keys_ordered(s),
    ensures
        sorted_by_key(s) == s,
    decreases s.len(),
{
    if s.len() > 0 {
        let d = s.drop_last();
        assert forall|i: int, j: int| 0 <= i < j < d.len() implies !seq_less(#[trigger] d[j].0, #[trigger] d[i].0) by {
            assert(d[i] == s[i] && d[j] == s[j]);
        }
        lemma_sorted_by_key_of_ordered(d);
        let k = s.last().0;
        assert forall|j: int| 0 <= j < d.len() implies !seq_less(k, #[trigger] d[j].0) by {
            assert(d[j] == s[j]);
            assert(!seq_less(s[s.len() - 1].0, s[j].0));
        }
        lemma_insert_position_is(d, k, d.len() as int);
        assert(d.insert(d.len() as int, s.last()) =~= s);
    }
}

/// Law: the stable sort keeps exactly the elements it was given.
pub proof fn lemma_sorted_by_key_permutes<T>(s: Seq<(Seq<char>, T)>)
    ensures
        sorted_by_key(s).to_multiset() == s.to_multiset(),
    decreases s.len(),
{
    if s.len() > 0 {
        let r = sorted_by_key(s.drop_last());
        lemma_sorted_by_key_permutes(s.drop_last());
        lemma_insert_position_facts(r, s.last().0);
        vstd::seq_lib::to_multiset_insert(r, insert_position(r, s.last().0) as int, s.last());
        vstd::seq_lib::to_multiset_build(s.drop_last(), s.last());
        assert(s.drop_last().push(s.last()) =~= s);
    }
}

/// The elements of `s` in order of first occurrence, each kept once.
pub open spec fn dedup<A>(s: Seq<A>) -> Seq<A>
    decreases s.len(),
{
    if s.len() == 0 {
        s
    } else {
        let d = dedup(s.drop_last());
        if d.contains(s.last()) {
            d
        } else {
            d.push(s.last())
        }
    }
}

/// The strings of `v` in order of first occurrence, each kept once.
pub fn dedup_strings(v: Vec<String>) -> (res: Vec<String>)
    ensures
        res.deep_view() == dedup(v.deep_view()),
{
    let ghost dv = v.deep_view();
    let mut res: Vec<String> = Vec::new();
    let mut i: usize = 0;
    assert(dv.take(0) =~= Seq::<Seq<char>>::empty());
    assert(res.deep_view() =~= Seq::<Seq<char>>::empty());
    while i < v.len()
        invariant
            i <= v.len(),
            dv == v.deep_view(),
            res.deep_view() == dedup(dv.take(i as int)),
        decreases v.len() - i,
    {
        let mut found = false;
        let mut j: usize = 0;
        while j < res.len()
            invariant
                j <= res.len(),
                i < v.len(),
                found == exists|t: int| 0 <= t < j && res@[t]@ == v@[i as int]@,
            decreases res.len() - j,
        {
            if res[j] == v[i] {
                found = true;
            }
            j += 1;
        }
        let ghost old_res = res.deep_view();
        proof {
            let tk = dv.take(i + 1);
            assert(tk.drop_last() =~= dv.take(i as int));
            assert(tk.last() == v@[i as int]@);
            if found {
                let t = choose|t: int| 0 <= t < res.len() && res@[t]@ == v@[i as int]@;
                assert(old_res[t] == res@[t]@);
                assert(old_res.contains(tk.last()));
            } else {
                assert forall|t: int| 0 <= t < old_res.len() implies old_res[t] != tk.last() by {
                    assert(old_res[t] == res@[t]@);
                }
                assert(!old_res.contains(tk.last()));
            }
        }
        if !found {
            res.push(v[i].clone());
            proof {
                assert(res.deep_view() =~= old_res.push(v@[i as int]@));
            }
        }
        i += 1;
    }
    proof {
        assert(dv.take(v.len() as int) =~= dv);
    }
    res
}

/// Law: duplicate removal leaves no element twice.
pub proof fn lemma_dedup_no_duplicates<A>(s: Seq<A>)
    ensures
        dedup(s).no_duplicates(),
    decreases s.len(),
{
    if s.len() > 0 {
        lemma_dedup_no_duplicates(s.drop_last());
    }
}

proof fn lemma_push_contains<A>(t: Seq<A>, a: A, x: A)
    ensures
        t.push(a).contains(x) == (t.contains(x) || x == a),
{
    if t.contains(x) {
        let k = choose|k: int| 0 <= k < t.len() && t[k] == x;
        assert(t.push(a)[k] == x);
    }
    if x == a {
        assert(t.push(a)[t.len() as int] == x);
    }
    if t.push(a).contains(x) {
        let k = choose|k: int| 0 <= k < t.push(a).len() && t.push(a)[k] == x;
        if k < t.len() {
            assert(t[k] == x);
        }
    }
}

/// Law: duplicate removal keeps every element that occurs, and adds none.
pub proof fn lemma_dedup_same_elements<A>(s: Seq<A>, x: A)
    ensures
        dedup(s).contains(x) == s.contains(x),
    decreases s.len(),
{
    if s.len() > 0 {
        let sp = s.drop_last();
        let l = s.last();
        lemma_dedup_same_elements(sp, x);
        lemma_dedup_same_elements(sp, l);
        assert(sp.push(l) =~= s);
        lemma_push_contains(sp, l, x);
        lemma_push_contains(dedup(sp), l, x);
    }
}

/// The values seen through their deep views, keys unchanged.
pub open spec fn deep_pairs<T: DeepView>(s: Seq<(Seq<char>, T)>) -> Seq<(Seq<char>, T::V)> {
    s.map_values(|p: (Seq<char>, T)| (p.0, p.1.deep_view()))
}

proof fn lemma_insert_position_deep<T: DeepView>(s: Seq<(Seq<char>, T)>, k: Seq<char>)
    ensures
        insert_position(deep_pairs(s), k) == insert_position(s, k),
    decreases s.len(),
{
    if s.len() > 0 {
        assert(deep_pairs(s).drop_first() =~= deep_pairs(s.drop_first()));
        lemma_insert_position_deep(s.drop_first(), k);
    }
}

/// Sorting by key and looking at the values through their deep views commute.
pub proof fn lemma_sorted_by_key_deep<T: DeepView>(s: Seq<(Seq<char>, T)>)
    ensures
        sorted_by_key(deep_pairs(s)) == deep_pairs(sorted_by_key(s)),
    decreases s.len(),
{
    if s.len() > 0 {
        let r = sorted_by_key(s.drop_last());
        lemma_sorted_by_key_deep(s.drop_last());
        assert(deep_pairs(s).drop_last() =~= deep_pairs(s.drop_last()));
        lemma_insert_position_deep(r, s.last().0);
        lemma_insert_position_facts(r, s.last().0);
        let p = insert_position(r, s.last().0) as int;
        assert(deep_pairs(r).insert(p, deep_pairs(s).last()) =~= deep_pairs(r.insert(p, s.last())));
    }
}

/// Each item paired with the lowercase form of its key.
pub open spec fn lower_keyed<T>(keys: Seq<Seq<char>>, items: Seq<T>) -> Seq<(Seq<char>, T)> {
    Seq::new(items.len(), |i: int| (lowercase(keys[i]), items[i]))
}

/// The values of key-value pairs.
pub open spec fn values_of<T>(s: Seq<(Seq<char>, T)>) -> Seq<T> {
    s.map_values(|p: (Seq<char>, T)| p.1)
}

/// Sorts `items` stably by the lowercase form of their `keys` (the key of
/// `items[i]` is `keys[i]`), as `sort_by_key(|x| key.to_lowercase())` does.
pub fn sort_by_lowercase<T: DeepView>(items: Vec<T>, keys: &Vec<String>) -> (res: Vec<T>)
    requires
        keys@.len() == items@.len(),
    ensures
        res.deep_view() == values_of(sorted_by_key(lower_keyed(keys.deep_view(), items.deep_view()))),
{
    let ghost orig = items@;
    let n = items.len();
    let mut rest = items;
    let mut pairs: Vec<(Vec<char>, T)> = Vec::new();
    let mut i: usize = 0;
    assert(orig.skip(0) =~= orig);
    while i < n
        invariant
            n == orig.len(),
            keys@.len() == n,
            i <= n,
            rest@ == orig.skip(i as int),
            key_view(pairs@) == lower_keyed(keys.deep_view(), orig).take(i as int),
        decreases n - i,
    {
        let item = rest.remove(0);
        let lower = to_lowercase(keys[i].as_str());
        let key = to_chars(lower.as_str());
        let ghost prev = key_view(pairs@);
        pairs.push((key, item));
        proof {
            assert(rest@ =~= orig.skip(i + 1));
            assert(keys.deep_view()[i as int] == keys@[i as int]@);
            assert(key_view(pairs@) =~= prev.push((lowercase(keys@[i as int]@), orig[i as int])));
            assert(lower_keyed(keys.deep_view(), orig).take(i + 1) =~= lower_keyed(keys.deep_view(), orig).take(i as int).push((lowercase(keys@[i as int]@), orig[i as int])));
        }
        i += 1;
    }
    assert(lower_keyed(keys.deep_view(), orig).take(n as int) =~= lower_keyed(keys.deep_view(), orig));
    let sorted = sort_keyed(pairs);
    let ghost sv = key_view(sorted@);
    let mut rest2 = sorted;
    let mut out: Vec<T> = Vec::new();
    let m = rest2.len();
    assert(sv.len() == m);
    let mut j: usize = 0;
    assert(sv.skip(0) =~= sv);
    while j < m
        invariant
            m == sv.len(),
            j <= m,
            rest2@.len() == m - j,
            key_view(rest2@) == sv.skip(j as int),
            out@ == values_of(sv).take(j as int),
        decreases m - j,
    {
        let ghost old_rest = rest2@;
        let (_, v) = rest2.remove(0);
        proof {
            assert(key_view(old_rest)[0] == (old_rest[0].0@, old_rest[0].1));
            assert(sv.skip(j as int)[0] == sv[j as int]);
            assert forall|t: int| 0 <= t < rest2@.len() implies key_view(rest2@)[t] == sv.skip(j + 1)[t] by {
                assert(rest2@[t] == old_rest[t + 1]);
                assert(key_view(rest2@)[t] == (rest2@[t].0@, rest2@[t].1));
                assert(key_view(old_rest)[t + 1] == (old_rest[t + 1].0@, old_rest[t + 1].1));
                assert(key_view(old_rest)[t + 1] == sv.skip(j as int)[t + 1]);
            }
            assert(key_view(rest2@) =~= sv.skip(j + 1));
        }
        out.push(v);
        proof {
            assert(out@ =~= values_of(sv).take(j + 1));
        }
        j += 1;
    }
    proof {
        assert(values_of(sv).take(m as int) =~= values_of(sv));
        let lk = lower_keyed(keys.deep_view(), orig);
        lemma_sorted_by_key_deep(lk);
        assert(deep_pairs(lk) =~= lower_keyed(keys.deep_view(), items.deep_view()));
        assert(out.deep_view() =~= values_of(deep_pairs(sorted_by_key(lk))));
    }
    out
}

/// Filtering with a predicate that every element satisfies changes nothing.
pub proof fn lemma_filter_all<A>(s: Seq<A>, p: spec_fn(A) -> bool)
    requires
        forall|i: int| 0 <= i < s.len() ==> #[trigger] p(s[i]),
    ensures
        s.filter(p) == s,
    decreases s.len(),
{
    if s.len() > 0 {
        let t = s.drop_last();
        assert forall|i: int| 0 <= i < t.len() implies #[trigger] p(t[i]) by {
            assert(t[i] == s[i]);
        }
        lemma_filter_all(t, p);
        t.lemma_filter_push(s.last(), p);
        assert(t.push(s.last()) =~= s);
        assert(p(s[s.len() - 1]));
    }
}

} // verus!
