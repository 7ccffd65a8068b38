//! The editable entry lists of a recipe page: numbering, adding, moving and
//! removing entries, and gathering them back into a recipe.
use vstd::prelude::*;
use crate::recipe::RecipeEntry;

verus! {

/// Entries paired with their positions as ids.
pub open spec fn numbered<T>(s: Seq<T>) -> Seq<(u16, T)> {
    Seq::new(s.len(), |i: int| (i as u16, s[i]))
}

/// The ids of a list are its positions in some order: all distinct and below the length.
pub open spec fn ids_are_positions<T>(s: Seq<(u16, T)>) -> bool {
    &&& forall|i: int| 0 <= i < s.len() ==> (#[trigger] s[i]).0 < s.len()
    &&& forall|i: int, j: int| 0 <= i < s.len() && 0 <= j < s.len() && i != j ==> (#[trigger] s[i]).0 != (#[trigger] s[j]).0
}

/// Pairs each entry with its position as id. The count is taken modulo 65536
/// (`len as u16`), and only that many entries are kept.
pub fn entries_into_signals<T>(entries: Option<Vec<T>>) -> (res: Vec<(u16, T)>)
    ensures
        match entries {
            Some(v) => res@ == numbered(v@.take((v@.len() % 65536) as int)),
            None => res@.len() == 0,
        },
{
    match entries {
        None => Vec::new(),
        Some(v) => {
            let ghost orig = v@;
            let length: u16 = if v.len() <= 65535 {
                v.len() as u16
            } else {
                (v.len() % 65536) as u16
            };
            let mut rest = v;
            let mut res: Vec<(u16, T)> = Vec::new();
            let mut i: u16 = 0;
            assert(orig.skip(0) =~= orig);
            while i < length
                invariant
                    length as int == orig.len() % 65536,
                    i <= length,
                    rest@ == orig.skip(i as int),
                    res@ == numbered(orig.take(i as int)),
                decreases length - i,
            {
                let e = rest.remove(0);
                res.push((i, e));
                proof {
                    assert(rest@ =~= orig.skip(i + 1));
                    assert(res@ =~= numbered(orig.take(i + 1)));
                }
                i += 1;
            }
            res
        },
    }
}

/// Law: numbering gives every entry its position as id.
pub proof fn lemma_numbered_ids<T>(s: Seq<T>)
    requires
        s.len() <= 65536,
    ensures
        ids_are_positions(numbered(s)),
{
    assert forall|i: int, j: int| 0 <= i < s.len() && 0 <= j < s.len() && i != j implies (#[trigger] numbered(s)[i]).0 != (#[trigger] numbered(s)[j]).0 by {
        assert(numbered(s)[i].0 == i as u16);
        assert(numbered(s)[j].0 == j as u16);
    }
}

/// The entries without their ids.
pub open spec fn entry_values<T>(s: Seq<(u16, T)>) -> Seq<T> {
    s.map_values(|e: (u16, T)| e.1)
}

/// The entry holds some text.
pub open spec fn holds_text<T: RecipeEntry>() -> spec_fn(T) -> bool {
    |e: T| !e.empty_spec()
}

/// The entries of a list that hold some text, or `None` for an empty list.
pub open spec fn fetched_entries<T: RecipeEntry>(s: Seq<(u16, T)>) -> Option<Seq<T>> {
    if s.len() == 0 {
        None
    } else {
        Some(entry_values(s).filter(holds_text::<T>()))
    }
}

/// Gathers the entries of an edited list for saving: `None` when the list is
/// empty, otherwise the entries that hold some text, in order.
pub fn fetch_entries_from_signals<T: RecipeEntry>(signals: Vec<(u16, T)>) -> (res: Option<Vec<T>>)
    ensures
        match res {
            Some(v) => fetched_entries(signals@) == Some(v@),
            None => fetched_entries(signals@).is_none(),
        },
{
    if signals.len() == 0 {
        return None;
    }
    let ghost vals = entry_values(signals@);
    let ghost pred = holds_text::<T>();
    let mut rest = signals;
    let mut out: Vec<T> = Vec::new();
    let mut i: usize = 0;
    let n = rest.len();
    assert(vals.take(0) =~= Seq::<T>::empty());
    assert(vals.skip(0) =~= vals);
    while i < n
        invariant
            n == vals.len(),
            pred == holds_text::<T>(),
            i <= n,
            rest@.len() == n - i,
            entry_values(rest@) == vals.skip(i as int),
            out@ == vals.take(i as int).filter(pred),
        decreases n - i,
    {
        let ghost old_rest = rest@;
        let (_, e) = rest.remove(0);
        proof {
            assert(entry_values(old_rest)[0] == old_rest[0].1);
            assert(vals.skip(i as int)[0] == vals[i as int]);
            assert(entry_values(rest@) =~= vals.skip(i + 1)) by {
                assert forall|j: int| 0 <= j < rest@.len() implies entry_values(rest@)[j] == vals.skip(i + 1)[j] by {
                    assert(rest@[j] == old_rest[j + 1]);
                    assert(entry_values(old_rest)[j + 1] == vals.skip(i as int)[j + 1]);
                }
            }
            assert(vals.take(i + 1).drop_last() =~= vals.take(i as int));
            assert(vals.take(i + 1).last() == vals[i as int]);
            assert(e == vals[i as int]);
            assert(vals.take(i + 1) =~= vals.take(i as int).push(vals[i as int]));
            vals.take(i as int).lemma_filter_push(vals[i as int], pred);
            assert(vals.take(i + 1).filter(pred) == (if pred(vals[i as int]) {
                vals.take(i as int).filter(pred).push(vals[i as int])
            } else {
                vals.take(i as int).filter(pred)
            }));
            assert(pred(e) == !e.empty_spec());
        }
        if !e.is_empty() {
            out.push(e);
        }
        i += 1;
    }
    assert(vals.take(n as int) =~= vals);
    Some(out)
}

/// Law: a list that is numbered for editing and gathered back unchanged
/// gives its entries that hold text, in order; an empty list gives none.
pub proof fn lemma_numbered_then_fetched<T: RecipeEntry>(s: Seq<T>)
    ensures
        fetched_entries(numbered(s)) == (if s.len() == 0 { None } else { Some(s.filter(holds_text::<T>())) }),
{
    assert(entry_values(numbered(s)) =~= s);
}

/// Adds an entry that holds no text at the end, with the list length as id.
pub fn add_entry<T: RecipeEntry>(entries: &mut Vec<(u16, T)>)
    requires
        old(entries)@.len() <= u16::MAX,
    ensures
        final(entries)@.len() == old(entries)@.len() + 1,
        final(entries)@.take(old(entries)@.len() as int) == old(entries)@,
        final(entries)@.last().0 == old(entries)@.len(),
        final(entries)@.last().1.empty_spec(),
{
    let new_id: u16 = entries.len() as u16;
    entries.push((new_id, T::default_entry()));
    assert(entries@.take(old(entries)@.len() as int) =~= old(entries)@);
}

/// Law: adding an entry keeps ids equal to positions in some order.
pub proof fn lemma_add_keeps_ids<T>(s: Seq<(u16, T)>, e: T)
    requires
        ids_are_positions(s),
        s.len() <= u16::MAX,
    ensures
        ids_are_positions(s.push((s.len() as u16, e))),
{
    let t = s.push((s.len() as u16, e));
    assert forall|i: int| 0 <= i < t.len() implies (#[trigger] t[i]).0 < t.len() by {
        if i < s.len() {
            assert(t[i] == s[i]);
        }
    }
    assert forall|i: int, j: int| 0 <= i < t.len() && 0 <= j < t.len() && i != j implies (#[trigger] t[i]).0 != (#[trigger] t[j]).0 by {
        if i < s.len() {
            assert(t[i] == s[i]);
        }
        if j < s.len() {
            assert(t[j] == s[j]);
        }
    }
}

/// The position of the first entry with id `id`, or -1.
pub open spec fn id_index<T>(s: Seq<(u16, T)>, id: u16) -> int
    decreases s.len(),
{
    if s.len() == 0 {
        -1
    } else {
        let r = id_index(s.drop_last(), id);
        if r >= 0 {
            r
        } else if s.last().0 == id {
            s.len() - 1
        } else {
            -1
        }
    }
}

proof fn lemma_id_index_is<T>(s: Seq<(u16, T)>, id: u16, p: int)
    requires
        -1 <= p < s.len(),
        forall|j: int| 0 <= j < s.len() && (p < 0 || j < p) ==> (#[trigger] s[j]).0 != id,
        p >= 0 ==> s[p].0 == id,
    ensures
        id_index(s, id) == p,
    decreases s.len(),
{
    if s.len() > 0 {
        let t = s.drop_last();
        if p == s.len() - 1 {
            assert forall|j: int| 0 <= j < t.len() implies (#[trigger] t[j]).0 != id by {
                assert(t[j] == s[j]);
            }
            lemma_id_index_is(t, id, -1);
        } else {
            assert forall|j: int| 0 <= j < t.len() && (p < 0 || j < p) implies (#[trigger] t[j]).0 != id by {
                assert(t[j] == s[j]);
            }
            if p >= 0 {
                assert(t[p] == s[p]);
            }
            lemma_id_index_is(t, id, p);
        }
    }
}

fn find_id<T>(entries: &Vec<(u16, T)>, id: u16) -> (p: Option<usize>)
    ensures
        match p {
            Some(k) => k < entries@.len() && id_index(entries@, id) == k,
            None => id_index(entries@, id) == -1,
        },
{
    let mut i: usize = 0;
    while i < entries.len()
        invariant
            i <= entries.len(),
            forall|j: int| 0 <= j < i ==> (#[trigger] entries@[j]).0 != id,
        decreases entries.len() - i,
    {
        if entries[i].0 == id {
            proof {
                lemma_id_index_is(entries@, id, i as int);
            }
            return Some(i);
        }
        i += 1;
    }
    proof {
        lemma_id_index_is(entries@, id, -1);
    }
    None
}

/// `s` with the entries at positions `a` and `b` exchanged.
pub open spec fn swapped<T>(s: Seq<T>, a: int, b: int) -> Seq<T> {
    s.update(a, s[b]).update(b, s[a])
}

fn swap_with_previous<T>(entries: &mut Vec<(u16, T)>, p: usize)
    requires
        0 < p < old(entries)@.len(),
    ensures
        final(entries)@ == swapped(old(entries)@, p as int, p - 1),
{
    let e = entries.remove(p);
    entries.insert(p - 1, e);
    assert(entries@ =~= swapped(old(entries)@, p as int, p - 1));
}

/// Moves the first entry with id `id` one place up; nothing changes when it
/// is first or absent.
pub fn move_entry_up<T>(entries: &mut Vec<(u16, T)>, id: u16)
    ensures
        id_index(old(entries)@, id) > 0 ==> final(entries)@ == swapped(
            old(entries)@,
            id_index(old(entries)@, id),
            id_index(old(entries)@, id) - 1,
        ),
        id_index(old(entries)@, id) <= 0 ==> final(entries)@ == old(entries)@,
{
    match find_id(entries, id) {
        Some(p) => {
            if p > 0 {
                swap_with_previous(entries, p);
            }
        },
        None => {},
    }
}

/// Moves the first entry with id `id` one place down; nothing changes when it
/// is last or absent.
pub fn move_entry_down<T>(entries: &mut Vec<(u16, T)>, id: u16)
    ensures
        0 <= id_index(old(entries)@, id) < old(entries)@.len() - 1 ==> final(entries)@ == swapped(
            old(entries)@,
            id_index(old(entries)@, id) + 1,
            id_index(old(entries)@, id),
        ),
        !(0 <= id_index(old(entries)@, id) < old(entries)@.len() - 1) ==> final(entries)@ == old(entries)@,
{
    match find_id(entries, id) {
        Some(p) => {
            if p < entries.len() - 1 {
                swap_with_previous(entries, p + 1);
            }
        },
        None => {},
    }
}

proof fn lemma_id_index_facts<T>(s: Seq<(u16, T)>, id: u16)
    ensures
        -1 <= id_index(s, id) < s.len(),
        id_index(s, id) >= 0 ==> s[id_index(s, id)].0 == id,
        forall|j: int| 0 <= j < s.len() && (id_index(s, id) < 0 || j < id_index(s, id)) ==> (#[trigger] s[j]).0 != id,
    decreases s.len(),
{
    if s.len() > 0 {
        let t = s.drop_last();
        lemma_id_index_facts(t, id);
        let r = id_index(s, id);
        assert forall|j: int| 0 <= j < s.len() && (r < 0 || j < r) implies (#[trigger] s[j]).0 != id by {
            if j < t.len() {
                assert(t[j] == s[j]);
            }
        }
    }
}

/// Law: moving an entry up and then down again gives the list back.
pub proof fn lemma_move_up_then_down<T>(s: Seq<(u16, T)>, id: u16)
    requires
        id_index(s, id) > 0,
    ensures
        ({
            let p = id_index(s, id);
            let t = swapped(s, p, p - 1);
            &&& id_index(t, id) == p - 1
            &&& 0 <= id_index(t, id) < t.len() - 1
            &&& swapped(t, id_index(t, id) + 1, id_index(t, id)) == s
        }),
{
    let p = id_index(s, id);
    lemma_id_index_facts(s, id);
    let t = swapped(s, p, p - 1);
    assert forall|j: int| 0 <= j < t.len() && (p - 1 < 0 || j < p - 1) implies (#[trigger] t[j]).0 != id by {
        assert(t[j] == s[j]);
    }
    lemma_id_index_is(t, id, p - 1);
    assert(swapped(t, p, p - 1) =~= s);
}

/// Law: with distinct ids, moving an entry down and then up again gives the list back.
pub proof fn lemma_move_down_then_up<T>(s: Seq<(u16, T)>, id: u16)
    requires
        ids_are_positions(s),
        0 <= id_index(s, id) < s.len() - 1,
    ensures
        ({
            let p = id_index(s, id);
            let t = swapped(s, p + 1, p);
            &&& id_index(t, id) == p + 1
            &&& swapped(t, id_index(t, id), id_index(t, id) - 1) == s
        }),
{
    let p = id_index(s, id);
    lemma_id_index_facts(s, id);
    let t = swapped(s, p + 1, p);
    assert(s[p + 1].0 != s[p].0);
    assert forall|j: int| 0 <= j < t.len() && (p + 1 < 0 || j < p + 1) implies (#[trigger] t[j]).0 != id by {
        if j < p {
            assert(t[j] == s[j]);
        }
    }
    lemma_id_index_is(t, id, p + 1);
    assert(swapped(t, p + 1, p) =~= s);
}

/// Law: exchanging two entries keeps ids equal to positions in some order.
pub proof fn lemma_swap_keeps_ids<T>(s: Seq<(u16, T)>, a: int, b: int)
    requires
        ids_are_positions(s),
        0 <= a < s.len(),
        0 <= b < s.len(),
    ensures
        ids_are_positions(swapped(s, a, b)),
{
    let t = swapped(s, a, b);
    let src = |i: int| if i == a { b } else if i == b { a } else { i };
    assert forall|i: int| 0 <= i < t.len() implies (#[trigger] t[i]) == s[src(i)] by {}
    assert forall|i: int| 0 <= i < t.len() implies (#[trigger] t[i]).0 < t.len() by {
        assert(t[i] == s[src(i)]);
    }
    assert forall|i: int, j: int| 0 <= i < t.len() && 0 <= j < t.len() && i != j implies (#[trigger] t[i]).0 != (#[trigger] t[j]).0 by {
        assert(t[i] == s[src(i)]);
        assert(t[j] == s[src(j)]);
    }
}

/// The entry does not carry id `id`.
pub open spec fn other_id<T>(id: u16) -> spec_fn((u16, T)) -> bool {
    |e: (u16, T)| e.0 != id
}

/// The entries without id `id`, numbered again from 0 in order.
pub open spec fn removed_and_renumbered<T>(s: Seq<(u16, T)>, id: u16) -> Seq<(u16, T)> {
    numbered(entry_values(s.filter(other_id::<T>(id))))
}

/// Removes every entry with id `id` and gives the others new ids, their
/// positions, in order.
pub fn remove_entry<T>(entries: &mut Vec<(u16, T)>, id: u16)
    requires
        old(entries)@.filter(other_id::<T>(id)).len() <= u16::MAX,
    ensures
        final(entries)@ == removed_and_renumbered(old(entries)@, id),
{
    let ghost orig = old(entries)@;
    let ghost pred = other_id::<T>(id);
    let mut rest: Vec<(u16, T)> = Vec::new();
    std::mem::swap(entries, &mut rest);
    let n = rest.len();
    let mut i: usize = 0;
    let mut counter: u16 = 0;
    assert(orig.take(0) =~= Seq::<(u16, T)>::empty());
    assert(orig.skip(0) =~= orig);
    assert(entries@ =~= numbered(entry_values(orig.take(0).filter(pred))));
    while i < n
        invariant
            n == orig.len(),
            pred == other_id::<T>(id),
            orig.filter(pred).len() <= u16::MAX,
            i <= n,
            rest@ == orig.skip(i as int),
            entries@ == numbered(entry_values(orig.take(i as int).filter(pred))),
            counter as int == orig.take(i as int).filter(pred).len(),
        decreases n - i,
    {
        let ghost prev = orig.take(i as int).filter(pred);
        let e = rest.remove(0);
        proof {
            assert(e == orig[i as int]);
            assert(rest@ =~= orig.skip(i + 1));
            assert(orig.take(i + 1) =~= orig.take(i as int).push(orig[i as int]));
            orig.take(i as int).lemma_filter_push(orig[i as int], pred);
            orig.lemma_filter_take_len(pred, i + 1);
        }
        if e.0 != id {
            entries.push((counter, e.1));
            proof {
                assert(entries@ =~= numbered(entry_values(prev.push(orig[i as int]))));
            }
            counter += 1;
        }
        i += 1;
    }
    assert(orig.take(n as int) =~= orig);
}

/// Law: after a removal the ids are again the positions.
pub proof fn lemma_remove_renumbers<T>(s: Seq<(u16, T)>, id: u16)
    requires
        s.filter(other_id::<T>(id)).len() <= u16::MAX,
    ensures
        ids_are_positions(removed_and_renumbered(s, id)),
        forall|i: int| 0 <= i < removed_and_renumbered(s, id).len() ==> (#[trigger] removed_and_renumbered(s, id)[i]).0 == i,
{
    lemma_numbered_ids(entry_values(s.filter(other_id::<T>(id))));
}

/// Law: removing the entries with id `id` keeps exactly the other entries,
/// in order, whatever their positions, and numbers them from 0.
pub proof fn lemma_remove_keeps_other_entries<T>(s: Seq<(u16, T)>, id: u16)
    requires
        s.filter(|e: (u16, T)| e.0 != id).len() <= u16::MAX,
    ensures
        ({
            let kept = s.filter(|e: (u16, T)| e.0 != id);
            &&& removed_and_renumbered(s, id).len() == kept.len()
            &&& forall|k: int| 0 <= k < kept.len() ==> #[trigger] removed_and_renumbered(s, id)[k] == (k as u16, kept[k].1)
        }),
{
    let f = |e: (u16, T)| e.0 != id;
    assert(other_id::<T>(id) =~= f);
    assert(s.filter(other_id::<T>(id)) == s.filter(f));
}

/// The sort-up button shows for every entry but the first.
pub fn is_first_entry<T>(entries: &Vec<(u16, T)>, id: u16) -> (res: bool)
    requires
        entries@.len() > 0,
    ensures
        res == (entries@[0].0 == id),
{
    entries[0].0 == id
}

/// The sort-down button shows for every entry but the last.
pub fn is_last_entry<T>(entries: &Vec<(u16, T)>, id: u16) -> (res: bool)
    requires
        entries@.len() > 0,
    ensures
        res == (entries@.last().0 == id),
{
    entries[entries.len() - 1].0 == id
}

} // verus!
