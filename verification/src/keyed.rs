//! Small maps and sets keyed by a byte, kept as vectors in increasing key
//! order (what a `BTreeMap<u8, _>` / `BTreeSet<u8>` yields when walked).
use vstd::prelude::*;

verus! {

/// Keys strictly increase along the sequence.
pub open spec fn sorted_entries<V>(s: Seq<(u8, V)>) -> bool {
    forall|i: int, j: int| 0 <= i < j < s.len() ==> s[i].0 < s[j].0
}

/// Every key is below `b`.
pub open spec fn entries_below<V>(s: Seq<(u8, V)>, b: int) -> bool {
    forall|i: int| 0 <= i < s.len() ==> s[i].0 < b
}

/// Every key is above `b`.
pub open spec fn entries_above<V>(s: Seq<(u8, V)>, b: int) -> bool {
    forall|i: int| 0 <= i < s.len() ==> s[i].0 > b
}

/// The entries whose key is below `id`, in order.
pub open spec fn lower<V>(s: Seq<(u8, V)>, id: u8) -> Seq<(u8, V)>
    decreases s.len(),
{
    if s.len() == 0 {
        seq![]
    } else {
        let r = lower(s.drop_last(), id);
        if s.last().0 < id {
            r.push(s.last())
        } else {
            r
        }
    }
}

/// The entries whose key is above `id`, in order.
pub open spec fn upper<V>(s: Seq<(u8, V)>, id: u8) -> Seq<(u8, V)>
    decreases s.len(),
{
    if s.len() == 0 {
        seq![]
    } else {
        let r = upper(s.drop_last(), id);
        if s.last().0 > id {
            r.push(s.last())
        } else {
            r
        }
    }
}

/// The map with `id` bound to `v` (replacing any earlier binding).
pub open spec fn with_entry<V>(s: Seq<(u8, V)>, id: u8, v: V) -> Seq<(u8, V)> {
    lower(s, id).push((id, v)) + upper(s, id)
}

/// The map without a binding for `id`.
pub open spec fn without_entry<V>(s: Seq<(u8, V)>, id: u8) -> Seq<(u8, V)> {
    lower(s, id) + upper(s, id)
}

/// Whether `id` is bound.
pub open spec fn has_key<V>(s: Seq<(u8, V)>, id: u8) -> bool {
    exists|i: int| 0 <= i < s.len() && s[i].0 == id
}

pub proof fn lemma_lower_bounds<V>(s: Seq<(u8, V)>, id: u8, b: int)
    requires
        entries_below(s, b),
    ensures
        entries_below(lower(s, id), b),
        entries_below(upper(s, id), b),
        entries_below(lower(s, id), id as int),
        entries_above(upper(s, id), id as int),
        lower(s, id).len() <= s.len(),
        upper(s, id).len() <= s.len(),
    decreases s.len(),
{
    if s.len() > 0 {
        lemma_lower_bounds(s.drop_last(), id, b);
    }
}

pub proof fn lemma_lower_sorted<V>(s: Seq<(u8, V)>, id: u8)
    requires
        sorted_entries(s),
    ensures
        sorted_entries(lower(s, id)),
        sorted_entries(upper(s, id)),
        entries_below(lower(s, id), id as int),
        entries_above(upper(s, id), id as int),
    decreases s.len(),
{
    if s.len() > 0 {
        let t = s.drop_last();
        lemma_lower_sorted(t, id);
        assert(entries_below(t, s.last().0 as int));
        lemma_lower_bounds(t, id, s.last().0 as int);
    } else {
        lemma_lower_bounds(s, id, 0);
    }
}

/// Binding a key keeps the keys in increasing order.
pub proof fn lemma_with_entry_sorted<V>(s: Seq<(u8, V)>, id: u8, v: V)
    requires
        sorted_entries(s),
    ensures
        sorted_entries(with_entry(s, id, v)),
        sorted_entries(without_entry(s, id)),
        has_key(with_entry(s, id, v), id),
        !has_key(without_entry(s, id), id),
{
    lemma_lower_sorted(s, id);
    let a = lower(s, id);
    let b = upper(s, id);
    let w = a.push((id, v)) + b;
    assert forall|i: int, j: int| 0 <= i < j < w.len() implies w[i].0 < w[j].0 by {
        if j < a.len() {
        } else if i < a.len() && j == a.len() {
        } else if i < a.len() {
            assert(w[j] == b[j - a.len() - 1]);
        } else if i == a.len() {
            assert(w[j] == b[j - a.len() - 1]);
        } else {
            assert(w[i] == b[i - a.len() - 1]);
            assert(w[j] == b[j - a.len() - 1]);
        }
    }
    assert(w[a.len() as int] == (id, v));
    let u = a + b;
    assert forall|i: int, j: int| 0 <= i < j < u.len() implies u[i].0 < u[j].0 by {
        if j < a.len() {
        } else if i < a.len() {
            assert(u[j] == b[j - a.len()]);
        } else {
            assert(u[i] == b[i - a.len()]);
            assert(u[j] == b[j - a.len()]);
        }
    }
    assert forall|i: int| 0 <= i < u.len() implies u[i].0 != id by {
        if i >= a.len() {
            assert(u[i] == b[i - a.len()]);
        }
    }
}

/// A property of every key carries over to the entries kept by `lower` and `upper`.
pub proof fn lemma_lower_keys<V>(s: Seq<(u8, V)>, id: u8, pred: spec_fn(u8) -> bool)
    requires
        forall|i: int| 0 <= i < s.len() ==> pred(#[trigger] s[i].0),
    ensures
        forall|i: int| 0 <= i < lower(s, id).len() ==> pred(#[trigger] lower(s, id)[i].0),
        forall|i: int| 0 <= i < upper(s, id).len() ==> pred(#[trigger] upper(s, id)[i].0),
    decreases s.len(),
{
    if s.len() > 0 {
        let t = s.drop_last();
        assert forall|i: int| 0 <= i < t.len() implies pred(#[trigger] t[i].0) by {
            assert(t[i] == s[i]);
        }
        lemma_lower_keys(t, id, pred);
        let last = s[s.len() - 1];
        assert(pred(last.0));
        let lo = lower(s, id);
        let up = upper(s, id);
        assert forall|i: int| 0 <= i < lo.len() implies pred(#[trigger] lo[i].0) by {
            if i < lower(t, id).len() {
                assert(lo[i] == lower(t, id)[i]);
            } else {
                assert(lo[i] == last);
            }
        }
        assert forall|i: int| 0 <= i < up.len() implies pred(#[trigger] up[i].0) by {
            if i < upper(t, id).len() {
                assert(up[i] == upper(t, id)[i]);
            } else {
                assert(up[i] == last);
            }
        }
    }
}

/// In a sorted map, dropping `id` removes exactly its binding, if any.
pub proof fn lemma_split_len<V>(s: Seq<(u8, V)>, id: u8)
    requires
        sorted_entries(s),
    ensures
        lower(s, id).len() + upper(s, id).len() == s.len() - (if has_key(s, id) {
            1int
        } else {
            0int
        }),
    decreases s.len(),
{
    if s.len() > 0 {
        let t = s.drop_last();
        assert(sorted_entries(t));
        lemma_split_len(t, id);
        if has_key(s, id) {
            let k = choose|k: int| 0 <= k < s.len() && s[k].0 == id;
            if k < t.len() {
                assert(t[k].0 == id);
                assert(s[k].0 < s[s.len() - 1].0);
                assert(!has_key(t, id) ==> false);
            }
        }
        if has_key(t, id) {
            let k = choose|k: int| 0 <= k < t.len() && t[k].0 == id;
            assert(s[k] == t[k]);
        }
    }
}

/// Binding a key grows the map by one entry unless the key was bound.
pub proof fn lemma_with_entry_len<V>(s: Seq<(u8, V)>, id: u8, v: V)
    requires
        sorted_entries(s),
    ensures
        with_entry(s, id, v).len() == s.len() + (if has_key(s, id) {
            0int
        } else {
            1int
        }),
        without_entry(s, id).len() <= s.len(),
{
    lemma_split_len(s, id);
}

/// The entries whose value is after `now`, in order.
pub open spec fn after(s: Seq<(u8, u64)>, now: u64) -> Seq<(u8, u64)>
    decreases s.len(),
{
    if s.len() == 0 {
        seq![]
    } else {
        let r = after(s.drop_last(), now);
        if s.last().1 > now {
            r.push(s.last())
        } else {
            r
        }
    }
}

/// Keeping only the live entries keeps order, key properties and bounds.
pub proof fn lemma_after<V>(s: Seq<(u8, u64)>, now: u64, pred: spec_fn(u8) -> bool, b: int)
    requires
        sorted_entries(s),
        entries_below(s, b),
        forall|i: int| 0 <= i < s.len() ==> pred(#[trigger] s[i].0),
    ensures
        sorted_entries(after(s, now)),
        entries_below(after(s, now), b),
        forall|i: int| 0 <= i < after(s, now).len() ==> pred(#[trigger] after(s, now)[i].0),
        after(s, now).len() <= s.len(),
    decreases s.len(),
{
    if s.len() > 0 {
        let t = s.drop_last();
        assert forall|i: int| 0 <= i < t.len() implies pred(#[trigger] t[i].0) by {
            assert(t[i] == s[i]);
        }
        assert(entries_below(t, s.last().0 as int));
        lemma_after::<V>(t, now, pred, s.last().0 as int);
        assert(pred(s[s.len() - 1].0));
    }
}

/// The map with `id` bound to `v`.
pub fn insert_entry<V: Copy>(s: &Vec<(u8, V)>, id: u8, v: V) -> (r: Vec<(u8, V)>)
    ensures
        r@ == with_entry(s@, id, v),
{
    let mut lo: Vec<(u8, V)> = Vec::new();
    let mut hi: Vec<(u8, V)> = Vec::new();
    let mut i: usize = 0;
    while i < s.len()
        invariant
            i <= s@.len(),
            lo@ == lower(s@.take(i as int), id),
            hi@ == upper(s@.take(i as int), id),
        decreases s@.len() - i,
    {
        assert(s@.take(i + 1).drop_last() == s@.take(i as int));
        let e = s[i];
        if e.0 < id {
            lo.push(e);
        } else if e.0 > id {
            hi.push(e);
        }
        i = i + 1;
    }
    assert(s@.take(s@.len() as int) == s@);
    lo.push((id, v));
    let mut j: usize = 0;
    let ghost base = lo@;
    while j < hi.len()
        invariant
            j <= hi@.len(),
            lo@ == base + hi@.take(j as int),
        decreases hi@.len() - j,
    {
        lo.push(hi[j]);
        j = j + 1;
        assert(lo@ == base + hi@.take(j as int));
    }
    assert(hi@.take(hi@.len() as int) == hi@);
    lo
}

/// The map without a binding for `id`.
pub fn remove_entry<V: Copy>(s: &Vec<(u8, V)>, id: u8) -> (r: Vec<(u8, V)>)
    ensures
        r@ == without_entry(s@, id),
{
    let mut lo: Vec<(u8, V)> = Vec::new();
    let mut hi: Vec<(u8, V)> = Vec::new();
    let mut i: usize = 0;
    while i < s.len()
        invariant
            i <= s@.len(),
            lo@ == lower(s@.take(i as int), id),
            hi@ == upper(s@.take(i as int), id),
        decreases s@.len() - i,
    {
        assert(s@.take(i + 1).drop_last() == s@.take(i as int));
        let e = s[i];
        if e.0 < id {
            lo.push(e);
        } else if e.0 > id {
            hi.push(e);
        }
        i = i + 1;
    }
    assert(s@.take(s@.len() as int) == s@);
    let mut j: usize = 0;
    let ghost base = lo@;
    while j < hi.len()
        invariant
            j <= hi@.len(),
            lo@ == base + hi@.take(j as int),
        decreases hi@.len() - j,
    {
        lo.push(hi[j]);
        j = j + 1;
        assert(lo@ == base + hi@.take(j as int));
    }
    assert(hi@.take(hi@.len() as int) == hi@);
    lo
}

/// Whether `id` is bound.
pub fn contains_key<V: Copy>(s: &Vec<(u8, V)>, id: u8) -> (b: bool)
    ensures
        b == has_key(s@, id),
{
    let mut i: usize = 0;
    while i < s.len()
        invariant
            i <= s@.len(),
            forall|j: int| 0 <= j < i ==> s@[j].0 != id,
        decreases s@.len() - i,
    {
        if s[i].0 == id {
            return true;
        }
        i = i + 1;
    }
    false
}

} // verus!
