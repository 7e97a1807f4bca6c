//! Lists of things with an id: looking one up, and dropping those with an id.

use std::collections::VecDeque;

use vstd::prelude::*;

verus! {

/// A value with an id.
pub trait HasId: Sized {
    spec fn id_of(self) -> u64;
}

/// An item of a list that tells its id.
pub trait Item: View where Self::V: HasId {
    fn item_id(&self) -> (r: u64)
        ensures
            r == self@.id_of(),
    ;
}

/// What the elements of a list stand for.
pub open spec fn views<T: View>(s: Seq<T>) -> Seq<T::V> {
    Seq::new(s.len(), |i: int| s[i]@)
}

/// What the values of a map stand for.
pub open spec fn map_views<K, T: View>(m: Map<K, T>) -> Map<K, T::V> {
    Map::new(|k: K| m.contains_key(k), |k: K| m[k]@)
}

/// Whether the first element with the given id is at `i`.
pub open spec fn is_first<X: HasId>(s: Seq<X>, id: u64, i: int) -> bool {
    &&& 0 <= i < s.len()
    &&& s[i].id_of() == id
    &&& forall|j: int| 0 <= j < i ==> #[trigger] s[j].id_of() != id
}

/// Where the first element with the given id is.
pub open spec fn find_id<X: HasId>(s: Seq<X>, id: u64) -> Option<int> {
    if exists|i: int| is_first(s, id, i) {
        Some(choose|i: int| is_first(s, id, i))
    } else {
        None
    }
}

/// The list without the elements that have the given id.
pub open spec fn without<X: HasId>(s: Seq<X>, id: u64) -> Seq<X> {
    s.filter(|x: X| x.id_of() != id)
}

/// The last `n` elements of a list, or all of a shorter one.
pub open spec fn keep_last<X>(s: Seq<X>, n: nat) -> Seq<X> {
    if s.len() > n {
        s.skip(s.len() - n)
    } else {
        s
    }
}

pub proof fn lemma_find_at<X: HasId>(s: Seq<X>, id: u64, i: int)
    requires
        is_first(s, id, i),
    ensures
        find_id(s, id) == Some(i),
{
    let j = choose|j: int| is_first(s, id, j);
    assert(is_first(s, id, j));
    if i < j {
        assert(s[i].id_of() != id);
    } else if j < i {
        assert(s[j].id_of() != id);
    }
}

/// An element with the id means that there is a first one.
proof fn lemma_first_exists<X: HasId>(s: Seq<X>, id: u64, k: int)
    requires
        0 <= k < s.len(),
        s[k].id_of() == id,
    ensures
        exists|i: int| is_first(s, id, i),
    decreases k,
{
    if is_first(s, id, k) {
    } else {
        let j = choose|j: int| 0 <= j < k && #[trigger] s[j].id_of() == id;
        lemma_first_exists(s, id, j);
    }
}

/// What a lookup says of the list.
pub proof fn lemma_find<X: HasId>(s: Seq<X>, id: u64)
    ensures
        match find_id(s, id) {
            Some(i) => is_first(s, id, i),
            None => forall|i: int| 0 <= i < s.len() ==> #[trigger] s[i].id_of() != id,
        },
{
    if find_id(s, id) is None {
        assert forall|i: int| 0 <= i < s.len() implies #[trigger] s[i].id_of() != id by {
            if s[i].id_of() == id {
                lemma_first_exists(s, id, i);
            }
        }
    }
}

pub proof fn lemma_without_push<X: HasId>(s: Seq<X>, id: u64, x: X)
    ensures
        without(s.push(x), id) == if x.id_of() != id {
            without(s, id).push(x)
        } else {
            without(s, id)
        },
{
    reveal(Seq::filter);
    assert(s.push(x).drop_last() == s);
}

/// What is left after dropping an id was there before, and has another id.
pub proof fn lemma_without<X: HasId>(s: Seq<X>, id: u64)
    ensures
        forall|i: int|
            0 <= i < without(s, id).len() ==> s.contains(#[trigger] without(s, id)[i])
                && without(s, id)[i].id_of() != id,
    decreases s.len(),
{
    reveal(Seq::filter);
    if s.len() > 0 {
        let t = s.drop_last();
        lemma_without(t, id);
        assert forall|i: int| 0 <= i < without(s, id).len() implies s.contains(
            #[trigger] without(s, id)[i],
        ) && without(s, id)[i].id_of() != id by {
            if i < without(t, id).len() {
                assert(without(s, id)[i] == without(t, id)[i]);
                let j = choose|j: int| 0 <= j < t.len() && t[j] == without(t, id)[i];
                assert(s[j] == without(s, id)[i]);
            } else {
                assert(s[s.len() - 1] == without(s, id)[i]);
            }
        }
    }
}

/// Dropping an id makes a list no longer.
pub proof fn lemma_without_len<X: HasId>(s: Seq<X>, id: u64)
    ensures
        without(s, id).len() <= s.len(),
    decreases s.len(),
{
    reveal(Seq::filter);
    if s.len() > 0 {
        lemma_without_len(s.drop_last(), id);
    }
}

/// Whether no two elements have the same id.
pub open spec fn distinct_ids<X: HasId>(s: Seq<X>) -> bool {
    forall|i: int, j: int|
        0 <= i < j < s.len() ==> (#[trigger] s[i]).id_of() != (#[trigger] s[j]).id_of()
}

/// Whether no element has an id above `n`.
pub open spec fn ids_within<X: HasId>(s: Seq<X>, n: u64) -> bool {
    forall|i: int| 0 <= i < s.len() ==> (#[trigger] s[i]).id_of() <= n
}

/// Whether an element has the given id.
pub open spec fn has_id<X: HasId>(s: Seq<X>, id: u64) -> bool {
    exists|i: int| 0 <= i < s.len() && (#[trigger] s[i]).id_of() == id
}

/// Whether no id occurs in both lists.
pub open spec fn disjoint_ids<X: HasId>(s: Seq<X>, t: Seq<X>) -> bool {
    forall|i: int, j: int|
        0 <= i < s.len() && 0 <= j < t.len() ==> (#[trigger] s[i]).id_of() != (
        #[trigger] t[j]).id_of()
}

/// Dropping an id that does not occur changes nothing.
pub proof fn lemma_without_absent<X: HasId>(s: Seq<X>, id: u64)
    requires
        !has_id(s, id),
    ensures
        without(s, id) == s,
    decreases s.len(),
{
    reveal(Seq::filter);
    if s.len() > 0 {
        let t = s.drop_last();
        assert(!has_id(t, id)) by {
            if has_id(t, id) {
                let i = choose|i: int| 0 <= i < t.len() && (#[trigger] t[i]).id_of() == id;
                assert(s[i].id_of() == id);
            }
        }
        lemma_without_absent(t, id);
        assert(s[s.len() - 1].id_of() != id);
        assert(s == t.push(s.last()));
    }
}

/// Dropping an id from two lists in a row drops it from each.
pub proof fn lemma_without_concat<X: HasId>(a: Seq<X>, b: Seq<X>, id: u64)
    ensures
        without(a + b, id) == without(a, id) + without(b, id),
{
    Seq::<X>::filter_distributes_over_add(a, b, |x: X| x.id_of() != id);
}

/// Where ids are distinct, dropping an id drops the one element that has it.
pub proof fn lemma_without_one<X: HasId>(s: Seq<X>, id: u64, i: int)
    requires
        distinct_ids(s),
        0 <= i < s.len(),
        s[i].id_of() == id,
    ensures
        without(s, id) == s.remove(i),
{
    let a = s.take(i);
    let b = s.skip(i + 1);
    assert(s == a + seq![s[i]] + b);
    lemma_without_concat(a + seq![s[i]], b, id);
    lemma_without_concat(a, seq![s[i]], id);
    lemma_without_absent(a, id);
    lemma_without_absent(b, id);
    lemma_without_push(Seq::<X>::empty(), id, s[i]);
    assert(seq![s[i]] == Seq::<X>::empty().push(s[i]));
    assert(without(Seq::<X>::empty(), id) == Seq::<X>::empty()) by {
        lemma_without_absent(Seq::<X>::empty(), id);
    }
    assert(s.remove(i) == a + b);
    assert(a + Seq::<X>::empty() == a);
}

/// Where ids are distinct, they still are after one was dropped.
pub proof fn lemma_without_distinct<X: HasId>(s: Seq<X>, id: u64)
    requires
        distinct_ids(s),
    ensures
        distinct_ids(without(s, id)),
        !has_id(without(s, id), id),
        forall|k: u64| k != id ==> (has_id(without(s, id), k) <==> #[trigger] has_id(s, k)),
{
    lemma_find(s, id);
    match find_id(s, id) {
        Some(i) => {
            lemma_without_one(s, id, i);
            let t = s.remove(i);
            assert forall|k: u64| k != id implies (has_id(t, k) <==> #[trigger] has_id(s, k)) by {
                if has_id(t, k) {
                    let j = choose|j: int| 0 <= j < t.len() && (#[trigger] t[j]).id_of() == k;
                    if j < i {
                        assert(s[j].id_of() == k);
                    } else {
                        assert(s[j + 1].id_of() == k);
                    }
                }
                if has_id(s, k) {
                    let j = choose|j: int| 0 <= j < s.len() && (#[trigger] s[j]).id_of() == k;
                    if j < i {
                        assert(t[j].id_of() == k);
                    } else {
                        assert(t[j - 1].id_of() == k);
                    }
                }
            }
            assert(!has_id(t, id)) by {
                if has_id(t, id) {
                    let j = choose|j: int| 0 <= j < t.len() && (#[trigger] t[j]).id_of() == id;
                    if j < i {
                        assert(s[j].id_of() == id);
                    } else {
                        assert(s[j + 1].id_of() == id);
                    }
                }
            }
        },
        None => {
            lemma_without_absent(s, id);
        },
    }
}

/// Where the first element with the given id is.
pub fn find<T: Item>(v: &Vec<T>, id: u64) -> (r: Option<usize>) where T::V: HasId
    ensures
        match r {
            Some(i) => i < v@.len() && find_id(views(v@), id) == Some(i as int),
            None => find_id(views(v@), id) is None,
        },
{
    let mut i: usize = 0;
    while i < v.len()
        invariant
            i <= v@.len(),
            forall|j: int| 0 <= j < i ==> #[trigger] views(v@)[j].id_of() != id,
        decreases v@.len() - i,
    {
        if v[i].item_id() == id {
            proof {
                lemma_find_at(views(v@), id, i as int);
            }
            return Some(i);
        }
        i += 1;
    }
    proof {
        lemma_find(views(v@), id);
    }
    None
}

/// Where the first element of a queue with the given id is.
pub fn find_queued<T: Item>(v: &VecDeque<T>, id: u64) -> (r: Option<usize>) where T::V: HasId
    ensures
        match r {
            Some(i) => i < v@.len() && find_id(views(v@), id) == Some(i as int),
            None => find_id(views(v@), id) is None,
        },
{
    let mut i: usize = 0;
    while i < v.len()
        invariant
            i <= v@.len(),
            forall|j: int| 0 <= j < i ==> #[trigger] views(v@)[j].id_of() != id,
        decreases v@.len() - i,
    {
        if v[i].item_id() == id {
            proof {
                lemma_find_at(views(v@), id, i as int);
            }
            return Some(i);
        }
        i += 1;
    }
    proof {
        lemma_find(views(v@), id);
    }
    None
}

/// Drops the elements that have the given id.
pub fn drop_id<T: Item>(v: &mut Vec<T>, id: u64) where T::V: HasId
    ensures
        views(final(v)@) == without(views(old(v)@), id),
{
    let ghost start = views(v@);
    let ghost mut done: int = 0;
    let mut i: usize = 0;
    proof {
        reveal(Seq::filter);
        assert(views(v@).take(0) == Seq::<T::V>::empty());
        assert(without(start.take(0), id) == Seq::<T::V>::empty());
        assert(views(v@).skip(0) == start.skip(0));
    }
    while i < v.len()
        invariant
            start == views(old(v)@),
            i <= v@.len(),
            i <= done <= start.len(),
            views(v@).skip(i as int) == start.skip(done),
            views(v@).take(i as int) == without(start.take(done), id),
        decreases v@.len() - i,
    {
        let ghost now = v@;
        proof {
            assert(start.skip(done).len() == views(now).skip(i as int).len());
            assert(views(now)[i as int] == views(now).skip(i as int)[0]);
            assert(start[done] == start.skip(done)[0]);
            assert(start.take(done + 1) == start.take(done).push(start[done]));
            lemma_without_push(start.take(done), id, start[done]);
            assert(start.skip(done + 1) == start.skip(done).drop_first());
        }
        if v[i].item_id() == id {
            v.remove(i);
            assert(views(v@).take(i as int) == views(now).take(i as int));
            assert(views(v@).skip(i as int) == views(now).skip(i as int).drop_first());
        } else {
            assert(views(now).take(i + 1) == views(now).take(i as int).push(views(now)[i as int]));
            assert(views(now).skip(i + 1) == views(now).skip(i as int).drop_first());
            i += 1;
        }
        proof {
            done = done + 1;
        }
    }
    proof {
        assert(start.skip(done).len() == 0);
        assert(start.take(done) == start);
        assert(views(v@).take(i as int) == views(v@));
    }
}

/// Drops the oldest elements of a queue until no more than `max` are left.
pub fn trim_queued<T: View>(v: &mut VecDeque<T>, max: usize)
    ensures
        views(final(v)@) == keep_last(views(old(v)@), max as nat),
{
    let ghost start = views(v@);
    assert(start.skip(0) == start);
    while v.len() > max
        invariant
            start == views(old(v)@),
            v@.len() <= start.len(),
            views(v@) == start.skip(start.len() - v@.len()),
            start.len() > max ==> v@.len() >= max,
            start.len() <= max ==> v@.len() == start.len(),
        decreases v@.len(),
    {
        let ghost before = v@;
        v.pop_front();
        assert(views(v@) =~= views(before).skip(1));
    }
}

/// Drops the elements of a queue that have the given id.
pub fn drop_queued<T: Item>(v: &mut VecDeque<T>, id: u64) where T::V: HasId
    ensures
        views(final(v)@) == without(views(old(v)@), id),
{
    let ghost start = views(v@);
    let ghost mut done: int = 0;
    let mut i: usize = 0;
    proof {
        reveal(Seq::filter);
        assert(views(v@).take(0) == Seq::<T::V>::empty());
        assert(without(start.take(0), id) == Seq::<T::V>::empty());
        assert(views(v@).skip(0) == start.skip(0));
    }
    while i < v.len()
        invariant
            start == views(old(v)@),
            i <= v@.len(),
            i <= done <= start.len(),
            views(v@).skip(i as int) == start.skip(done),
            views(v@).take(i as int) == without(start.take(done), id),
        decreases v@.len() - i,
    {
        let ghost now = v@;
        proof {
            assert(start.skip(done).len() == views(now).skip(i as int).len());
            assert(views(now)[i as int] == views(now).skip(i as int)[0]);
            assert(start[done] == start.skip(done)[0]);
            assert(start.take(done + 1) == start.take(done).push(start[done]));
            lemma_without_push(start.take(done), id, start[done]);
            assert(start.skip(done + 1) == start.skip(done).drop_first());
        }
        if v[i].item_id() == id {
            v.remove(i);
            assert(views(v@).take(i as int) == views(now).take(i as int));
            assert(views(v@).skip(i as int) == views(now).skip(i as int).drop_first());
        } else {
            assert(views(now).take(i + 1) == views(now).take(i as int).push(views(now)[i as int]));
            assert(views(now).skip(i + 1) == views(now).skip(i as int).drop_first());
            i += 1;
        }
        proof {
            done = done + 1;
        }
    }
    proof {
        assert(start.skip(done).len() == 0);
        assert(start.take(done) == start);
        assert(views(v@).take(i as int) == views(v@));
    }
}

} // verus!
