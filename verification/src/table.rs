//! A small map with string keys, kept as a list of entries.

use vstd::prelude::*;

use crate::text::str_eq;

verus! {

/// A map from strings to values. Meant for a handful of entries: every
/// operation walks the list.
#[derive(Debug)]
pub struct StrMap<V> {
    pub entries: Vec<(String, V)>,
}

/// The map that a list of entries stands for; a later entry replaces an
/// earlier one with the same key.
pub open spec fn entries_view<V>(s: Seq<(String, V)>) -> Map<Seq<char>, V>
    decreases s.len(),
{
    if s.len() == 0 {
        Map::empty()
    } else {
        entries_view(s.drop_last()).insert(s.last().0@, s.last().1)
    }
}

impl<V> View for StrMap<V> {
    type V = Map<Seq<char>, V>;

    open spec fn view(&self) -> Map<Seq<char>, V> {
        entries_view(self.entries@)
    }
}

pub proof fn lemma_entries_push<V>(s: Seq<(String, V)>, e: (String, V))
    ensures
        entries_view(s.push(e)) == entries_view(s).insert(e.0@, e.1),
{
    assert(s.push(e).drop_last() == s);
}

/// The last entry with a key is the one the map shows.
proof fn lemma_entries_get<V>(s: Seq<(String, V)>, key: Seq<char>, i: int)
    requires
        -1 <= i < s.len(),
        i >= 0 ==> s[i].0@ == key,
        forall|k: int| i < k < s.len() ==> #[trigger] s[k].0@ != key,
    ensures
        entries_view(s).contains_key(key) == (i >= 0),
        i >= 0 ==> entries_view(s)[key] == s[i].1,
    decreases s.len(),
{
    if s.len() > 0 && i < s.len() - 1 {
        let t = s.drop_last();
        assert forall|k: int| i < k < t.len() implies #[trigger] t[k].0@ != key by {
            assert(s[k].0@ != key);
        }
        lemma_entries_get(t, key, i);
        assert(s[s.len() - 1].0@ != key);
    }
}

impl<V> StrMap<V> {
    /// The map without entries.
    pub fn new() -> (r: StrMap<V>)
        ensures
            r@ == Map::<Seq<char>, V>::empty(),
    {
        StrMap { entries: Vec::new() }
    }

    /// The value at `key`.
    pub fn get(&self, key: &str) -> (r: Option<&V>)
        ensures
            match r {
                Some(v) => self@.contains_key(key@) && *v == self@[key@],
                None => !self@.contains_key(key@),
            },
    {
        let mut i: usize = self.entries.len();
        while i > 0
            invariant
                i <= self.entries@.len(),
                forall|k: int|
                    i <= k < self.entries@.len() ==> #[trigger] self.entries@[k].0@ != key@,
            decreases i,
        {
            if str_eq(self.entries[i - 1].0.as_str(), key) {
                proof {
                    lemma_entries_get(self.entries@, key@, i - 1);
                }
                return Some(&self.entries[i - 1].1);
            }
            i -= 1;
        }
        proof {
            lemma_entries_get(self.entries@, key@, -1);
        }
        None
    }

    /// Removes `key` and hands out what was there.
    pub fn take(&mut self, key: &str) -> (r: Option<V>)
        ensures
            final(self)@ == old(self)@.remove(key@),
            match r {
                Some(v) => old(self)@.contains_key(key@) && v == old(self)@[key@],
                None => !old(self)@.contains_key(key@),
            },
    {
        let ghost start = self.entries@;
        let ghost mut done: int = 0;
        let mut found: Option<V> = None;
        let mut i: usize = 0;
        assert(self.entries@.take(0) == Seq::<(String, V)>::empty());
        assert(start.take(0) == Seq::<(String, V)>::empty());
        assert(Map::<Seq<char>, V>::empty().remove(key@) == Map::<Seq<char>, V>::empty());
        while i < self.entries.len()
            invariant
                start == old(self).entries@,
                i <= self.entries@.len(),
                i <= done <= start.len(),
                self.entries@.skip(i as int) == start.skip(done),
                entries_view(self.entries@.take(i as int)) == entries_view(start.take(done)).remove(
                    key@,
                ),
                match found {
                    Some(v) => entries_view(start.take(done)).contains_key(key@) && v
                        == entries_view(start.take(done))[key@],
                    None => !entries_view(start.take(done)).contains_key(key@),
                },
            decreases self.entries@.len() - i,
        {
            let ghost now = self.entries@;
            assert(start.skip(done).len() == now.skip(i as int).len());
            assert(now[i as int] == now.skip(i as int)[0]);
            assert(start[done] == start.skip(done)[0]);
            assert(start.take(done + 1) == start.take(done).push(start[done]));
            proof {
                lemma_entries_push(start.take(done), start[done]);
            }
            if str_eq(self.entries[i].0.as_str(), key) {
                let (_, v) = self.entries.remove(i);
                found = Some(v);
                assert(self.entries@.take(i as int) == now.take(i as int));
                assert(self.entries@.skip(i as int) == now.skip(i as int).drop_first());
                assert(start.skip(done + 1) == start.skip(done).drop_first());
                assert(entries_view(start.take(done + 1)).remove(key@) == entries_view(
                    start.take(done),
                ).remove(key@));
            } else {
                assert(now.take(i + 1) == now.take(i as int).push(now[i as int]));
                proof {
                    lemma_entries_push(now.take(i as int), now[i as int]);
                }
                assert(now.skip(i + 1) == now.skip(i as int).drop_first());
                assert(start.skip(done + 1) == start.skip(done).drop_first());
                assert(entries_view(now.take(i + 1)) == entries_view(start.take(done + 1)).remove(
                    key@,
                ));
                i += 1;
            }
            proof {
                done = done + 1;
            }
        }
        assert(start.skip(done).len() == 0);
        assert(start.take(done) == start);
        assert(self.entries@.take(i as int) == self.entries@);
        found
    }

    /// Sets `key` to `v`.
    pub fn insert(&mut self, key: String, v: V)
        ensures
            final(self)@ == old(self)@.insert(key@, v),
    {
        self.take(key.as_str());
        let ghost rest = self.entries@;
        self.entries.push((key, v));
        proof {
            lemma_entries_push(rest, (key, v));
        }
        assert(old(self)@.remove(key@).insert(key@, v) == old(self)@.insert(key@, v));
    }

    /// Whether the map has no entries.
    pub fn is_empty(&self) -> (r: bool)
        ensures
            r == (self@ == Map::<Seq<char>, V>::empty()),
    {
        proof {
            if self.entries@.len() > 0 {
                assert(self@.contains_key(self.entries@.last().0@));
            }
        }
        self.entries.len() == 0
    }
}

} // verus!
