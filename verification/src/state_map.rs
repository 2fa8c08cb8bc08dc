//! The dynamic side: an owned, mutable mapping from string keys to dynamic
//! values, viewed as a mathematical map from character sequences to values.
//!
//! The mapping is stored as a vector of key/value entries whose keys are
//! pairwise distinct; `get` and `set` keep that invariant and are specified
//! against the abstract map view.

use vstd::prelude::*;

use crate::value::{str_of, DynValue};

verus! {

/// The abstract map a sequence of key/value entries stands for; a later
/// entry for the same key wins, though well-formed maps never hold two
/// entries with one key.
spec fn entries_map(s: Seq<(String, DynValue)>) -> Map<Seq<char>, DynValue>
    decreases s.len(),
{
    if s.len() == 0 {
        Map::empty()
    } else {
        entries_map(s.drop_last()).insert(s.last().0@, s.last().1)
    }
}

/// A string-keyed store of dynamic values: the loosely typed source a
/// grooming record is extracted from.
#[derive(Debug)]
pub struct GroomingStateMap {
    entries: Vec<(String, DynValue)>,
}

impl View for GroomingStateMap {
    type V = Map<Seq<char>, DynValue>;

    closed spec fn view(&self) -> Map<Seq<char>, DynValue> {
        entries_map(self.entries@)
    }
}

/// The keys of `s` are pairwise distinct.
spec fn entries_distinct(s: Seq<(String, DynValue)>) -> bool {
    forall|i: int, j: int| 0 <= i < j < s.len() ==> s[i].0@ != s[j].0@
}

/// A key occurs in `entries_map(s)` exactly when some entry of `s` holds it.
proof fn lemma_entries_map_contains(s: Seq<(String, DynValue)>, k: Seq<char>)
    ensures
        entries_map(s).contains_key(k) <==> exists|i: int| 0 <= i < s.len() && s[i].0@ == k,
    decreases s.len(),
{
    if s.len() > 0 {
        lemma_entries_map_contains(s.drop_last(), k);
        if s.last().0@ == k {
            assert(s[s.len() - 1].0@ == k);
        } else if exists|i: int| 0 <= i < s.len() && s[i].0@ == k {
            let i = choose|i: int| 0 <= i < s.len() && s[i].0@ == k;
            assert(s.drop_last()[i].0@ == k);
        }
    }
}

/// With distinct keys, the entry holding a key gives the map's value at it.
proof fn lemma_entries_map_at(s: Seq<(String, DynValue)>, i: int)
    requires
        entries_distinct(s),
        0 <= i < s.len(),
    ensures
        entries_map(s).contains_key(s[i].0@),
        entries_map(s)[s[i].0@] == s[i].1,
    decreases s.len(),
{
    lemma_entries_map_contains(s, s[i].0@);
    if i < s.len() - 1 {
        assert(s.drop_last()[i] == s[i]);
        lemma_entries_map_at(s.drop_last(), i);
        assert(s[i].0@ != s.last().0@);
    }
}

/// With distinct keys, replacing the entry at `i` by one with an equal key
/// updates the abstract map at that key alone.
proof fn lemma_entries_map_update(s: Seq<(String, DynValue)>, i: int, p: (String, DynValue))
    requires
        entries_distinct(s),
        0 <= i < s.len(),
        p.0@ == s[i].0@,
    ensures
        entries_map(s.update(i, p)) == entries_map(s).insert(p.0@, p.1),
    decreases s.len(),
{
    let t = s.update(i, p);
    if i == s.len() - 1 {
        assert(t.drop_last() =~= s.drop_last());
        assert(t.last() == p);
        assert(entries_map(t) == entries_map(s.drop_last()).insert(p.0@, p.1));
        assert(entries_map(s).insert(p.0@, p.1) =~= entries_map(s.drop_last()).insert(
            p.0@,
            p.1,
        ));
    } else {
        assert(t.drop_last() =~= s.drop_last().update(i, p));
        assert(t.last() == s.last());
        assert(s.drop_last()[i] == s[i]);
        lemma_entries_map_update(s.drop_last(), i, p);
        assert(s[i].0@ != s.last().0@);
        assert(entries_map(s.drop_last()).insert(p.0@, p.1).insert(s.last().0@, s.last().1)
            =~= entries_map(s.drop_last()).insert(s.last().0@, s.last().1).insert(p.0@, p.1));
    }
}

/// Appending an entry inserts its key/value pair into the abstract map.
proof fn lemma_entries_map_push(s: Seq<(String, DynValue)>, p: (String, DynValue))
    ensures
        entries_map(s.push(p)) == entries_map(s).insert(p.0@, p.1),
{
    assert(s.push(p).drop_last() =~= s);
    assert(s.push(p).last() == p);
}

impl GroomingStateMap {
    /// Well-formedness: no key is stored twice.
    pub closed spec fn wf(&self) -> bool {
        entries_distinct(self.entries@)
    }

    /// An empty map, with no keys at all.
    pub fn empty() -> (r: Self)
        ensures
            r.wf(),
            r@ == Map::<Seq<char>, DynValue>::empty(),
    {
        GroomingStateMap { entries: Vec::new() }
    }

    /// Looks a key up, returning a reference to its value if it is present.
    pub fn get(&self, key: &str) -> (r: Option<&DynValue>)
        requires
            self.wf(),
        ensures
            match r {
                Some(v) => self@.contains_key(key@) && *v == self@[key@],
                None => !self@.contains_key(key@),
            },
    {
        let owned_key: String = key.to_owned();
        let n: usize = self.entries.len();
        let mut idx: usize = 0;
        while idx < n
            invariant
                self.wf(),
                n == self.entries@.len(),
                idx <= n,
                owned_key@ == key@,
                forall|j: int| 0 <= j < idx ==> self.entries@[j].0@ != key@,
            decreases n - idx,
        {
            let entry = &self.entries[idx];
            if entry.0 == owned_key {
                proof {
                    lemma_entries_map_at(self.entries@, idx as int);
                }
                return Some(&entry.1);
            }
            idx += 1;
        }
        proof {
            lemma_entries_map_contains(self.entries@, key@);
        }
        None
    }

    /// Inserts a key/value pair, overwriting any value the key already had.
    pub fn set(&mut self, key: String, value: DynValue)
        requires
            old(self).wf(),
        ensures
            final(self).wf(),
            final(self)@ == old(self)@.insert(key@, value),
    {
        let ghost orig = self.entries@;
        let n: usize = self.entries.len();
        let mut idx: usize = 0;
        while idx < n
            invariant
                entries_distinct(orig),
                orig == old(self).entries@,
                self.entries@ == orig,
                n == orig.len(),
                idx <= n,
                forall|j: int| 0 <= j < idx ==> orig[j].0@ != key@,
            decreases n - idx,
        {
            let found = self.entries[idx].0 == key;
            if found {
                proof {
                    lemma_entries_map_update(orig, idx as int, (key, value));
                    let ghost t = orig.update(idx as int, (key, value));
                    assert forall|a: int, b: int| 0 <= a < b < t.len() implies t[a].0@
                        != t[b].0@ by {
                        assert(orig[a].0@ != orig[b].0@);
                    }
                }
                self.entries[idx] = (key, value);
                proof {
                    assert(self.entries@ == orig.update(idx as int, (key, value)));
                }
                return ;
            }
            idx += 1;
        }
        proof {
            lemma_entries_map_push(orig, (key, value));
            lemma_entries_map_contains(orig, key@);
        }
        self.entries.push((key, value));
        assert(entries_distinct(self.entries@)) by {
            assert(forall|j: int| 0 <= j < orig.len() ==> self.entries@[j] == orig[j]);
        }
    }

    /// The stored entries, one per key: the read-out a serializer walks.
    /// Each entry is a key of the map with its value, and every key of the
    /// map has exactly one entry.
    pub fn entries(&self) -> (r: &Vec<(String, DynValue)>)
        requires
            self.wf(),
        ensures
            forall|i: int, j: int| 0 <= i < j < r@.len() ==> r@[i].0@ != r@[j].0@,
            forall|i: int|
                0 <= i < r@.len() ==> self@.contains_key(#[trigger] r@[i].0@) && self@[r@[i].0@]
                    == r@[i].1,
            forall|k: Seq<char>|
                self@.contains_key(k) ==> exists|i: int| 0 <= i < r@.len() && #[trigger] r@[i].0@
                    == k,
    {
        proof {
            assert forall|i: int| 0 <= i < self.entries@.len() implies self@.contains_key(
                #[trigger] self.entries@[i].0@,
            ) && self@[self.entries@[i].0@] == self.entries@[i].1 by {
                lemma_entries_map_at(self.entries@, i);
            }
            assert forall|k: Seq<char>| self@.contains_key(k) implies exists|i: int|
                0 <= i < self.entries@.len() && #[trigger] self.entries@[i].0@ == k by {
                lemma_entries_map_contains(self.entries@, k);
            }
        }
        &self.entries
    }

    /// The example map: the five schema keys, each with a valid value.
    pub fn new() -> (r: Self)
        ensures
            r.wf(),
            r@.dom() == set![
                "fur_length_cm"@,
                "brush_type"@,
                "shedding_score"@,
                "nail_trimmed"@,
                "favorite_spot"@,
            ],
            r@["fur_length_cm"@] == DynValue::Int(2i64),
            str_of(r@["brush_type"@]) == Some("slicker"@),
            r@["shedding_score"@] == DynValue::Int(7i64),
            r@["nail_trimmed"@] == DynValue::Bool(true),
            str_of(r@["favorite_spot"@]) == Some("chin"@),
    {
        let mut r = Self::empty();
        r.set("fur_length_cm".to_owned(), DynValue::Int(2));
        r.set("brush_type".to_owned(), DynValue::Str("slicker".to_owned()));
        r.set("shedding_score".to_owned(), DynValue::Int(7));
        r.set("nail_trimmed".to_owned(), DynValue::Bool(true));
        r.set("favorite_spot".to_owned(), DynValue::Str("chin".to_owned()));
        proof {
            crate::schema::lemma_schema_names_distinct();
            assert(r@.dom() =~= set![
                "fur_length_cm"@,
                "brush_type"@,
                "shedding_score"@,
                "nail_trimmed"@,
                "favorite_spot"@,
            ]);
        }
        r
    }
}

} // verus!
