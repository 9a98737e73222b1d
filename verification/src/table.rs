//! A table from names to values: the string-keyed map that the theme list
//! and the keymap are built in, where a later entry for a name replaces the
//! earlier one and each name is held once.

use vstd::prelude::*;
use crate::text::str_eq;

verus! {

/// The value of the last entry named `k` in `s`, if there is one.
pub open spec fn table_lookup<V: View>(s: Seq<(String, V)>, k: Seq<char>) -> Option<V::V>
    decreases s.len(),
{
    if s.len() == 0 {
        None
    } else if s.last().0@ == k {
        Some(s.last().1@)
    } else {
        table_lookup(s.drop_last(), k)
    }
}

/// No name occurs twice in `s`.
pub open spec fn names_distinct<V>(s: Seq<(String, V)>) -> bool {
    forall|i: int, j: int| 0 <= i < j < s.len() ==> s[i].0@ != s[j].0@
}

/// The map that the entries `s` spell.
pub open spec fn entries_map<V: View>(s: Seq<(String, V)>) -> Map<Seq<char>, V::V> {
    Map::new(|k: Seq<char>| table_lookup(s, k) is Some, |k: Seq<char>| table_lookup(s, k).unwrap())
}

/// Looking up a name that the last entry does not carry skips that entry.
pub proof fn lemma_lookup_push<V: View>(s: Seq<(String, V)>, e: (String, V), k: Seq<char>)
    ensures
        table_lookup(s.push(e), k) == (if e.0@ == k {
            Some(e.1@)
        } else {
            table_lookup(s, k)
        }),
{
    assert(s.push(e).drop_last() =~= s);
}

/// Replacing the entry at `i` by one with the same name changes only what
/// that name maps to.
pub proof fn lemma_lookup_update<V: View>(s: Seq<(String, V)>, i: int, e: (String, V), k: Seq<char>)
    requires
        names_distinct(s),
        0 <= i < s.len(),
        s[i].0@ == e.0@,
    ensures
        table_lookup(s.update(i, e), k) == (if e.0@ == k {
            Some(e.1@)
        } else {
            table_lookup(s, k)
        }),
    decreases s.len(),
{
    let u = s.update(i, e);
    if i == s.len() - 1 {
        assert(u.drop_last() =~= s.drop_last());
    } else {
        assert(u.drop_last() =~= s.drop_last().update(i, e));
        assert(s[i].0@ != s[s.len() - 1].0@);
        lemma_lookup_update(s.drop_last(), i, e, k);
    }
}

/// In a table without repeated names, each entry is what its name maps to.
pub proof fn lemma_lookup_entry<V: View>(s: Seq<(String, V)>, i: int)
    requires
        names_distinct(s),
        0 <= i < s.len(),
    ensures
        table_lookup(s, s[i].0@) == Some(s[i].1@),
    decreases s.len(),
{
    if i < s.len() - 1 {
        assert(s[i].0@ != s[s.len() - 1].0@);
        assert(s.drop_last()[i] == s[i]);
        lemma_lookup_entry(s.drop_last(), i);
    }
}

/// A name that the lookup finds is the name of some entry.
pub proof fn lemma_lookup_found<V: View>(s: Seq<(String, V)>, k: Seq<char>)
    requires
        table_lookup(s, k) is Some,
    ensures
        exists|i: int| 0 <= i < s.len() && s[i].0@ == k && table_lookup(s, k) == Some(s[i].1@),
    decreases s.len(),
{
    if s.last().0@ != k {
        lemma_lookup_found(s.drop_last(), k);
        let i = choose|i: int|
            0 <= i < s.drop_last().len() && s.drop_last()[i].0@ == k && table_lookup(s.drop_last(), k)
                == Some(s.drop_last()[i].1@);
        assert(s[i] == s.drop_last()[i]);
    }
}

/// A name that some entry carries is found.
pub proof fn lemma_lookup_some<V: View>(s: Seq<(String, V)>, i: int)
    requires
        0 <= i < s.len(),
    ensures
        table_lookup(s, s[i].0@) is Some,
    decreases s.len(),
{
    if s.last().0@ != s[i].0@ {
        assert(i < s.len() - 1);
        assert(s.drop_last()[i] == s[i]);
        lemma_lookup_some(s.drop_last(), i);
    }
}

/// A name that no entry carries is not found.
pub proof fn lemma_lookup_absent<V: View>(s: Seq<(String, V)>, k: Seq<char>)
    requires
        forall|i: int| 0 <= i < s.len() ==> s[i].0@ != k,
    ensures
        table_lookup(s, k) is None,
    decreases s.len(),
{
    if s.len() > 0 {
        lemma_lookup_absent(s.drop_last(), k);
    }
}

/// Binds `key` to `value` among `entries`: the entry of that name, if
/// any, is replaced, else one is added.
fn insert_entry<V: View>(entries: &mut Vec<(String, V)>, key: String, value: V)
    requires
        names_distinct(old(entries)@),
    ensures
        names_distinct(final(entries)@),
        entries_map(final(entries)@) == entries_map(old(entries)@).insert(key@, value@),
{
    let ghost old_entries = entries@;
    let ghost old_map = entries_map(entries@);
    let mut i: usize = 0;
    while i < entries.len()
        invariant
            i <= entries.len(),
            entries@ == old_entries,
            names_distinct(old_entries),
            old_map == entries_map(old_entries),
            old_map == entries_map(old(entries)@),
            forall|j: int| 0 <= j < i ==> entries@[j].0@ != key@,
        decreases entries.len() - i,
    {
        if str_eq(entries[i].0.as_str(), key.as_str()) {
            let ghost e = (key, value);
            entries.set(i, (key, value));
            proof {
                assert(entries@ == old_entries.update(i as int, e));
                assert forall|k: Seq<char>|
                    #![auto]
                    table_lookup(entries@, k) == (if key@ == k {
                        Some(value@)
                    } else {
                        table_lookup(old_entries, k)
                    }) by {
                    lemma_lookup_update(old_entries, i as int, e, k);
                }
                assert(entries_map(entries@) =~= entries_map(old(entries)@).insert(key@, value@));
                assert(names_distinct(entries@));
            }
            return ;
        }
        i = i + 1;
    }
    let ghost e = (key, value);
    entries.push((key, value));
    proof {
        assert(entries@ == old_entries.push(e));
        assert forall|k: Seq<char>|
            #![auto]
            table_lookup(entries@, k) == (if key@ == k {
                Some(value@)
            } else {
                table_lookup(old_entries, k)
            }) by {
            lemma_lookup_push(old_entries, e, k);
        }
        assert(entries_map(entries@) =~= entries_map(old(entries)@).insert(key@, value@));
        assert(names_distinct(entries@));
    }
}

/// Values keyed by name, each name held once.
pub struct Table<V: View> {
    entries: Vec<(String, V)>,
}

impl<V: View> View for Table<V> {
    type V = Map<Seq<char>, V::V>;

    closed spec fn view(&self) -> Map<Seq<char>, V::V> {
        entries_map(self.entries@)
    }
}

impl<V: View> Table<V> {
    /// Each name occurs once among the entries.
    #[verifier::type_invariant]
    spec fn names_once(&self) -> bool {
        names_distinct(self.entries@)
    }

    /// An empty table.
    pub fn new() -> (t: Self)
        ensures
            t@ == Map::<Seq<char>, V::V>::empty(),
    {
        let t = Table { entries: Vec::new() };
        assert(t@ =~= Map::<Seq<char>, V::V>::empty());
        t
    }

    /// Binds `key` to `value`, replacing what `key` was bound to.
    pub fn insert(&mut self, key: String, value: V)
        ensures
            final(self)@ == old(self)@.insert(key@, value@),
    {
        proof {
            use_type_invariant(&*self);
        }
        let mut entries: Vec<(String, V)> = Vec::new();
        std::mem::swap(&mut entries, &mut self.entries);
        insert_entry(&mut entries, key, value);
        self.entries = entries;
    }

    /// What `key` is bound to.
    pub fn get(&self, key: &str) -> (r: Option<&V>)
        ensures
            match r {
                Some(v) => self@.contains_key(key@) && self@[key@] == v@,
                None => !self@.contains_key(key@),
            },
    {
        let mut i: usize = self.entries.len();
        assert(self.entries@.take(i as int) =~= self.entries@);
        while i > 0
            invariant
                i <= self.entries.len(),
                table_lookup(self.entries@, key@) == table_lookup(self.entries@.take(i as int), key@),
            decreases i,
        {
            let ghost t = self.entries@.take(i as int);
            assert(t.drop_last() =~= self.entries@.take(i - 1));
            if str_eq(self.entries[i - 1].0.as_str(), key) {
                return Some(&self.entries[i - 1].1);
            }
            i = i - 1;
        }
        None
    }

    /// The entries, each name once, each with the value it is bound to.
    pub fn into_entries(self) -> (r: Vec<(String, V)>)
        ensures
            names_distinct(r@),
            forall|i: int|
                0 <= i < r@.len() ==> #[trigger] self@.contains_key(r@[i].0@) && self@[r@[i].0@]
                    == r@[i].1@,
            forall|k: Seq<char>|
                #[trigger] self@.contains_key(k) ==> exists|i: int|
                    0 <= i < r@.len() && r@[i].0@ == k,
    {
        proof {
            use_type_invariant(&self);
            assert forall|i: int| 0 <= i < self.entries@.len() implies #[trigger] self@.contains_key(
                self.entries@[i].0@,
            ) && self@[self.entries@[i].0@] == self.entries@[i].1@ by {
                lemma_lookup_entry(self.entries@, i);
            }
            assert forall|k: Seq<char>| #[trigger] self@.contains_key(k) implies exists|i: int|
                0 <= i < self.entries@.len() && self.entries@[i].0@ == k by {
                lemma_lookup_found(self.entries@, k);
            }
        }
        self.entries
    }
}

} // verus!
