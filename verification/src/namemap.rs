//! A small name-keyed map used for a frame's variables and for a block's
//! label table. Keys are variable or label names; a later insert of the
//! same name replaces the earlier binding.

use vstd::prelude::*;

verus! {

/// A map from names to values, abstracted as a `vstd` map from character
/// sequences.
pub struct NameMap<V> {
    entries: Vec<(String, V)>,
}

impl<V> NameMap<V> {
    /// The abstract content of the map.
    pub closed spec fn view(&self) -> Map<Seq<char>, V> {
        entries_map(self.entries@)
    }

    /// Keys are pairwise distinct, so each name has one binding.
    #[verifier::type_invariant]
    spec fn inv(&self) -> bool {
        keys_distinct(self.entries@)
    }

    /// An empty map.
    pub fn new() -> (r: Self)
        ensures
            r@ == Map::<Seq<char>, V>::empty(),
    {
        let r = NameMap { entries: Vec::new() };
        proof {
            assert(r@ =~= Map::<Seq<char>, V>::empty());
        }
        r
    }

    /// How many names are bound.
    pub fn len(&self) -> (r: usize)
        ensures
            r == self@.dom().len(),
    {
        proof {
            use_type_invariant(&*self);
            lemma_entries_len(self.entries@);
        }
        self.entries.len()
    }

    /// Binds a name, replacing any earlier binding of the same name.
    pub fn insert(&mut self, key: String, value: V)
        ensures
            final(self)@ == old(self)@.insert(key@, value),
    {
        proof {
            use_type_invariant(&*self);
        }
        let n = self.entries.len();
        let mut i: usize = 0;
        let mut found: bool = false;
        while i < n && !found
            invariant
                n == self.entries@.len(),
                i <= n,
                keys_distinct(self.entries@),
                self.entries@ == old(self).entries@,
                forall|k: int| 0 <= k < i ==> (#[trigger] self.entries@[k].0@) != key@,
                found ==> i < n && self.entries@[i as int].0@ == key@,
            decreases n - i, (if found { 0int } else { 1int }),
        {
            let hit = self.entries[i].0.eq(&key);
            if hit {
                found = true;
            } else {
                i = i + 1;
            }
        }
        let mut entries: Vec<(String, V)> = Vec::new();
        core::mem::swap(&mut entries, &mut self.entries);
        if found {
            proof {
                lemma_entries_update(entries@, i as int, key@);
            }
            entries[i] = (key, value);
        } else {
            proof {
                lemma_entries_push(entries@, key@);
            }
            entries.push((key, value));
        }
        self.entries = entries;
    }

    /// Unbinds a name; absent names are left alone.
    pub fn remove(&mut self, key: &String)
        ensures
            final(self)@ == old(self)@.remove(key@),
    {
        proof {
            use_type_invariant(&*self);
        }
        let n = self.entries.len();
        let mut i: usize = 0;
        let mut found: bool = false;
        while i < n && !found
            invariant
                n == self.entries@.len(),
                i <= n,
                keys_distinct(self.entries@),
                self.entries@ == old(self).entries@,
                forall|k: int| 0 <= k < i ==> (#[trigger] self.entries@[k].0@) != key@,
                found ==> i < n && self.entries@[i as int].0@ == key@,
            decreases n - i, (if found { 0int } else { 1int }),
        {
            let hit = self.entries[i].0.eq(key);
            if hit {
                found = true;
            } else {
                i = i + 1;
            }
        }
        if !found {
            proof {
                lemma_entries_missing(self.entries@, key@);
                assert(self@.remove(key@) =~= self@);
            }
            return ;
        }
        let mut entries: Vec<(String, V)> = Vec::new();
        core::mem::swap(&mut entries, &mut self.entries);
        proof {
            lemma_entries_remove(entries@, i as int);
        }
        let _ = entries.remove(i);
        self.entries = entries;
    }

    /// Looks a name up.
    pub fn get(&self, key: &String) -> (r: Option<&V>)
        ensures
            match r {
                Some(v) => self@.contains_key(key@) && *v == self@[key@],
                None => !self@.contains_key(key@),
            },
    {
        proof {
            use_type_invariant(&*self);
        }
        let n = self.entries.len();
        let mut i: usize = 0;
        while i < n
            invariant
                n == self.entries@.len(),
                i <= n,
                keys_distinct(self.entries@),
                forall|k: int| 0 <= k < i ==> (#[trigger] self.entries@[k].0@) != key@,
            decreases n - i,
        {
            let hit = self.entries[i].0.eq(key);
            if hit {
                proof {
                    lemma_entries_found(self.entries@, i as int);
                }
                return Some(&self.entries[i].1);
            }
            i = i + 1;
        }
        proof {
            lemma_entries_missing(self.entries@, key@);
        }
        None
    }

    /// Whether a name is bound.
    pub fn contains(&self, key: &String) -> (r: bool)
        ensures
            r == self@.contains_key(key@),
    {
        match self.get(key) {
            Some(_) => true,
            None => false,
        }
    }
}

/// Pairwise distinct key names.
pub open spec fn keys_distinct<V>(s: Seq<(String, V)>) -> bool {
    forall|a: int, b: int| 0 <= a < b < s.len() ==> (#[trigger] s[a].0@) != (#[trigger] s[b].0@)
}

/// The map a list of bindings denotes; later entries win.
pub open spec fn entries_map<V>(s: Seq<(String, V)>) -> Map<Seq<char>, V>
    decreases s.len(),
{
    if s.len() == 0 {
        Map::empty()
    } else {
        entries_map(s.drop_last()).insert(s.last().0@, s.last().1)
    }
}

proof fn lemma_entries_found<V>(s: Seq<(String, V)>, i: int)
    requires
        0 <= i < s.len(),
        keys_distinct(s),
    ensures
        entries_map(s).contains_key(s[i].0@),
        entries_map(s)[s[i].0@] == s[i].1,
    decreases s.len(),
{
    if i == s.len() - 1 {
    } else {
        assert(forall|a: int, b: int|
            0 <= a < b < s.drop_last().len() ==> (#[trigger] s.drop_last()[a].0@) != (
            #[trigger] s.drop_last()[b].0@));
        lemma_entries_found(s.drop_last(), i);
        assert(s.drop_last()[i] == s[i]);
        assert(s[i].0@ != s.last().0@);
    }
}

proof fn lemma_entries_missing<V>(s: Seq<(String, V)>, k: Seq<char>)
    requires
        forall|i: int| 0 <= i < s.len() ==> (#[trigger] s[i].0@) != k,
    ensures
        !entries_map(s).contains_key(k),
    decreases s.len(),
{
    if s.len() > 0 {
        assert(forall|i: int|
            0 <= i < s.drop_last().len() ==> (#[trigger] s.drop_last()[i].0@) == s[i].0@);
        lemma_entries_missing(s.drop_last(), k);
    }
}

proof fn lemma_entries_push<V>(s: Seq<(String, V)>, k: Seq<char>)
    ensures
        forall|key: String, value: V|
            key@ == k ==> entries_map(s.push((key, value))) == entries_map(s).insert(k, value),
        forall|key: String, value: V|
            (key@ == k && keys_distinct(s) && (forall|i: int|
                0 <= i < s.len() ==> (#[trigger] s[i].0@) != k)) ==> keys_distinct(
                s.push((key, value)),
            ),
{
    assert forall|key: String, value: V| key@ == k implies entries_map(s.push((key, value)))
        == entries_map(s).insert(k, value) by {
        let s2 = s.push((key, value));
        assert(s2.drop_last() =~= s);
        assert(s2.last() == (key, value));
    }
    assert forall|key: String, value: V|
        (key@ == k && keys_distinct(s) && (forall|i: int|
            0 <= i < s.len() ==> (#[trigger] s[i].0@) != k)) implies keys_distinct(
        s.push((key, value)),
    ) by {
        let s2 = s.push((key, value));
        assert forall|a: int, b: int| 0 <= a < b < s2.len() implies (#[trigger] s2[a].0@) != (
        #[trigger] s2[b].0@) by {
            if b < s.len() {
                assert(s2[a] == s[a] && s2[b] == s[b]);
            } else {
                assert(s2[a] == s[a] && s2[b].0@ == k);
            }
        }
    }
}

proof fn lemma_entries_update<V>(s: Seq<(String, V)>, i: int, k: Seq<char>)
    requires
        0 <= i < s.len(),
        s[i].0@ == k,
        keys_distinct(s),
    ensures
        forall|key: String, value: V|
            key@ == k ==> entries_map(s.update(i, (key, value))) == entries_map(s).insert(
                k,
                value,
            ),
        forall|key: String, value: V| key@ == k ==> keys_distinct(s.update(i, (key, value))),
{
    assert forall|key: String, value: V| key@ == k implies entries_map(s.update(i, (key, value)))
        == entries_map(s).insert(k, value) && keys_distinct(s.update(i, (key, value))) by {
        let s2 = s.update(i, (key, value));
        assert forall|a: int, b: int| 0 <= a < b < s2.len() implies (#[trigger] s2[a].0@) != (
        #[trigger] s2[b].0@) by {
            assert(s[a].0@ != s[b].0@);
        }
        lemma_entries_update_one(s, i, key, value);
    }
}

proof fn lemma_entries_update_one<V>(s: Seq<(String, V)>, i: int, key: String, value: V)
    requires
        0 <= i < s.len(),
        s[i].0@ == key@,
        keys_distinct(s),
    ensures
        entries_map(s.update(i, (key, value))) == entries_map(s).insert(key@, value),
    decreases s.len(),
{
    let s2 = s.update(i, (key, value));
    if i == s.len() - 1 {
        assert(s2.drop_last() =~= s.drop_last());
        assert(s2.last() == (key, value));
    } else {
        assert(s2.drop_last() =~= s.drop_last().update(i, (key, value)));
        assert(s2.last() == s.last());
        assert(forall|a: int, b: int|
            0 <= a < b < s.drop_last().len() ==> (#[trigger] s.drop_last()[a].0@) != (
            #[trigger] s.drop_last()[b].0@));
        assert(s.drop_last()[i] == s[i]);
        lemma_entries_update_one(s.drop_last(), i, key, value);
        assert(entries_map(s2.drop_last()) == entries_map(s.drop_last()).insert(key@, value));
        assert(s.last().0@ != key@);
        assert(entries_map(s2) =~= entries_map(s).insert(key@, value));
    }
}

proof fn lemma_entries_remove<V>(s: Seq<(String, V)>, i: int)
    requires
        0 <= i < s.len(),
        keys_distinct(s),
    ensures
        entries_map(s.remove(i)) == entries_map(s).remove(s[i].0@),
        keys_distinct(s.remove(i)),
    decreases s.len(),
{
    let s2 = s.remove(i);
    assert(forall|a: int|
        0 <= a < s2.len() ==> s2[a] == (if a < i {
            s[a]
        } else {
            s[a + 1]
        }));
    assert forall|a: int, b: int| 0 <= a < b < s2.len() implies (#[trigger] s2[a].0@) != (
    #[trigger] s2[b].0@) by {
        let a0: int = if a < i {
            a
        } else {
            a + 1
        };
        let b0: int = if b < i {
            b
        } else {
            b + 1
        };
        assert(s[a0].0@ != s[b0].0@);
    }
    if i == s.len() - 1 {
        assert(s2 =~= s.drop_last());
        lemma_entries_missing(s.drop_last(), s.last().0@);
        assert(entries_map(s) == entries_map(s.drop_last()).insert(s.last().0@, s.last().1));
        assert(entries_map(s2) =~= entries_map(s).remove(s[i].0@));
    } else {
        assert(s2.drop_last() =~= s.drop_last().remove(i));
        assert(s2.last() == s.last());
        assert(s.drop_last()[i] == s[i]);
        assert(forall|a: int, b: int|
            0 <= a < b < s.drop_last().len() ==> (#[trigger] s.drop_last()[a].0@) != (
            #[trigger] s.drop_last()[b].0@));
        lemma_entries_remove(s.drop_last(), i);
        assert(entries_map(s2) == entries_map(s.drop_last().remove(i)).insert(
            s2.last().0@,
            s2.last().1,
        ));
        assert(s.last().0@ != s[i].0@);
        assert(entries_map(s2) =~= entries_map(s).remove(s[i].0@));
    }
}

proof fn lemma_entries_len<V>(s: Seq<(String, V)>)
    requires
        keys_distinct(s),
    ensures
        entries_map(s).dom().len() == s.len(),
        entries_map(s).dom().finite(),
    decreases s.len(),
{
    if s.len() > 0 {
        assert(forall|a: int, b: int|
            0 <= a < b < s.drop_last().len() ==> (#[trigger] s.drop_last()[a].0@) != (
            #[trigger] s.drop_last()[b].0@));
        lemma_entries_len(s.drop_last());
        lemma_entries_missing(s.drop_last(), s.last().0@);
    }
}

} // verus!
