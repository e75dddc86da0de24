//! Per-request session storage: the mutable key/value map that the session
//! layer attaches to each request under a client-presented token.

use vstd::prelude::*;

verus! {

/// Whether no key occurs twice among the entries.
pub open spec fn keys_distinct(s: Seq<(String, i64)>) -> bool {
    forall|i: int, j: int| 0 <= i < j < s.len() ==> s[i].0@ != s[j].0@
}

/// The map that a list of entries denotes; a later binding of a key wins.
pub open spec fn map_of(s: Seq<(String, i64)>) -> Map<Seq<char>, i64>
    decreases s.len(),
{
    if s.len() == 0 {
        Map::<Seq<char>, i64>::empty()
    } else {
        map_of(s.drop_last()).insert(s.last().0@, s.last().1)
    }
}

/// Whether some entry of `s` binds the key `k`.
pub open spec fn binds(s: Seq<(String, i64)>, k: Seq<char>) -> bool {
    exists|i: int| 0 <= i < s.len() && s[i].0@ == k
}

proof fn lemma_map_of_contains(s: Seq<(String, i64)>, k: Seq<char>)
    ensures
        map_of(s).contains_key(k) <==> binds(s, k),
    decreases s.len(),
{
    if s.len() == 0 {
        assert(!binds(s, k));
    } else {
        lemma_map_of_contains(s.drop_last(), k);
        if s.last().0@ == k {
            assert(s[s.len() - 1].0@ == k);
        } else {
            if binds(s.drop_last(), k) {
                let i = choose|i: int|
                    0 <= i < s.drop_last().len() && s.drop_last()[i].0@ == k;
                assert(s[i].0@ == k);
            }
            if binds(s, k) {
                let i = choose|i: int| 0 <= i < s.len() && s[i].0@ == k;
                assert(s.drop_last()[i].0@ == k);
            }
        }
    }
}

proof fn lemma_map_of_entry(s: Seq<(String, i64)>, i: int)
    requires
        keys_distinct(s),
        0 <= i < s.len(),
    ensures
        map_of(s).contains_key(s[i].0@),
        map_of(s)[s[i].0@] == s[i].1,
    decreases s.len(),
{
    if i == s.len() - 1 {
    } else {
        lemma_keys_distinct_drop_last(s);
        assert(s.drop_last()[i] == s[i]);
        lemma_map_of_entry(s.drop_last(), i);
        assert(s.last().0@ != s[i].0@);
    }
}

proof fn lemma_keys_distinct_drop_last(s: Seq<(String, i64)>)
    requires
        s.len() > 0,
        keys_distinct(s),
    ensures
        keys_distinct(s.drop_last()),
{
    assert forall|i: int, j: int|
        0 <= i < j < s.drop_last().len() implies s.drop_last()[i].0@ != s.drop_last()[j].0@ by {
        assert(s.drop_last()[i] == s[i]);
        assert(s.drop_last()[j] == s[j]);
    }
}

proof fn lemma_keys_distinct_remove(s: Seq<(String, i64)>, i: int)
    requires
        keys_distinct(s),
        0 <= i < s.len(),
    ensures
        keys_distinct(s.remove(i)),
        !binds(s.remove(i), s[i].0@),
{
    s.remove_ensures(i);
    assert forall|a: int, b: int|
        0 <= a < b < s.remove(i).len() implies s.remove(i)[a].0@ != s.remove(i)[b].0@ by {
        let a0: int = if a < i { a } else { a + 1 };
        let b0: int = if b < i { b } else { b + 1 };
        assert(s.remove(i)[a] == s[a0]);
        assert(s.remove(i)[b] == s[b0]);
    }
    assert forall|a: int| 0 <= a < s.remove(i).len() implies s.remove(i)[a].0@ != s[i].0@ by {
        let a0: int = if a < i { a } else { a + 1 };
        assert(s.remove(i)[a] == s[a0]);
    }
}

proof fn lemma_map_of_remove(s: Seq<(String, i64)>, i: int)
    requires
        keys_distinct(s),
        0 <= i < s.len(),
    ensures
        map_of(s.remove(i)) == map_of(s).remove(s[i].0@),
    decreases s.len(),
{
    let k = s[i].0@;
    if i == s.len() - 1 {
        assert(s.remove(i) =~= s.drop_last());
        lemma_map_of_contains(s.drop_last(), k);
        assert(!binds(s.drop_last(), k)) by {
            if binds(s.drop_last(), k) {
                let j = choose|j: int|
                    0 <= j < s.drop_last().len() && s.drop_last()[j].0@ == k;
                assert(s[j].0@ == k);
                assert(s[j].0@ != s[i].0@);
            }
        }
        assert(map_of(s).remove(k) =~= map_of(s.drop_last()));
    } else {
        lemma_keys_distinct_drop_last(s);
        lemma_map_of_remove(s.drop_last(), i);
        assert(s.drop_last()[i] == s[i]);
        assert(s.remove(i).drop_last() =~= s.drop_last().remove(i));
        assert(s.remove(i).last() == s.last());
        assert(s.last().0@ != k);
        assert(map_of(s.remove(i))
            == map_of(s.drop_last()).remove(k).insert(s.last().0@, s.last().1));
        assert(map_of(s.drop_last()).remove(k).insert(s.last().0@, s.last().1)
            =~= map_of(s.drop_last()).insert(s.last().0@, s.last().1).remove(k));
    }
}

proof fn lemma_map_of_push(s: Seq<(String, i64)>, key: String, value: i64)
    ensures
        map_of(s.push((key, value))) == map_of(s).insert(key@, value),
{
    assert(s.push((key, value)).drop_last() =~= s);
    assert(s.push((key, value)).last() == (key, value));
}

proof fn lemma_keys_distinct_push(s: Seq<(String, i64)>, key: String, value: i64)
    requires
        keys_distinct(s),
        !binds(s, key@),
    ensures
        keys_distinct(s.push((key, value))),
{
    let t = s.push((key, value));
    assert forall|i: int, j: int| 0 <= i < j < t.len() implies t[i].0@ != t[j].0@ by {
        if j < s.len() {
            assert(t[i] == s[i]);
            assert(t[j] == s[j]);
        } else {
            assert(t[i] == s[i]);
            assert(t[j] == (key, value));
        }
    }
}

/// The storage behind one request's session: integer values bound to
/// string keys, with at most one entry per key.
pub struct SessionData {
    entries: Vec<(String, i64)>,
}

impl SessionData {
    /// The storage, as the map it denotes.
    pub closed spec fn view(&self) -> Map<Seq<char>, i64> {
        map_of(self.entries@)
    }

    #[verifier::type_invariant]
    spec fn inv(&self) -> bool {
        keys_distinct(self.entries@)
    }

    pub fn new() -> (s: SessionData)
        ensures
            s@ == Map::<Seq<char>, i64>::empty(),
    {
        SessionData { entries: Vec::new() }
    }

    /// Bind `value` to `key`, replacing any earlier binding of `key`.
    pub fn insert(&mut self, key: String, value: i64)
        ensures
            final(self)@ == old(self)@.insert(key@, value),
    {
        proof {
            use_type_invariant(&*self);
        }
        let mut entries: Vec<(String, i64)> = Vec::new();
        std::mem::swap(&mut entries, &mut self.entries);
        let ghost s0 = entries@;
        let mut i: usize = 0;
        while i < entries.len()
            invariant
                entries@ == s0,
                old(self)@ == map_of(s0),
                keys_distinct(s0),
                i <= s0.len(),
                forall|j: int| 0 <= j < i ==> s0[j].0@ != key@,
            decreases s0.len() - i,
        {
            if entries[i].0 == key {
                proof {
                    lemma_map_of_remove(s0, i as int);
                    lemma_keys_distinct_remove(s0, i as int);
                }
                entries.remove(i);
                entries.push((key, value));
                proof {
                    lemma_map_of_push(s0.remove(i as int), key, value);
                    lemma_keys_distinct_push(s0.remove(i as int), key, value);
                    assert(map_of(entries@)
                        =~= map_of(s0).insert(key@, value));
                }
                self.entries = entries;
                return ;
            }
            i = i + 1;
        }
        proof {
            assert(!binds(s0, key@));
            lemma_map_of_contains(s0, key@);
            lemma_map_of_push(s0, key, value);
            lemma_keys_distinct_push(s0, key, value);
        }
        entries.push((key, value));
        self.entries = entries;
    }

    /// Look up the value bound to `key`, if any.
    pub fn get(&self, key: &String) -> (r: Option<i64>)
        ensures
            r == (if self@.contains_key(key@) {
                Some(self@[key@])
            } else {
                None::<i64>
            }),
    {
        proof {
            use_type_invariant(&*self);
        }
        let mut i: usize = 0;
        while i < self.entries.len()
            invariant
                keys_distinct(self.entries@),
                i <= self.entries@.len(),
                forall|j: int| 0 <= j < i ==> self.entries@[j].0@ != key@,
            decreases self.entries@.len() - i,
        {
            if self.entries[i].0 == *key {
                proof {
                    lemma_map_of_entry(self.entries@, i as int);
                }
                return Some(self.entries[i].1);
            }
            i = i + 1;
        }
        proof {
            lemma_map_of_contains(self.entries@, key@);
        }
        None
    }

    /// The entries as plain pairs, one per key.
    pub fn entries(&self) -> (r: &Vec<(String, i64)>)
        ensures
            keys_distinct(r@),
            map_of(r@) == self@,
    {
        proof {
            use_type_invariant(&*self);
        }
        &self.entries
    }
}

} // verus!
