//! An insertion-ordered map from strings to strings with distinct keys.
//! It carries CSS declarations, element attributes and route parameters.
use vstd::prelude::*;

verus! {

/// The map denoted by a sequence of key/value pairs: later pairs win.
pub open spec fn map_of(s: Seq<(Seq<char>, Seq<char>)>) -> Map<Seq<char>, Seq<char>>
    decreases s.len(),
{
    if s.len() == 0 {
        Map::empty()
    } else {
        map_of(s.drop_last()).insert(s.last().0, s.last().1)
    }
}

/// No key occurs twice in the sequence.
pub open spec fn distinct_keys(s: Seq<(Seq<char>, Seq<char>)>) -> bool {
    forall|i: int, j: int| 0 <= i < s.len() && 0 <= j < s.len() && i != j ==> s[i].0 != s[j].0
}

/// The index of the pair whose key is `k`, if there is one.
pub open spec fn key_index(s: Seq<(Seq<char>, Seq<char>)>, k: Seq<char>) -> int {
    choose|i: int| 0 <= i < s.len() && s[i].0 == k
}

/// A key has a value exactly when some pair holds it.
pub proof fn lemma_map_of_dom(s: Seq<(Seq<char>, Seq<char>)>, k: Seq<char>)
    ensures
        map_of(s).contains_key(k) <==> exists|i: int| 0 <= i < s.len() && s[i].0 == k,
    decreases s.len(),
{
    if s.len() > 0 {
        lemma_map_of_dom(s.drop_last(), k);
        if map_of(s).contains_key(k) && k != s.last().0 {
            let i: int = choose|i: int| 0 <= i < s.len() - 1 && s.drop_last()[i].0 == k;
            assert(s[i].0 == k);
        }
        if exists|i: int| 0 <= i < s.len() && s[i].0 == k {
            let i: int = choose|i: int| 0 <= i < s.len() && s[i].0 == k;
            if i < s.len() - 1 {
                assert(s.drop_last()[i].0 == k);
            }
        }
    }
}

/// With distinct keys, each pair's value is the value of its key.
pub proof fn lemma_map_of_value(s: Seq<(Seq<char>, Seq<char>)>, i: int)
    requires
        distinct_keys(s),
        0 <= i < s.len(),
    ensures
        map_of(s).contains_key(s[i].0),
        map_of(s)[s[i].0] == s[i].1,
    decreases s.len(),
{
    if i < s.len() - 1 {
        let t = s.drop_last();
        assert(distinct_keys(t));
        assert(t[i] == s[i]);
        lemma_map_of_value(t, i);
        assert(s[i].0 != s.last().0);
    }
}

/// With distinct keys, the map has one entry per pair.
pub proof fn lemma_map_of_len(s: Seq<(Seq<char>, Seq<char>)>)
    requires
        distinct_keys(s),
    ensures
        map_of(s).dom().finite(),
        map_of(s).len() == s.len(),
    decreases s.len(),
{
    if s.len() > 0 {
        let t = s.drop_last();
        assert(distinct_keys(t));
        lemma_map_of_len(t);
        lemma_map_of_dom(t, s.last().0);
        if map_of(t).contains_key(s.last().0) {
            let j: int = choose|j: int| 0 <= j < t.len() && t[j].0 == s.last().0;
            assert(s[j].0 == s[s.len() - 1].0);
        }
    }
}

/// A pair added at the end is inserted last.
pub proof fn lemma_map_of_push(s: Seq<(Seq<char>, Seq<char>)>, p: (Seq<char>, Seq<char>))
    ensures
        map_of(s.push(p)) == map_of(s).insert(p.0, p.1),
{
    assert(s.push(p).drop_last() =~= s);
}

/// Replacing a pair's value inserts the new value under its key.
pub proof fn lemma_map_of_update(s: Seq<(Seq<char>, Seq<char>)>, i: int, v: Seq<char>)
    requires
        distinct_keys(s),
        0 <= i < s.len(),
    ensures
        distinct_keys(s.update(i, (s[i].0, v))),
        map_of(s.update(i, (s[i].0, v))) == map_of(s).insert(s[i].0, v),
{
    let k = s[i].0;
    let t = s.update(i, (k, v));
    assert(distinct_keys(t));
    assert forall|x: Seq<char>| #[trigger] map_of(t).contains_key(x) == map_of(s).insert(k, v).contains_key(x)
    by {
        lemma_map_of_dom(t, x);
        lemma_map_of_dom(s, x);
        if map_of(s).contains_key(x) {
            let j: int = choose|j: int| 0 <= j < s.len() && s[j].0 == x;
            assert(t[j].0 == x);
        }
        if map_of(t).contains_key(x) {
            let j: int = choose|j: int| 0 <= j < t.len() && t[j].0 == x;
            assert(s[j].0 == x);
        }
    }
    assert forall|x: Seq<char>| #[trigger] map_of(t).contains_key(x) implies map_of(t)[x] == map_of(s).insert(k, v)[x]
    by {
        lemma_map_of_dom(t, x);
        let j: int = choose|j: int| 0 <= j < t.len() && t[j].0 == x;
        lemma_map_of_value(t, j);
        if j != i {
            assert(t[j] == s[j]);
            lemma_map_of_value(s, j);
        }
    }
    assert(map_of(t) =~= map_of(s).insert(k, v));
}

/// Dropping a pair removes its key.
pub proof fn lemma_map_of_remove(s: Seq<(Seq<char>, Seq<char>)>, i: int)
    requires
        distinct_keys(s),
        0 <= i < s.len(),
    ensures
        distinct_keys(s.remove(i)),
        map_of(s.remove(i)) == map_of(s).remove(s[i].0),
{
    let k = s[i].0;
    let t = s.remove(i);
    assert forall|a: int, b: int| 0 <= a < t.len() && 0 <= b < t.len() && a != b implies t[a].0 != t[b].0
    by {
        let a2: int = if a < i { a } else { a + 1 };
        let b2: int = if b < i { b } else { b + 1 };
        assert(t[a] == s[a2]);
        assert(t[b] == s[b2]);
    }
    assert forall|x: Seq<char>| #[trigger] map_of(t).contains_key(x) == map_of(s).remove(k).contains_key(x)
    by {
        lemma_map_of_dom(t, x);
        lemma_map_of_dom(s, x);
        if map_of(s).remove(k).contains_key(x) {
            let j: int = choose|j: int| 0 <= j < s.len() && s[j].0 == x;
            assert(j != i);
            if j < i {
                assert(t[j].0 == x);
            } else {
                assert(t[j - 1].0 == x);
            }
        }
        if map_of(t).contains_key(x) {
            let j: int = choose|j: int| 0 <= j < t.len() && t[j].0 == x;
            let j2: int = if j < i { j } else { j + 1 };
            assert(s[j2].0 == x);
            assert(x != k);
        }
    }
    assert forall|x: Seq<char>| #[trigger] map_of(t).contains_key(x) implies map_of(t)[x] == map_of(s).remove(k)[x]
    by {
        lemma_map_of_dom(t, x);
        let j: int = choose|j: int| 0 <= j < t.len() && t[j].0 == x;
        let j2: int = if j < i { j } else { j + 1 };
        assert(t[j] == s[j2]);
        lemma_map_of_value(t, j);
        lemma_map_of_value(s, j2);
    }
    assert(map_of(t) =~= map_of(s).remove(k));
}

/// An ordered string map whose keys are pairwise distinct.
///
/// It is a vector of pairs rather than a `HashMap<String, String>`: vstd
/// specifies the hash map only for key types whose hashing it models
/// (`obeys_key_model`), which it does not grant `String`, and granting it
/// would take an unproved assumption.
pub struct StringMap {
    entries: Vec<(String, String)>,
}

/// The texts of a pair of strings.
pub open spec fn pair_view(e: (String, String)) -> (Seq<char>, Seq<char>) {
    (e.0@, e.1@)
}

impl StringMap {
    /// The entries, as character sequences, in insertion order.
    pub closed spec fn pairs(&self) -> Seq<(Seq<char>, Seq<char>)> {
        self.entries@.map_values(|e: (String, String)| pair_view(e))
    }

    #[verifier::type_invariant]
    closed spec fn keys_are_distinct(&self) -> bool {
        distinct_keys(self.pairs())
    }
}

impl View for StringMap {
    type V = Map<Seq<char>, Seq<char>>;

    closed spec fn view(&self) -> Map<Seq<char>, Seq<char>> {
        map_of(self.pairs())
    }
}

impl StringMap {
    /// An empty map.
    pub fn new() -> (m: Self)
        ensures
            m@ == Map::<Seq<char>, Seq<char>>::empty(),
            m.pairs() == Seq::<(Seq<char>, Seq<char>)>::empty(),
    {
        let m = StringMap { entries: Vec::new() };
        assert(m.pairs() =~= Seq::<(Seq<char>, Seq<char>)>::empty());
        m
    }

    fn position(entries: &Vec<(String, String)>, key: &String) -> (r: Option<usize>)
        ensures
            match r {
                Some(i) => i < entries@.len() && entries@[i as int].0@ == key@,
                None => forall|j: int| 0 <= j < entries@.len() ==> entries@[j].0@ != key@,
            },
    {
        let mut i: usize = 0;
        while i < entries.len()
            invariant
                i <= entries@.len(),
                forall|j: int| 0 <= j < i ==> entries@[j].0@ != key@,
            decreases entries@.len() - i,
        {
            if entries[i].0 == *key {
                return Some(i);
            }
            i = i + 1;
        }
        None
    }

    /// The value stored under `key`, if any.
    pub fn get(&self, key: &str) -> (r: Option<String>)
        ensures
            match r {
                Some(v) => self@.contains_key(key@) && v@ == self@[key@],
                None => !self@.contains_key(key@),
            },
    {
        proof {
            use_type_invariant(self);
        }
        let k = String::from_str(key);
        let found = Self::position(&self.entries, &k);
        proof {
            lemma_map_of_dom(self.pairs(), key@);
        }
        match found {
            Some(i) => {
                proof {
                    assert(self.pairs()[i as int] == pair_view(self.entries@[i as int]));
                    lemma_map_of_value(self.pairs(), i as int);
                }
                Some(self.entries[i].1.clone())
            },
            None => {
                proof {
                    if self@.contains_key(key@) {
                        let j: int = choose|j: int| 0 <= j < self.pairs().len() && self.pairs()[j].0 == key@;
                        assert(self.entries@[j].0@ == key@);
                    }
                }
                None
            },
        }
    }

    /// Whether `key` has a value.
    pub fn contains_key(&self, key: &str) -> (b: bool)
        ensures
            b == self@.contains_key(key@),
    {
        self.get(key).is_some()
    }

    /// Stores `value` under `key`; an existing key keeps its place in the order.
    pub fn insert(&mut self, key: String, value: String)
        ensures
            final(self)@ == old(self)@.insert(key@, value@),
            (exists|i: int| 0 <= i < old(self).pairs().len() && old(self).pairs()[i].0 == key@) ==>
                final(self).pairs() == old(self).pairs().update(
                    key_index(old(self).pairs(), key@), (key@, value@)),
            !(exists|i: int| 0 <= i < old(self).pairs().len() && old(self).pairs()[i].0 == key@) ==>
                final(self).pairs() == old(self).pairs().push((key@, value@)),
    {
        proof {
            use_type_invariant(&*self);
        }
        let ghost s = self.pairs();
        let mut entries: Vec<(String, String)> = Vec::new();
        std::mem::swap(&mut entries, &mut self.entries);
        assert(entries@.map_values(|e: (String, String)| pair_view(e)) == s);
        let found = Self::position(&entries, &key);
        match found {
            Some(i) => {
                let ghost ki: int = key_index(s, key@);
                proof {
                    assert(s[i as int].0 == key@);
                    assert(s[ki].0 == key@);
                    assert(ki == i);
                    lemma_map_of_update(s, i as int, value@);
                }
                entries.set(i, (key, value));
                assert(entries@.map_values(|e: (String, String)| pair_view(e)) =~= s.update(i as int, (s[i as int].0, value@)));
            },
            None => {
                proof {
                    if exists|i: int| 0 <= i < s.len() && s[i].0 == key@ {
                        let j: int = choose|j: int| 0 <= j < s.len() && s[j].0 == key@;
                        assert(entries@[j].0@ == key@);
                    }
                    lemma_map_of_push(s, (key@, value@));
                }
                entries.push((key, value));
                assert(entries@.map_values(|e: (String, String)| pair_view(e)) =~= s.push((key@, value@)));
            },
        }
        self.entries = entries;
    }

    /// Removes the entry for `key`, if there is one; the others keep their order.
    pub fn remove(&mut self, key: &str)
        ensures
            final(self)@ == old(self)@.remove(key@),
    {
        proof {
            use_type_invariant(&*self);
        }
        let ghost s = self.pairs();
        let k = String::from_str(key);
        let mut entries: Vec<(String, String)> = Vec::new();
        std::mem::swap(&mut entries, &mut self.entries);
        assert(entries@.map_values(|e: (String, String)| pair_view(e)) == s);
        let found = Self::position(&entries, &k);
        match found {
            Some(i) => {
                proof {
                    lemma_map_of_remove(s, i as int);
                }
                entries.remove(i);
                assert(entries@.map_values(|e: (String, String)| pair_view(e)) =~= s.remove(i as int));
            },
            None => {
                proof {
                    lemma_map_of_dom(s, key@);
                    if exists|i: int| 0 <= i < s.len() && s[i].0 == key@ {
                        let j: int = choose|j: int| 0 <= j < s.len() && s[j].0 == key@;
                        assert(entries@[j].0@ == key@);
                    }
                    assert(map_of(s).remove(key@) =~= map_of(s));
                }
            },
        }
        self.entries = entries;
    }

    /// The entries in order, as owned pairs.
    pub fn entries(&self) -> (v: &Vec<(String, String)>)
        ensures
            v@.map_values(|e: (String, String)| pair_view(e)) == self.pairs(),
            self@ == map_of(self.pairs()),
            distinct_keys(self.pairs()),
    {
        proof {
            use_type_invariant(self);
        }
        &self.entries
    }

    /// Stores the text `value` under the text `key`.
    pub fn insert_str(&mut self, key: &str, value: &str)
        ensures
            final(self)@ == old(self)@.insert(key@, value@),
    {
        self.insert(String::from_str(key), String::from_str(value));
    }

    /// A map holding the given pairs; where a key repeats, the later value wins.
    pub fn from_pairs(pairs: Vec<(String, String)>) -> (m: Self)
        ensures
            m@ == map_of(pairs@.map_values(|e: (String, String)| pair_view(e))),
    {
        let mut m = StringMap::new();
        let ghost all = pairs@.map_values(|e: (String, String)| pair_view(e));
        let mut i: usize = 0;
        assert(all.take(0) =~= Seq::<(Seq<char>, Seq<char>)>::empty());
        while i < pairs.len()
            invariant
                i <= pairs@.len(),
                all == pairs@.map_values(|e: (String, String)| pair_view(e)),
                m@ == map_of(all.take(i as int)),
            decreases pairs@.len() - i,
        {
            let k = pairs[i].0.clone();
            let v = pairs[i].1.clone();
            m.insert(k, v);
            proof {
                assert(all.take(i + 1).drop_last() =~= all.take(i as int));
                assert(all.take(i + 1).last() == all[i as int]);
            }
            i = i + 1;
        }
        assert(all.take(pairs@.len() as int) =~= all);
        m
    }

    /// Whether the two maps hold the same entries, whatever their order.
    pub fn same_entries(&self, other: &StringMap) -> (b: bool)
        ensures
            b == (self@ == other@),
    {
        proof {
            use_type_invariant(self);
            use_type_invariant(other);
            lemma_map_of_len(self.pairs());
            lemma_map_of_len(other.pairs());
        }
        if self.entries.len() != other.len() {
            return false;
        }
        let ghost s = self.pairs();
        let mut i: usize = 0;
        while i < self.entries.len()
            invariant
                s == self.pairs(),
                distinct_keys(s),
                self@ == map_of(s),
                i <= self.entries@.len(),
                self.entries@.len() == s.len(),
                forall|j: int| 0 <= j < i ==> other@.contains_key(#[trigger] s[j].0) && other@[s[j].0] == s[j].1,
            decreases self.entries@.len() - i,
        {
            assert(s[i as int] == pair_view(self.entries@[i as int]));
            let found = other.get(self.entries[i].0.as_str());
            proof {
                lemma_map_of_value(s, i as int);
            }
            match found {
                Some(v) => {
                    if v != self.entries[i].1 {
                        return false;
                    }
                },
                None => {
                    return false;
                },
            }
            i = i + 1;
        }
        proof {
            assert forall|k: Seq<char>| #[trigger] self@.contains_key(k) implies other@.contains_key(k)
                && other@[k] == self@[k] by {
                lemma_map_of_dom(s, k);
                let j: int = choose|j: int| 0 <= j < s.len() && s[j].0 == k;
                lemma_map_of_value(s, j);
            }
            vstd::set_lib::lemma_subset_equality(self@.dom(), other@.dom());
            assert(self@ =~= other@);
        }
        true
    }

    /// The number of entries.
    pub fn len(&self) -> (n: usize)
        ensures
            n == self.pairs().len(),
            n == self@.len(),
            self@.dom().finite(),
    {
        proof {
            use_type_invariant(self);
            lemma_map_of_len(self.pairs());
        }
        self.entries.len()
    }
}

} // verus!
