//! A map from text keys to text values, as the handlers use for query
//! parameters and for the trash index of each user.

use vstd::prelude::*;

verus! {

/// An entry of a `StrMap`, by the characters of its key and value.
pub type EntryView = (Seq<char>, Seq<char>);

/// The map that a list of entries describes, later entries winning.
pub open spec fn map_of(s: Seq<EntryView>) -> Map<Seq<char>, Seq<char>>
    decreases s.len(),
{
    if s.len() == 0 {
        Map::empty()
    } else {
        map_of(s.drop_last()).insert(s.last().0, s.last().1)
    }
}

/// No key occurs twice among the entries.
pub open spec fn keys_distinct(s: Seq<EntryView>) -> bool {
    forall|i: int, j: int| 0 <= i < j < s.len() ==> s[i].0 != s[j].0
}

/// The entries of a list of string pairs, by their characters.
pub open spec fn entries_view(v: Seq<(String, String)>) -> Seq<EntryView> {
    v.map_values(|p: (String, String)| (p.0@, p.1@))
}

proof fn lemma_map_of(s: Seq<EntryView>)
    requires
        keys_distinct(s),
    ensures
        forall|k: Seq<char>|
            #[trigger] map_of(s).dom().contains(k) <==> exists|i: int|
                0 <= i < s.len() && s[i].0 == k,
        forall|i: int| 0 <= i < s.len() ==> #[trigger] map_of(s)[s[i].0] == s[i].1,
    decreases s.len(),
{
    if s.len() > 0 {
        let t = s.drop_last();
        assert(keys_distinct(t));
        lemma_map_of(t);
        assert(map_of(s) == map_of(t).insert(s.last().0, s.last().1));
        assert forall|k: Seq<char>|
            #[trigger] map_of(s).dom().contains(k) <==> exists|i: int|
                0 <= i < s.len() && s[i].0 == k by {
            if map_of(s).dom().contains(k) {
                if k != s.last().0 {
                    assert(map_of(t).dom().contains(k));
                    let i = choose|i: int| 0 <= i < t.len() && t[i].0 == k;
                    assert(s[i].0 == k);
                } else {
                    assert(s[s.len() - 1].0 == k);
                }
            }
            if exists|i: int| 0 <= i < s.len() && s[i].0 == k {
                let i = choose|i: int| 0 <= i < s.len() && s[i].0 == k;
                if i < s.len() - 1 {
                    assert(t[i].0 == k);
                }
            }
        }
        assert forall|i: int| 0 <= i < s.len() implies #[trigger] map_of(s)[s[i].0] == s[i].1 by {
            if i < s.len() - 1 {
                assert(t[i] == s[i]);
            }
        }
    }
}

proof fn lemma_map_of_remove(s: Seq<EntryView>, i: int)
    requires
        keys_distinct(s),
        0 <= i < s.len(),
    ensures
        keys_distinct(s.remove(i)),
        map_of(s.remove(i)) =~= map_of(s).remove(s[i].0),
{
    let t = s.remove(i);
    assert forall|a: int, b: int| 0 <= a < b < t.len() implies t[a].0 != t[b].0 by {
        let a2 = if a < i { a } else { a + 1 };
        let b2 = if b < i { b } else { b + 1 };
        assert(t[a] == s[a2] && t[b] == s[b2]);
    }
    lemma_map_of(s);
    lemma_map_of(t);
    let k = s[i].0;
    assert forall|key: Seq<char>|
        #[trigger] map_of(t).dom().contains(key) <==> map_of(s).remove(k).dom().contains(key) by {
        if map_of(t).dom().contains(key) {
            let j = choose|j: int| 0 <= j < t.len() && t[j].0 == key;
            let j2 = if j < i { j } else { j + 1 };
            assert(s[j2].0 == key);
        }
        if map_of(s).remove(k).dom().contains(key) {
            let j = choose|j: int| 0 <= j < s.len() && s[j].0 == key;
            assert(j != i);
            let j2 = if j < i { j } else { j - 1 };
            assert(t[j2] == s[j]);
        }
    }
    assert forall|key: Seq<char>| #[trigger] map_of(t).dom().contains(key) implies map_of(t)[key]
        == map_of(s)[key] by {
        let j = choose|j: int| 0 <= j < t.len() && t[j].0 == key;
        let j2 = if j < i { j } else { j + 1 };
        assert(t[j] == s[j2]);
    }
}

proof fn lemma_map_of_update(s: Seq<EntryView>, i: int, v: Seq<char>)
    requires
        keys_distinct(s),
        0 <= i < s.len(),
    ensures
        keys_distinct(s.update(i, (s[i].0, v))),
        map_of(s.update(i, (s[i].0, v))) =~= map_of(s).insert(s[i].0, v),
{
    let t = s.update(i, (s[i].0, v));
    assert forall|a: int, b: int| 0 <= a < b < t.len() implies t[a].0 != t[b].0 by {
        assert(t[a].0 == s[a].0 && t[b].0 == s[b].0);
    }
    lemma_map_of(s);
    lemma_map_of(t);
    assert forall|key: Seq<char>|
        #[trigger] map_of(t).dom().contains(key) <==> map_of(s).insert(s[i].0, v).dom().contains(
            key,
        ) by {
        if map_of(t).dom().contains(key) {
            let j = choose|j: int| 0 <= j < t.len() && t[j].0 == key;
            assert(s[j].0 == key);
        }
        if map_of(s).dom().contains(key) {
            let j = choose|j: int| 0 <= j < s.len() && s[j].0 == key;
            assert(t[j].0 == key);
        }
        assert(t[i].0 == s[i].0);
    }
    assert forall|key: Seq<char>| #[trigger] map_of(t).dom().contains(key) implies map_of(t)[key]
        == map_of(s).insert(s[i].0, v)[key] by {
        let j = choose|j: int| 0 <= j < t.len() && t[j].0 == key;
        assert(t[j].0 == key);
        if j != i {
            assert(t[j] == s[j]);
        }
    }
}

/// A map from text keys to text values; a key maps to the value that was
/// last inserted under it.
pub struct StrMap {
    entries: Vec<(String, String)>,
}

impl StrMap {
    /// The entries, by their characters, in the order in which they are held.
    pub closed spec fn entries_spec(&self) -> Seq<EntryView> {
        entries_view(self.entries@)
    }

    #[verifier::type_invariant]
    spec fn distinct(self) -> bool {
        keys_distinct(entries_view(self.entries@))
    }
}

impl View for StrMap {
    type V = Map<Seq<char>, Seq<char>>;

    closed spec fn view(&self) -> Map<Seq<char>, Seq<char>> {
        map_of(entries_view(self.entries@))
    }
}

impl StrMap {
    /// An empty map.
    pub fn new() -> (m: StrMap)
        ensures
            m@ == Map::<Seq<char>, Seq<char>>::empty(),
    {
        let m = StrMap { entries: Vec::new() };
        assert(entries_view(m.entries@) =~= Seq::<EntryView>::empty());
        m
    }

    /// The map made of the given entries, whose keys are distinct.
    pub(crate) fn from_distinct(entries: Vec<(String, String)>) -> (m: StrMap)
        requires
            keys_distinct(entries_view(entries@)),
        ensures
            m@ == map_of(entries_view(entries@)),
            m.entries_spec() == entries_view(entries@),
    {
        StrMap { entries }
    }

    /// The number of keys.
    pub fn len(&self) -> (n: usize)
        ensures
            n == self@.len(),
    {
        proof {
            use_type_invariant(self);
            let s = entries_view(self.entries@);
            lemma_map_of(s);
            lemma_map_len(s);
        }
        self.entries.len()
    }

    fn find(&self, key: &str) -> (r: Option<usize>)
        ensures
            match r {
                Some(i) => i < self.entries@.len() && self.entries@[i as int].0@ == key@,
                None => forall|i: int|
                    0 <= i < self.entries@.len() ==> self.entries@[i].0@ != key@,
            },
    {
        let k = String::from_str(key);
        let mut i: usize = 0;
        while i < self.entries.len()
            invariant
                i <= self.entries@.len(),
                k@ == key@,
                forall|j: int| 0 <= j < i ==> self.entries@[j].0@ != key@,
            decreases self.entries@.len() - i,
        {
            if self.entries[i].0 == k {
                return Some(i);
            }
            i = i + 1;
        }
        None
    }

    /// The value held under `key`, if any.
    pub fn get(&self, key: &str) -> (r: Option<String>)
        ensures
            match r {
                Some(v) => self@.contains_key(key@) && v@ == self@[key@],
                None => !self@.contains_key(key@),
            },
    {
        proof {
            use_type_invariant(self);
            lemma_map_of(entries_view(self.entries@));
        }
        match self.find(key) {
            Some(i) => {
                proof {
                    assert(entries_view(self.entries@)[i as int].0 == key@);
                }
                Some(self.entries[i].1.clone())
            },
            None => {
                proof {
                    assert forall|j: int| 0 <= j < entries_view(self.entries@).len() implies
                        entries_view(self.entries@)[j].0 != key@ by {
                        assert(self.entries@[j].0@ != key@);
                    }
                }
                None
            },
        }
    }

    /// Holds `value` under `key`, in place of any value held there before.
    pub fn insert(&mut self, key: String, value: String)
        ensures
            final(self)@ == old(self)@.insert(key@, value@),
    {
        proof {
            use_type_invariant(&*self);
        }
        let mut entries: Vec<(String, String)> = Vec::new();
        std::mem::swap(&mut entries, &mut self.entries);
        let ghost s = entries_view(entries@);
        proof {
            lemma_map_of(s);
        }
        let mut tmp = StrMap { entries };
        let found = tmp.find(key.as_str());
        let mut entries = tmp.entries;
        match found {
            Some(i) => {
                proof {
                    lemma_map_of_update(s, i as int, value@);
                    assert(entries_view(entries@.update(i as int, (key, value))) =~= s.update(
                        i as int,
                        (s[i as int].0, value@),
                    ));
                }
                entries.set(i, (key, value));
            },
            None => {
                proof {
                    let t = entries_view(entries@.push((key, value)));
                    assert(t =~= s.push((key@, value@)));
                    assert(t.drop_last() =~= s);
                    assert forall|a: int, b: int| 0 <= a < b < t.len() implies t[a].0 != t[b].0 by {
                        if b == s.len() {
                            assert(entries@[a].0@ != key@);
                        }
                    }
                }
                entries.push((key, value));
            },
        }
        self.entries = entries;
    }

    /// Takes the value held under `key` out of the map, if there is one.
    pub fn remove(&mut self, key: &str) -> (r: Option<String>)
        ensures
            final(self)@ == old(self)@.remove(key@),
            match r {
                Some(v) => old(self)@.contains_key(key@) && v@ == old(self)@[key@],
                None => !old(self)@.contains_key(key@),
            },
    {
        proof {
            use_type_invariant(&*self);
        }
        let mut entries: Vec<(String, String)> = Vec::new();
        std::mem::swap(&mut entries, &mut self.entries);
        let ghost s = entries_view(entries@);
        proof {
            lemma_map_of(s);
        }
        let tmp = StrMap { entries };
        let found = tmp.find(key);
        let mut entries = tmp.entries;
        match found {
            Some(i) => {
                proof {
                    lemma_map_of_remove(s, i as int);
                    assert(entries_view(entries@.remove(i as int)) =~= s.remove(i as int));
                    assert(s[i as int].0 == key@);
                }
                let (_, v) = entries.remove(i);
                self.entries = entries;
                Some(v)
            },
            None => {
                proof {
                    assert forall|j: int| 0 <= j < s.len() implies s[j].0 != key@ by {
                        assert(entries@[j].0@ != key@);
                    }
                    assert(map_of(s).remove(key@) =~= map_of(s));
                }
                self.entries = entries;
                None
            },
        }
    }

    /// The entries, each key once.
    pub fn entries(&self) -> (v: Vec<(String, String)>)
        ensures
            keys_distinct(entries_view(v@)),
            map_of(entries_view(v@)) == self@,
    {
        proof {
            use_type_invariant(self);
        }
        let mut v: Vec<(String, String)> = Vec::new();
        let mut i: usize = 0;
        while i < self.entries.len()
            invariant
                i <= self.entries@.len(),
                entries_view(v@) =~= entries_view(self.entries@).take(i as int),
            decreases self.entries@.len() - i,
        {
            let k = self.entries[i].0.clone();
            let val = self.entries[i].1.clone();
            let ghost before = v@;
            v.push((k, val));
            proof {
                assert(entries_view(v@) =~= entries_view(before).push(
                    entries_view(self.entries@)[i as int],
                ));
                assert(entries_view(self.entries@).take(i + 1) =~= entries_view(
                    self.entries@,
                ).take(i as int).push(entries_view(self.entries@)[i as int]));
            }
            i = i + 1;
        }
        proof {
            assert(entries_view(self.entries@).take(self.entries@.len() as int) =~= entries_view(
                self.entries@,
            ));
        }
        v
    }
}

proof fn lemma_map_len(s: Seq<EntryView>)
    requires
        keys_distinct(s),
    ensures
        map_of(s).len() == s.len(),
        map_of(s).dom().finite(),
    decreases s.len(),
{
    if s.len() > 0 {
        let t = s.drop_last();
        lemma_map_len(t);
        lemma_map_of(t);
        assert(!map_of(t).dom().contains(s.last().0)) by {
            if map_of(t).dom().contains(s.last().0) {
                let i = choose|i: int| 0 <= i < t.len() && t[i].0 == s.last().0;
                assert(s[i].0 == s[s.len() - 1].0);
            }
        }
    }
}

} // verus!
