use vstd::prelude::*;

verus! {

/// The map that a sequence of entries stands for. Where a key occurs more
/// than once, its last entry decides.
pub open spec fn to_map(entries: Seq<(Seq<char>, Seq<char>)>) -> Map<Seq<char>, Seq<char>>
    decreases entries.len(),
{
    if entries.len() == 0 {
        Map::empty()
    } else {
        to_map(entries.drop_last()).insert(entries.last().0, entries.last().1)
    }
}

/// Whether some entry carries `key`.
pub open spec fn has_key(entries: Seq<(Seq<char>, Seq<char>)>, key: Seq<char>) -> bool {
    exists|i: int| 0 <= i < entries.len() && (#[trigger] entries[i]).0 == key
}

/// A position at which `key` stands in `entries`, where there is one.
pub open spec fn key_index(entries: Seq<(Seq<char>, Seq<char>)>, key: Seq<char>) -> int {
    choose|i: int| 0 <= i < entries.len() && (#[trigger] entries[i]).0 == key
}

/// No key occurs in two entries.
pub open spec fn distinct_keys(entries: Seq<(Seq<char>, Seq<char>)>) -> bool {
    forall|i: int, j: int|
        0 <= i < j < entries.len() ==> (#[trigger] entries[i]).0 != (#[trigger] entries[j]).0
}

/// The entries after `key` was set to `value`: the entry that carried the key
/// is replaced where it stands, and a new key is appended.
pub open spec fn insert_entry(
    entries: Seq<(Seq<char>, Seq<char>)>,
    key: Seq<char>,
    value: Seq<char>,
) -> Seq<(Seq<char>, Seq<char>)> {
    if has_key(entries, key) {
        entries.update(key_index(entries, key), (key, value))
    } else {
        entries.push((key, value))
    }
}

/// With distinct keys, the map holds exactly the entries.
pub proof fn lemma_to_map_entries(entries: Seq<(Seq<char>, Seq<char>)>)
    requires
        distinct_keys(entries),
    ensures
        forall|key: Seq<char>| #[trigger] to_map(entries).contains_key(key) <==> has_key(entries, key),
        forall|i: int|
            0 <= i < entries.len() ==> to_map(entries)[(#[trigger] entries[i]).0] == entries[i].1,
    decreases entries.len(),
{
    if entries.len() > 0 {
        let front = entries.drop_last();
        let last = entries.last();
        lemma_to_map_entries(front);
        assert forall|key: Seq<char>| #[trigger]
            to_map(entries).contains_key(key) <==> has_key(entries, key) by {
            if key == last.0 {
                assert(entries[entries.len() - 1].0 == key);
            } else if to_map(entries).contains_key(key) {
                assert(to_map(front).contains_key(key));
                assert(has_key(front, key));
                let i = key_index(front, key);
                assert(entries[i] == front[i]);
            } else if has_key(entries, key) {
                let i = key_index(entries, key);
                assert(front[i] == entries[i]);
                assert(has_key(front, key));
            }
        }
        assert forall|i: int| 0 <= i < entries.len() implies to_map(entries)[(#[trigger]
            entries[i]).0] == entries[i].1 by {
            if i < entries.len() - 1 {
                assert(front[i] == entries[i]);
                assert(entries[i].0 != entries[entries.len() - 1].0);
            }
        }
    }
}

/// With distinct keys, the map has as many keys as there are entries.
pub proof fn lemma_to_map_len(entries: Seq<(Seq<char>, Seq<char>)>)
    requires
        distinct_keys(entries),
    ensures
        to_map(entries).dom().finite(),
        to_map(entries).len() == entries.len(),
    decreases entries.len(),
{
    if entries.len() > 0 {
        let front = entries.drop_last();
        lemma_to_map_len(front);
        lemma_to_map_entries(front);
        if has_key(front, entries.last().0) {
            let i = key_index(front, entries.last().0);
            assert(entries[i] == front[i]);
            assert(entries[i].0 != entries[entries.len() - 1].0);
        }
        assert(to_map(entries).dom() =~= to_map(front).dom().insert(entries.last().0));
    }
}

/// Setting a key in distinct entries keeps them distinct and updates the
/// map at that key alone.
pub proof fn lemma_insert_entry(
    entries: Seq<(Seq<char>, Seq<char>)>,
    key: Seq<char>,
    value: Seq<char>,
)
    requires
        distinct_keys(entries),
    ensures
        distinct_keys(insert_entry(entries, key, value)),
        to_map(insert_entry(entries, key, value)) == to_map(entries).insert(key, value),
{
    let after = insert_entry(entries, key, value);
    if has_key(entries, key) {
        let at = key_index(entries, key);
        assert forall|i: int, j: int| 0 <= i < j < after.len() implies (#[trigger] after[i]).0 != (
        #[trigger] after[j]).0 by {
            assert(after[i].0 == entries[i].0);
            assert(after[j].0 == entries[j].0);
        }
    } else {
        assert forall|i: int, j: int| 0 <= i < j < after.len() implies (#[trigger] after[i]).0 != (
        #[trigger] after[j]).0 by {
            assert(after[i] == entries[i]);
            if j < entries.len() {
                assert(after[j] == entries[j]);
            }
        }
    }
    lemma_to_map_entries(entries);
    lemma_to_map_entries(after);
    let expected = to_map(entries).insert(key, value);
    assert forall|k: Seq<char>| to_map(after).contains_key(k) <==> expected.contains_key(k) by {
        if has_key(after, k) {
            let i = key_index(after, k);
            if k != key {
                assert(entries[i] == after[i]);
                assert(has_key(entries, k));
            }
        }
        if has_key(entries, k) {
            let i = key_index(entries, k);
            assert(after[i].0 == entries[i].0);
            assert(has_key(after, k));
        }
        if k == key {
            if has_key(entries, key) {
                assert(after[key_index(entries, key)].0 == key);
            } else {
                assert(after[after.len() - 1].0 == key);
            }
            assert(has_key(after, k));
        }
    }
    assert forall|k: Seq<char>| to_map(after).contains_key(k) implies to_map(after)[k]
        == expected[k] by {
        let i = key_index(after, k);
        assert(to_map(after)[after[i].0] == after[i].1);
        if k == key {
            if has_key(entries, key) {
                let at = key_index(entries, key);
                assert(after[at].0 == key);
                assert(i == at);
            } else {
                assert(after[after.len() - 1].0 == key);
                assert(i == after.len() - 1);
            }
        } else {
            assert(entries[i] == after[i]);
            assert(to_map(entries)[entries[i].0] == entries[i].1);
        }
    }
    assert(to_map(after) =~= expected);
}

/// A map from names to values, as a request's headers and captured
/// parameters and a response's headers are. Keys are compared character by
/// character. Entries keep the order in which their keys first arrived.
#[derive(Debug)]
pub struct Fields {
    entries: Vec<(String, String)>,
}

impl View for Fields {
    type V = Map<Seq<char>, Seq<char>>;

    closed spec fn view(&self) -> Map<Seq<char>, Seq<char>> {
        to_map(self.entries())
    }
}

impl Clone for Fields {
    /// A copy with the same entries in the same order.
    fn clone(&self) -> (copy: Fields)
        ensures
            copy@ == self@,
            copy.entries() == self.entries(),
    {
        proof {
            use_type_invariant(self);
        }
        let mut entries: Vec<(String, String)> = Vec::new();
        let mut i: usize = 0;
        while i < self.entries.len()
            invariant
                i <= self.entries.len(),
                entries@.len() == i,
                forall|j: int| 0 <= j < i ==> #[trigger] entries@[j] == self.entries@[j],
            decreases self.entries.len() - i,
        {
            let key = self.entries[i].0.clone();
            let value = self.entries[i].1.clone();
            entries.push((key, value));
            i += 1;
        }
        assert(entries@ =~= self.entries@);
        Fields { entries }
    }
}

impl Fields {
    /// The entries in the order in which serialization emits them.
    pub closed spec fn entries(&self) -> Seq<(Seq<char>, Seq<char>)> {
        self.entries@.map_values(|e: (String, String)| (e.0@, e.1@))
    }

    #[verifier::type_invariant]
    spec fn keys_are_distinct(&self) -> bool {
        distinct_keys(self.entries())
    }

    /// The view is the map of the entries, and no key occurs twice in them.
    pub proof fn lemma_view(&self)
        ensures
            self@ == to_map(self.entries()),
    {
    }

    /// An empty map.
    pub fn new() -> (fields: Fields)
        ensures
            fields@ == Map::<Seq<char>, Seq<char>>::empty(),
            fields.entries() == Seq::<(Seq<char>, Seq<char>)>::empty(),
    {
        let fields = Fields { entries: Vec::new() };
        assert(fields.entries() =~= Seq::empty());
        fields
    }

    /// The number of keys.
    pub fn len(&self) -> (n: usize)
        ensures
            n == self@.len(),
            n == self.entries().len(),
    {
        proof {
            use_type_invariant(self);
            lemma_to_map_len(self.entries());
        }
        self.entries.len()
    }

    /// Whether the map holds no key.
    pub fn is_empty(&self) -> (b: bool)
        ensures
            b == (self@.len() == 0),
            b == (self.entries().len() == 0),
    {
        proof {
            use_type_invariant(self);
            lemma_to_map_len(self.entries());
        }
        self.entries.len() == 0
    }

    /// The position of `key` among the entries.
    fn position(&self, key: &String) -> (at: Option<usize>)
        ensures
            match at {
                Some(i) => i < self.entries().len() && self.entries()[i as int].0 == key@,
                None => !has_key(self.entries(), key@),
            },
    {
        let mut i: usize = 0;
        while i < self.entries.len()
            invariant
                i <= self.entries.len(),
                forall|j: int| 0 <= j < i ==> (#[trigger] self.entries()[j]).0 != key@,
            decreases self.entries.len() - i,
        {
            if self.entries[i].0 == *key {
                return Some(i);
            }
            i += 1;
        }
        None
    }

    /// The value that `key` stands for.
    pub fn get(&self, key: &str) -> (value: Option<&String>)
        ensures
            match value {
                Some(v) => self@.contains_key(key@) && self@[key@] == v@,
                None => !self@.contains_key(key@),
            },
    {
        proof {
            use_type_invariant(self);
            lemma_to_map_entries(self.entries());
        }
        let owned = key.to_owned();
        match self.position(&owned) {
            Some(i) => {
                assert(self.entries()[i as int].1 == self.entries[i as int].1@);
                Some(&self.entries[i].1)
            },
            None => None,
        }
    }

    /// Whether `key` stands for a value.
    pub fn contains_key(&self, key: &str) -> (b: bool)
        ensures
            b == self@.contains_key(key@),
    {
        self.get(key).is_some()
    }

    /// Sets `key` to `value`, replacing the value that it stood for.
    pub fn insert(&mut self, key: String, value: String)
        ensures
            final(self)@ == old(self)@.insert(key@, value@),
            final(self).entries() == insert_entry(old(self).entries(), key@, value@),
    {
        proof {
            use_type_invariant(&*self);
            lemma_insert_entry(self.entries(), key@, value@);
        }
        let ghost before = self.entries();
        let at = self.position(&key);
        let mut entries: Vec<(String, String)> = Vec::new();
        std::mem::swap(&mut self.entries, &mut entries);
        match at {
            Some(i) => {
                proof {
                    assert(has_key(before, key@));
                    assert(key_index(before, key@) == i);
                }
                entries.set(i, (key, value));
            },
            None => {
                entries.push((key, value));
            },
        }
        assert(entries@.map_values(|e: (String, String)| (e.0@, e.1@)) =~= insert_entry(
            before,
            key@,
            value@,
        ));
        std::mem::swap(&mut self.entries, &mut entries);
    }

    /// The key and the value of the entry at position `i`, where there is
    /// one.
    pub fn entry(&self, i: usize) -> (found: Option<(&String, &String)>)
        ensures
            match found {
                Some((key, value)) => i < self.entries().len() && self.entries()[i as int] == (
                    key@,
                    value@,
                ),
                None => i >= self.entries().len(),
            },
    {
        if i < self.entries.len() {
            Some((&self.entries[i].0, &self.entries[i].1))
        } else {
            None
        }
    }
}

} // verus!
