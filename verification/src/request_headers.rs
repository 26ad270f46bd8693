//! The header fields of a request.

use vstd::prelude::*;

verus! {

/// Header fields by name. No name stands for two values.
pub struct RequestHeaders {
    entries: Vec<(String, String)>,
}

/// Whether entry `i` has the given name.
spec fn named(entries: Seq<(String, String)>, i: int, name: Seq<char>) -> bool {
    0 <= i < entries.len() && entries[i].0@ == name
}

/// The fields that some entries with different names stand for.
spec fn as_map(entries: Seq<(String, String)>) -> Map<Seq<char>, Seq<char>> {
    Map::new(
        |name: Seq<char>| exists|i: int| named(entries, i, name),
        |name: Seq<char>| entries[choose|i: int| named(entries, i, name)].1@,
    )
}

/// Whether no two entries have one name.
spec fn distinct(entries: Seq<(String, String)>) -> bool {
    forall|i: int, j: int|
        0 <= i < entries.len() && 0 <= j < entries.len() && #[trigger] entries[i].0@
            == #[trigger] entries[j].0@ ==> i == j
}

proof fn lemma_entry(entries: Seq<(String, String)>, i: int)
    requires
        distinct(entries),
        0 <= i < entries.len(),
    ensures
        as_map(entries).contains_key(entries[i].0@),
        as_map(entries)[entries[i].0@] == entries[i].1@,
{
    let name = entries[i].0@;
    assert(named(entries, i, name));
    let k = choose|k: int| named(entries, k, name);
    assert(entries[k].0@ == entries[i].0@);
}

/// There are as many names as entries.
proof fn lemma_names(entries: Seq<(String, String)>)
    requires
        distinct(entries),
    ensures
        as_map(entries).dom().finite(),
        as_map(entries).dom().len() == entries.len(),
{
    let names = entries.map_values(|entry: (String, String)| entry.0@);
    assert(names.no_duplicates()) by {
        assert forall|i: int, j: int|
            0 <= i < names.len() && 0 <= j < names.len() && i != j implies names[i] != names[j] by {
            assert(names[i] == entries[i].0@ && names[j] == entries[j].0@);
        }
    }
    names.unique_seq_to_set();
    vstd::seq_lib::seq_to_set_is_finite(names);
    assert forall|name: Seq<char>| as_map(entries).dom().contains(name) == names.to_set().contains(
        name,
    ) by {
        if as_map(entries).dom().contains(name) {
            let i = choose|i: int| named(entries, i, name);
            assert(names[i] == name);
        }
        if names.contains(name) {
            let i = choose|i: int| 0 <= i < names.len() && names[i] == name;
            assert(named(entries, i, name));
        }
    }
    assert(as_map(entries).dom() =~= names.to_set());
}

impl View for RequestHeaders {
    type V = Map<Seq<char>, Seq<char>>;

    closed spec fn view(&self) -> Map<Seq<char>, Seq<char>> {
        as_map(self.entries@)
    }
}

impl RequestHeaders {
    #[verifier::type_invariant]
    spec fn wf(self) -> bool {
        distinct(self.entries@)
    }

    /// No header fields.
    pub fn new() -> (headers: RequestHeaders)
        ensures
            headers@ == Map::<Seq<char>, Seq<char>>::empty(),
    {
        let headers = RequestHeaders { entries: Vec::new() };
        assert(headers@ =~= Map::<Seq<char>, Seq<char>>::empty());
        headers
    }

    /// Where the entry with the given name stands.
    fn position(&self, name: &String) -> (at: Option<usize>)
        ensures
            match at {
                Some(i) => named(self.entries@, i as int, name@),
                None => forall|i: int| !named(self.entries@, i, name@),
            },
    {
        let mut i: usize = 0;
        while i < self.entries.len()
            invariant
                i <= self.entries@.len(),
                forall|j: int| 0 <= j < i ==> !named(self.entries@, j, name@),
            decreases self.entries.len() - i,
        {
            if self.entries[i].0 == *name {
                return Some(i);
            }
            i = i + 1;
        }
        None
    }

    /// Sets the value of a field, whether it was there before or not.
    pub fn insert(&mut self, name: String, value: String)
        ensures
            final(self)@ == old(self)@.insert(name@, value@),
    {
        proof {
            use_type_invariant(&*self);
        }
        let ghost before = self.entries@;
        let at = self.position(&name);
        let mut entries: Vec<(String, String)> = Vec::new();
        std::mem::swap(&mut entries, &mut self.entries);
        match at {
            Some(i) => {
                entries.set(i, (name, value));
            },
            None => {
                entries.push((name, value));
            },
        }
        let ghost at_last = match at {
            Some(i) => i as int,
            None => before.len() as int,
        };
        proof {
            let after = entries@;
            assert(after[at_last].0@ == name@ && after[at_last].1@ == value@);
            assert forall|i: int| 0 <= i < after.len() && i != at_last implies #[trigger] after[i]
                == before[i] && after[i].0@ != name@ by {
                assert(after[i] == before[i]);
                assert(!named(before, i, name@) || i == at_last);
            }
            assert(distinct(after));
            let expected = as_map(before).insert(name@, value@);
            assert forall|n: Seq<char>| as_map(after).contains_key(n) == expected.contains_key(
                n,
            ) by {
                if as_map(after).contains_key(n) {
                    let i = choose|i: int| named(after, i, n);
                    if i != at_last {
                        assert(after[i] == before[i]);
                        assert(named(before, i, n));
                    }
                }
                if expected.contains_key(n) {
                    if n == name@ {
                        assert(named(after, at_last, n));
                    } else {
                        let i = choose|i: int| named(before, i, n);
                        assert(after[i] == before[i]);
                        assert(named(after, i, n));
                    }
                }
            }
            assert forall|n: Seq<char>| as_map(after).contains_key(n) implies as_map(after)[n]
                == expected[n] by {
                let i = choose|i: int| named(after, i, n);
                lemma_entry(after, i);
                if i != at_last {
                    assert(after[i] == before[i]);
                    lemma_entry(before, i);
                }
            }
            assert(as_map(after) =~= expected);
        }
        self.entries = entries;
    }

    /// The value of a field.
    pub fn get(&self, name: &str) -> (value: Option<&String>)
        ensures
            match value {
                Some(v) => self@.contains_key(name@) && self@[name@] == v@,
                None => !self@.contains_key(name@),
            },
    {
        proof {
            use_type_invariant(self);
        }
        match self.position(&name.to_string()) {
            Some(i) => {
                proof {
                    lemma_entry(self.entries@, i as int);
                }
                Some(&self.entries[i].1)
            },
            None => None,
        }
    }

    /// All fields, each once.
    pub fn entries(&self) -> (entries: &Vec<(String, String)>)
        ensures
            forall|i: int|
                0 <= i < entries@.len() ==> self@.contains_key(#[trigger] entries@[i].0@)
                    && self@[entries@[i].0@] == entries@[i].1@,
            forall|name: Seq<char>| #[trigger]
                self@.contains_key(name) ==> exists|i: int|
                    0 <= i < entries@.len() && #[trigger] entries@[i].0@ == name,
            forall|i: int, j: int|
                0 <= i < entries@.len() && 0 <= j < entries@.len() && #[trigger] entries@[i].0@
                    == #[trigger] entries@[j].0@ ==> i == j,
            self@.dom().finite(),
            entries@.len() == self@.dom().len(),
    {
        proof {
            use_type_invariant(self);
            lemma_names(self.entries@);
            assert forall|i: int| 0 <= i < self.entries@.len() implies self@.contains_key(
                #[trigger] self.entries@[i].0@,
            ) && self@[self.entries@[i].0@] == self.entries@[i].1@ by {
                lemma_entry(self.entries@, i);
            }
            assert forall|name: Seq<char>| #[trigger] self@.contains_key(name) implies exists|i: int|
                0 <= i < self.entries@.len() && #[trigger] self.entries@[i].0@ == name by {
                let i = choose|i: int| named(self.entries@, i, name);
                assert(self.entries@[i].0@ == name);
            }
        }
        &self.entries
    }
}

} // verus!
