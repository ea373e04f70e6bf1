//! The header fields of a request: a map from field name to value, kept as a
//! list in which no name occurs twice.

use crate::text::bytes_eq;
use vstd::prelude::*;

verus! {

/// The header fields of a request. Names are compared byte for byte, and a
/// field given twice keeps the value given last.
#[derive(Debug)]
pub struct Headers {
    entries: Vec<(Vec<u8>, Vec<u8>)>,
}

/// The entry at index `i` carries the name `key`.
spec fn has_key(entries: Seq<(Vec<u8>, Vec<u8>)>, key: Seq<u8>, i: int) -> bool {
    0 <= i < entries.len() && entries[i].0@ == key
}

/// No name occurs twice.
spec fn keys_distinct(entries: Seq<(Vec<u8>, Vec<u8>)>) -> bool {
    forall|i: int, j: int| 0 <= i < j < entries.len() ==> #[trigger] entries[i].0@ != #[trigger] entries[j].0@
}

/// The map that a list of entries stands for.
spec fn model(entries: Seq<(Vec<u8>, Vec<u8>)>) -> Map<Seq<u8>, Seq<u8>> {
    Map::new(
        |key: Seq<u8>| exists|i: int| has_key(entries, key, i),
        |key: Seq<u8>| entries[choose|i: int| has_key(entries, key, i)].1@,
    )
}

/// Each entry of a list without repeated names is what the map holds for its name.
proof fn lemma_model_at(entries: Seq<(Vec<u8>, Vec<u8>)>, i: int)
    requires
        keys_distinct(entries),
        0 <= i < entries.len(),
    ensures
        model(entries).contains_key(entries[i].0@),
        model(entries)[entries[i].0@] == entries[i].1@,
{
    let key = entries[i].0@;
    assert(has_key(entries, key, i));
    let c = choose|c: int| has_key(entries, key, c);
    if c < i {
        assert(entries[c].0@ != entries[i].0@);
    } else if i < c {
        assert(entries[i].0@ != entries[c].0@);
    }
}

impl View for Headers {
    type V = Map<Seq<u8>, Seq<u8>>;

    closed spec fn view(&self) -> Map<Seq<u8>, Seq<u8>> {
        model(self.entries@)
    }
}

impl Headers {
    #[verifier::type_invariant]
    spec fn distinct(self) -> bool {
        keys_distinct(self.entries@)
    }

    /// No fields.
    pub fn new() -> (r: Headers)
        ensures
            r@ == Map::<Seq<u8>, Seq<u8>>::empty(),
    {
        let r = Headers { entries: Vec::new() };
        assert(r@ =~= Map::<Seq<u8>, Seq<u8>>::empty());
        r
    }

    /// The index of the entry that carries `key`.
    fn position(&self, key: &[u8]) -> (r: Option<usize>)
        ensures
            match r {
                Some(i) => has_key(self.entries@, key@, i as int),
                None => forall|i: int| !has_key(self.entries@, key@, i),
            },
    {
        let mut i: usize = 0;
        while i < self.entries.len()
            invariant
                i <= self.entries.len(),
                forall|j: int| 0 <= j < i ==> !has_key(self.entries@, key@, j),
            decreases self.entries.len() - i,
        {
            if bytes_eq(self.entries[i].0.as_slice(), key) {
                return Some(i);
            }
            i += 1;
        }
        None
    }

    /// The value of the field `key`, if the request has that field.
    pub fn get(&self, key: &[u8]) -> (r: Option<&Vec<u8>>)
        ensures
            match r {
                Some(value) => self@.contains_key(key@) && self@[key@] == value@,
                None => !self@.contains_key(key@),
            },
    {
        proof {
            use_type_invariant(self);
        }
        match self.position(key) {
            Some(i) => {
                proof {
                    lemma_model_at(self.entries@, i as int);
                }
                Some(&self.entries[i].1)
            },
            None => None,
        }
    }

    /// Sets the field `key` to `value`; a value that the field had is replaced.
    pub fn insert(&mut self, key: Vec<u8>, value: Vec<u8>)
        ensures
            final(self)@ == old(self)@.insert(key@, value@),
    {
        proof {
            use_type_invariant(&*self);
        }
        let found = self.position(key.as_slice());
        let mut entries: Vec<(Vec<u8>, Vec<u8>)> = Vec::new();
        core::mem::swap(&mut self.entries, &mut entries);
        let ghost before = entries@;
        match found {
            Some(i) => {
                proof {
                    Self::lemma_insert(before, before.update(i as int, (key, value)), key, value);
                }
                entries.set(i, (key, value));
            },
            None => {
                proof {
                    Self::lemma_insert(before, before.push((key, value)), key, value);
                }
                entries.push((key, value));
            },
        }
        core::mem::swap(&mut self.entries, &mut entries);
    }

    /// Replacing the entry of a name, or adding one for a new name, keeps the
    /// names distinct and changes the map at that name only.
    proof fn lemma_insert(
        before: Seq<(Vec<u8>, Vec<u8>)>,
        after: Seq<(Vec<u8>, Vec<u8>)>,
        key: Vec<u8>,
        value: Vec<u8>,
    )
        requires
            keys_distinct(before),
            (exists|i: int| has_key(before, key@, i) && after == before.update(i, (key, value)))
                || ((forall|i: int| !has_key(before, key@, i)) && after == before.push((key, value))),
        ensures
            keys_distinct(after),
            model(after) == model(before).insert(key@, value@),
    {
        let at: int = if exists|i: int| has_key(before, key@, i) && after == before.update(i, (key, value)) {
            choose|i: int| has_key(before, key@, i) && after == before.update(i, (key, value))
        } else {
            before.len() as int
        };
        assert(after[at] == (key, value));
        assert forall|i: int| 0 <= i < after.len() && i != at implies #[trigger] after[i] == before[i]
            && after[i].0@ != key@ by {
            if at < before.len() {
                assert(before[at].0@ == key@);
                if i < at {
                    assert(before[i].0@ != before[at].0@);
                } else {
                    assert(before[at].0@ != before[i].0@);
                }
            } else {
                assert(!has_key(before, key@, i));
            }
        }
        assert forall|i: int, j: int| 0 <= i < j < after.len() implies #[trigger] after[i].0@
            != #[trigger] after[j].0@ by {
            if i != at && j != at {
                assert(before[i].0@ != before[j].0@);
            }
        }
        assert(keys_distinct(after));
        assert forall|k: Seq<u8>| #[trigger] model(after).contains_key(k) <==> model(before).insert(key@, value@).contains_key(k) by {
            if k == key@ {
                assert(has_key(after, k, at));
            } else {
                if exists|i: int| has_key(before, k, i) {
                    let i = choose|i: int| has_key(before, k, i);
                    assert(has_key(after, k, i));
                }
                if exists|i: int| has_key(after, k, i) {
                    let i = choose|i: int| has_key(after, k, i);
                    assert(has_key(before, k, i));
                }
            }
        }
        assert forall|k: Seq<u8>| #[trigger] model(after).contains_key(k) implies model(after)[k] == model(before).insert(key@, value@)[k] by {
            let i = choose|i: int| has_key(after, k, i);
            lemma_model_at(after, i);
            if k != key@ {
                lemma_model_at(before, i);
            }
        }
        assert(model(after) =~= model(before).insert(key@, value@));
    }
}

} // verus!
