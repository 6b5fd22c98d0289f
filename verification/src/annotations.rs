//! Annotations of an object: a finite mapping from key to value, keys unique.

use vstd::prelude::*;
use crate::text::same_text;

verus! {

/// One annotation: a key and the value stored under it.
#[derive(Clone, Debug, PartialEq, Eq)]
pub struct Annotation {
    pub key: String,
    pub value: String,
}

/// The annotations of one object.
///
/// Stored as a list in which no key occurs twice; its view is the mapping
/// from key to value that the list spells out.
#[derive(Debug)]
pub struct Annotations {
    entries: Vec<Annotation>,
}

/// No key occurs at two positions of `entries`.
pub open spec fn distinct_keys(entries: Seq<Annotation>) -> bool {
    forall|i: int, j: int|
        0 <= i < j < entries.len() ==> (#[trigger] entries[i]).key@ != (#[trigger] entries[j]).key@
}

/// Whether some entry of `entries` has the key `key`.
pub open spec fn has_key(entries: Seq<Annotation>, key: Seq<char>) -> bool {
    exists|i: int| 0 <= i < entries.len() && (#[trigger] entries[i]).key@ == key
}

/// A position of `entries` that holds `key`, if there is one.
pub open spec fn position_of(entries: Seq<Annotation>, key: Seq<char>) -> int {
    choose|i: int| 0 <= i < entries.len() && (#[trigger] entries[i]).key@ == key
}

/// The mapping that a list of entries spells out.
pub open spec fn mapping_of(entries: Seq<Annotation>) -> Map<Seq<char>, Seq<char>> {
    Map::new(
        |key: Seq<char>| has_key(entries, key),
        |key: Seq<char>| entries[position_of(entries, key)].value@,
    )
}

/// In a list with distinct keys, the entry at `i` is the one its key maps to.
pub proof fn lemma_entry_is_mapped(entries: Seq<Annotation>, i: int)
    requires
        distinct_keys(entries),
        0 <= i < entries.len(),
    ensures
        mapping_of(entries).contains_key(entries[i].key@),
        mapping_of(entries)[entries[i].key@] == entries[i].value@,
        position_of(entries, entries[i].key@) == i,
{
    let key = entries[i].key@;
    let j = position_of(entries, key);
    assert(0 <= j < entries.len() && entries[j].key@ == key);
    if j < i {
        assert(entries[j].key@ != entries[i].key@);
    } else if i < j {
        assert(entries[i].key@ != entries[j].key@);
    }
}

impl View for Annotations {
    type V = Map<Seq<char>, Seq<char>>;

    closed spec fn view(&self) -> Map<Seq<char>, Seq<char>> {
        mapping_of(self.entries@)
    }
}

impl Clone for Annotations {
    fn clone(&self) -> (copy: Annotations)
        ensures
            copy@ == self@,
    {
        proof {
            use_type_invariant(self);
        }
        let mut list: Vec<Annotation> = Vec::new();
        let mut i: usize = 0;
        while i < self.entries.len()
            invariant
                i <= self.entries.len(),
                list.len() == i,
                forall|j: int|
                    0 <= j < i ==> (#[trigger] list@[j]).key@ == self.entries@[j].key@
                        && list@[j].value@ == self.entries@[j].value@,
            decreases self.entries.len() - i,
        {
            list.push(
                Annotation {
                    key: self.entries[i].key.clone(),
                    value: self.entries[i].value.clone(),
                },
            );
            i += 1;
        }
        proof {
            lemma_same_texts(self.entries@, list@);
        }
        Annotations { entries: list }
    }
}

impl Annotations {
    #[verifier::type_invariant]
    spec fn well_formed(self) -> bool {
        distinct_keys(self.entries@)
    }

    /// The entries in stored order, as a specification value.
    pub closed spec fn listed(&self) -> Seq<Annotation> {
        self.entries@
    }

    /// No annotations at all.
    pub fn new() -> (annotations: Annotations)
        ensures
            annotations@ == Map::<Seq<char>, Seq<char>>::empty(),
            annotations.listed().len() == 0,
    {
        let annotations = Annotations { entries: Vec::new() };
        assert(annotations@ =~= Map::<Seq<char>, Seq<char>>::empty());
        annotations
    }

    /// How many annotations there are.
    pub fn len(&self) -> (count: usize)
        ensures
            count == self@.dom().len(),
            count == self.listed().len(),
            self@.dom().finite(),
    {
        proof {
            use_type_invariant(self);
            lemma_domain_size(self.entries@);
        }
        self.entries.len()
    }

    /// The value stored under `key`, if any.
    pub fn get(&self, key: &str) -> (value: Option<&String>)
        ensures
            value is Some <==> self@.contains_key(key@),
            value matches Some(found) ==> found@ == self@[key@],
    {
        proof {
            use_type_invariant(self);
        }
        let mut i: usize = 0;
        while i < self.entries.len()
            invariant
                i <= self.entries.len(),
                distinct_keys(self.entries@),
                forall|j: int| 0 <= j < i ==> (#[trigger] self.entries@[j]).key@ != key@,
            decreases self.entries.len() - i,
        {
            if same_text(self.entries[i].key.as_str(), key) {
                proof {
                    lemma_entry_is_mapped(self.entries@, i as int);
                }
                return Some(&self.entries[i].value);
            }
            i += 1;
        }
        None
    }

    /// Stores `value` under `key` and returns the value it replaces, if any.
    pub fn insert(&mut self, key: String, value: String) -> (replaced: Option<String>)
        ensures
            final(self)@ == old(self)@.insert(key@, value@),
            replaced is Some <==> old(self)@.contains_key(key@),
            replaced matches Some(before) ==> before@ == old(self)@[key@],
    {
        proof {
            use_type_invariant(&*self);
        }
        let ghost before = self.entries@;
        let mut list: Vec<Annotation> = Vec::new();
        std::mem::swap(&mut self.entries, &mut list);
        let mut i: usize = 0;
        while i < list.len()
            invariant
                i <= list.len(),
                list@ == before,
                before == old(self).entries@,
                distinct_keys(before),
                forall|j: int| 0 <= j < i ==> (#[trigger] before[j]).key@ != key@,
            decreases list.len() - i,
        {
            if same_text(list[i].key.as_str(), key.as_str()) {
                let previous = list[i].value.clone();
                let ghost stored = Annotation { key: before[i as int].key, value: value };
                list[i].value = value;
                proof {
                    lemma_entry_is_mapped(before, i as int);
                    lemma_replace_value(before, i as int, stored);
                    assert(list@ =~= before.update(i as int, stored));
                }
                self.entries = list;
                return Some(previous);
            }
            i += 1;
        }
        let ghost added = Annotation { key: key, value: value };
        list.push(Annotation { key, value });
        proof {
            lemma_append_entry(before, added);
            assert(list@ =~= before.push(added));
        }
        self.entries = list;
        None
    }

    /// The annotations as a list, each key once.
    pub fn entries(&self) -> (list: &Vec<Annotation>)
        ensures
            list@ == self.listed(),
            distinct_keys(list@),
            self@ == mapping_of(list@),
    {
        proof {
            use_type_invariant(self);
        }
        &self.entries
    }
}

/// Two lists that agree text for text, the first with distinct keys, spell out
/// the same mapping.
pub proof fn lemma_same_texts(first: Seq<Annotation>, second: Seq<Annotation>)
    requires
        distinct_keys(first),
        first.len() == second.len(),
        forall|j: int|
            0 <= j < first.len() ==> (#[trigger] second[j]).key@ == first[j].key@ && second[j].value@
                == first[j].value@,
    ensures
        distinct_keys(second),
        mapping_of(first) == mapping_of(second),
{
    assert forall|a: int, b: int| 0 <= a < b < second.len() implies (#[trigger] second[a]).key@ != (
    #[trigger] second[b]).key@ by {
        assert(first[a].key@ != first[b].key@);
    }
    assert forall|key: Seq<char>| has_key(first, key) <==> has_key(second, key) by {
        if has_key(first, key) {
            let a = position_of(first, key);
            assert(second[a].key@ == key);
        }
        if has_key(second, key) {
            let a = position_of(second, key);
            assert(first[a].key@ == key);
        }
    }
    assert forall|key: Seq<char>| has_key(first, key) implies #[trigger] mapping_of(first)[key]
        == mapping_of(second)[key] by {
        let a = position_of(first, key);
        assert(second[a].key@ == key);
        lemma_entry_is_mapped(first, a);
        lemma_entry_is_mapped(second, a);
    }
    assert(mapping_of(first) =~= mapping_of(second));
}

/// A list with distinct keys spells out a mapping with as many keys as entries.
pub proof fn lemma_domain_size(entries: Seq<Annotation>)
    requires
        distinct_keys(entries),
    ensures
        mapping_of(entries).dom().finite(),
        mapping_of(entries).dom().len() == entries.len(),
    decreases entries.len(),
{
    if entries.len() == 0 {
        assert(mapping_of(entries).dom() =~= Set::<Seq<char>>::empty());
    } else {
        let front = entries.drop_last();
        let last = entries.last();
        assert(distinct_keys(front)) by {
            assert forall|i: int, j: int| 0 <= i < j < front.len() implies (#[trigger] front[i]).key@
                != (#[trigger] front[j]).key@ by {
                assert(front[i] == entries[i] && front[j] == entries[j]);
            }
        }
        lemma_domain_size(front);
        assert(!has_key(front, last.key@)) by {
            if has_key(front, last.key@) {
                let i = position_of(front, last.key@);
                assert(front[i] == entries[i]);
                assert(entries[i].key@ != entries[entries.len() - 1].key@);
            }
        }
        assert(mapping_of(entries).dom() =~= mapping_of(front).dom().insert(last.key@)) by {
            assert forall|key: Seq<char>| has_key(entries, key) <==> (has_key(front, key) || key
                == last.key@) by {
                if has_key(entries, key) {
                    let i = position_of(entries, key);
                    if i < front.len() {
                        assert(front[i].key@ == key);
                    }
                }
                if has_key(front, key) {
                    let i = position_of(front, key);
                    assert(entries[i].key@ == key);
                }
                if key == last.key@ {
                    assert(entries[entries.len() - 1].key@ == key);
                }
            }
        }
    }
}

/// Replacing the value at position `i` updates the mapping at that entry's key.
pub proof fn lemma_replace_value(entries: Seq<Annotation>, i: int, stored: Annotation)
    requires
        distinct_keys(entries),
        0 <= i < entries.len(),
        stored.key@ == entries[i].key@,
    ensures
        distinct_keys(entries.update(i, stored)),
        mapping_of(entries.update(i, stored)) == mapping_of(entries).insert(
            stored.key@,
            stored.value@,
        ),
{
    let after = entries.update(i, stored);
    assert forall|a: int, b: int| 0 <= a < b < after.len() implies (#[trigger] after[a]).key@ != (
    #[trigger] after[b]).key@ by {
        assert(after[a].key@ == entries[a].key@);
        assert(after[b].key@ == entries[b].key@);
    }
    assert forall|key: Seq<char>| has_key(after, key) <==> has_key(entries, key) by {
        if has_key(after, key) {
            let a = position_of(after, key);
            assert(entries[a].key@ == key);
        }
        if has_key(entries, key) {
            let a = position_of(entries, key);
            assert(after[a].key@ == key);
        }
    }
    assert forall|key: Seq<char>| has_key(after, key) implies #[trigger] mapping_of(after)[key]
        == mapping_of(entries).insert(stored.key@, stored.value@)[key] by {
        let a = position_of(after, key);
        lemma_entry_is_mapped(after, a);
        lemma_entry_is_mapped(entries, a);
    }
    assert(mapping_of(after) =~= mapping_of(entries).insert(stored.key@, stored.value@));
}

/// Appending an entry with a fresh key adds that key to the mapping.
pub proof fn lemma_append_entry(entries: Seq<Annotation>, added: Annotation)
    requires
        distinct_keys(entries),
        forall|j: int| 0 <= j < entries.len() ==> (#[trigger] entries[j]).key@ != added.key@,
    ensures
        distinct_keys(entries.push(added)),
        mapping_of(entries.push(added)) == mapping_of(entries).insert(added.key@, added.value@),
{
    let after = entries.push(added);
    assert forall|a: int, b: int| 0 <= a < b < after.len() implies (#[trigger] after[a]).key@ != (
    #[trigger] after[b]).key@ by {
        if b < entries.len() {
            assert(after[a] == entries[a] && after[b] == entries[b]);
        } else {
            assert(after[a] == entries[a]);
        }
    }
    assert forall|key: Seq<char>| has_key(after, key) <==> (has_key(entries, key) || key
        == added.key@) by {
        if has_key(after, key) {
            let a = position_of(after, key);
            if a < entries.len() {
                assert(entries[a].key@ == key);
            }
        }
        if has_key(entries, key) {
            let a = position_of(entries, key);
            assert(after[a].key@ == key);
        }
        if key == added.key@ {
            assert(after[after.len() - 1].key@ == key);
        }
    }
    assert forall|key: Seq<char>| has_key(after, key) implies #[trigger] mapping_of(after)[key]
        == mapping_of(entries).insert(added.key@, added.value@)[key] by {
        let a = position_of(after, key);
        lemma_entry_is_mapped(after, a);
        if a < entries.len() {
            lemma_entry_is_mapped(entries, a);
        }
    }
    assert(mapping_of(after) =~= mapping_of(entries).insert(added.key@, added.value@));
}

} // verus!
