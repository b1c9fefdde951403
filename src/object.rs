//! An object with an identifier and a bag of named JSON properties.

use vstd::prelude::*;
use serde_json::Value;
use crate::uri::Uri;

verus! {

#[verifier::external_type_specification]
#[verifier::external_body]
pub struct ExValue(Value);

/// The value of the first entry named `name`, if any.
pub open spec fn lookup(entries: Seq<(String, Value)>, name: Seq<char>) -> Option<Value>
    decreases entries.len(),
{
    if entries.len() == 0 {
        None
    } else if entries[0].0@ == name {
        Some(entries[0].1)
    } else {
        lookup(entries.drop_first(), name)
    }
}

/// No two entries share a name.
pub open spec fn names_unique(entries: Seq<(String, Value)>) -> bool {
    forall|i: int, j: int|
        0 <= i < j < entries.len() ==> #[trigger] entries[i].0@ != #[trigger] entries[j].0@
}

proof fn lemma_lookup_push(s: Seq<(String, Value)>, e: (String, Value), n: Seq<char>)
    requires
        forall|j: int| 0 <= j < s.len() ==> s[j].0@ != e.0@,
    ensures
        lookup(s.push(e), n) == if n == e.0@ {
            Some(e.1)
        } else {
            lookup(s, n)
        },
    decreases s.len(),
{
    if s.len() > 0 {
        assert(s.push(e).drop_first() =~= s.drop_first().push(e));
        lemma_lookup_push(s.drop_first(), e, n);
    } else {
        assert(s.push(e).drop_first() =~= s);
    }
}

proof fn lemma_lookup_update(s: Seq<(String, Value)>, i: int, e: (String, Value), n: Seq<char>)
    requires
        0 <= i < s.len(),
        s[i].0@ == e.0@,
        forall|j: int| 0 <= j < i ==> s[j].0@ != e.0@,
    ensures
        lookup(s.update(i, e), n) == if n == e.0@ {
            Some(e.1)
        } else {
            lookup(s, n)
        },
    decreases i,
{
    if i > 0 {
        assert(s.update(i, e).drop_first() =~= s.drop_first().update(i - 1, e));
        lemma_lookup_update(s.drop_first(), i - 1, e, n);
    } else {
        assert(s.update(i, e).drop_first() =~= s.drop_first());
    }
}

/// An object with an identifier and, once one is set, named properties.
#[derive(Debug, Clone)]
pub struct ObjectWithId {
    /// The identifier of the object.
    pub id: Uri,
    /// The properties of the object, in the order they were first set; one
    /// entry per name when they are set through `set_property`.
    pub property_set: Option<Vec<(String, Value)>>,
}

impl ObjectWithId {
    /// The property entries; none before a property is set.
    pub open spec fn entries(&self) -> Seq<(String, Value)> {
        match self.property_set {
            Some(v) => v@,
            None => seq![],
        }
    }

    /// An object with identifier `id` and no properties.
    pub fn new(id: Uri) -> (r: ObjectWithId)
        ensures
            r.id == id,
            r.property_set is None,
            names_unique(r.entries()),
    {
        ObjectWithId { id, property_set: None }
    }

    /// Sets property `name` to `value`, replacing the value it had; the
    /// other properties and the identifier are kept.
    pub fn set_property(&mut self, name: &str, value: Value)
        ensures
            final(self).id == old(self).id,
            lookup(final(self).entries(), name@) == Some(value),
            forall|n: Seq<char>| n != name@ ==> lookup(final(self).entries(), n) == lookup(
                old(self).entries(),
                n,
            ),
            names_unique(old(self).entries()) ==> names_unique(final(self).entries()),
    {
        let key = name.to_string();
        let mut entries = match self.property_set.take() {
            Some(e) => e,
            None => Vec::new(),
        };
        assert(entries@ == old(self).entries());
        let mut i: usize = 0;
        while i < entries.len()
            invariant
                0 <= i <= entries@.len(),
                key@ == name@,
                forall|j: int| 0 <= j < i ==> entries@[j].0@ != name@,
            ensures
                0 <= i <= entries@.len(),
                forall|j: int| 0 <= j < i ==> entries@[j].0@ != name@,
                i < entries@.len() ==> entries@[i as int].0@ == name@,
            decreases entries@.len() - i,
        {
            if entries[i].0 == key {
                break;
            }
            i = i + 1;
        }
        let ghost before = entries@;
        if i < entries.len() {
            proof {
                lemma_lookup_update(before, i as int, (key, value), name@);
                assert forall|n: Seq<char>| n != name@ implies lookup(
                    before.update(i as int, (key, value)),
                    n,
                ) == lookup(before, n) by {
                    lemma_lookup_update(before, i as int, (key, value), n);
                }
            }
            entries.set(i, (key, value));
            assert(entries@ =~= before.update(i as int, (key, value)));
        } else {
            proof {
                lemma_lookup_push(before, (key, value), name@);
                assert forall|n: Seq<char>| n != name@ implies lookup(before.push((key, value)), n)
                    == lookup(before, n) by {
                    lemma_lookup_push(before, (key, value), n);
                }
            }
            entries.push((key, value));
            assert(entries@ =~= before.push((key, value)));
        }
        self.property_set = Some(entries);
    }

    /// The value of property `name`, if it is set.
    pub fn get_property(&self, name: &str) -> (r: Option<&Value>)
        ensures
            r is Some <==> lookup(self.entries(), name@) is Some,
            r matches Some(v) ==> lookup(self.entries(), name@) == Some(*v),
    {
        match &self.property_set {
            None => None,
            Some(entries) => {
                let key = name.to_string();
                let mut i: usize = 0;
                assert(entries@.subrange(0, entries@.len() as int) =~= entries@);
                while i < entries.len()
                    invariant
                        entries@ == self.entries(),
                        0 <= i <= entries@.len(),
                        key@ == name@,
                        lookup(entries@, name@) == lookup(entries@.subrange(i as int, entries@.len() as int), name@),
                    decreases entries@.len() - i,
                {
                    let ghost rest = entries@.subrange(i as int, entries@.len() as int);
                    if entries[i].0 == key {
                        return Some(&entries[i].1);
                    }
                    assert(rest.drop_first() =~= entries@.subrange(i + 1, entries@.len() as int));
                    i = i + 1;
                }
                None
            },
        }
    }
}

} // verus!
