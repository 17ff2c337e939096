//! A table from names to values, kept as a list in which no name occurs
//! twice.

use vstd::prelude::*;

verus! {

/// What a list of bindings, read from first to last, binds each name to.
pub open spec fn bindings<V: View>(entries: Seq<(String, V)>) -> Map<Seq<char>, V::V>
    decreases entries.len(),
{
    if entries.len() == 0 {
        Map::empty()
    } else {
        bindings(entries.drop_last()).insert(entries.last().0@, entries.last().1@)
    }
}

/// No two entries of the list carry the same name.
pub open spec fn distinct_names<V>(entries: Seq<(String, V)>) -> bool {
    forall|i: int, j: int|
        0 <= i < j < entries.len() ==> (#[trigger] entries[i]).0@ != (#[trigger] entries[j]).0@
}

/// A name that occurs nowhere in the list is not bound.
pub proof fn lemma_absent<V: View>(entries: Seq<(String, V)>, name: Seq<char>)
    requires
        forall|i: int| 0 <= i < entries.len() ==> (#[trigger] entries[i]).0@ != name,
    ensures
        !bindings(entries).contains_key(name),
    decreases entries.len(),
{
    if entries.len() > 0 {
        lemma_absent(entries.drop_last(), name);
    }
}

/// The name of entry `at` is bound to that entry's value.
pub proof fn lemma_present<V: View>(entries: Seq<(String, V)>, at: int)
    requires
        distinct_names(entries),
        0 <= at < entries.len(),
    ensures
        bindings(entries).contains_key(entries[at].0@),
        bindings(entries)[entries[at].0@] == entries[at].1@,
    decreases entries.len(),
{
    if at < entries.len() - 1 {
        lemma_present(entries.drop_last(), at);
        assert(entries.drop_last()[at] == entries[at]);
        assert(entries[at].0@ != entries[entries.len() - 1].0@);
    }
}

/// Replacing the value of entry `at` rebinds that entry's name and nothing
/// else.
pub proof fn lemma_replace<V: View>(entries: Seq<(String, V)>, at: int, name: String, value: V)
    requires
        distinct_names(entries),
        0 <= at < entries.len(),
        entries[at].0@ == name@,
    ensures
        distinct_names(entries.update(at, (name, value))),
        bindings(entries.update(at, (name, value))) == bindings(entries).insert(name@, value@),
    decreases entries.len(),
{
    let changed = entries.update(at, (name, value));
    assert forall|i: int, j: int| 0 <= i < j < changed.len() implies (#[trigger] changed[i]).0@
        != (#[trigger] changed[j]).0@ by {
        assert(entries[i].0@ != entries[j].0@);
    }
    if at == entries.len() - 1 {
        assert(changed.drop_last() =~= entries.drop_last());
        assert(bindings(changed) =~= bindings(entries).insert(name@, value@));
    } else {
        lemma_replace(entries.drop_last(), at, name, value);
        assert(changed.drop_last() =~= entries.drop_last().update(at, (name, value)));
        assert(changed.last() == entries.last());
        assert(entries[at].0@ != entries[entries.len() - 1].0@);
        assert(bindings(changed) =~= bindings(entries).insert(name@, value@));
    }
}

/// A table from names to values.
pub struct NameMap<V> {
    entries: Vec<(String, V)>,
}

impl<V: View> View for NameMap<V> {
    type V = Map<Seq<char>, V::V>;

    closed spec fn view(&self) -> Map<Seq<char>, V::V> {
        bindings(self.entries@)
    }
}

impl<V> NameMap<V> {
    #[verifier::type_invariant]
    spec fn well_formed(&self) -> bool {
        distinct_names(self.entries@)
    }
}

impl<V: View> NameMap<V> {
    /// The empty table.
    pub fn new() -> (table: Self)
        ensures
            table@ == Map::<Seq<char>, V::V>::empty(),
    {
        NameMap { entries: Vec::new() }
    }

    /// Where `name` stands in the list, if it stands there.
    fn position(&self, name: &String) -> (at: Option<usize>)
        ensures
            match at {
                Some(i) => i < self.entries@.len() && self.entries@[i as int].0@ == name@,
                None => forall|i: int|
                    0 <= i < self.entries@.len() ==> (#[trigger] self.entries@[i]).0@ != name@,
            },
    {
        let mut i: usize = 0;
        while i < self.entries.len()
            invariant
                i <= self.entries@.len(),
                forall|k: int| 0 <= k < i ==> (#[trigger] self.entries@[k]).0@ != name@,
            decreases self.entries@.len() - i,
        {
            if self.entries[i].0 == *name {
                return Some(i);
            }
            i = i + 1;
        }
        None
    }

    /// Whether `name` is bound.
    pub fn contains_key(&self, name: &String) -> (found: bool)
        ensures
            found == self@.contains_key(name@),
    {
        proof {
            use_type_invariant(self);
        }
        match self.position(name) {
            Some(i) => {
                proof {
                    lemma_present(self.entries@, i as int);
                }
                true
            },
            None => {
                proof {
                    lemma_absent(self.entries@, name@);
                }
                false
            },
        }
    }

    /// The value that `name` is bound to.
    pub fn get(&self, name: &String) -> (found: Option<&V>)
        ensures
            match found {
                Some(value) => self@.contains_key(name@) && self@[name@] == value@,
                None => !self@.contains_key(name@),
            },
    {
        proof {
            use_type_invariant(self);
        }
        match self.position(name) {
            Some(i) => {
                proof {
                    lemma_present(self.entries@, i as int);
                }
                Some(&self.entries[i].1)
            },
            None => {
                proof {
                    lemma_absent(self.entries@, name@);
                }
                None
            },
        }
    }

    /// Binds `name` to `value`, in place of what it was bound to before.
    pub fn insert(&mut self, name: String, value: V)
        ensures
            final(self)@ == old(self)@.insert(name@, value@),
    {
        proof {
            use_type_invariant(&*self);
        }
        let found = self.position(&name);
        let mut entries: Vec<(String, V)> = Vec::new();
        core::mem::swap(&mut self.entries, &mut entries);
        match found {
            Some(i) => {
                proof {
                    lemma_replace(entries@, i as int, name, value);
                }
                entries.set(i, (name, value));
            },
            None => {
                proof {
                    let grown = entries@.push((name, value));
                    assert(grown.drop_last() =~= entries@);
                    assert forall|i: int, j: int| 0 <= i < j < grown.len() implies (
                    #[trigger] grown[i]).0@ != (#[trigger] grown[j]).0@ by {
                        if j < entries@.len() {
                            assert(entries@[i].0@ != entries@[j].0@);
                        } else {
                            assert(entries@[i].0@ != name@);
                        }
                    }
                }
                entries.push((name, value));
            },
        }
        core::mem::swap(&mut self.entries, &mut entries);
    }

    /// How many names are bound.
    pub fn len(&self) -> (count: usize)
        ensures
            count == self@.dom().len(),
            self@.dom().finite(),
    {
        proof {
            use_type_invariant(self);
            lemma_size(self.entries@);
        }
        self.entries.len()
    }
}

/// A list without repeated names binds as many names as it is long.
pub proof fn lemma_size<V: View>(entries: Seq<(String, V)>)
    requires
        distinct_names(entries),
    ensures
        bindings(entries).dom().finite(),
        bindings(entries).dom().len() == entries.len(),
    decreases entries.len(),
{
    if entries.len() > 0 {
        let rest = entries.drop_last();
        lemma_size(rest);
        assert forall|i: int| 0 <= i < rest.len() implies (#[trigger] rest[i]).0@
            != entries.last().0@ by {
            assert(entries[i].0@ != entries[entries.len() - 1].0@);
        }
        lemma_absent(rest, entries.last().0@);
        assert(bindings(entries).dom() =~= bindings(rest).dom().insert(entries.last().0@));
    }
}

} // verus!
