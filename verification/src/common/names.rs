//! An insertion-ordered table from names to values, and operations on names.

use vstd::prelude::*;

verus! {

/// A table of named values.  Names are unique, and the entries keep the order
/// in which their names were first inserted.
#[derive(Debug)]
pub struct NameMap<V> {
    entries: Vec<(String, V)>,
}

impl<V> View for NameMap<V> {
    type V = Map<Seq<char>, V>;

    open spec fn view(&self) -> Map<Seq<char>, V> {
        table_of(self.order())
    }
}

/// The table that a list of entries stands for.
pub open spec fn table_of<V>(order: Seq<(Seq<char>, V)>) -> Map<Seq<char>, V> {
    Map::new(
        |name: Seq<char>| exists|i: int| 0 <= i < order.len() && order[i].0 == name,
        |name: Seq<char>| order[choose|i: int| 0 <= i < order.len() && order[i].0 == name].1,
    )
}

/// Whether no name stands twice in a list of entries.
pub open spec fn distinct_names<V>(order: Seq<(Seq<char>, V)>) -> bool {
    forall|i: int, j: int| 0 <= i < j < order.len() ==> order[i].0 != order[j].0
}

/// A table maps the name of each of its entries to the value of that entry.
pub proof fn lemma_table_entry<V>(order: Seq<(Seq<char>, V)>, i: int)
    requires
        distinct_names(order),
        0 <= i < order.len(),
    ensures
        table_of(order).contains_key(order[i].0),
        table_of(order)[order[i].0] == order[i].1,
{
    let name = order[i].0;
    let k = choose|k: int| 0 <= k < order.len() && order[k].0 == name;
    assert(k == i);
}

proof fn lemma_table_push<V>(order: Seq<(Seq<char>, V)>, name: Seq<char>, value: V)
    requires
        distinct_names(order),
        !table_of(order).contains_key(name),
    ensures
        table_of(order.push((name, value))) == table_of(order).insert(name, value),
        distinct_names(order.push((name, value))),
{
    let longer = order.push((name, value));
    assert(distinct_names(longer)) by {
        assert forall|i: int| 0 <= i < order.len() implies order[i].0 != name by {
            lemma_table_entry(order, i);
        }
    }
    lemma_table_entry(longer, order.len() as int);
    assert forall|i: int| 0 <= i < order.len() implies table_of(longer)[order[i].0] == table_of(
        order,
    )[order[i].0] && table_of(longer).contains_key(order[i].0) && order[i].0 != name by {
        lemma_table_entry(longer, i);
        lemma_table_entry(order, i);
        assert(longer[i] == order[i]);
    }
    assert(table_of(longer) =~= table_of(order).insert(name, value));
}

proof fn lemma_table_update<V>(order: Seq<(Seq<char>, V)>, at: int, value: V)
    requires
        distinct_names(order),
        0 <= at < order.len(),
    ensures
        table_of(order.update(at, (order[at].0, value))) == table_of(order).insert(
            order[at].0,
            value,
        ),
        distinct_names(order.update(at, (order[at].0, value))),
{
    let changed = order.update(at, (order[at].0, value));
    assert forall|i: int| 0 <= i < order.len() implies changed[i].0 == order[i].0 by {}
    assert forall|i: int| 0 <= i < order.len() implies #[trigger] table_of(order).contains_key(
        order[i].0,
    ) && table_of(changed).contains_key(order[i].0) && table_of(changed)[order[i].0] == changed[i].1
        && table_of(order)[order[i].0] == order[i].1 by {
        lemma_table_entry(changed, i);
        lemma_table_entry(order, i);
    }
    assert(table_of(changed) =~= table_of(order).insert(order[at].0, value));
}

impl<V> NameMap<V> {
    /// The entries, first inserted first.
    pub closed spec fn order(&self) -> Seq<(Seq<char>, V)> {
        Self::listed(self.entries@)
    }

    spec fn listed(entries: Seq<(String, V)>) -> Seq<(Seq<char>, V)> {
        entries.map_values(|e: (String, V)| (e.0@, e.1))
    }

    /// No name stands twice.
    #[verifier::type_invariant]
    spec fn unique(self) -> bool {
        distinct_names(self.order())
    }

    pub fn new() -> (table: Self)
        ensures
            table.order() == Seq::<(Seq<char>, V)>::empty(),
            table@ == Map::<Seq<char>, V>::empty(),
    {
        let table = NameMap { entries: Vec::new() };
        assert(table.order() =~= Seq::empty());
        assert(table@ =~= Map::empty());
        table
    }

    /// The number of entries, no two of which have the same name.
    pub fn len(&self) -> (len: usize)
        ensures
            len == self.order().len(),
            distinct_names(self.order()),
    {
        proof {
            use_type_invariant(self);
        }
        self.entries.len()
    }

    /// The name of the entry at `index` in insertion order.
    pub fn name_at(&self, index: usize) -> (name: &String)
        requires
            index < self.order().len(),
        ensures
            name@ == self.order()[index as int].0,
    {
        &self.entries[index].0
    }

    /// The value of the entry at `index` in insertion order.
    pub fn value_at(&self, index: usize) -> (value: &V)
        requires
            index < self.order().len(),
        ensures
            *value == self.order()[index as int].1,
    {
        &self.entries[index].1
    }

    /// The place of `name` in insertion order.
    pub fn find(&self, name: &str) -> (found: Option<usize>)
        ensures
            match found {
                Some(i) => {
                    &&& i < self.order().len()
                    &&& self.order()[i as int].0 == name@
                    &&& self@.contains_key(name@)
                    &&& self@[name@] == self.order()[i as int].1
                },
                None => !self@.contains_key(name@),
            },
    {
        let mut i: usize = 0;
        while i < self.entries.len()
            invariant
                i <= self.entries.len(),
                forall|j: int| 0 <= j < i ==> self.entries[j].0@ != name@,
            decreases self.entries.len() - i,
        {
            if same_name(self.entries[i].0.as_str(), name) {
                proof {
                    use_type_invariant(self);
                    lemma_table_entry(self.order(), i as int);
                }
                return Some(i);
            }
            i += 1;
        }
        assert forall|k: int| 0 <= k < self.order().len() implies self.order()[k].0 != name@ by {
            assert(self.entries[k].0@ != name@);
        }
        None
    }

    pub fn get(&self, name: &str) -> (value: Option<&V>)
        ensures
            match value {
                Some(v) => self@.contains_key(name@) && *v == self@[name@],
                None => !self@.contains_key(name@),
            },
    {
        match self.find(name) {
            Some(i) => Some(&self.entries[i].1),
            None => None,
        }
    }

    pub fn contains_key(&self, name: &str) -> (found: bool)
        ensures
            found == self@.contains_key(name@),
    {
        self.find(name).is_some()
    }

    /// Maps `name` to `value`.  A name that is there already keeps its place.
    pub fn insert(&mut self, name: String, value: V)
        ensures
            final(self)@ == old(self)@.insert(name@, value),
            !old(self)@.contains_key(name@) ==> final(self).order() == old(self).order().push(
                (name@, value),
            ),
            old(self)@.contains_key(name@) ==> exists|i: int|
                {
                    &&& 0 <= i < old(self).order().len()
                    &&& (#[trigger] old(self).order()[i]).0 == name@
                    &&& final(self).order() == old(self).order().update(i, (name@, value))
                },
    {
        let found = self.find(name.as_str());
        proof {
            use_type_invariant(&*self);
        }
        let ghost before = *self;
        let ghost key = name@;
        let mut entries: Vec<(String, V)> = Vec::new();
        std::mem::swap(&mut entries, &mut self.entries);
        match found {
            Some(i) => {
                entries.set(i, (name, value));
                proof {
                    assert(Self::listed(entries@) =~= before.order().update(i as int, (key, value)));
                    lemma_table_update(before.order(), i as int, value);
                }
                self.entries = entries;
            },
            None => {
                entries.push((name, value));
                proof {
                    assert(Self::listed(entries@) =~= before.order().push((key, value)));
                    lemma_table_push(before.order(), key, value);
                }
                self.entries = entries;
            },
        }
    }
}

/// Whether two names are made of the same characters.
pub fn same_name(a: &str, b: &str) -> (same: bool)
    ensures
        same == (a@ == b@),
{
    a.to_owned() == b.to_owned()
}

} // verus!
