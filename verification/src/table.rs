//! A table of values under distinct names.
use crate::text::same_text;
use vstd::prelude::*;

verus! {

/// The map that a list of named values stands for, where no name occurs twice.
pub open spec fn contents<V>(pairs: Seq<(Seq<char>, V)>) -> Map<Seq<char>, V> {
    Map::new(
        |name: Seq<char>| exists|i: int| 0 <= i < pairs.len() && #[trigger] pairs[i].0 == name,
        |name: Seq<char>|
            pairs[choose|i: int| 0 <= i < pairs.len() && #[trigger] pairs[i].0 == name].1,
    )
}

/// No two entries have the same name.
pub open spec fn distinct_names<V>(pairs: Seq<(Seq<char>, V)>) -> bool {
    forall|i: int, j: int|
        0 <= i < j < pairs.len() ==> (#[trigger] pairs[i]).0 != (#[trigger] pairs[j]).0
}

/// Values under distinct names, kept in some order of the table's own.
#[verifier::reject_recursive_types(V)]
pub struct Table<V> {
    entries: Vec<(String, V)>,
}

impl<V> View for Table<V> {
    type V = Map<Seq<char>, V>;

    open spec fn view(&self) -> Map<Seq<char>, V> {
        contents(self.pairs())
    }
}

/// The entry at a position is what the map holds under its name.
pub proof fn entry_is_content<V>(pairs: Seq<(Seq<char>, V)>, i: int)
    requires
        distinct_names(pairs),
        0 <= i < pairs.len(),
    ensures
        contents(pairs).contains_key(pairs[i].0),
        contents(pairs)[pairs[i].0] == pairs[i].1,
{
}

/// To put another value under the name at a position is to insert it in the map.
proof fn replace_is_insert<V>(pairs: Seq<(Seq<char>, V)>, i: int, value: V)
    requires
        distinct_names(pairs),
        0 <= i < pairs.len(),
    ensures
        ({
            let after = pairs.update(i, (pairs[i].0, value));
            distinct_names(after) && contents(after) == contents(pairs).insert(pairs[i].0, value)
        }),
{
    let after = pairs.update(i, (pairs[i].0, value));
    let expected = contents(pairs).insert(pairs[i].0, value);
    assert forall|n: Seq<char>| contents(after).contains_key(n) <==> expected.contains_key(n) by {
        if contents(after).contains_key(n) {
            let j = choose|j: int| 0 <= j < after.len() && #[trigger] after[j].0 == n;
            assert(pairs[j].0 == n);
        }
        if contents(pairs).contains_key(n) {
            let j = choose|j: int| 0 <= j < pairs.len() && #[trigger] pairs[j].0 == n;
            assert(after[j].0 == n);
        }
        assert(after[i].0 == pairs[i].0);
    }
    assert forall|n: Seq<char>| contents(after).contains_key(n) implies contents(after)[n]
        == expected[n] by {
        let j = choose|j: int| 0 <= j < after.len() && #[trigger] after[j].0 == n;
        entry_is_content(after, j);
        entry_is_content(pairs, j);
    }
    assert(contents(after) =~= expected);
}

/// To append a value under a new name is to insert it in the map.
proof fn push_is_insert<V>(pairs: Seq<(Seq<char>, V)>, name: Seq<char>, value: V)
    requires
        distinct_names(pairs),
        forall|i: int| 0 <= i < pairs.len() ==> (#[trigger] pairs[i]).0 != name,
    ensures
        distinct_names(pairs.push((name, value))),
        contents(pairs.push((name, value))) == contents(pairs).insert(name, value),
{
    let after = pairs.push((name, value));
    let expected = contents(pairs).insert(name, value);
    assert forall|n: Seq<char>| contents(after).contains_key(n) <==> expected.contains_key(n) by {
        if contents(after).contains_key(n) {
            let j = choose|j: int| 0 <= j < after.len() && #[trigger] after[j].0 == n;
            assert(j < pairs.len() ==> pairs[j].0 == n);
        }
        if contents(pairs).contains_key(n) {
            let j = choose|j: int| 0 <= j < pairs.len() && #[trigger] pairs[j].0 == n;
            assert(after[j].0 == n);
        }
        assert(after[pairs.len() as int].0 == name);
    }
    assert forall|n: Seq<char>| contents(after).contains_key(n) implies contents(after)[n]
        == expected[n] by {
        let j = choose|j: int| 0 <= j < after.len() && #[trigger] after[j].0 == n;
        entry_is_content(after, j);
        if j < pairs.len() {
            entry_is_content(pairs, j);
        }
    }
    assert(contents(after) =~= expected);
}

/// To take out the entry at a position is to remove its name from the map.
pub proof fn take_out_is_remove<V>(pairs: Seq<(Seq<char>, V)>, i: int)
    requires
        distinct_names(pairs),
        0 <= i < pairs.len(),
    ensures
        distinct_names(pairs.remove(i)),
        contents(pairs.remove(i)) == contents(pairs).remove(pairs[i].0),
{
    let after = pairs.remove(i);
    let expected = contents(pairs).remove(pairs[i].0);
    assert forall|n: Seq<char>| contents(after).contains_key(n) <==> expected.contains_key(n) by {
        if contents(after).contains_key(n) {
            let j = choose|j: int| 0 <= j < after.len() && #[trigger] after[j].0 == n;
            let k = if j < i { j } else { j + 1 };
            assert(pairs[k].0 == n);
        }
        if expected.contains_key(n) {
            let j = choose|j: int| 0 <= j < pairs.len() && #[trigger] pairs[j].0 == n;
            let k = if j < i { j } else { j - 1 };
            assert(after[k].0 == n);
        }
    }
    assert forall|n: Seq<char>| contents(after).contains_key(n) implies contents(after)[n]
        == expected[n] by {
        let j = choose|j: int| 0 <= j < after.len() && #[trigger] after[j].0 == n;
        let k = if j < i { j } else { j + 1 };
        entry_is_content(after, j);
        entry_is_content(pairs, k);
    }
    assert(contents(after) =~= expected);
}

impl<V> Table<V> {
    /// The entries, in the table's own order.
    pub closed spec fn pairs(&self) -> Seq<(Seq<char>, V)> {
        self.entries@.map_values(|entry: (String, V)| (entry.0@, entry.1))
    }

    /// The table's invariant: its names are distinct.
    pub open spec fn wf(&self) -> bool {
        distinct_names(self.pairs())
    }

    /// A table without entries.
    pub fn new() -> (res: Self)
        ensures
            res.wf(),
            res@ == Map::<Seq<char>, V>::empty(),
            res.pairs().len() == 0,
    {
        Table { entries: Vec::new() }
    }

    /// The number of entries.
    pub fn len(&self) -> (res: usize)
        ensures
            res == self.pairs().len(),
    {
        self.entries.len()
    }

    /// The name at a position.
    pub fn name_at(&self, i: usize) -> (res: &str)
        requires
            i < self.pairs().len(),
        ensures
            res@ == self.pairs()[i as int].0,
    {
        self.entries[i].0.as_str()
    }

    /// The value at a position.
    pub fn value_at(&self, i: usize) -> (res: &V)
        requires
            i < self.pairs().len(),
        ensures
            *res == self.pairs()[i as int].1,
    {
        &self.entries[i].1
    }

    /// The position of a name.
    fn find(&self, name: &str) -> (res: Option<usize>)
        ensures
            match res {
                Some(i) => i < self.pairs().len() && self.pairs()[i as int].0 == name@,
                None => forall|i: int|
                    0 <= i < self.pairs().len() ==> (#[trigger] self.pairs()[i]).0 != name@,
            },
    {
        let mut i: usize = 0;
        while i < self.entries.len()
            invariant
                i <= self.entries.len(),
                forall|j: int| 0 <= j < i ==> (#[trigger] self.pairs()[j]).0 != name@,
            decreases self.entries.len() - i,
        {
            if same_text(self.entries[i].0.as_str(), name) {
                return Some(i);
            }
            i += 1;
        }
        None
    }

    /// The value under a name.
    pub fn get(&self, name: &str) -> (res: Option<&V>)
        requires
            self.wf(),
        ensures
            match res {
                Some(value) => self@.contains_key(name@) && *value == self@[name@],
                None => !self@.contains_key(name@),
            },
    {
        match self.find(name) {
            Some(i) => {
                proof {
                    entry_is_content(self.pairs(), i as int);
                }
                Some(&self.entries[i].1)
            },
            None => None,
        }
    }

    /// Puts `value` under `name`, in place of what was there.
    pub fn insert(&mut self, name: String, value: V)
        requires
            old(self).wf(),
        ensures
            final(self).wf(),
            final(self)@ == old(self)@.insert(name@, value),
    {
        let ghost before = self.pairs();
        let ghost name_view = name@;
        match self.find(name.as_str()) {
            Some(i) => {
                self.entries[i] = (name, value);
                proof {
                    assert(self.pairs() == before.update(i as int, (name_view, value)));
                    replace_is_insert(before, i as int, value);
                }
            },
            None => {
                self.entries.push((name, value));
                proof {
                    assert(self.pairs() == before.push((name_view, value)));
                    push_is_insert(before, name_view, value);
                }
            },
        }
    }

    /// Takes out the entry under `name`, where there is one.
    pub fn remove(&mut self, name: &str)
        requires
            old(self).wf(),
        ensures
            final(self).wf(),
            final(self)@ == old(self)@.remove(name@),
    {
        let ghost before = self.pairs();
        match self.find(name) {
            Some(i) => {
                self.entries.remove(i);
                proof {
                    assert(self.pairs() == before.remove(i as int));
                    take_out_is_remove(before, i as int);
                }
            },
            None => {},
        }
    }

    /// The value at a position, to be changed in place.
    fn slot(&mut self, i: usize) -> (res: &mut V)
        requires
            i < old(self).pairs().len(),
        ensures
            *res == old(self).pairs()[i as int].1,
            final(self).pairs() == old(self).pairs().update(
                i as int,
                (old(self).pairs()[i as int].0, *final(res)),
            ),
    {
        &mut self.entries[i].1
    }

    /// The value under a name, to be changed in place.
    pub fn get_mut(&mut self, name: &str) -> (res: Option<&mut V>)
        requires
            old(self).wf(),
        ensures
            final(self).wf(),
            match res {
                Some(value) => {
                    &&& old(self)@.contains_key(name@)
                    &&& *value == old(self)@[name@]
                    &&& final(self)@ == old(self)@.insert(name@, *final(value))
                },
                None => !old(self)@.contains_key(name@) && final(self)@ == old(self)@,
            },
    {
        match self.find(name) {
            Some(i) => {
                let ghost before = self.pairs();
                let slot = self.slot(i);
                proof {
                    entry_is_content(before, i as int);
                    replace_is_insert(before, i as int, *final(slot));
                }
                Some(slot)
            },
            None => None,
        }
    }
}

} // verus!
