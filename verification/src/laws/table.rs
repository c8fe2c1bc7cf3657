//! What is put into a table comes out again, and nothing else does.
use crate::table::entry_is_content;
use crate::table::Table;
use vstd::prelude::*;

verus! {

/// A new table holds nothing.
pub proof fn new_table_is_empty<V>(table: Table<V>, name: &str, got: Option<&V>, len: usize)
    requires
        call_ensures(Table::<V>::new, (), table),
        call_ensures(Table::<V>::get, (&table, name), got),
        call_ensures(Table::<V>::len, (&table,), len),
    ensures
        got is None,
        len == 0,
{
}

/// What is inserted under a name is found under it, in place of anything that was there;
/// under any other name is what was there.
pub proof fn insert_then_get<V>(
    table: &mut Table<V>,
    name: String,
    value: V,
    asked: &str,
    before: Option<&V>,
    after: Option<&V>,
)
    requires
        call_ensures(Table::<V>::get, (&*old(table), asked), before),
        call_ensures(Table::<V>::insert, (table, name, value), ()),
        call_ensures(Table::<V>::get, (&*final(table), asked), after),
    ensures
        asked@ == name@ ==> after == Some(&value),
        asked@ != name@ ==> after == before,
{
}

/// What is removed is found no more; under any other name is what was there.
pub proof fn remove_then_get<V>(
    table: &mut Table<V>,
    name: &str,
    asked: &str,
    before: Option<&V>,
    after: Option<&V>,
)
    requires
        call_ensures(Table::<V>::get, (&*old(table), asked), before),
        call_ensures(Table::<V>::remove, (table, name), ()),
        call_ensures(Table::<V>::get, (&*final(table), asked), after),
    ensures
        asked@ == name@ ==> after is None,
        asked@ != name@ ==> after == before,
{
}

/// What is changed in place is found changed; under any other name is what was there.
pub proof fn change_then_get<V>(
    table: &mut Table<V>,
    name: &str,
    slot: Option<&mut V>,
    asked: &str,
    before: Option<&V>,
    after: Option<&V>,
)
    requires
        call_ensures(Table::<V>::get, (&*old(table), asked), before),
        call_ensures(Table::<V>::get_mut, (table, name), slot),
        call_ensures(Table::<V>::get, (&*final(table), asked), after),
    ensures
        asked@ == name@ ==> (match slot {
            Some(slot) => before == Some(&*slot) && after == Some(&*final(slot)),
            None => before is None && after is None,
        }),
        asked@ != name@ ==> after == before,
{
}

/// Whatever is found under a name is listed at some position, and no position is beyond
/// the number of entries.
pub proof fn what_is_found_is_listed<V>(
    table: &Table<V>,
    len: usize,
    asked: &str,
    got: Option<&V>,
)
    requires
        call_ensures(Table::<V>::len, (table,), len),
        call_ensures(Table::<V>::get, (table, asked), got),
    ensures
        got is Some <==> exists|i: int| 0 <= i < len && (#[trigger] table.pairs()[i]).0 == asked@,
{
    if got is Some {
        let pairs = table.pairs();
        let i = choose|i: int| 0 <= i < pairs.len() && #[trigger] pairs[i].0 == asked@;
        assert(table.pairs()[i].0 == asked@);
    }
}

/// The positions of a table list its names, each once, with what is found under them.
pub proof fn positions_list_the_names<V>(
    table: &Table<V>,
    len: usize,
    i: usize,
    name: &str,
    value: &V,
    got: Option<&V>,
    j: usize,
    other: &str,
)
    requires
        table.wf(),
        call_ensures(Table::<V>::len, (table,), len),
        i < len,
        j < len,
        call_ensures(Table::<V>::name_at, (table, i), name),
        call_ensures(Table::<V>::value_at, (table, i), value),
        call_ensures(Table::<V>::name_at, (table, j), other),
        call_ensures(Table::<V>::get, (table, name), got),
    ensures
        name@ == table.pairs()[i as int].0,
        got == Some(value),
        i == j <==> name@ == other@,
{
    entry_is_content(table.pairs(), i as int);
}

} // verus!
