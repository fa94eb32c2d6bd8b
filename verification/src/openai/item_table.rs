//! Output items by their index, in ascending order.

use crate::json::{Json, JsonView};
use vstd::prelude::*;

verus! {

/// Whether the indexes of a table ascend.
pub open spec fn indexes_ascend(table: Seq<(u64, JsonView)>) -> bool {
    forall|i: int, j: int| 0 <= i < j < table.len() ==> (#[trigger] table[i]).0 < (#[trigger] table[j]).0
}

/// A table with an item put at an index, in the place of one that was there.
pub open spec fn table_put(table: Seq<(u64, JsonView)>, index: u64, item: JsonView) -> Seq<
    (u64, JsonView),
>
    decreases table.len(),
{
    if table.len() == 0 || table.last().0 < index {
        table.push((index, item))
    } else if table.last().0 == index {
        table.drop_last().push((index, item))
    } else {
        table_put(table.drop_last(), index, item).push(table.last())
    }
}

/// The item at an index.
pub open spec fn table_get(table: Seq<(u64, JsonView)>, index: u64) -> Option<JsonView>
    decreases table.len(),
{
    if table.len() == 0 {
        None
    } else if table.last().0 == index {
        Some(table.last().1)
    } else {
        table_get(table.drop_last(), index)
    }
}

/// The items of a table in ascending order of their indexes.
pub open spec fn table_items(table: Seq<(u64, JsonView)>) -> Seq<JsonView> {
    Seq::new(table.len(), |i: int| table[i].1)
}

/// Putting an item keeps the indexes in order.
pub proof fn lemma_put_ascends(table: Seq<(u64, JsonView)>, index: u64, item: JsonView)
    requires
        indexes_ascend(table),
    ensures
        indexes_ascend(table_put(table, index, item)),
        forall|k: int|
            0 <= k < table_put(table, index, item).len() ==>
                (#[trigger] table_put(table, index, item)[k]).0
                == index || exists|l: int|
                0 <= l < table.len()
                    && (#[trigger] table[l]).0 == table_put(table, index, item)[k].0,
    decreases table.len(),
{
    let put = table_put(table, index, item);
    if table.len() == 0 || table.last().0 < index {
        assert forall|i: int, j: int| 0 <= i < j < put.len() implies (#[trigger] put[i]).0
            < (#[trigger] put[j]).0 by {
            if j == table.len() {
                assert(table[i].0 <= table.last().0);
            }
        }
        assert forall|k: int| 0 <= k < put.len() implies (#[trigger] put[k]).0 == index || exists|l: int|
            0 <= l < table.len() && (#[trigger] table[l]).0 == put[k].0 by {
            if k < table.len() {
                assert(table[k].0 == put[k].0);
            }
        }
    } else if table.last().0 == index {
        assert forall|k: int| 0 <= k < put.len() implies (#[trigger] put[k]).0 == index || exists|l: int|
            0 <= l < table.len() && (#[trigger] table[l]).0 == put[k].0 by {
            if k < table.len() - 1 {
                assert(table[k].0 == put[k].0);
            }
        }
    } else {
        let front = table.drop_last();
        lemma_put_ascends(front, index, item);
        let rest = table_put(front, index, item);
        assert forall|i: int, j: int| 0 <= i < j < put.len() implies (#[trigger] put[i]).0
            < (#[trigger] put[j]).0 by {
            if j == rest.len() {
                assert(rest[i].0 == put[i].0);
                if put[i].0 != index {
                    let l = choose|l: int| 0 <= l < front.len() && (#[trigger] front[l]).0 == rest[i].0;
                    assert(table[l].0 < table.last().0);
                }
            } else {
                assert(rest[i].0 < rest[j].0);
            }
        }
        assert forall|k: int| 0 <= k < put.len() implies (#[trigger] put[k]).0 == index || exists|l: int|
            0 <= l < table.len() && (#[trigger] table[l]).0 == put[k].0 by {
            if k == rest.len() {
                assert(table[table.len() - 1].0 == put[k].0);
            } else if put[k].0 != index {
                assert(rest[k].0 == put[k].0);
                let l = choose|l: int| 0 <= l < front.len() && (#[trigger] front[l]).0 == rest[k].0;
                assert(table[l].0 == put[k].0);
            }
        }
    }
}

/// Output items by their index.
#[derive(Debug, PartialEq, Eq)]
pub struct ItemTable {
    entries: Vec<(u64, Json)>,
}

impl DeepView for ItemTable {
    type V = Seq<(u64, JsonView)>;

    closed spec fn deep_view(&self) -> Self::V {
        self.entries.deep_view()
    }
}

impl ItemTable {
    #[verifier::type_invariant]
    spec fn in_order(&self) -> bool {
        indexes_ascend(self.entries.deep_view())
    }

    /// A table without items.
    pub fn new() -> (r: Self)
        ensures
            r.deep_view() == Seq::<(u64, JsonView)>::empty(),
    {
        let entries: Vec<(u64, Json)> = Vec::new();
        assert(entries.deep_view() =~= Seq::<(u64, JsonView)>::empty());
        ItemTable { entries }
    }

    /// How many items there are; their indexes ascend.
    pub fn len(&self) -> (r: usize)
        ensures
            r == self.deep_view().len(),
            indexes_ascend(self.deep_view()),
    {
        proof {
            use_type_invariant(self);
        }
        self.entries.len()
    }

    /// The index at a position.
    pub fn index_at(&self, i: usize) -> (r: u64)
        requires
            i < self.deep_view().len(),
        ensures
            r == self.deep_view()[i as int].0,
    {
        self.entries[i].0
    }

    /// The item at a position.
    pub fn item_at(&self, i: usize) -> (r: &Json)
        requires
            i < self.deep_view().len(),
        ensures
            r.deep_view() == self.deep_view()[i as int].1,
    {
        &self.entries[i].1
    }

    /// The item at an index.
    pub fn get(&self, index: u64) -> (r: Option<&Json>)
        ensures
            r.deep_view() == table_get(self.deep_view(), index),
    {
        let ghost views = self.entries.deep_view();
        let mut i: usize = self.entries.len();
        assert(views.take(i as int) =~= views);
        while i > 0
            invariant
                i <= self.entries@.len(),
                views == self.entries.deep_view(),
                table_get(views, index) == table_get(views.take(i as int), index),
            decreases i,
        {
            i = i - 1;
            assert(views.take(i + 1).drop_last() =~= views.take(i as int));
            assert(views.take(i + 1).last() == views[i as int]);
            if self.entries[i].0 == index {
                return Some(&self.entries[i].1);
            }
        }
        None
    }

    /// Puts an item at an index, in the place of one that was there.
    pub fn insert(&mut self, index: u64, item: Json)
        ensures
            final(self).deep_view() == table_put(old(self).deep_view(), index, item.deep_view()),
    {
        proof {
            use_type_invariant(&*self);
        }
        let mut entries: Vec<(u64, Json)> = Vec::new();
        let ghost before = self.entries.deep_view();
        std::mem::swap(&mut entries, &mut self.entries);
        let ghost view = item.deep_view();
        let mut i: usize = entries.len();
        assert(before.take(i as int) =~= before);
        assert(before.skip(i as int) =~= Seq::<(u64, JsonView)>::empty());
        assert(table_put(before, index, view) =~= table_put(before, index, view) + before.skip(i as int));
        while i > 0 && entries[i - 1].0 > index
            invariant
                i <= entries@.len(),
                before == entries.deep_view(),
                table_put(before, index, view) == table_put(before.take(i as int), index, view)
                    + before.skip(i as int),
            decreases i,
        {
            i = i - 1;
            let front = Ghost(before.take(i + 1));
            assert(front@.drop_last() =~= before.take(i as int));
            assert(front@.last() == before[i as int]);
            assert(before.skip(i as int) =~= seq![before[i as int]] + before.skip(i + 1));
            assert(table_put(before, index, view) =~= table_put(before.take(i as int), index, view)
                + before.skip(i as int));
        }
        let ghost front = before.take(i as int);
        if i > 0 && entries[i - 1].0 == index {
            let _ = entries.remove(i - 1);
            entries.insert(i - 1, (index, item));
            assert(front.last() == before[i - 1]);
            assert(entries.deep_view() =~= front.drop_last().push((index, view)) + before.skip(i as int));
        } else {
            entries.insert(i, (index, item));
            if i > 0 {
                assert(front.last() == before[i - 1]);
            }
            assert(entries.deep_view() =~= front.push((index, view)) + before.skip(i as int));
        }
        proof {
            lemma_put_ascends(before, index, view);
        }
        self.entries = entries;
    }
}

} // verus!
