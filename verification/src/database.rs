//! The tables the journal lives in, held in memory: one of parent records,
//! one of typed payloads and one of users, each keyed by `Id`.

use vstd::prelude::*;
use crate::items::item::Item;
use crate::items::Items;
use crate::users::user::{distinct_names, User};
use crate::Id;

verus! {

/// A record that a `Table` can hold: it has a key and can be duplicated.
pub trait Row: Sized {
    /// The key under which the record is stored.
    spec fn key(&self) -> Id;

    fn row_key(&self) -> (k: Id)
        ensures
            k == self.key(),
    ;

    fn duplicate(&self) -> (r: Self)
        ensures
            r == *self,
    ;
}

/// Position of the first row with key `id`, or `rows.len()` if there is none.
pub open spec fn index_of<R: Row>(rows: Seq<R>, id: Id) -> int
    decreases rows.len(),
{
    if rows.len() == 0 {
        0
    } else if rows[0].key() == id {
        0
    } else {
        1 + index_of(rows.drop_first(), id)
    }
}

/// Some row has key `id`.
pub open spec fn present<R: Row>(rows: Seq<R>, id: Id) -> bool {
    index_of(rows, id) < rows.len()
}

/// The first row with key `id`, if any.
pub open spec fn lookup<R: Row>(rows: Seq<R>, id: Id) -> Option<R> {
    if present(rows, id) {
        Some(rows[index_of(rows, id)])
    } else {
        None
    }
}

/// No two rows share a key.
pub open spec fn unique<R: Row>(rows: Seq<R>) -> bool {
    forall|i: int, j: int| 0 <= i < j < rows.len() ==> (#[trigger] rows[i]).key() != (#[trigger] rows[j]).key()
}

/// `index_of` is in range, points at a row with the key, and no earlier row has it.
pub proof fn lemma_index_of<R: Row>(rows: Seq<R>, id: Id)
    ensures
        0 <= index_of(rows, id) <= rows.len(),
        present(rows, id) ==> rows[index_of(rows, id)].key() == id,
        forall|j: int| 0 <= j < index_of(rows, id) ==> (#[trigger] rows[j]).key() != id,
    decreases rows.len(),
{
    if rows.len() != 0 && rows[0].key() != id {
        let rest = rows.drop_first();
        lemma_index_of(rest, id);
        assert forall|j: int| 0 <= j < index_of(rows, id) implies (#[trigger] rows[j]).key() != id by {
            if j > 0 {
                assert(rows[j] == rest[j - 1]);
            }
        }
    }
}

/// The first position that holds the key is `index_of`.
pub proof fn lemma_index_of_is<R: Row>(rows: Seq<R>, id: Id, i: int)
    requires
        0 <= i <= rows.len(),
        i < rows.len() ==> rows[i].key() == id,
        forall|j: int| 0 <= j < i ==> (#[trigger] rows[j]).key() != id,
    ensures
        index_of(rows, id) == i,
    decreases rows.len(),
{
    if rows.len() != 0 && i != 0 {
        let rest = rows.drop_first();
        assert(rows[0].key() != id);
        assert forall|j: int| 0 <= j < i - 1 implies (#[trigger] rest[j]).key() != id by {
            assert(rest[j] == rows[j + 1]);
        }
        lemma_index_of_is(rest, id, i - 1);
    }
}

/// A key is present exactly if some row carries it.
pub proof fn lemma_present<R: Row>(rows: Seq<R>, id: Id)
    ensures
        present(rows, id) <==> exists|j: int| 0 <= j < rows.len() && (#[trigger] rows[j]).key() == id,
{
    lemma_index_of(rows, id);
    if present(rows, id) {
        assert(rows[index_of(rows, id)].key() == id);
    }
}

/// Appending a row whose key is new keeps every earlier answer and adds one.
pub proof fn lemma_push<R: Row>(rows: Seq<R>, row: R, id: Id)
    ensures
        present(rows, id) ==> index_of(rows.push(row), id) == index_of(rows, id),
        !present(rows, id) && row.key() == id ==> index_of(rows.push(row), id) == rows.len(),
        !present(rows, id) && row.key() != id ==> !present(rows.push(row), id),
        unique(rows) && !present(rows, row.key()) ==> unique(rows.push(row)),
{
    let more = rows.push(row);
    lemma_index_of(rows, id);
    let k = index_of(rows, id);
    if present(rows, id) {
        assert(more[k] == rows[k]);
        assert forall|j: int| 0 <= j < k implies (#[trigger] more[j]).key() != id by {
            assert(more[j] == rows[j]);
        }
        lemma_index_of_is(more, id, k);
    } else {
        assert forall|j: int| 0 <= j < rows.len() implies (#[trigger] more[j]).key() != id by {
            assert(more[j] == rows[j]);
        }
        if row.key() == id {
            lemma_index_of_is(more, id, rows.len() as int);
        } else {
            lemma_index_of_is(more, id, more.len() as int);
        }
    }
    if unique(rows) && !present(rows, row.key()) {
        lemma_index_of(rows, row.key());
        assert forall|i: int, j: int| 0 <= i < j < more.len() implies (#[trigger] more[i]).key() != (#[trigger] more[j]).key() by {
            assert(more[i] == rows[i]);
            if j < rows.len() {
                assert(more[j] == rows[j]);
            }
        }
    }
}

/// Replacing a row by one with the same key moves no key.
pub proof fn lemma_update<R: Row>(rows: Seq<R>, i: int, row: R, id: Id)
    requires
        0 <= i < rows.len(),
        rows[i].key() == row.key(),
    ensures
        index_of(rows.update(i, row), id) == index_of(rows, id),
        unique(rows) ==> unique(rows.update(i, row)),
{
    let next = rows.update(i, row);
    lemma_index_of(rows, id);
    let k = index_of(rows, id);
    assert forall|j: int| 0 <= j < k implies (#[trigger] next[j]).key() != id by {
        assert(rows[j].key() != id);
    }
    if k < rows.len() {
        assert(next[k].key() == rows[k].key());
    }
    lemma_index_of_is(next, id, k);
    if unique(rows) {
        assert forall|a: int, b: int| 0 <= a < b < next.len() implies (#[trigger] next[a]).key() != (#[trigger] next[b]).key() by {
            assert(rows[a].key() != rows[b].key());
        }
    }
}

/// With unique keys, removing a row removes its key and moves no other answer.
pub proof fn lemma_remove<R: Row>(rows: Seq<R>, i: int, id: Id)
    requires
        unique(rows),
        0 <= i < rows.len(),
    ensures
        unique(rows.remove(i)),
        !present(rows.remove(i), rows[i].key()),
        id != rows[i].key() ==> lookup(rows.remove(i), id) == lookup(rows, id),
        id != rows[i].key() ==> present(rows.remove(i), id) == present(rows, id),
{
    let less = rows.remove(i);
    assert forall|a: int, b: int| 0 <= a < b < less.len() implies (#[trigger] less[a]).key() != (#[trigger] less[b]).key() by {
        let a0 = if a < i { a } else { a + 1 };
        let b0 = if b < i { b } else { b + 1 };
        assert(less[a] == rows[a0]);
        assert(less[b] == rows[b0]);
        assert(rows[a0].key() != rows[b0].key());
    }
    assert forall|j: int| 0 <= j < less.len() implies (#[trigger] less[j]).key() != rows[i].key() by {
        let j0 = if j < i { j } else { j + 1 };
        assert(less[j] == rows[j0]);
        if j0 < i {
            assert(rows[j0].key() != rows[i].key());
        } else {
            assert(rows[i].key() != rows[j0].key());
        }
    }
    lemma_index_of_is(less, rows[i].key(), less.len() as int);
    if id != rows[i].key() {
        lemma_index_of(rows, id);
        let k = index_of(rows, id);
        let k1 = if k < i { k } else { k - 1 };
        assert forall|j: int| 0 <= j < k1 implies (#[trigger] less[j]).key() != id by {
            let j0 = if j < i { j } else { j + 1 };
            assert(less[j] == rows[j0]);
            assert(rows[j0].key() != id);
        }
        if k < rows.len() {
            assert(less[k1] == rows[k]);
        }
        lemma_index_of_is(less, id, k1);
    }
}

/// Rows in store order, found by key.
pub struct Table<R> {
    rows: Vec<R>,
}

impl<R: Row> View for Table<R> {
    type V = Seq<R>;

    closed spec fn view(&self) -> Seq<R> {
        self.rows@
    }
}

impl<R: Row> Table<R> {
    pub fn new() -> (t: Self)
        ensures
            t@ == Seq::<R>::empty(),
    {
        Table { rows: Vec::new() }
    }

    pub fn len(&self) -> (n: usize)
        ensures
            n == self@.len(),
    {
        self.rows.len()
    }

    /// A copy of the row at position `i` in store order.
    pub fn at(&self, i: usize) -> (r: R)
        requires
            i < self@.len(),
        ensures
            r == self@[i as int],
    {
        self.rows[i].duplicate()
    }

    /// Position of the first row with key `id`.
    fn position(&self, id: Id) -> (i: usize)
        ensures
            i == index_of(self@, id),
    {
        let mut i: usize = 0;
        while i < self.rows.len()
            invariant
                i <= self.rows.len(),
                forall|j: int| 0 <= j < i ==> (#[trigger] self.rows@[j]).key() != id,
            decreases self.rows.len() - i,
        {
            if self.rows[i].row_key() == id {
                proof {
                    lemma_index_of_is(self@, id, i as int);
                }
                return i;
            }
            i += 1;
        }
        proof {
            lemma_index_of_is(self@, id, i as int);
        }
        i
    }

    pub fn contains(&self, id: Id) -> (b: bool)
        ensures
            b == present(self@, id),
    {
        self.position(id) < self.rows.len()
    }

    /// A copy of the row with key `id`.
    pub fn get(&self, id: Id) -> (r: Option<R>)
        ensures
            r == lookup(self@, id),
    {
        let i = self.position(id);
        if i < self.rows.len() {
            Some(self.rows[i].duplicate())
        } else {
            None
        }
    }

    /// Appends `row` unless its key is taken; says whether it did.
    pub fn insert(&mut self, row: R) -> (done: bool)
        ensures
            done == !present(old(self)@, row.key()),
            final(self)@ == if done { old(self)@.push(row) } else { old(self)@ },
            unique(old(self)@) ==> unique(final(self)@),
    {
        let i = self.position(row.row_key());
        if i < self.rows.len() {
            false
        } else {
            proof {
                lemma_push(self@, row, row.key());
            }
            self.rows.push(row);
            true
        }
    }

    /// Puts `row` in the place of the row that has its key; says whether there was one.
    pub fn replace(&mut self, row: R) -> (done: bool)
        ensures
            done == present(old(self)@, row.key()),
            final(self)@ == if done { old(self)@.update(index_of(old(self)@, row.key()), row) } else { old(self)@ },
            unique(old(self)@) ==> unique(final(self)@),
    {
        let i = self.position(row.row_key());
        if i < self.rows.len() {
            proof {
                lemma_index_of(self@, row.key());
                lemma_update(self@, i as int, row, row.key());
            }
            self.rows.set(i, row);
            true
        } else {
            false
        }
    }

    /// Takes out the row with key `id` and hands it back.
    pub fn remove(&mut self, id: Id) -> (r: Option<R>)
        ensures
            r == lookup(old(self)@, id),
            final(self)@ == if present(old(self)@, id) { old(self)@.remove(index_of(old(self)@, id)) } else { old(self)@ },
            unique(old(self)@) ==> unique(final(self)@),
    {
        let i = self.position(id);
        if i < self.rows.len() {
            proof {
                if unique(self@) {
                    lemma_remove(self@, i as int, id);
                }
            }
            Some(self.rows.remove(i))
        } else {
            None
        }
    }
}

/// The journal's three tables.
pub struct Database {
    /// Parent records, one per item, in the order they were stored.
    pub items: Table<Item>,
    /// Payloads, one per item, under the identifier of its parent record.
    pub payloads: Table<Items>,
    pub users: Table<User>,
}

impl Database {
    pub fn new() -> (db: Self)
        ensures
            db.items@ == Seq::<Item>::empty(),
            db.payloads@ == Seq::<Items>::empty(),
            db.users@ == Seq::<User>::empty(),
            db.wf(),
    {
        Database { items: Table::new(), payloads: Table::new(), users: Table::new() }
    }

    /// Keys are unique in each table, and so are the names of the users.
    pub open spec fn wf(&self) -> bool {
        &&& unique(self.items@)
        &&& unique(self.payloads@)
        &&& unique(self.users@)
        &&& distinct_names(self.users@)
    }
}

} // verus!
