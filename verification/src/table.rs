//! A table of rows, each found by a number of its own, kept in the order of
//! those numbers.

use vstd::prelude::*;

verus! {

/// A row of a table: it has an identifier.
pub trait Row {
    /// The identifier of the row.
    spec fn spec_id(&self) -> i64;

    /// The identifier of the row.
    fn id(&self) -> (id: i64)
        ensures
            id == self.spec_id(),
    ;
}

/// Whether the identifiers of `rows` grow from each row to the next, so that
/// no two rows share one.
pub open spec fn ids_increasing<R: Row>(rows: Seq<R>) -> bool {
    forall|i: int, j: int|
        0 <= i < j < rows.len() ==> (#[trigger] rows[i]).spec_id() < (#[trigger] rows[j]).spec_id()
}

/// Whether `rows` holds a row with the identifier `id`.
pub open spec fn has_id<R: Row>(rows: Seq<R>, id: int) -> bool {
    exists|i: int| 0 <= i < rows.len() && (#[trigger] rows[i]).spec_id() == id
}

/// The place in `rows` of the row with the identifier `id`, where there is one.
pub open spec fn index_of_id<R: Row>(rows: Seq<R>, id: int) -> int {
    choose|i: int| 0 <= i < rows.len() && (#[trigger] rows[i]).spec_id() == id
}

/// The row of `rows` with the identifier `id`, if there is one.
pub open spec fn row_with_id<R: Row>(rows: Seq<R>, id: int) -> Option<R> {
    if has_id(rows, id) {
        Some(rows[index_of_id(rows, id)])
    } else {
        None
    }
}

/// In rows with growing identifiers, a row is found at its own place.
pub proof fn lemma_row_at_its_place<R: Row>(rows: Seq<R>, i: int)
    requires
        ids_increasing(rows),
        0 <= i < rows.len(),
    ensures
        has_id(rows, rows[i].spec_id() as int),
        index_of_id(rows, rows[i].spec_id() as int) == i,
        row_with_id(rows, rows[i].spec_id() as int) == Some(rows[i]),
{
    let id = rows[i].spec_id() as int;
    let j = index_of_id(rows, id);
    assert(rows[j].spec_id() == id);
    if j < i {
        assert(rows[j].spec_id() < rows[i].spec_id());
    }
    if i < j {
        assert(rows[i].spec_id() < rows[j].spec_id());
    }
}

/// A table: rows in the order of their identifiers, no identifier twice.
#[derive(Debug)]
pub struct Table<R: Row> {
    rows: Vec<R>,
}

impl<R: Row> View for Table<R> {
    type V = Seq<R>;

    closed spec fn view(&self) -> Seq<R> {
        self.rows@
    }
}

impl<R: Row> Table<R> {
    #[verifier::type_invariant]
    closed spec fn ordered(&self) -> bool {
        ids_increasing(self.rows@)
    }

    /// A table without rows.
    pub fn new() -> (table: Table<R>)
        ensures
            table@ == Seq::<R>::empty(),
    {
        Table { rows: Vec::new() }
    }

    /// The rows, in the order of their identifiers.
    pub fn rows(&self) -> (rows: &Vec<R>)
        ensures
            rows@ == self@,
            ids_increasing(self@),
    {
        proof {
            use_type_invariant(self);
        }
        &self.rows
    }

    /// The number of rows.
    pub fn len(&self) -> (len: usize)
        ensures
            len == self@.len(),
    {
        self.rows.len()
    }

    /// The row with the identifier `id`, if the table has one.
    pub fn get(&self, id: i64) -> (row: Option<&R>)
        ensures
            ids_increasing(self@),
            row is Some <==> has_id(self@, id as int),
            row matches Some(r) ==> Some(*r) == row_with_id(self@, id as int),
    {
        proof {
            use_type_invariant(self);
        }
        let mut i: usize = 0;
        while i < self.rows.len()
            invariant
                i <= self.rows@.len(),
                ids_increasing(self.rows@),
                forall|j: int| 0 <= j < i ==> (#[trigger] self.rows@[j]).spec_id() != id,
            decreases self.rows@.len() - i,
        {
            if self.rows[i].id() == id {
                proof {
                    lemma_row_at_its_place(self.rows@, i as int);
                }
                return Some(&self.rows[i]);
            }
            i += 1;
        }
        None
    }

    /// Puts `row` into the table at the place that its identifier gives it,
    /// unless the table has a row with that identifier already. Tells the
    /// place, or `None` where the table is left as it was.
    pub fn insert(&mut self, row: R) -> (place: Option<usize>)
        ensures
            ids_increasing(final(self)@),
            place is Some <==> !has_id(old(self)@, row.spec_id() as int),
            place matches Some(p) ==> p <= old(self)@.len() && final(self)@ == old(self)@.insert(
                p as int,
                row,
            ),
            place is None ==> final(self)@ == old(self)@,
    {
        proof {
            use_type_invariant(&*self);
        }
        let id = row.id();
        let mut i: usize = 0;
        while i < self.rows.len() && self.rows[i].id() < id
            invariant
                i <= self.rows@.len(),
                self.rows@ == old(self).rows@,
                ids_increasing(self.rows@),
                forall|j: int| 0 <= j < i ==> (#[trigger] self.rows@[j]).spec_id() < id,
            decreases self.rows@.len() - i,
        {
            i += 1;
        }
        if i < self.rows.len() && self.rows[i].id() == id {
            return None;
        }
        proof {
            assert forall|j: int| 0 <= j < self.rows@.len() implies (#[trigger] self.rows@[j]).spec_id()
                != id by {
                if j >= i {
                    if j > i {
                        assert(self.rows@[i as int].spec_id() < self.rows@[j].spec_id());
                    }
                }
            }
        }
        let mut rows: Vec<R> = Vec::new();
        core::mem::swap(&mut self.rows, &mut rows);
        rows.insert(i, row);
        self.rows = rows;
        Some(i)
    }
}

} // verus!
