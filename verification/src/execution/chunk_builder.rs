//! Gathering output rows into chunks of a fixed number of rows.
use vstd::prelude::*;

use crate::execution::hash_aggregate::rows_model;
use crate::execution::operators::RowModel;
use crate::scalar::{datums_model, Datum};

verus! {

/// Rows waiting to fill a chunk of `capacity` rows.
pub struct ChunkBuilder {
    capacity: usize,
    rows: Vec<Vec<Datum>>,
}

/// Appending one row to the pending rows: the chunk it completes, if it does, and the rows left
/// pending.
pub open spec fn append_step(capacity: nat, pending: Seq<RowModel>, row: RowModel) -> (
    Option<Seq<RowModel>>,
    Seq<RowModel>,
) {
    if pending.len() + 1 >= capacity {
        (Some(pending.push(row)), Seq::empty())
    } else {
        (None, pending.push(row))
    }
}

/// Appending `rows` in order: the chunks completed, in order, and the rows left pending.
pub open spec fn append_all(capacity: nat, pending: Seq<RowModel>, rows: Seq<RowModel>) -> (
    Seq<Seq<RowModel>>,
    Seq<RowModel>,
)
    decreases rows.len(),
{
    if rows.len() == 0 {
        (Seq::empty(), pending)
    } else {
        let (chunks, rest) = append_all(capacity, pending, rows.drop_last());
        let (full, left) = append_step(capacity, rest, rows.last());
        match full {
            Some(c) => (chunks.push(c), left),
            None => (chunks, left),
        }
    }
}

impl ChunkBuilder {
    pub closed spec fn capacity(&self) -> nat {
        self.capacity as nat
    }

    /// The rows appended since the last chunk went out.
    pub closed spec fn pending(&self) -> Seq<RowModel> {
        rows_model(self.rows@)
    }

    pub closed spec fn wf(&self) -> bool {
        0 < self.capacity && self.rows@.len() < self.capacity
    }

    /// A builder of chunks of `capacity` rows.
    pub fn new(capacity: usize) -> (r: ChunkBuilder)
        requires
            capacity > 0,
        ensures
            r.wf(),
            r.capacity() == capacity,
            r.pending() == Seq::<RowModel>::empty(),
    {
        let r = ChunkBuilder { capacity, rows: Vec::new() };
        assert(r.pending() =~= Seq::<RowModel>::empty());
        r
    }

    /// Appends a row; gives the chunk when the row completes one.
    pub fn append_row(&mut self, row: Vec<Datum>) -> (r: Option<Vec<Vec<Datum>>>)
        requires
            old(self).wf(),
        ensures
            final(self).wf(),
            final(self).capacity() == old(self).capacity(),
            match append_step(old(self).capacity(), old(self).pending(), datums_model(row@)) {
                (Some(c), left) => r matches Some(chunk) && rows_model(chunk@) == c && final(self).pending() == left,
                (None, left) => r is None && final(self).pending() == left,
            },
    {
        let ghost before = self.rows@;
        let ghost rm = datums_model(row@);
        self.rows.push(row);
        proof {
            assert(rows_model(self.rows@) =~= rows_model(before).push(rm));
        }
        if self.rows.len() >= self.capacity {
            let mut full: Vec<Vec<Datum>> = Vec::new();
            std::mem::swap(&mut full, &mut self.rows);
            proof {
                assert(rows_model(self.rows@) =~= Seq::<RowModel>::empty());
            }
            Some(full)
        } else {
            None
        }
    }

    /// Gives the pending rows as a last, shorter chunk, if there are any.
    pub fn yield_chunk(&mut self) -> (r: Option<Vec<Vec<Datum>>>)
        requires
            old(self).wf(),
        ensures
            final(self).wf(),
            final(self).capacity() == old(self).capacity(),
            final(self).pending() == Seq::<RowModel>::empty(),
            if old(self).pending().len() == 0 {
                r is None
            } else {
                r matches Some(chunk) && rows_model(chunk@) == old(self).pending()
            },
    {
        if self.rows.len() == 0 {
            proof {
                assert(rows_model(self.rows@) =~= Seq::<RowModel>::empty());
            }
            None
        } else {
            let mut rest: Vec<Vec<Datum>> = Vec::new();
            std::mem::swap(&mut rest, &mut self.rows);
            proof {
                assert(rows_model(self.rows@) =~= Seq::<RowModel>::empty());
            }
            Some(rest)
        }
    }
}

/// Appending rows loses, repeats and reorders none of them: the chunks completed, followed by the
/// rows left pending, are the rows that were pending followed by the rows appended. Every chunk
/// completed holds `capacity` rows, and fewer than `capacity` rows are left pending.
pub proof fn law_append_keeps_rows(capacity: nat, pending: Seq<RowModel>, rows: Seq<RowModel>)
    requires
        0 < capacity,
        pending.len() < capacity,
    ensures
        append_all(capacity, pending, rows).0.flatten() + append_all(capacity, pending, rows).1 == pending + rows,
        forall|k: int|
            0 <= k < append_all(capacity, pending, rows).0.len() ==> (#[trigger] append_all(
                capacity,
                pending,
                rows,
            ).0[k]).len() == capacity,
        append_all(capacity, pending, rows).1.len() < capacity,
    decreases rows.len(),
{
    if rows.len() == 0 {
        assert(Seq::<Seq<RowModel>>::empty().flatten() =~= Seq::<RowModel>::empty());
        assert(pending + rows =~= pending);
        assert(Seq::<RowModel>::empty() + pending =~= pending);
    } else {
        law_append_keeps_rows(capacity, pending, rows.drop_last());
        let (chunks, rest) = append_all(capacity, pending, rows.drop_last());
        let row = rows.last();
        assert(pending + rows =~= (pending + rows.drop_last()).push(row));
        if rest.len() + 1 >= capacity {
            chunks.lemma_flatten_push(rest.push(row));
            assert(chunks.push(rest.push(row)).flatten() + Seq::<RowModel>::empty() =~= chunks.flatten() + rest.push(
                row,
            ));
            assert(chunks.flatten() + rest.push(row) =~= (chunks.flatten() + rest).push(row));
            assert forall|k: int| 0 <= k < chunks.push(rest.push(row)).len() implies (#[trigger] chunks.push(
                rest.push(row),
            )[k]).len() == capacity by {
                if k < chunks.len() {
                    assert(chunks.push(rest.push(row))[k] == chunks[k]);
                }
            }
        } else {
            assert(chunks.flatten() + rest.push(row) =~= (chunks.flatten() + rest).push(row));
        }
    }
}

} // verus!
