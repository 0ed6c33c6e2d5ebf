//! The decisions of the node scans and of the unique index seek; reading the store is left to the
//! caller, which hands each batch of rows back here.
use vstd::prelude::*;

use crate::catalog::{IrToken, TokenId};
use crate::execution::chunk_builder::{append_all, ChunkBuilder};
use crate::execution::hash_aggregate::{chunks_model, rows_model, OutputColumnSource};
use crate::execution::operators::{cross_product, product, RowModel};
use crate::scalar::{datum_model, datums_model, duplicate_datum, duplicate_datums, Datum, ScalarModel, ScalarValue};

verus! {

/// The label that a label scan reads: its id when the store knows it. An unknown label is carried
/// by no node, and the scan gives no row.
pub fn scan_label(label: &IrToken) -> (r: Option<TokenId>)
    ensures
        match label {
            IrToken::Resolved { token, .. } => r == Some(*token),
            IrToken::Unresolved(_) => r is None,
        },
{
    match label {
        IrToken::Resolved { token, .. } => Some(*token),
        IrToken::Unresolved(_) => None,
    }
}

/// A scan under an input: pairs each input row with each node row that the store gave, output
/// columns picked by `mapping`, and appends the pairs to `builder`. Gives the chunks that filled.
pub fn append_product(
    builder: &mut ChunkBuilder,
    input_rows: &Vec<Vec<Datum>>,
    node_rows: &Vec<Vec<Datum>>,
    mapping: &[OutputColumnSource],
) -> (r: Vec<Vec<Vec<Datum>>>)
    requires
        old(builder).wf(),
    ensures
        final(builder).wf(),
        final(builder).capacity() == old(builder).capacity(),
        (chunks_model(r@), final(builder).pending()) == append_all(
            old(builder).capacity(),
            old(builder).pending(),
            product(rows_model(input_rows@), rows_model(node_rows@), mapping@),
        ),
{
    let rows = cross_product(input_rows, node_rows, mapping);
    let ghost all = rows_model(rows@);
    proof {
        assert(all =~= product(rows_model(input_rows@), rows_model(node_rows@), mapping@));
    }
    let ghost cap = builder.capacity();
    let ghost start = builder.pending();
    let mut out: Vec<Vec<Vec<Datum>>> = Vec::new();
    let mut i: usize = 0;
    proof {
        assert(all.take(0) =~= Seq::<RowModel>::empty());
        assert(chunks_model(out@) =~= Seq::<Seq<RowModel>>::empty());
    }
    while i < rows.len()
        invariant
            i <= rows@.len(),
            all == rows_model(rows@),
            builder.wf(),
            builder.capacity() == cap,
            (chunks_model(out@), builder.pending()) == append_all(cap, start, all.take(i as int)),
        decreases rows@.len() - i,
    {
        let row = duplicate_datums(rows[i].as_slice());
        let ghost before = chunks_model(out@);
        proof {
            assert(all.take(i + 1).drop_last() =~= all.take(i as int));
            assert(all.take(i + 1).last() == all[i as int]);
            assert(all[i as int] == datums_model(rows@[i as int]@));
        }
        match builder.append_row(row) {
            Some(chunk) => {
                out.push(chunk);
                proof {
                    assert(chunks_model(out@) =~= before.push(rows_model(chunk@)));
                }
            },
            None => {},
        }
        i = i + 1;
    }
    proof {
        assert(all.take(rows@.len() as int) =~= all);
    }
    out
}

/// The values to look a node up by in a unique index, or `None` when one of them is `NULL`: no
/// entry of an index matches `NULL`.
pub fn seek_values(values: &[Datum]) -> (r: Option<Vec<ScalarValue>>)
    ensures
        match r {
            Some(v) => {
                &&& v@.len() == values@.len()
                &&& forall|i: int| 0 <= i < values@.len() ==> datum_model(values@[i]) == Some((#[trigger] v@[i])@)
            },
            None => exists|i: int| 0 <= i < values@.len() && (#[trigger] values@[i]) is None,
        },
{
    let mut out: Vec<ScalarValue> = Vec::new();
    let mut i: usize = 0;
    while i < values.len()
        invariant
            i <= values@.len(),
            out@.len() == i,
            forall|k: int| 0 <= k < i ==> datum_model(values@[k]) == Some((#[trigger] out@[k])@),
        decreases values@.len() - i,
    {
        match &values[i] {
            Some(v) => out.push(v.duplicate()),
            None => {
                assert(values@[i as int] is None);
                return None;
            },
        }
        i = i + 1;
    }
    Some(out)
}

/// One output column of a seek that found `node` for the input row `input`: an input column for
/// `Left`, the node for `Right`.
pub open spec fn seek_pick(input: RowModel, node: u64, src: OutputColumnSource) -> Option<ScalarModel> {
    match src {
        OutputColumnSource::Left(i) => if i < input.len() {
            input[i as int]
        } else {
            None
        },
        OutputColumnSource::Right(_) => Some(ScalarModel::VirtualNode(node)),
    }
}

/// The output row of a seek under an input that found `node` for `input_row`.
pub fn seek_output_row(input_row: &[Datum], mapping: &[OutputColumnSource], node: u64) -> (r: Vec<Datum>)
    ensures
        datums_model(r@) == Seq::new(mapping@.len(), |c: int| seek_pick(datums_model(input_row@), node, mapping@[c])),
{
    let mut out: Vec<Datum> = Vec::new();
    let mut c: usize = 0;
    while c < mapping.len()
        invariant
            c <= mapping@.len(),
            out@.len() == c,
            forall|k: int|
                0 <= k < c ==> datum_model(#[trigger] out@[k]) == seek_pick(datums_model(input_row@), node, mapping@[k]),
        decreases mapping@.len() - c,
    {
        let v = match mapping[c] {
            OutputColumnSource::Left(i) => if i < input_row.len() {
                duplicate_datum(&input_row[i])
            } else {
                None
            },
            OutputColumnSource::Right(_) => Some(ScalarValue::VirtualNode(node)),
        };
        out.push(v);
        c = c + 1;
    }
    assert(datums_model(out@) =~= Seq::new(
        mapping@.len(),
        |k: int| seek_pick(datums_model(input_row@), node, mapping@[k]),
    ));
    out
}

/// The single row of a seek without input that found `node`.
pub fn seek_node_row(node: u64) -> (r: Vec<Datum>)
    ensures
        datums_model(r@) == seq![Some(ScalarModel::VirtualNode(node))],
{
    let mut out: Vec<Datum> = Vec::new();
    out.push(Some(ScalarValue::VirtualNode(node)));
    assert(datums_model(out@) =~= seq![Some(ScalarModel::VirtualNode(node))]);
    out
}

} // verus!
