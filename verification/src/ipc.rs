use std::sync::Arc;
use vstd::prelude::*;

use arrow::array::ArrayRef;

use crate::batch::{column_utf8_len, Batch, BatchModel};
use crate::error::FetchError;

verus! {

// The arrow array values are carried through opaque holders: Verus cannot
// take the array types' declarations (their generics are bounded by traits
// of the outside crate), so each holder hides one array in a private field,
// and the contracts speak of its contents only through the named content
// functions below.

/// A finalized 32-bit integer column.
#[verifier::external_body]
pub struct Int32Column {
    inner: arrow::array::PrimitiveArray<arrow::datatypes::Int32Type>,
}

/// A finalized 8-bit unsigned integer column.
#[verifier::external_body]
pub struct UInt8Column {
    inner: arrow::array::PrimitiveArray<arrow::datatypes::UInt8Type>,
}

/// A finalized non-null UTF-8 string column.
#[verifier::external_body]
pub struct Utf8Column {
    inner: arrow::array::StringArray,
}

/// A finalized dictionary-encoded string column with 8-bit codes.
#[verifier::external_body]
pub struct DictColumn {
    inner: arrow::array::DictionaryArray<arrow::datatypes::UInt8Type>,
}

/// An assembled schema-bound columnar batch.
#[verifier::external_body]
pub struct ColumnBatch {
    inner: arrow::record_batch::RecordBatch,
}

/// The cells of a 32-bit integer column: one entry per row, `None` for null.
pub uninterp spec fn i32_cells(a: Int32Column) -> Seq<Option<i32>>;

/// The cells of an 8-bit unsigned column: one entry per row, `None` for null.
pub uninterp spec fn u8_cells(a: UInt8Column) -> Seq<Option<u8>>;

/// The cells of a non-null UTF-8 string column: one string per row.
pub uninterp spec fn utf8_cells(a: Utf8Column) -> Seq<Seq<char>>;

/// The per-row codes of a dictionary-encoded string column.
pub uninterp spec fn dict_cell_codes(a: DictColumn) -> Seq<u8>;

/// The lookup table of a dictionary-encoded string column.
pub uninterp spec fn dict_cell_values(a: DictColumn) -> Seq<Seq<char>>;

/// The contents of an assembled columnar batch: the model of the eight
/// schema columns in declared order.
pub uninterp spec fn batch_cells(b: ColumnBatch) -> BatchModel;

/// The self-describing byte encoding of a batch: a schema message followed
/// by one data body, deterministic in the batch's contents.
pub uninterp spec fn ipc_bytes(b: BatchModel) -> Seq<u8>;

/// Relies on `PrimitiveArray`'s `FromIterator<Option<i32>>`: the collected
/// array holds one cell per input element, in order, with `None` as null.
#[verifier::external_body]
fn int32_column(v: &Vec<Option<i32>>) -> (a: Int32Column)
    ensures
        i32_cells(a) == v@,
{
    Int32Column { inner: v.iter().copied().collect() }
}

/// Relies on `PrimitiveArray::from_iter_values`: the array holds one non-null
/// cell per input element, in order, and carries no null buffer.
#[verifier::external_body]
fn int32_column_required(v: &Vec<i32>) -> (a: Int32Column)
    ensures
        i32_cells(a).len() == v@.len(),
        forall|i: int| 0 <= i < v@.len() ==> i32_cells(a)[i] == Some(v@[i]),
{
    Int32Column { inner: arrow::array::PrimitiveArray::from_iter_values(v.iter().copied()) }
}

/// Relies on `PrimitiveArray`'s `FromIterator<Option<u8>>`: the collected
/// array holds one cell per input element, in order, with `None` as null.
#[verifier::external_body]
fn u8_column(v: &Vec<Option<u8>>) -> (a: UInt8Column)
    ensures
        u8_cells(a) == v@,
{
    UInt8Column { inner: v.iter().copied().collect() }
}

/// Relies on `StringArray::from_iter_values`: the array holds one non-null
/// string per input element, in order, and carries no null buffer.  The call
/// panics when the strings' total bytes overflow the 32-bit offset buffer,
/// so the precondition keeps them below 2^31.
#[verifier::external_body]
fn utf8_column(v: &Vec<String>) -> (a: Utf8Column)
    requires
        column_utf8_len(v.deep_view()) < 0x8000_0000,
    ensures
        utf8_cells(a) == v.deep_view(),
{
    Utf8Column { inner: arrow::array::StringArray::from_iter_values(v.iter()) }
}

/// Relies on `DictionaryArray::try_new` (with `PrimitiveArray::from_iter_values`
/// and `StringArray::from_iter_values` for its two arguments): the array pairs
/// the given non-null keys with the given lookup values, and construction
/// fails only when a key is out of the lookup table's range, which the
/// precondition rules out.  Building the lookup table panics when its
/// strings' total bytes overflow the 32-bit offset buffer, so the
/// precondition keeps them below 2^31.
#[verifier::external_body]
fn dict_column(codes: &Vec<u8>, values: &Vec<String>) -> (r: Result<DictColumn, FetchError>)
    requires
        forall|i: int| 0 <= i < codes@.len() ==> (codes@[i] as int) < values@.len(),
        column_utf8_len(values.deep_view()) < 0x8000_0000,
    ensures
        r matches Ok(a),
        r matches Ok(a) ==> dict_cell_codes(a) == codes@ && dict_cell_values(a)
            == values.deep_view(),
{
    let keys = arrow::array::PrimitiveArray::<arrow::datatypes::UInt8Type>::from_iter_values(
        codes.iter().copied(),
    );
    let vals = arrow::array::StringArray::from_iter_values(values.iter());
    match arrow::array::DictionaryArray::try_new(keys, Arc::new(vals)) {
        Ok(inner) => Ok(DictColumn { inner }),
        Err(_) => Err(FetchError::SchemaMismatch),
    }
}

/// Relies on `RecordBatch::try_from_iter_with_nullable`: it binds the eight
/// columns under the fixed output schema in declared order, and fails only
/// when column lengths disagree or a null cell sits in a non-nullable column;
/// the preconditions rule both out, the string columns carrying no null
/// buffer by construction.
#[verifier::external_body]
fn batch_columns(
    refs: DictColumn,
    starts: Int32Column,
    ends: Int32Column,
    mapqs: UInt8Column,
    names: Utf8Column,
    cigars: Utf8Column,
    seqs: Utf8Column,
    quals: Utf8Column,
) -> (r: Result<ColumnBatch, FetchError>)
    requires
        i32_cells(starts).len() == dict_cell_codes(refs).len(),
        i32_cells(ends).len() == dict_cell_codes(refs).len(),
        u8_cells(mapqs).len() == dict_cell_codes(refs).len(),
        utf8_cells(names).len() == dict_cell_codes(refs).len(),
        utf8_cells(cigars).len() == dict_cell_codes(refs).len(),
        utf8_cells(seqs).len() == dict_cell_codes(refs).len(),
        utf8_cells(quals).len() == dict_cell_codes(refs).len(),
        forall|i: int| 0 <= i < i32_cells(starts).len() ==> i32_cells(starts)[i] is Some,
    ensures
        r matches Ok(b),
        r matches Ok(b) ==> batch_cells(b) == (BatchModel {
            ref_codes: dict_cell_codes(refs),
            ref_values: dict_cell_values(refs),
            starts: Seq::new(i32_cells(starts).len(), |i: int| i32_cells(starts)[i]->Some_0),
            ends: i32_cells(ends),
            mapqs: u8_cells(mapqs),
            names: utf8_cells(names),
            cigars: utf8_cells(cigars),
            seqs: utf8_cells(seqs),
            quals: utf8_cells(quals),
        }),
{
    match arrow::record_batch::RecordBatch::try_from_iter_with_nullable([
        ("ref", Arc::new(refs.inner) as ArrayRef, false),
        ("start", Arc::new(starts.inner) as ArrayRef, false),
        ("end", Arc::new(ends.inner) as ArrayRef, true),
        ("mapq", Arc::new(mapqs.inner) as ArrayRef, true),
        ("name", Arc::new(names.inner) as ArrayRef, false),
        ("cigar", Arc::new(cigars.inner) as ArrayRef, false),
        ("seq", Arc::new(seqs.inner) as ArrayRef, false),
        ("qual", Arc::new(quals.inner) as ArrayRef, false),
    ]) {
        Ok(inner) => Ok(ColumnBatch { inner }),
        Err(_) => Err(FetchError::SchemaMismatch),
    }
}

/// Relies on `arrow::ipc::writer::FileWriter` (`try_new`, `write`, `finish`,
/// `into_inner`): writing one batch into an in-memory sink yields the
/// self-describing schema-plus-body byte stream, deterministic in the
/// batch's contents.  The call succeeds: every `ColumnBatch` carries the
/// fixed eight-column schema (its one constructor builds no other), which
/// the writer accepts; the in-memory sink cannot fail an I/O write; and the
/// single dictionary is written once, never replaced.
#[verifier::external_body]
fn ipc_file_bytes(b: &ColumnBatch) -> (r: Result<Vec<u8>, FetchError>)
    ensures
        r is Ok,
        r matches Ok(v) ==> v@ == ipc_bytes(batch_cells(*b)),
{
    let run = || -> Result<Vec<u8>, arrow::error::ArrowError> {
        let sink = std::io::Cursor::new(Vec::new());
        let mut writer = arrow::ipc::writer::FileWriter::try_new(sink, &b.inner.schema())?;
        writer.write(&b.inner)?;
        writer.finish()?;
        Ok(writer.into_inner()?.into_inner())
    };
    run().map_err(|_| FetchError::SchemaMismatch)
}

/// Serializes an assembled batch into the self-describing columnar byte
/// stream: a schema message for the eight declared columns followed by one
/// data body.  It always succeeds on a well-formed batch within the offset
/// limit, and the same batch always yields the same bytes; the error arms
/// below are defensive and provably unreachable.
pub fn serialize_batch(batch: &Batch) -> (r: Result<Vec<u8>, FetchError>)
    requires
        batch@.wf(),
        batch@.text_fits(),
    ensures
        r matches Ok(v) && v@ == ipc_bytes(batch@),
{
    let refs = match dict_column(&batch.ref_codes, &batch.ref_values) {
        Ok(a) => a,
        Err(_) => {
            return Err(FetchError::SchemaMismatch);
        },
    };
    let starts = int32_column_required(&batch.starts);
    let ends = int32_column(&batch.ends);
    let mapqs = u8_column(&batch.mapqs);
    let names = utf8_column(&batch.names);
    let cigars = utf8_column(&batch.cigars);
    let seqs = utf8_column(&batch.seqs);
    let quals = utf8_column(&batch.quals);
    let rb = match batch_columns(refs, starts, ends, mapqs, names, cigars, seqs, quals) {
        Ok(b) => b,
        Err(_) => {
            return Err(FetchError::SchemaMismatch);
        },
    };
    proof {
        assert(batch_cells(rb).starts =~= batch@.starts);
        assert(batch_cells(rb) =~= batch@);
    }
    match ipc_file_bytes(&rb) {
        Ok(v) => Ok(v),
        Err(_) => Err(FetchError::SchemaMismatch),
    }
}

} // verus!
