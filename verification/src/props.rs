use vstd::prelude::*;

use crate::batch::{batch_of_records, expected_codes, refs_of};
use crate::dict::{
    first_index_of, first_seen, lemma_first_index_of, lemma_first_seen_contains,
};
use crate::error::FetchError;
use crate::record::RecordModel;
use crate::transcode::{fault_error, first_fault, first_fault_from, records_of, row_fault};

verus! {

/// The batch built from a record sequence holds exactly one row per record:
/// for every valid region, the row count of the transcoded batch equals the
/// number of records the record source yielded.
pub proof fn lemma_batch_row_count(rs: Seq<RecordModel>)
    ensures
        batch_of_records(rs).row_count() == rs.len(),
{
}

/// An empty record stream still yields a well-formed batch: zero rows, an
/// empty dictionary, and every column present under the declared schema.
pub proof fn lemma_empty_batch()
    ensures
        batch_of_records(Seq::<RecordModel>::empty()).row_count() == 0,
        batch_of_records(Seq::<RecordModel>::empty()).ref_values.len() == 0,
        batch_of_records(Seq::<RecordModel>::empty()).wf(),
{
    assert(refs_of(Seq::<RecordModel>::empty()) =~= Seq::<Seq<char>>::empty());
}

/// Round trip: decoding any row of the batch built from a record sequence
/// reproduces that record exactly — every field, with the reference name
/// resolved back through the dictionary.  The precondition only states that
/// the records fit the 8-bit dictionary, the condition under which a batch
/// is built at all.
pub proof fn lemma_batch_round_trip(rs: Seq<RecordModel>)
    requires
        first_seen(refs_of(rs)).len() <= 256,
    ensures
        forall|i: int|
            0 <= i < rs.len() ==> #[trigger] batch_of_records(rs).decoded_row(i) == rs[i],
{
    let b = batch_of_records(rs);
    let allrefs = refs_of(rs);
    assert forall|i: int| 0 <= i < rs.len() implies #[trigger] b.decoded_row(i) == rs[i] by {
        assert(allrefs.contains(allrefs[i]));
        lemma_first_seen_contains(allrefs, allrefs[i]);
        lemma_first_index_of(first_seen(allrefs), allrefs[i]);
        let f = first_index_of(first_seen(allrefs), allrefs[i]);
        assert(b.ref_codes[i] == f as u8);
        assert(b.ref_values[b.ref_codes[i] as int] == rs[i].reference_name);
        assert(b.decoded_row(i) =~= rs[i]);
    }
}

/// A record sequence drawing on exactly one reference sequence produces a
/// dictionary with exactly one entry: that reference's name, under code 0.
pub proof fn lemma_single_reference(rs: Seq<RecordModel>)
    requires
        rs.len() > 0,
        forall|i: int| 0 <= i < rs.len() ==> #[trigger] rs[i].reference_name
            == rs[0].reference_name,
    ensures
        batch_of_records(rs).ref_values.len() == 1,
        batch_of_records(rs).ref_values[0] == rs[0].reference_name,
        forall|i: int| 0 <= i < rs.len() ==> #[trigger] batch_of_records(rs).ref_codes[i] == 0,
{
    let allrefs = refs_of(rs);
    lemma_first_seen_single(allrefs, rs[0].reference_name);
    assert forall|i: int| 0 <= i < rs.len() implies #[trigger] batch_of_records(rs).ref_codes[i]
        == 0 by {
        assert(allrefs[i] == rs[0].reference_name);
        assert(first_seen(allrefs)[0] == allrefs[i]);
        assert(expected_codes(rs)[i] == first_index_of(first_seen(allrefs), allrefs[i]) as u8);
    }
}

/// A sequence holding one name throughout dictionary-encodes to exactly that
/// one name.
pub proof fn lemma_first_seen_single(refs: Seq<Seq<char>>, x: Seq<char>)
    requires
        refs.len() > 0,
        forall|i: int| 0 <= i < refs.len() ==> #[trigger] refs[i] == x,
    ensures
        first_seen(refs) =~= seq![x],
    decreases refs.len(),
{
    if refs.len() == 1 {
        assert(first_seen(refs.drop_last()) =~= Seq::<Seq<char>>::empty());
        assert(refs.last() == x);
    } else {
        let head = refs.drop_last();
        assert(forall|i: int| 0 <= i < head.len() ==> #[trigger] head[i] == x);
        lemma_first_seen_single(head, x);
        assert(refs.last() == x);
        assert(first_seen(head)[0] == x);
        assert(first_seen(head).contains(x));
    }
}

/// A first faulting row lies inside the stream.
proof fn lemma_fault_in_range(items: Seq<Result<RecordModel, ()>>, k: int, i: int)
    requires
        first_fault_from(items, k) == Some(i),
    ensures
        k <= i < items.len(),
    decreases items.len() - k,
{
    if 0 <= k < items.len() && !row_fault(items, k) {
        lemma_fault_in_range(items, k + 1, i);
    }
}

/// When no row faults from position `k` on, no row at or after `k` is a
/// faulting row.
proof fn lemma_no_fault(items: Seq<Result<RecordModel, ()>>, k: int)
    requires
        0 <= k <= items.len(),
        first_fault_from(items, k) is None,
    ensures
        forall|i: int| k <= i < items.len() ==> !row_fault(items, i),
    decreases items.len() - k,
{
    if k < items.len() {
        lemma_no_fault(items, k + 1);
    }
}

/// A stream holding a corrupt record never transcodes: some row faults, so
/// the call aborts with no bytes for any record, earlier ones included.
pub proof fn lemma_corrupt_record_aborts(items: Seq<Result<RecordModel, ()>>, k: int)
    requires
        0 <= k < items.len(),
        items[k] is Err,
    ensures
        first_fault(items) is Some,
{
    if first_fault(items) is None {
        lemma_no_fault(items, 0);
        assert(!row_fault(items, k));
    }
}

/// Longer input prefixes meet at least as many distinct names.
proof fn lemma_first_seen_take_monotone(s: Seq<Seq<char>>, a: int, b: int)
    requires
        0 <= a <= b <= s.len(),
    ensures
        first_seen(s.take(a)).len() <= first_seen(s.take(b)).len(),
    decreases b - a,
{
    if a < b {
        lemma_first_seen_take_monotone(s, a, b - 1);
        assert(s.take(b) =~= s.take(b - 1).push(s[b - 1]));
        crate::dict::lemma_first_seen_push(s.take(b - 1), s[b - 1]);
    }
}

/// The first faulting row is the least one.
proof fn lemma_first_fault_at(items: Seq<Result<RecordModel, ()>>, i: int, k: int)
    requires
        0 <= i <= k < items.len(),
        row_fault(items, k),
        forall|j: int| i <= j < k ==> !row_fault(items, j),
    ensures
        first_fault_from(items, i) == Some(k),
    decreases k - i,
{
    if i < k {
        lemma_first_fault_at(items, i + 1, k);
    }
}

/// A corrupt record at a position `k` that the dictionary reaches without
/// overflowing is itself the first fault, so the call reports
/// `RecordDecodeError` and returns no bytes, not even for the records
/// before `k`.
pub proof fn lemma_corrupt_record_error(items: Seq<Result<RecordModel, ()>>, k: int)
    requires
        0 <= k < items.len(),
        items[k] is Err,
        forall|j: int| 0 <= j < k ==> !(#[trigger] items[j] is Err),
        first_seen(refs_of(records_of(items.take(k)))).len() <= 256,
    ensures
        first_fault(items) == Some(k),
        fault_error(items, k) == FetchError::RecordDecodeError,
{
    let allrefs = refs_of(records_of(items));
    assert forall|m: int| 0 <= m <= items.len() implies #[trigger] refs_of(
        records_of(items.take(m)),
    ) =~= allrefs.take(m) by {}
    assert forall|j: int| 0 <= j < k implies !row_fault(items, j) by {
        lemma_first_seen_take_monotone(allrefs, j + 1, k);
        assert(first_seen(refs_of(records_of(items.take(j + 1)))).len() <= first_seen(
            allrefs.take(k),
        ).len());
    }
    assert(row_fault(items, k));
    lemma_first_fault_at(items, 0, k);
}

/// More than 256 distinct reference names in one stream always overflow the
/// 8-bit dictionary: some row faults, and when every record decodes, the
/// faulting row is an overflow, so the call reports `DictionaryOverflow`.
pub proof fn lemma_dictionary_overflow(items: Seq<Result<RecordModel, ()>>)
    requires
        first_seen(refs_of(records_of(items))).len() > 256,
    ensures
        first_fault(items) is Some,
        (forall|k: int| 0 <= k < items.len() ==> !(#[trigger] items[k] is Err))
            ==> fault_error(items, first_fault(items)->Some_0)
            == FetchError::DictionaryOverflow,
{
    match first_fault(items) {
        Some(i) => lemma_fault_in_range(items, 0, i),
        None => (),
    }
    let rs = records_of(items);
    if first_fault(items) is None {
        lemma_no_fault(items, 0);
        assert(refs_of(rs).len() == items.len());
        assert(items.len() > 0) by {
            if items.len() == 0 {
                assert(refs_of(rs) =~= Seq::<Seq<char>>::empty());
            }
        }
        let last = items.len() - 1;
        assert(!row_fault(items, last));
        assert(items.take(last + 1) =~= items);
        if items[last] is Err {
            assert(row_fault(items, last));
        } else {
            assert(first_seen(refs_of(records_of(items.take(last + 1)))).len()
                <= 256);
        }
    }
}

} // verus!
