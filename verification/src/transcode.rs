use vstd::prelude::*;

use crate::batch::{assemble, batch_of_records, expected_codes, refs_of, Batch};
use crate::column::ColumnBuilder;
use crate::dict::{
    first_index_of, first_seen, lemma_first_index_of, lemma_first_index_stable,
    lemma_first_index_unique, lemma_first_seen_push, DictionaryEncoder,
};
use crate::error::FetchError;
use crate::record::{AlignmentRecord, RecordModel};

verus! {

/// The record stream as the record source hands it over: one entry per
/// pulled element, each either a decoded record or a decode failure.
pub open spec fn source_model(items: Seq<Result<AlignmentRecord, ()>>) -> Seq<
    Result<RecordModel, ()>,
> {
    Seq::new(
        items.len(),
        |i: int|
            match items[i] {
                Ok(rec) => Ok(rec@),
                Err(_) => Err(()),
            },
    )
}

/// The decoded records of a stream (meaningful on the prefix before any
/// decode failure).
pub open spec fn records_of(items: Seq<Result<RecordModel, ()>>) -> Seq<RecordModel> {
    Seq::new(items.len(), |i: int| items[i]->Ok_0)
}

/// Row `i` aborts the transcoding: either it fails to decode, or its
/// reference name is the 257th distinct one and overflows the 8-bit
/// dictionary.
pub open spec fn row_fault(items: Seq<Result<RecordModel, ()>>, i: int) -> bool {
    ||| items[i] is Err
    ||| (items[i] is Ok && first_seen(refs_of(records_of(items.take(i + 1)))).len() > 256)
}

/// The error that row `i` raises when it is the first faulting row.
pub open spec fn fault_error(items: Seq<Result<RecordModel, ()>>, i: int) -> FetchError {
    if items[i] is Err {
        FetchError::RecordDecodeError
    } else {
        FetchError::DictionaryOverflow
    }
}

/// The first faulting row at or after `i`, if any.
pub open spec fn first_fault_from(items: Seq<Result<RecordModel, ()>>, i: int) -> Option<int>
    decreases items.len() - i,
{
    if i < 0 || i >= items.len() {
        None
    } else if row_fault(items, i) {
        Some(i)
    } else {
        first_fault_from(items, i + 1)
    }
}

/// The first faulting row of the stream, if any: the transcoding loop
/// processes records strictly in source order and propagates the first
/// failure immediately, discarding everything built so far.
pub open spec fn first_fault(items: Seq<Result<RecordModel, ()>>) -> Option<int> {
    first_fault_from(items, 0)
}

/// Transcodes a record stream into an assembled batch: every record flows
/// once, in source order, through one builder per schema column and through
/// the dictionary encoder for the reference column.  The first decode
/// failure or dictionary overflow aborts the whole call with no partial
/// result.
pub fn build_batch(items: &Vec<Result<AlignmentRecord, ()>>) -> (r: Result<Batch, FetchError>)
    ensures
        ({
            let iv = source_model(items@);
            match first_fault(iv) {
                Some(i) => r matches Err(e) && e == fault_error(iv, i),
                None => r matches Ok(b) && b@ == batch_of_records(records_of(iv)) && b@.wf(),
            }
        }),
{
    let ghost iv = source_model(items@);
    let ghost rs = records_of(iv);
    let ghost allrefs = refs_of(rs);

    let mut dict = DictionaryEncoder::new();
    let mut starts: Vec<i32> = Vec::new();
    let mut ends: ColumnBuilder<i32> = ColumnBuilder::new(0);
    let mut mapqs: ColumnBuilder<u8> = ColumnBuilder::new(0);
    let mut names: Vec<String> = Vec::new();
    let mut cigars: Vec<String> = Vec::new();
    let mut seqs: Vec<String> = Vec::new();
    let mut quals: Vec<String> = Vec::new();

    let n = items.len();
    let mut idx: usize = 0;
    while idx < n
        invariant
            n == items@.len(),
            iv == source_model(items@),
            rs == records_of(iv),
            allrefs == refs_of(rs),
            idx <= n,
            forall|j: int| 0 <= j < idx ==> !row_fault(iv, j),
            first_fault(iv) == first_fault_from(iv, idx as int),
            dict.wf(),
            dict.values_seq() == first_seen(allrefs.take(idx as int)),
            dict.codes_seq().len() == idx,
            forall|j: int|
                0 <= j < idx ==> #[trigger] dict.codes_seq()[j] as int == first_index_of(
                    first_seen(allrefs.take(idx as int)),
                    allrefs[j],
                ),
            forall|j: int|
                0 <= j < idx ==> #[trigger] first_seen(allrefs.take(idx as int)).contains(
                    allrefs[j],
                ),
            ends.wf(),
            mapqs.wf(),
            starts@.len() == idx,
            ends.cells().len() == idx,
            mapqs.cells().len() == idx,
            names.deep_view().len() == idx,
            cigars.deep_view().len() == idx,
            seqs.deep_view().len() == idx,
            quals.deep_view().len() == idx,
            forall|j: int| 0 <= j < idx ==> #[trigger] starts@[j] == rs[j].start,
            forall|j: int| 0 <= j < idx ==> #[trigger] ends.cells()[j] == rs[j].end,
            forall|j: int| 0 <= j < idx ==> #[trigger] mapqs.cells()[j] == rs[j].mapping_quality,
            forall|j: int| 0 <= j < idx ==> #[trigger] names.deep_view()[j] == rs[j].read_name,
            forall|j: int| 0 <= j < idx ==> #[trigger] cigars.deep_view()[j] == rs[j].cigar,
            forall|j: int| 0 <= j < idx ==> #[trigger] seqs.deep_view()[j] == rs[j].sequence,
            forall|j: int| 0 <= j < idx ==> #[trigger] quals.deep_view()[j] == rs[j].quality,
        decreases n - idx,
    {
        let ghost prefix = allrefs.take(idx as int);
        let ghost prefix1 = allrefs.take(idx as int + 1);
        proof {
            assert(prefix1 =~= prefix.push(allrefs[idx as int]));
            assert(refs_of(records_of(iv.take(idx as int + 1))) =~= prefix1);
        }
        match &items[idx] {
            Err(_) => {
                proof {
                    assert(iv[idx as int] is Err);
                    assert(row_fault(iv, idx as int));
                    assert(first_fault_from(iv, idx as int) == Some(idx as int));
                }
                return Err(FetchError::RecordDecodeError);
            },
            Ok(rec) => {
                proof {
                    assert(iv[idx as int] == Ok::<RecordModel, ()>(rec@));
                    assert(rs[idx as int] == rec@);
                    assert(allrefs[idx as int] == rec.reference_name@);
                }
                let ghost codes0 = dict.codes_seq();
                let code = match dict.append(&rec.reference_name) {
                    Ok(code) => {
                        proof {
                            lemma_first_seen_push(prefix, allrefs[idx as int]);
                            if first_seen(prefix).contains(allrefs[idx as int]) {
                                assert(first_seen(prefix1) == first_seen(prefix));
                            } else {
                                assert(first_seen(prefix1) == first_seen(prefix).push(
                                    allrefs[idx as int],
                                ));
                                lemma_first_index_unique(
                                    first_seen(prefix1),
                                    allrefs[idx as int],
                                    first_seen(prefix).len() as int,
                                );
                            }
                            assert(first_seen(prefix1).len() <= 256);
                            assert(!row_fault(iv, idx as int));
                            assert(first_fault_from(iv, idx as int) == first_fault_from(
                                iv,
                                idx as int + 1,
                            ));
                            assert forall|j: int| 0 <= j < idx implies #[trigger] first_seen(
                                prefix1,
                            ).contains(allrefs[j]) && dict.codes_seq()[j] as int == first_index_of(
                                first_seen(prefix1),
                                allrefs[j],
                            ) by {
                                assert(first_seen(prefix).contains(allrefs[j]));
                                lemma_first_index_of(first_seen(prefix), allrefs[j]);
                                let f = first_index_of(first_seen(prefix), allrefs[j]);
                                assert(first_seen(prefix1)[f] == first_seen(prefix)[f]);
                                assert(first_seen(prefix1).contains(allrefs[j]));
                                lemma_first_index_stable(
                                    first_seen(prefix),
                                    first_seen(prefix1),
                                    allrefs[j],
                                );
                            }
                            if first_seen(prefix).contains(allrefs[idx as int]) {
                                lemma_first_index_stable(
                                    first_seen(prefix),
                                    first_seen(prefix1),
                                    allrefs[idx as int],
                                );
                            }
                            lemma_first_index_of(first_seen(prefix1), allrefs[idx as int]);
                            assert(first_seen(prefix1).contains(allrefs[idx as int]));
                            assert(dict.codes_seq() == codes0.push(code));
                            assert(dict.codes_seq()[idx as int] == code);
                            assert(code as int == first_index_of(
                                first_seen(prefix1),
                                allrefs[idx as int],
                            ));
                            assert forall|j: int| 0 <= j <= idx implies #[trigger] dict.codes_seq()[j] as int
                                == first_index_of(first_seen(prefix1), allrefs[j]) by {
                                if j < idx {
                                    assert(dict.codes_seq()[j] == codes0[j]);
                                    assert(codes0[j] as int == first_index_of(
                                        first_seen(prefix),
                                        allrefs[j],
                                    ));
                                    assert(first_seen(prefix).contains(allrefs[j]));
                                    lemma_first_index_stable(
                                        first_seen(prefix),
                                        first_seen(prefix1),
                                        allrefs[j],
                                    );
                                }
                            }
                        }
                        code
                    },
                    Err(e) => {
                        proof {
                            lemma_first_seen_push(prefix, allrefs[idx as int]);
                            assert(first_seen(prefix1) == first_seen(prefix).push(
                                allrefs[idx as int],
                            ));
                            assert(first_seen(prefix1).len() > 256);
                            assert(row_fault(iv, idx as int));
                            assert(first_fault_from(iv, idx as int) == Some(idx as int));
                        }
                        return Err(e);
                    },
                };
                starts.push(rec.start);
                match rec.end {
                    Some(v) => ends.append_value(v),
                    None => ends.append_null(),
                }
                match rec.mapping_quality {
                    Some(v) => mapqs.append_value(v),
                    None => mapqs.append_null(),
                }
                let ghost names0 = names.deep_view();
                let ghost cigars0 = cigars.deep_view();
                let ghost seqs0 = seqs.deep_view();
                let ghost quals0 = quals.deep_view();
                names.push(rec.read_name.clone());
                cigars.push(rec.cigar.clone());
                seqs.push(rec.sequence.clone());
                quals.push(rec.quality.clone());
                proof {
                    assert(names.deep_view() =~= names0.push(rec.read_name@));
                    assert(cigars.deep_view() =~= cigars0.push(rec.cigar@));
                    assert(seqs.deep_view() =~= seqs0.push(rec.sequence@));
                    assert(quals.deep_view() =~= quals0.push(rec.quality@));
                }
            },
        }
        idx += 1;
    }
    proof {
        assert(first_fault(iv) is None);
        assert(allrefs.take(n as int) =~= allrefs);
        assert forall|j: int| 0 <= j < n implies #[trigger] expected_codes(rs)[j]
            == dict.codes_seq()[j] by {
            assert(dict.codes_seq()[j] as int == first_index_of(first_seen(allrefs), allrefs[j]));
            assert(rs[j].reference_name == allrefs[j]);
        }
        assert(dict.codes_seq() =~= expected_codes(rs));
    }
    let (ref_codes, ref_values) = dict.into_parts();
    match assemble(
        ref_codes,
        ref_values,
        starts,
        ends.finish(),
        mapqs.finish(),
        names,
        cigars,
        seqs,
        quals,
    ) {
        Ok(b) => {
            proof {
                assert(b@.starts =~= batch_of_records(rs).starts);
                assert(b@.ends =~= batch_of_records(rs).ends);
                assert(b@.mapqs =~= batch_of_records(rs).mapqs);
                assert(b@.names =~= batch_of_records(rs).names);
                assert(b@.cigars =~= batch_of_records(rs).cigars);
                assert(b@.seqs =~= batch_of_records(rs).seqs);
                assert(b@.quals =~= batch_of_records(rs).quals);
                assert(b@ =~= batch_of_records(rs));
                assert forall|i: int| 0 <= i < b@.ref_codes.len() implies (
                #[trigger] b@.ref_codes[i] as int) < b@.ref_values.len() by {
                    assert(first_seen(allrefs).contains(allrefs[i]));
                    assert(b@.ref_codes[i] as int == first_index_of(
                        first_seen(allrefs),
                        allrefs[i],
                    ));
                    lemma_first_index_of(first_seen(allrefs), allrefs[i]);
                }
                assert(b@.wf());
            }
            Ok(b)
        },
        Err(e) => Err(e),
    }
}

} // verus!
