use vstd::prelude::*;

use crate::batch::{batch_of_records, lemma_records_text_fits, records_text_fits};
use crate::error::FetchError;
use crate::ipc::{ipc_bytes, serialize_batch};
use crate::record::AlignmentRecord;
use crate::region::{interval_ok, validate_region, ReferenceCatalog};
use crate::transcode::{build_batch, fault_error, first_fault, records_of, source_model};

verus! {

/// One region query, start to finish: validates the requested region against
/// the catalog, transcodes the records the region's query yielded into the
/// eight typed columns, and serializes the assembled batch into the
/// self-describing columnar byte stream.
///
/// `items` is the record stream the record source produced for the validated
/// region, one entry per pulled element, `Err` standing for an element that
/// failed to decode.  The first decode failure or dictionary overflow aborts
/// the whole call: no partial result is ever returned.  On a valid region
/// with a faultless stream the call succeeds and the bytes are a fixed
/// function of the records: nothing persists across calls.
///
/// The precondition is the wire format's machine limit alone: a stream that
/// will be serialized must keep each text column below 2^31 value bytes,
/// or the 32-bit offset buffers cannot be laid out.
pub fn fetch(
    catalog: &ReferenceCatalog,
    reference_name: &str,
    start: i64,
    end: i64,
    items: &Vec<Result<AlignmentRecord, ()>>,
) -> (r: Result<Vec<u8>, FetchError>)
    requires
        first_fault(source_model(items@)) is None ==> records_text_fits(
            records_of(source_model(items@)),
        ),
    ensures
        !catalog@.contains(reference_name@) ==> r == Err::<Vec<u8>, FetchError>(
            FetchError::InvalidReference,
        ),
        catalog@.contains(reference_name@) && !interval_ok(start, end) ==> r == Err::<
            Vec<u8>,
            FetchError,
        >(FetchError::InvalidInterval),
        catalog@.contains(reference_name@) && interval_ok(start, end) ==> ({
            let iv = source_model(items@);
            match first_fault(iv) {
                Some(i) => r == Err::<Vec<u8>, FetchError>(fault_error(iv, i)),
                None => r matches Ok(v) && v@ == ipc_bytes(batch_of_records(records_of(iv))),
            }
        }),
{
    match validate_region(catalog, reference_name, start, end) {
        Err(e) => Err(e),
        Ok(_query) => match build_batch(items) {
            Err(e) => Err(e),
            Ok(b) => {
                proof {
                    lemma_records_text_fits(records_of(source_model(items@)));
                }
                serialize_batch(&b)
            },
        },
    }
}

} // verus!
