use std::io::Cursor;

use arrow::array::{Array, DictionaryArray, Int32Array, StringArray, UInt8Array};
use arrow::datatypes::{DataType, UInt8Type};
use arrow::ipc::reader::FileReader;
use arrow::record_batch::RecordBatch;

use saimin::error::FetchError;
use saimin::query::fetch;
use saimin::record::AlignmentRecord;
use saimin::region::ReferenceCatalog;
use saimin::transcode::build_batch;

fn rec(
    reference_name: &str,
    start: i32,
    end: Option<i32>,
    mapping_quality: Option<u8>,
    read_name: &str,
    cigar: &str,
    sequence: &str,
    quality: &str,
) -> AlignmentRecord {
    AlignmentRecord {
        reference_name: reference_name.to_string(),
        start,
        end,
        mapping_quality,
        read_name: read_name.to_string(),
        cigar: cigar.to_string(),
        sequence: sequence.to_string(),
        quality: quality.to_string(),
    }
}

fn catalog() -> ReferenceCatalog {
    ReferenceCatalog::new(vec!["chr1".to_string(), "chr2".to_string()])
}

fn three_records() -> Vec<Result<AlignmentRecord, ()>> {
    vec![
        Ok(rec("chr1", 100, Some(149), Some(60), "read/1", "50M", "ACGTA", "FFFII")),
        Ok(rec("chr2", 7, None, None, "read/2", "3M1I", "GGTT", "!!!!")),
        Ok(rec("chr1", 205, Some(260), Some(13), "read/3", "56M", "TTAA", "::::")),
    ]
}

fn decode(bytes: &[u8]) -> RecordBatch {
    let mut reader = FileReader::try_new(Cursor::new(bytes.to_vec()), None).unwrap();
    let batch = reader.next().unwrap().unwrap();
    assert!(reader.next().is_none());
    batch
}

#[test]
fn row_count_matches_record_count() {
    let bytes = fetch(&catalog(), "chr1", 1, 1000, &three_records()).unwrap();
    let batch = decode(&bytes);
    assert_eq!(batch.num_rows(), 3);
    assert_eq!(batch.num_columns(), 8);
}

#[test]
fn schema_carries_all_columns_in_order() {
    let bytes = fetch(&catalog(), "chr1", 1, 1000, &three_records()).unwrap();
    let batch = decode(&bytes);
    let schema = batch.schema();
    let names: Vec<&str> = schema.fields().iter().map(|f| f.name().as_str()).collect();
    assert_eq!(names, vec!["ref", "start", "end", "mapq", "name", "cigar", "seq", "qual"]);
    assert!(!schema.field(0).is_nullable());
    assert!(!schema.field(1).is_nullable());
    assert!(schema.field(2).is_nullable());
    assert!(schema.field(3).is_nullable());
    assert!(!schema.field(4).is_nullable());
    assert_eq!(schema.field(1).data_type(), &DataType::Int32);
    assert_eq!(schema.field(3).data_type(), &DataType::UInt8);
    assert_eq!(schema.field(4).data_type(), &DataType::Utf8);
}

#[test]
fn roundtrip_reproduces_every_field() {
    let items = three_records();
    let bytes = fetch(&catalog(), "chr1", 1, 1000, &items).unwrap();
    let batch = decode(&bytes);

    let refs = batch.column(0).as_any().downcast_ref::<DictionaryArray<UInt8Type>>().unwrap();
    let ref_values = refs.values().as_any().downcast_ref::<StringArray>().unwrap();
    let starts = batch.column(1).as_any().downcast_ref::<Int32Array>().unwrap();
    let ends = batch.column(2).as_any().downcast_ref::<Int32Array>().unwrap();
    let mapqs = batch.column(3).as_any().downcast_ref::<UInt8Array>().unwrap();
    let names = batch.column(4).as_any().downcast_ref::<StringArray>().unwrap();
    let cigars = batch.column(5).as_any().downcast_ref::<StringArray>().unwrap();
    let seqs = batch.column(6).as_any().downcast_ref::<StringArray>().unwrap();
    let quals = batch.column(7).as_any().downcast_ref::<StringArray>().unwrap();

    for (i, item) in items.iter().enumerate() {
        let r = item.as_ref().unwrap();
        let code = refs.keys().value(i) as usize;
        assert_eq!(ref_values.value(code), r.reference_name);
        assert_eq!(starts.value(i), r.start);
        match r.end {
            Some(v) => {
                assert!(!ends.is_null(i));
                assert_eq!(ends.value(i), v);
            }
            None => assert!(ends.is_null(i)),
        }
        match r.mapping_quality {
            Some(v) => {
                assert!(!mapqs.is_null(i));
                assert_eq!(mapqs.value(i), v);
            }
            None => assert!(mapqs.is_null(i)),
        }
        assert_eq!(names.value(i), r.read_name);
        assert_eq!(cigars.value(i), r.cigar);
        assert_eq!(seqs.value(i), r.sequence);
        assert_eq!(quals.value(i), r.quality);
    }
}

#[test]
fn empty_region_yields_schema_and_zero_rows() {
    let bytes = fetch(&catalog(), "chr1", 1, 1000, &Vec::new()).unwrap();
    let batch = decode(&bytes);
    assert_eq!(batch.num_rows(), 0);
    assert_eq!(batch.num_columns(), 8);
    assert_eq!(batch.schema().field(0).name(), "ref");
}

#[test]
fn single_reference_yields_single_dictionary_code() {
    let items: Vec<Result<AlignmentRecord, ()>> = (0..10)
        .map(|i| Ok(rec("chr1", 10 * i + 1, Some(10 * i + 5), Some(9), "r", "4M", "AAAA", "IIII")))
        .collect();
    let b = build_batch(&items).unwrap();
    assert_eq!(b.ref_values, vec!["chr1".to_string()]);
    assert!(b.ref_codes.iter().all(|&c| c == 0));

    let bytes = fetch(&catalog(), "chr1", 1, 1000, &items).unwrap();
    let batch = decode(&bytes);
    let refs = batch.column(0).as_any().downcast_ref::<DictionaryArray<UInt8Type>>().unwrap();
    assert_eq!(refs.values().len(), 1);
}

#[test]
fn corrupt_record_aborts_whole_fetch() {
    let mut items = three_records();
    items.insert(1, Err(()));
    let r = fetch(&catalog(), "chr1", 1, 1000, &items);
    assert_eq!(r.err(), Some(FetchError::RecordDecodeError));
}

#[test]
fn corrupt_record_last_still_aborts() {
    let mut items = three_records();
    items.push(Err(()));
    let r = fetch(&catalog(), "chr1", 1, 1000, &items);
    assert_eq!(r.err(), Some(FetchError::RecordDecodeError));
}

#[test]
fn overflowing_dictionary_is_reported() {
    let mut catalog_names = Vec::new();
    let mut items: Vec<Result<AlignmentRecord, ()>> = Vec::new();
    for i in 0..257 {
        let name = format!("ref{}", i);
        catalog_names.push(name.clone());
        items.push(Ok(rec(&name, 1, Some(4), Some(1), "r", "4M", "ACGT", "IIII")));
    }
    let catalog = ReferenceCatalog::new(catalog_names);
    let r = fetch(&catalog, "ref0", 1, 1000, &items);
    assert_eq!(r.err(), Some(FetchError::DictionaryOverflow));
}

#[test]
fn exactly_256_references_still_encode() {
    let mut catalog_names = Vec::new();
    let mut items: Vec<Result<AlignmentRecord, ()>> = Vec::new();
    for i in 0..256 {
        let name = format!("ref{}", i);
        catalog_names.push(name.clone());
        items.push(Ok(rec(&name, 1, Some(4), Some(1), "r", "4M", "ACGT", "IIII")));
    }
    let catalog = ReferenceCatalog::new(catalog_names);
    let bytes = fetch(&catalog, "ref0", 1, 1000, &items).unwrap();
    let batch = decode(&bytes);
    assert_eq!(batch.num_rows(), 256);
    let refs = batch.column(0).as_any().downcast_ref::<DictionaryArray<UInt8Type>>().unwrap();
    assert_eq!(refs.values().len(), 256);
}

#[test]
fn fetch_rejects_unknown_reference_and_bad_interval() {
    let items = three_records();
    let r = fetch(&catalog(), "chr9", 1, 1000, &items);
    assert_eq!(r.err(), Some(FetchError::InvalidReference));
    let r = fetch(&catalog(), "chr1", 50, 10, &items);
    assert_eq!(r.err(), Some(FetchError::InvalidInterval));
}

#[test]
fn identical_batches_serialize_identically() {
    let a = fetch(&catalog(), "chr1", 1, 1000, &three_records()).unwrap();
    let b = fetch(&catalog(), "chr1", 1, 1000, &three_records()).unwrap();
    assert_eq!(a, b);
}
