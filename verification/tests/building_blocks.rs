use saimin::batch::assemble;
use saimin::column::ColumnBuilder;
use saimin::dict::DictionaryEncoder;
use saimin::error::FetchError;

#[test]
fn dictionary_assigns_codes_in_first_seen_order() {
    let mut d = DictionaryEncoder::new();
    assert_eq!(d.append(&"chr2".to_string()), Ok(0));
    assert_eq!(d.append(&"chr1".to_string()), Ok(1));
    assert_eq!(d.append(&"chr2".to_string()), Ok(0));
    assert_eq!(d.append(&"chr1".to_string()), Ok(1));
    assert_eq!(d.append(&"chrM".to_string()), Ok(2));
    let (codes, values) = d.into_parts();
    assert_eq!(codes, vec![0, 1, 0, 1, 2]);
    assert_eq!(values, vec!["chr2".to_string(), "chr1".to_string(), "chrM".to_string()]);
}

#[test]
fn dictionary_accepts_exactly_256_names() {
    let mut d = DictionaryEncoder::new();
    for i in 0..256 {
        assert_eq!(d.append(&format!("ref{}", i)), Ok(i as u8));
    }
    // A name seen before still encodes after the table is full.
    assert_eq!(d.append(&"ref0".to_string()), Ok(0));
    // The 257th distinct name overflows.
    assert_eq!(d.append(&"one_too_many".to_string()), Err(FetchError::DictionaryOverflow));
}

#[test]
fn column_builder_tracks_nulls() {
    let mut b: ColumnBuilder<i32> = ColumnBuilder::new(0);
    b.append_value(7);
    b.append_null();
    b.append_value(-3);
    assert_eq!(b.len(), 3);
    assert_eq!(b.finish(), vec![Some(7), None, Some(-3)]);
}

#[test]
fn column_builder_empty_finish() {
    let b: ColumnBuilder<u8> = ColumnBuilder::new(0);
    assert_eq!(b.finish(), Vec::<Option<u8>>::new());
}

#[test]
fn assemble_accepts_equal_lengths() {
    let b = assemble(
        vec![0, 0],
        vec!["chr1".to_string()],
        vec![10, 20],
        vec![Some(15), None],
        vec![Some(60), None],
        vec!["r1".to_string(), "r2".to_string()],
        vec!["4M".to_string(), "2M".to_string()],
        vec!["ACGT".to_string(), "AC".to_string()],
        vec!["FFFF".to_string(), "FF".to_string()],
    )
    .unwrap();
    assert_eq!(b.starts, vec![10, 20]);
    assert_eq!(b.ref_codes, vec![0, 0]);
}

#[test]
fn assemble_reports_length_disagreement() {
    let r = assemble(
        vec![0],
        vec!["chr1".to_string()],
        vec![10, 20],
        vec![Some(15), None],
        vec![Some(60), None],
        vec!["r1".to_string(), "r2".to_string()],
        vec!["4M".to_string(), "2M".to_string()],
        vec!["ACGT".to_string(), "AC".to_string()],
        vec!["FFFF".to_string(), "FF".to_string()],
    );
    assert_eq!(r.err(), Some(FetchError::SchemaMismatch));
}
