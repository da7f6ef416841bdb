use saimin::error::FetchError;
use saimin::region::{validate_region, ReferenceCatalog};

fn catalog() -> ReferenceCatalog {
    ReferenceCatalog::new(vec!["chr1".to_string(), "chr2".to_string(), "chrM".to_string()])
}

#[test]
fn resolve_finds_first_index() {
    let c = catalog();
    assert_eq!(c.resolve("chr1"), Some(0));
    assert_eq!(c.resolve("chr2"), Some(1));
    assert_eq!(c.resolve("chrM"), Some(2));
    assert_eq!(c.resolve("chrX"), None);
}

#[test]
fn unknown_reference_is_rejected() {
    let c = catalog();
    let r = validate_region(&c, "chrX", 1, 100);
    assert_eq!(r.err(), Some(FetchError::InvalidReference));
}

#[test]
fn reversed_interval_is_rejected() {
    let c = catalog();
    let r = validate_region(&c, "chr1", 100, 10);
    assert_eq!(r.err(), Some(FetchError::InvalidInterval));
}

#[test]
fn zero_start_is_rejected() {
    let c = catalog();
    let r = validate_region(&c, "chr1", 0, 10);
    assert_eq!(r.err(), Some(FetchError::InvalidInterval));
}

#[test]
fn negative_bound_is_rejected() {
    let c = catalog();
    let r = validate_region(&c, "chr1", -5, 10);
    assert_eq!(r.err(), Some(FetchError::InvalidInterval));
}

#[test]
fn unknown_reference_takes_precedence_over_interval() {
    let c = catalog();
    let r = validate_region(&c, "chrX", 100, 10);
    assert_eq!(r.err(), Some(FetchError::InvalidReference));
}

#[test]
fn valid_region_resolves() {
    let c = catalog();
    let q = validate_region(&c, "chr2", 5, 500).unwrap();
    assert_eq!(q.reference_id, 1);
    assert_eq!(q.start, 5);
    assert_eq!(q.end, 500);
}

#[test]
fn single_position_interval_is_valid() {
    let c = catalog();
    assert!(validate_region(&c, "chr1", 7, 7).is_ok());
}
