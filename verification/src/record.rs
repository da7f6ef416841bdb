use vstd::prelude::*;

verus! {

/// One decoded alignment record, as the record source hands it over:
/// plain values only, never mutated after construction.
pub struct AlignmentRecord {
    /// Name of the reference sequence the record aligns to.  Every record
    /// carries one: the fixed schema declares the `ref` column non-nullable,
    /// so a record without a resolvable reference does not enter the model;
    /// the edge treats such a record as failing to decode rather than
    /// emitting a placeholder row.
    pub reference_name: String,
    /// 1-based alignment start position.
    pub start: i32,
    /// 1-based alignment end position; absent when no alignment length
    /// can be derived from the record.
    pub end: Option<i32>,
    /// Mapping quality; absent when unmapped or unavailable.
    pub mapping_quality: Option<u8>,
    /// Read name.
    pub read_name: String,
    /// Alignment shape, rendered as a textual operation string.
    pub cigar: String,
    /// Textual representation of the base sequence.
    pub sequence: String,
    /// Textual representation of the per-base quality scores.
    pub quality: String,
}

/// The mathematical value of an alignment record.
#[verifier::ext_equal]
pub ghost struct RecordModel {
    pub reference_name: Seq<char>,
    pub start: i32,
    pub end: Option<i32>,
    pub mapping_quality: Option<u8>,
    pub read_name: Seq<char>,
    pub cigar: Seq<char>,
    pub sequence: Seq<char>,
    pub quality: Seq<char>,
}

impl View for AlignmentRecord {
    type V = RecordModel;

    open spec fn view(&self) -> RecordModel {
        RecordModel {
            reference_name: self.reference_name@,
            start: self.start,
            end: self.end,
            mapping_quality: self.mapping_quality,
            read_name: self.read_name@,
            cigar: self.cigar@,
            sequence: self.sequence@,
            quality: self.quality@,
        }
    }
}

} // verus!
