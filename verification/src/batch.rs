use vstd::prelude::*;

use crate::dict::{first_index_of, first_seen};
use crate::error::FetchError;
use crate::record::RecordModel;

verus! {

/// An assembled, immutable batch: the eight columns of the fixed output
/// schema, bound in declared order, with the reference column dictionary
/// encoded as row codes plus a lookup table.
pub struct Batch {
    /// Dictionary codes of the `ref` column, one per row.
    pub ref_codes: Vec<u8>,
    /// Dictionary lookup table of the `ref` column: distinct names in
    /// first-seen order.
    pub ref_values: Vec<String>,
    /// The `start` column (non-nullable).
    pub starts: Vec<i32>,
    /// The `end` column (nullable).
    pub ends: Vec<Option<i32>>,
    /// The `mapq` column (nullable).
    pub mapqs: Vec<Option<u8>>,
    /// The `name` column (non-nullable).
    pub names: Vec<String>,
    /// The `cigar` column (non-nullable).
    pub cigars: Vec<String>,
    /// The `seq` column (non-nullable).
    pub seqs: Vec<String>,
    /// The `qual` column (non-nullable).
    pub quals: Vec<String>,
}

/// The mathematical value of a batch.
#[verifier::ext_equal]
pub ghost struct BatchModel {
    pub ref_codes: Seq<u8>,
    pub ref_values: Seq<Seq<char>>,
    pub starts: Seq<i32>,
    pub ends: Seq<Option<i32>>,
    pub mapqs: Seq<Option<u8>>,
    pub names: Seq<Seq<char>>,
    pub cigars: Seq<Seq<char>>,
    pub seqs: Seq<Seq<char>>,
    pub quals: Seq<Seq<char>>,
}

impl View for Batch {
    type V = BatchModel;

    open spec fn view(&self) -> BatchModel {
        BatchModel {
            ref_codes: self.ref_codes@,
            ref_values: self.ref_values.deep_view(),
            starts: self.starts@,
            ends: self.ends@,
            mapqs: self.mapqs@,
            names: self.names.deep_view(),
            cigars: self.cigars.deep_view(),
            seqs: self.seqs.deep_view(),
            quals: self.quals.deep_view(),
        }
    }
}

/// How many bytes one character takes in UTF-8.
pub open spec fn char_utf8_len(c: char) -> nat {
    if (c as u32) < 0x80 {
        1
    } else if (c as u32) < 0x800 {
        2
    } else if (c as u32) < 0x10000 {
        3
    } else {
        4
    }
}

/// How many bytes a string takes in UTF-8.
pub open spec fn text_utf8_len(s: Seq<char>) -> nat
    decreases s.len(),
{
    if s.len() == 0 {
        0
    } else {
        text_utf8_len(s.drop_last()) + char_utf8_len(s.last())
    }
}

/// How many value-buffer bytes a string column takes in UTF-8.
pub open spec fn column_utf8_len(v: Seq<Seq<char>>) -> nat
    decreases v.len(),
{
    if v.len() == 0 {
        0
    } else {
        column_utf8_len(v.drop_last()) + text_utf8_len(v.last())
    }
}

impl BatchModel {
    pub open spec fn row_count(self) -> nat {
        self.starts.len()
    }

    /// The machine limit of the wire format's 32-bit offset buffers: each
    /// variable-length column's value bytes must stay below 2^31, or the
    /// column cannot be laid out.
    pub open spec fn text_fits(self) -> bool {
        &&& column_utf8_len(self.ref_values) < 0x8000_0000
        &&& column_utf8_len(self.names) < 0x8000_0000
        &&& column_utf8_len(self.cigars) < 0x8000_0000
        &&& column_utf8_len(self.seqs) < 0x8000_0000
        &&& column_utf8_len(self.quals) < 0x8000_0000
    }

    /// The central cross-column invariant: every column holds exactly one
    /// cell per row, and every dictionary code points into the lookup table,
    /// which 8-bit codes bound at 256 entries.
    pub open spec fn wf(self) -> bool {
        &&& self.ref_codes.len() == self.row_count()
        &&& self.ends.len() == self.row_count()
        &&& self.mapqs.len() == self.row_count()
        &&& self.names.len() == self.row_count()
        &&& self.cigars.len() == self.row_count()
        &&& self.seqs.len() == self.row_count()
        &&& self.quals.len() == self.row_count()
        &&& self.ref_values.len() <= 256
        &&& forall|i: int|
            0 <= i < self.ref_codes.len() ==> (self.ref_codes[i] as int) < self.ref_values.len()
    }

    /// The record a reader reconstructs from row `i`: every column read back
    /// at that row, with the reference name resolved through the dictionary.
    pub open spec fn decoded_row(self, i: int) -> RecordModel {
        RecordModel {
            reference_name: self.ref_values[self.ref_codes[i] as int],
            start: self.starts[i],
            end: self.ends[i],
            mapping_quality: self.mapqs[i],
            read_name: self.names[i],
            cigar: self.cigars[i],
            sequence: self.seqs[i],
            quality: self.quals[i],
        }
    }
}

/// The reference-name column of a record sequence.
pub open spec fn refs_of(rs: Seq<RecordModel>) -> Seq<Seq<char>> {
    Seq::new(rs.len(), |i: int| rs[i].reference_name)
}

/// The dictionary codes the encoder assigns to a record sequence: each row's
/// reference name mapped to its first index in the first-seen dictionary.
pub open spec fn expected_codes(rs: Seq<RecordModel>) -> Seq<u8> {
    Seq::new(rs.len(), |i: int| first_index_of(first_seen(refs_of(rs)), rs[i].reference_name) as u8)
}

/// The batch that transcoding a record sequence produces: one cell per record
/// in every column, in source order, with the reference column dictionary
/// encoded in first-seen order.
pub open spec fn batch_of_records(rs: Seq<RecordModel>) -> BatchModel {
    BatchModel {
        ref_codes: expected_codes(rs),
        ref_values: first_seen(refs_of(rs)),
        starts: Seq::new(rs.len(), |i: int| rs[i].start),
        ends: Seq::new(rs.len(), |i: int| rs[i].end),
        mapqs: Seq::new(rs.len(), |i: int| rs[i].mapping_quality),
        names: Seq::new(rs.len(), |i: int| rs[i].read_name),
        cigars: Seq::new(rs.len(), |i: int| rs[i].cigar),
        seqs: Seq::new(rs.len(), |i: int| rs[i].sequence),
        quals: Seq::new(rs.len(), |i: int| rs[i].quality),
    }
}

/// The machine limit of the wire format's 32-bit offset buffers, stated over
/// a record sequence: every text column the records produce must stay below
/// 2^31 value bytes.  The reference column is covered by the names as they
/// occur, which bound the smaller dictionary table.
pub open spec fn records_text_fits(rs: Seq<RecordModel>) -> bool {
    &&& column_utf8_len(refs_of(rs)) < 0x8000_0000
    &&& column_utf8_len(Seq::new(rs.len(), |i: int| rs[i].read_name)) < 0x8000_0000
    &&& column_utf8_len(Seq::new(rs.len(), |i: int| rs[i].cigar)) < 0x8000_0000
    &&& column_utf8_len(Seq::new(rs.len(), |i: int| rs[i].sequence)) < 0x8000_0000
    &&& column_utf8_len(Seq::new(rs.len(), |i: int| rs[i].quality)) < 0x8000_0000
}

proof fn lemma_column_utf8_len_push(s: Seq<Seq<char>>, x: Seq<char>)
    ensures
        column_utf8_len(s.push(x)) == column_utf8_len(s) + text_utf8_len(x),
{
    assert(s.push(x).drop_last() =~= s);
    assert(s.push(x).last() == x);
}

/// The dictionary table holds a subsequence of the names it was built from,
/// so it never takes more value bytes than they do.
pub proof fn lemma_first_seen_utf8_len(refs: Seq<Seq<char>>)
    ensures
        column_utf8_len(first_seen(refs)) <= column_utf8_len(refs),
    decreases refs.len(),
{
    if refs.len() > 0 {
        let head = refs.drop_last();
        lemma_first_seen_utf8_len(head);
        if !first_seen(head).contains(refs.last()) {
            lemma_column_utf8_len_push(first_seen(head), refs.last());
        }
    }
}

/// A record sequence within the offset limit yields a batch within it.
pub proof fn lemma_records_text_fits(rs: Seq<RecordModel>)
    requires
        records_text_fits(rs),
    ensures
        batch_of_records(rs).text_fits(),
{
    lemma_first_seen_utf8_len(refs_of(rs));
}

/// Finalizes the builders' output into an immutable batch, after the
/// deliberate defensive check that every column holds one cell per row.
/// A length disagreement is an internal invariant violation, reported as
/// `SchemaMismatch` rather than silently producing a malformed batch.
pub fn assemble(
    ref_codes: Vec<u8>,
    ref_values: Vec<String>,
    starts: Vec<i32>,
    ends: Vec<Option<i32>>,
    mapqs: Vec<Option<u8>>,
    names: Vec<String>,
    cigars: Vec<String>,
    seqs: Vec<String>,
    quals: Vec<String>,
) -> (r: Result<Batch, FetchError>)
    ensures
        r is Ok <==> {
            &&& ref_codes@.len() == starts@.len()
            &&& ends@.len() == starts@.len()
            &&& mapqs@.len() == starts@.len()
            &&& names@.len() == starts@.len()
            &&& cigars@.len() == starts@.len()
            &&& seqs@.len() == starts@.len()
            &&& quals@.len() == starts@.len()
        },
        r matches Ok(b) ==> b@ == (BatchModel {
            ref_codes: ref_codes@,
            ref_values: ref_values.deep_view(),
            starts: starts@,
            ends: ends@,
            mapqs: mapqs@,
            names: names.deep_view(),
            cigars: cigars.deep_view(),
            seqs: seqs.deep_view(),
            quals: quals.deep_view(),
        }),
        r matches Err(e) ==> e == FetchError::SchemaMismatch,
{
    let rows = starts.len();
    if ref_codes.len() == rows && ends.len() == rows && mapqs.len() == rows && names.len() == rows
        && cigars.len() == rows && seqs.len() == rows && quals.len() == rows {
        Ok(Batch { ref_codes, ref_values, starts, ends, mapqs, names, cigars, seqs, quals })
    } else {
        Err(FetchError::SchemaMismatch)
    }
}

} // verus!
