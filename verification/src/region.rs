use vstd::prelude::*;

use crate::error::FetchError;

verus! {

/// The reference catalog of an open file: the ordered list of reference
/// sequence names, fixed per file and loaded once at open time.  A name's
/// identifier is its first index in this list.
pub struct ReferenceCatalog {
    pub names: Vec<String>,
}

impl View for ReferenceCatalog {
    type V = Seq<Seq<char>>;

    open spec fn view(&self) -> Seq<Seq<char>> {
        self.names.deep_view()
    }
}

/// A region request that passed validation: a resolved reference identifier
/// and a 1-based closed interval with `start <= end`.
pub struct RegionQuery {
    pub reference_id: usize,
    pub start: i64,
    pub end: i64,
}

/// A 1-based closed interval is well formed when both bounds are positive
/// (a zero or negative coordinate has no 1-based meaning) and it is not
/// reversed.
pub open spec fn interval_ok(start: i64, end: i64) -> bool {
    1 <= start && start <= end
}

/// Relies on `<str as PartialEq>::eq`: two string slices are equal exactly
/// when they hold the same characters.
#[verifier::external_body]
fn str_eq(a: &str, b: &str) -> (r: bool)
    ensures
        r == (a@ == b@),
{
    a == b
}

impl ReferenceCatalog {
    pub fn new(names: Vec<String>) -> (c: ReferenceCatalog)
        ensures
            c@ == names.deep_view(),
    {
        ReferenceCatalog { names }
    }

    /// Resolves a reference name to its identifier: the first index in the
    /// catalog holding that name, or `None` when the name is absent.
    pub fn resolve(&self, reference_name: &str) -> (r: Option<usize>)
        ensures
            match r {
                Some(i) => {
                    &&& i < self@.len()
                    &&& self@[i as int] == reference_name@
                    &&& forall|j: int| 0 <= j < i ==> self@[j] != reference_name@
                },
                None => !self@.contains(reference_name@),
            },
    {
        let mut i: usize = 0;
        while i < self.names.len()
            invariant
                i <= self.names.len(),
                forall|j: int| 0 <= j < i ==> self@[j] != reference_name@,
            decreases self.names.len() - i,
        {
            if str_eq(self.names[i].as_str(), reference_name) {
                return Some(i);
            }
            i += 1;
        }
        assert(forall|j: int| 0 <= j < self@.len() ==> self@[j] != reference_name@);
        None
    }
}

/// Checks a requested region against the catalog before any query is made:
/// the reference must be known and the 1-based closed interval well formed.
/// Pure lookup plus arithmetic validation; no side effects.
pub fn validate_region(
    catalog: &ReferenceCatalog,
    reference_name: &str,
    start: i64,
    end: i64,
) -> (r: Result<RegionQuery, FetchError>)
    ensures
        r is Ok <==> catalog@.contains(reference_name@) && interval_ok(start, end),
        r matches Ok(q) ==> {
            &&& q.reference_id < catalog@.len()
            &&& catalog@[q.reference_id as int] == reference_name@
            &&& forall|j: int| 0 <= j < q.reference_id ==> catalog@[j] != reference_name@
            &&& q.start == start
            &&& q.end == end
        },
        r matches Err(e) ==> {
            &&& (e == FetchError::InvalidReference <==> !catalog@.contains(reference_name@))
            &&& (e == FetchError::InvalidInterval <==> catalog@.contains(reference_name@)
                && !interval_ok(start, end))
        },
{
    match catalog.resolve(reference_name) {
        None => Err(FetchError::InvalidReference),
        Some(id) => {
            if start < 1 || start > end {
                proof {
                    assert(catalog@.contains(reference_name@)) by {
                        assert(catalog@[id as int] == reference_name@);
                    }
                }
                Err(FetchError::InvalidInterval)
            } else {
                proof {
                    assert(catalog@.contains(reference_name@)) by {
                        assert(catalog@[id as int] == reference_name@);
                    }
                }
                Ok(RegionQuery { reference_id: id, start, end })
            }
        },
    }
}

} // verus!
