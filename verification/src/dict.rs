use vstd::prelude::*;

use crate::error::FetchError;

verus! {

/// The distinct names occurring in `refs`, in first-seen order: the order in
/// which a single pass over `refs` meets each name for the first time.
pub open spec fn first_seen(refs: Seq<Seq<char>>) -> Seq<Seq<char>>
    decreases refs.len(),
{
    if refs.len() == 0 {
        Seq::empty()
    } else {
        let prev = first_seen(refs.drop_last());
        if prev.contains(refs.last()) {
            prev
        } else {
            prev.push(refs.last())
        }
    }
}

/// The least index of `s` holding `x`, or `s.len()` when `x` is absent.
pub open spec fn first_index_of(s: Seq<Seq<char>>, x: Seq<char>) -> int
    decreases s.len(),
{
    if s.len() == 0 {
        0
    } else if s[0] == x {
        0
    } else {
        1 + first_index_of(s.subrange(1, s.len() as int), x)
    }
}

/// `first_index_of` finds the least index holding `x` when `x` occurs in `s`,
/// and evaluates to `s.len()` when it does not.
pub proof fn lemma_first_index_of(s: Seq<Seq<char>>, x: Seq<char>)
    ensures
        s.contains(x) ==> {
            &&& 0 <= first_index_of(s, x) < s.len()
            &&& s[first_index_of(s, x)] == x
            &&& forall|j: int| 0 <= j < first_index_of(s, x) ==> s[j] != x
        },
        !s.contains(x) ==> first_index_of(s, x) == s.len(),
    decreases s.len(),
{
    if s.len() == 0 {
    } else if s[0] == x {
        assert(s.contains(x));
    } else {
        let t = s.subrange(1, s.len() as int);
        lemma_first_index_of(t, x);
        if s.contains(x) {
            let w = choose|w: int| 0 <= w < s.len() && s[w] == x;
            assert(t[w - 1] == x);
            assert(t.contains(x));
            let f = first_index_of(t, x);
            assert(s[1 + f] == t[f]);
            assert forall|j: int| 0 <= j < 1 + f implies s[j] != x by {
                if j >= 1 {
                    assert(s[j] == t[j - 1]);
                }
            }
        } else {
            assert(!t.contains(x)) by {
                if t.contains(x) {
                    let w = choose|w: int| 0 <= w < t.len() && t[w] == x;
                    assert(s[w + 1] == t[w]);
                    assert(s.contains(x));
                }
            }
        }
    }
}

/// If `x` stands at index `i` of `s` and nowhere earlier, then `i` is the
/// first index of `x`.
pub proof fn lemma_first_index_unique(s: Seq<Seq<char>>, x: Seq<char>, i: int)
    requires
        0 <= i < s.len(),
        s[i] == x,
        forall|j: int| 0 <= j < i ==> s[j] != x,
    ensures
        first_index_of(s, x) == i,
{
    assert(s.contains(x));
    lemma_first_index_of(s, x);
    let f = first_index_of(s, x);
    if f < i {
        assert(s[f] != x);
    } else if f > i {
        assert(s[i] != x);
    }
}

/// A name occurs in the first-seen dictionary exactly when it occurs in the
/// underlying sequence.
pub proof fn lemma_first_seen_contains(refs: Seq<Seq<char>>, x: Seq<char>)
    ensures
        first_seen(refs).contains(x) <==> refs.contains(x),
    decreases refs.len(),
{
    if refs.len() == 0 {
    } else {
        let head = refs.drop_last();
        lemma_first_seen_contains(head, x);
        if refs.contains(x) {
            let w = choose|w: int| 0 <= w < refs.len() && refs[w] == x;
            if w < refs.len() - 1 {
                assert(head[w] == x);
                assert(head.contains(x));
            }
            if !first_seen(head).contains(refs.last()) {
                assert(first_seen(refs) == first_seen(head).push(refs.last()));
                if head.contains(x) {
                    let f = first_index_of(first_seen(head), x);
                    lemma_first_index_of(first_seen(head), x);
                    assert(first_seen(refs)[f] == x);
                    assert(first_seen(refs).contains(x));
                } else {
                    assert(refs.last() == x);
                    assert(first_seen(refs).last() == x);
                    assert(first_seen(refs).contains(x));
                }
            }
        }
        if first_seen(refs).contains(x) {
            let w = choose|w: int| 0 <= w < first_seen(refs).len() && first_seen(refs)[w] == x;
            if first_seen(head).contains(refs.last()) {
                assert(first_seen(head).contains(x));
            } else {
                if w < first_seen(head).len() {
                    assert(first_seen(head)[w] == x);
                    assert(first_seen(head).contains(x));
                } else {
                    assert(x == refs.last());
                }
            }
            if head.contains(x) {
                let v = choose|v: int| 0 <= v < head.len() && head[v] == x;
                assert(refs[v] == x);
                assert(refs.contains(x));
            } else {
                assert(x == refs.last());
                assert(refs[refs.len() - 1] == x);
                assert(refs.contains(x));
            }
        }
    }
}

/// The first-seen dictionary never repeats a name.
pub proof fn lemma_first_seen_distinct(refs: Seq<Seq<char>>)
    ensures
        forall|i: int, j: int|
            0 <= i < j < first_seen(refs).len() ==> first_seen(refs)[i] != first_seen(refs)[j],
    decreases refs.len(),
{
    if refs.len() == 0 {
    } else {
        let head = refs.drop_last();
        lemma_first_seen_distinct(head);
        let prev = first_seen(head);
        if !prev.contains(refs.last()) {
            assert forall|i: int, j: int|
                0 <= i < j < first_seen(refs).len() implies first_seen(refs)[i]
                != first_seen(refs)[j] by {
                if j == first_seen(refs).len() - 1 {
                    assert(first_seen(refs)[j] == refs.last());
                    assert(first_seen(refs)[i] == prev[i]);
                    if prev[i] == refs.last() {
                        assert(prev.contains(refs.last()));
                    }
                } else {
                    assert(first_seen(refs)[i] == prev[i]);
                    assert(first_seen(refs)[j] == prev[j]);
                }
            }
        }
    }
}

/// Appending one more name extends the first-seen dictionary by that name
/// exactly when the name is new.
pub proof fn lemma_first_seen_push(refs: Seq<Seq<char>>, x: Seq<char>)
    ensures
        first_seen(refs.push(x)) == if first_seen(refs).contains(x) {
            first_seen(refs)
        } else {
            first_seen(refs).push(x)
        },
{
    assert(refs.push(x).drop_last() =~= refs);
    assert(refs.push(x).last() == x);
}

/// When `x` already occurs in a dictionary prefix that is kept intact, its
/// first index is unchanged in the extension.
pub proof fn lemma_first_index_stable(s1: Seq<Seq<char>>, s2: Seq<Seq<char>>, x: Seq<char>)
    requires
        s1.len() <= s2.len(),
        forall|i: int| 0 <= i < s1.len() ==> s2[i] == s1[i],
        s1.contains(x),
    ensures
        first_index_of(s2, x) == first_index_of(s1, x),
{
    lemma_first_index_of(s1, x);
    let f = first_index_of(s1, x);
    assert(s2[f] == x);
    assert forall|j: int| 0 <= j < f implies s2[j] != x by {
        assert(s2[j] == s1[j]);
    }
    lemma_first_index_unique(s2, x, f);
}

/// Per-query dictionary state for the reference-name column: the distinct
/// names seen so far in first-seen order, and the code assigned to each row.
/// Codes are 8 bits wide, so one query admits at most 256 distinct names.
pub struct DictionaryEncoder {
    values: Vec<String>,
    codes: Vec<u8>,
}

impl DictionaryEncoder {
    /// The dictionary: distinct names in first-seen order.
    pub closed spec fn values_seq(&self) -> Seq<Seq<char>> {
        self.values.deep_view()
    }

    /// One code per appended row.
    pub closed spec fn codes_seq(&self) -> Seq<u8> {
        self.codes@
    }

    pub open spec fn wf(&self) -> bool {
        self.values_seq().len() <= 256
    }

    pub fn new() -> (d: DictionaryEncoder)
        ensures
            d.wf(),
            d.values_seq() == Seq::<Seq<char>>::empty(),
            d.codes_seq() == Seq::<u8>::empty(),
    {
        let d = DictionaryEncoder { values: Vec::new(), codes: Vec::new() };
        proof {
            assert(d.values.deep_view() =~= Seq::<Seq<char>>::empty());
        }
        d
    }

    /// Appends one reference name: reuses the code of a name seen before in
    /// this query, assigns the next code to a new name, and fails with
    /// `DictionaryOverflow` when a new name arrives while all 256 codes are
    /// taken.
    pub fn append(&mut self, name: &String) -> (r: Result<u8, FetchError>)
        requires
            old(self).wf(),
        ensures
            final(self).wf(),
            old(self).values_seq().contains(name@) ==> {
                &&& r is Ok
                &&& r->Ok_0 as int == first_index_of(old(self).values_seq(), name@)
                &&& final(self).values_seq() == old(self).values_seq()
                &&& final(self).codes_seq() == old(self).codes_seq().push(r->Ok_0)
            },
            !old(self).values_seq().contains(name@) && old(self).values_seq().len() < 256 ==> {
                &&& r is Ok
                &&& r->Ok_0 as int == old(self).values_seq().len()
                &&& final(self).values_seq() == old(self).values_seq().push(name@)
                &&& final(self).codes_seq() == old(self).codes_seq().push(r->Ok_0)
            },
            !old(self).values_seq().contains(name@) && old(self).values_seq().len() >= 256 ==> {
                &&& r == Err::<u8, FetchError>(FetchError::DictionaryOverflow)
                &&& *final(self) == *old(self)
            },
    {
        let n = self.values.len();
        let mut i: usize = 0;
        while i < n
            invariant
                *self == *old(self),
                n == self.values.len(),
                n <= 256,
                i <= n,
                forall|j: int| 0 <= j < i ==> self.values.deep_view()[j] != name@,
            decreases n - i,
        {
            if self.values[i] == *name {
                proof {
                    assert(self.values.deep_view()[i as int] == name@);
                    lemma_first_index_unique(self.values.deep_view(), name@, i as int);
                }
                self.codes.push(i as u8);
                return Ok(i as u8);
            }
            i += 1;
        }
        proof {
            assert(!self.values_seq().contains(name@)) by {
                if self.values_seq().contains(name@) {
                    let w = choose|w: int|
                        0 <= w < self.values_seq().len() && self.values_seq()[w] == name@;
                    assert(self.values.deep_view()[w] != name@);
                }
            }
        }
        if self.values.len() < 256 {
            let code = self.values.len() as u8;
            let ghost prev = self.values.deep_view();
            self.values.push(name.clone());
            self.codes.push(code);
            proof {
                assert(self.values.deep_view() =~= prev.push(name@));
            }
            Ok(code)
        } else {
            Err(FetchError::DictionaryOverflow)
        }
    }

    /// Finalizes the encoder into the code column and the lookup table.
    pub fn into_parts(self) -> (r: (Vec<u8>, Vec<String>))
        ensures
            r.0@ == self.codes_seq(),
            r.1.deep_view() == self.values_seq(),
    {
        (self.codes, self.values)
    }
}

} // verus!
