use vstd::prelude::*;

verus! {

/// Incremental builder for a nullable fixed-width column: a value buffer and
/// a parallel validity buffer, one entry per appended row.  A null row keeps
/// a fill value in the value buffer and a cleared validity bit, as the
/// columnar layout does.
pub struct ColumnBuilder<T> {
    values: Vec<T>,
    validity: Vec<bool>,
    fill: T,
}

impl<T: Copy> ColumnBuilder<T> {
    /// One cell per appended row: `Some(v)` for an appended value, `None`
    /// for an appended null.
    pub closed spec fn cells(&self) -> Seq<Option<T>> {
        Seq::new(
            self.validity@.len(),
            |i: int|
                if self.validity@[i] {
                    Some(self.values@[i])
                } else {
                    None
                },
        )
    }

    pub closed spec fn wf(&self) -> bool {
        self.values@.len() == self.validity@.len()
    }

    pub fn new(fill: T) -> (b: Self)
        ensures
            b.wf(),
            b.cells() == Seq::<Option<T>>::empty(),
    {
        let b = ColumnBuilder { values: Vec::new(), validity: Vec::new(), fill };
        proof {
            assert(b.cells() =~= Seq::<Option<T>>::empty());
        }
        b
    }

    pub fn append_value(&mut self, v: T)
        requires
            old(self).wf(),
        ensures
            final(self).wf(),
            final(self).cells() == old(self).cells().push(Some(v)),
    {
        self.values.push(v);
        self.validity.push(true);
        proof {
            assert(self.cells() =~= old(self).cells().push(Some(v)));
        }
    }

    pub fn append_null(&mut self)
        requires
            old(self).wf(),
        ensures
            final(self).wf(),
            final(self).cells() == old(self).cells().push(None),
    {
        let fill = self.fill;
        self.values.push(fill);
        self.validity.push(false);
        proof {
            assert(self.cells() =~= old(self).cells().push(None));
        }
    }

    pub fn len(&self) -> (n: usize)
        requires
            self.wf(),
        ensures
            n == self.cells().len(),
    {
        self.validity.len()
    }

    /// Finalizes the builder into one immutable cell per row.
    pub fn finish(self) -> (r: Vec<Option<T>>)
        requires
            self.wf(),
        ensures
            r@ == self.cells(),
    {
        let mut out: Vec<Option<T>> = Vec::new();
        let mut i: usize = 0;
        while i < self.validity.len()
            invariant
                self.wf(),
                i <= self.validity@.len(),
                out@ =~= self.cells().take(i as int),
            decreases self.validity@.len() - i,
        {
            if self.validity[i] {
                out.push(Some(self.values[i]));
            } else {
                out.push(None);
            }
            proof {
                assert(out@ =~= self.cells().take(i + 1));
            }
            i += 1;
        }
        proof {
            assert(self.cells().take(self.cells().len() as int) =~= self.cells());
        }
        out
    }
}

} // verus!
