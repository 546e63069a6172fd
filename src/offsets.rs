use vstd::prelude::*;

use crate::bits::Bitmap;
use crate::error::{Error, ErrorKind};

verus! {

/// An integer type usable as an offset of a variable-length column.
pub trait Offset: Copy + Sized {
    spec fn spec_int(&self) -> int;

    spec fn spec_max() -> int;

    fn zero() -> (r: Self)
        ensures
            r.spec_int() == 0,
            0 <= Self::spec_max() <= usize::MAX,
    ;

    fn max_value() -> (r: usize)
        ensures
            r == Self::spec_max(),
            0 <= Self::spec_max() <= usize::MAX,
    ;

    /// Convert a length; `None` where it does not fit.
    fn try_from_usize(n: usize) -> (r: Option<Self>)
        ensures
            r is Some <==> n <= Self::spec_max(),
            r matches Some(o) ==> o.spec_int() == n,
    ;

    /// Convert back to an index; `None` for a negative offset.
    fn try_into_usize(self) -> (r: Option<usize>)
        ensures
            r is Some <==> 0 <= self.spec_int() <= usize::MAX,
            r matches Some(u) ==> u == self.spec_int(),
    ;
}

impl Offset for i32 {
    open spec fn spec_int(&self) -> int {
        *self as int
    }

    open spec fn spec_max() -> int {
        i32::MAX as int
    }

    fn zero() -> (r: Self) {
        0i32
    }

    fn max_value() -> (r: usize) {
        i32::MAX as usize
    }

    fn try_from_usize(n: usize) -> (r: Option<Self>) {
        if n <= i32::MAX as usize {
            Some(n as i32)
        } else {
            None
        }
    }

    fn try_into_usize(self) -> (r: Option<usize>) {
        if self >= 0 {
            Some(self as usize)
        } else {
            None
        }
    }
}

impl Offset for i64 {
    open spec fn spec_int(&self) -> int {
        *self as int
    }

    open spec fn spec_max() -> int {
        if usize::MAX < i64::MAX { usize::MAX as int } else { i64::MAX as int }
    }

    fn zero() -> (r: Self) {
        0i64
    }

    fn max_value() -> (r: usize) {
        if usize::MAX as u64 <= i64::MAX as u64 {
            usize::MAX
        } else {
            i64::MAX as usize
        }
    }

    fn try_from_usize(n: usize) -> (r: Option<Self>) {
        if n as u64 <= i64::MAX as u64 {
            Some(n as i64)
        } else {
            None
        }
    }

    fn try_into_usize(self) -> (r: Option<usize>) {
        if self >= 0 && self as u64 <= usize::MAX as u64 {
            Some(self as usize)
        } else {
            None
        }
    }
}

/// The integer values of an offsets vector.
pub open spec fn offset_ints<O: Offset>(offsets: Seq<O>) -> Seq<int> {
    offsets.map_values(|o: O| o.spec_int())
}

/// A supported layout of offsets for `n = offsets.len() - 1` rows: it starts
/// at zero, never decreases and each entry is a valid `usize`.
pub open spec fn offsets_wf(offsets: Seq<int>) -> bool {
    &&& offsets.len() >= 1
    &&& offsets[0] == 0
    &&& forall|i: int, j: int| 0 <= i <= j < offsets.len() ==> offsets[i] <= offsets[j]
    &&& forall|i: int| 0 <= i < offsets.len() ==> offsets[i] <= usize::MAX
}

/// Every row marked invalid spans no child positions.
pub open spec fn nulls_empty(offsets: Seq<int>, validity: Seq<bool>) -> bool {
    forall|i: int|
        0 <= i < validity.len() && !validity[i] ==> offsets[i] == #[trigger] offsets[i + 1]
}

/// Under an optional bitmap, every row marked invalid spans no positions.
pub open spec fn null_rows_empty(offsets: Seq<int>, validity: Option<Bitmap>) -> bool {
    match validity {
        Some(b) => nulls_empty(offsets, b@),
        None => true,
    }
}

/// Check that every row a bitmap marks invalid spans no positions.
pub fn check_null_rows<O: Offset>(offsets: &Vec<O>, validity: &Option<Bitmap>) -> (r: Result<
    (),
    Error,
>)
    requires
        offsets@.len() >= 1,
        forall|i: int| 0 <= i < offsets@.len() ==> 0 <= #[trigger] offset_ints(offsets@)[i] <= usize::MAX,
        match validity {
            Some(b) => b.wf() && b@.len() == offsets@.len() - 1,
            None => true,
        },
    ensures
        r is Ok <==> null_rows_empty(offset_ints(offsets@), *validity),
        r matches Err(e) ==> e.kind == ErrorKind::SchemaMismatch,
{
    let b = match validity {
        Some(b) => b,
        None => {
            return Ok(());
        },
    };
    let ghost offs = offset_ints(offsets@);
    let n = offsets.len() - 1;
    let mut i: usize = 0;
    while i < n
        invariant
            n == offsets@.len() - 1,
            *validity == Some(*b),
            b.wf(),
            b@.len() == n,
            offs == offset_ints(offsets@),
            forall|k: int| 0 <= k < offsets@.len() ==> 0 <= #[trigger] offs[k] <= usize::MAX,
            i <= n,
            forall|j: int| 0 <= j < i && !b@[j] ==> offs[j] == #[trigger] offs[j + 1],
        decreases n - i,
    {
        if !b.get(i) {
            assert(0 <= offs[i as int] <= usize::MAX);
            assert(0 <= offs[i + 1] <= usize::MAX);
            let a = match offsets[i].try_into_usize() {
                Some(a) => a,
                None => 0,
            };
            let c = match offsets[i + 1].try_into_usize() {
                Some(c) => c,
                None => 0,
            };
            if a != c {
                assert(!nulls_empty(offs, b@));
                return Err(Error::new(ErrorKind::SchemaMismatch, "a null row holds data"));
            }
        }
        i = i + 1;
    }
    Ok(())
}

/// The offsets (and, for a nullable column, the validity) of a growing
/// variable-length column.
#[derive(Debug, Clone)]
pub struct OffsetsArray<O> {
    pub offsets: Vec<O>,
    pub validity: Option<Bitmap>,
}

impl<O: Offset> OffsetsArray<O> {
    pub open spec fn ints(&self) -> Seq<int> {
        offset_ints(self.offsets@)
    }

    /// Number of rows.
    pub open spec fn rows(&self) -> nat {
        (self.offsets@.len() - 1) as nat
    }

    /// The end of the last row: how many child positions are used.
    pub open spec fn last(&self) -> int {
        self.ints()[self.offsets@.len() - 1]
    }

    /// Whether row `i` is present.
    pub open spec fn valid(&self, i: int) -> bool {
        match self.validity {
            Some(v) => v@[i],
            None => true,
        }
    }

    pub open spec fn wf(&self) -> bool {
        &&& offsets_wf(self.ints())
        &&& self.last() <= O::spec_max()
        &&& match self.validity {
            Some(v) => v.wf() && v@.len() == self.rows() && nulls_empty(self.ints(), v@),
            None => true,
        }
    }

    pub fn new(is_nullable: bool) -> (r: Self)
        ensures
            r.wf(),
            r.rows() == 0,
            r.last() == 0,
            r.validity is Some == is_nullable,
    {
        let mut offsets = Vec::new();
        offsets.push(O::zero());
        let validity = if is_nullable {
            Some(Bitmap::new())
        } else {
            None
        };
        let r = OffsetsArray { offsets, validity };
        assert(r.ints() =~= seq![0int]);
        r
    }

    pub fn len(&self) -> (r: usize)
        requires
            self.wf(),
        ensures
            r == self.rows(),
    {
        self.offsets.len() - 1
    }

    pub fn is_nullable(&self) -> (r: bool)
        ensures
            r == self.validity is Some,
    {
        self.validity.is_some()
    }

    /// Detach the accumulated rows, leaving an empty column of the same
    /// nullability behind.
    pub fn take(&mut self) -> (r: Self)
        ensures
            r == *old(self),
            final(self).wf(),
            final(self).rows() == 0,
            final(self).last() == 0,
            final(self).validity is Some == old(self).validity is Some,
    {
        let mut taken = OffsetsArray::new(self.validity.is_some());
        std::mem::swap(self, &mut taken);
        taken
    }

    /// The end of the last row, as an index.
    pub fn last_usize(&self) -> (r: usize)
        requires
            self.wf(),
        ensures
            r == self.last(),
    {
        let n = self.offsets.len();
        let o = self.offsets[n - 1];
        match o.try_into_usize() {
            Some(u) => u,
            None => {
                assert(false);
                0
            },
        }
    }

    fn push_row(&mut self, end: O, valid: bool)
        requires
            old(self).wf(),
            old(self).rows() < usize::MAX - 16,
            old(self).last() <= end.spec_int() <= O::spec_max(),
            end.spec_int() <= usize::MAX,
            !valid ==> old(self).validity is Some && end.spec_int() == old(self).last(),
        ensures
            final(self).wf(),
            final(self).ints() == old(self).ints().push(end.spec_int()),
            final(self).validity is Some == old(self).validity is Some,
            forall|i: int| 0 <= i < old(self).rows() ==> final(self).valid(i) == old(self).valid(i),
            final(self).valid(old(self).rows() as int) == valid,
    {
        let ghost old_ints = self.ints();
        self.offsets.push(end);
        assert(self.ints() =~= old_ints.push(end.spec_int()));
        match &mut self.validity {
            Some(v) => {
                v.push(valid);
            },
            None => {},
        }
    }

    /// Append a null row: zero-width, validity cleared.
    pub fn push_seq_none(&mut self) -> (r: Result<(), Error>)
        requires
            old(self).wf(),
            old(self).rows() < usize::MAX - 16,
        ensures
            r matches Err(e) ==> e.field is None,
            r is Ok <==> old(self).validity is Some,
            r is Ok ==> final(self).ints() == old(self).ints().push(old(self).last()),
            r is Ok ==> final(self).valid(old(self).rows() as int) == false,
            r is Err ==> *final(self) == *old(self),
            r matches Err(e) ==> e.kind == ErrorKind::ProtocolMisuse,
            final(self).wf(),
            final(self).validity is Some == old(self).validity is Some,
            forall|i: int| 0 <= i < old(self).rows() ==> final(self).valid(i) == old(self).valid(i),
    {
        if self.validity.is_none() {
            return Err(Error::new(ErrorKind::ProtocolMisuse, "cannot push null for non-nullable field"));
        }
        let n = self.offsets.len();
        let last = self.offsets[n - 1];
        self.push_row(last, false);
        Ok(())
    }

    /// Append a valid row of `count` child positions; fails when the new end
    /// does not fit the offset type.
    pub fn push_seq_elements(&mut self, count: usize) -> (r: Result<(), Error>)
        requires
            old(self).wf(),
            old(self).rows() < usize::MAX - 16,
        ensures
            r matches Err(e) ==> e.field is None,
            r is Ok <==> old(self).last() + count <= O::spec_max(),
            r is Ok ==> final(self).ints() == old(self).ints().push(old(self).last() + count),
            r is Ok ==> final(self).valid(old(self).rows() as int),
            r is Err ==> *final(self) == *old(self),
            r matches Err(e) ==> e.kind == ErrorKind::Representation,
            final(self).wf(),
            final(self).validity is Some == old(self).validity is Some,
            forall|i: int| 0 <= i < old(self).rows() ==> final(self).valid(i) == old(self).valid(i),
    {
        let last = self.last_usize();
        if count > O::max_value() - last {
            return Err(Error::new(ErrorKind::Representation, "offset overflow"));
        }
        match O::try_from_usize(last + count) {
            Some(end) => {
                self.push_row(end, true);
                Ok(())
            },
            None => {
                assert(false);
                Err(Error::new(ErrorKind::Representation, "offset overflow"))
            },
        }
    }
}

/// The offsets of a builder satisfy the layout that deserializers accept:
/// one more entry than rows, never decreasing, and null rows of zero width.
pub proof fn lemma_offsets_layout<O: Offset>(a: OffsetsArray<O>)
    requires
        a.wf(),
    ensures
        a.offsets@.len() == a.rows() + 1,
        forall|i: int, j: int| 0 <= i <= j <= a.rows() ==> a.ints()[i] <= a.ints()[j],
        forall|i: int| 0 <= i < a.rows() && !a.valid(i) ==> a.ints()[i] == a.ints()[i + 1],
{
    assert forall|i: int| 0 <= i < a.rows() && !a.valid(i) implies a.ints()[i] == a.ints()[i
        + 1] by {
        let v = a.validity->0;
        assert(!v@[i]);
    }
}

} // verus!
