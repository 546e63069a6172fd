use vstd::prelude::*;

use crate::array::{BooleanArray, NullArray, valid_at};
use crate::bits::Bitmap;
use crate::error::{Error, ErrorKind};
use crate::value::{Value, ValueModel};

verus! {

/// Builds a column of nulls: it only counts rows.
#[derive(Debug, Clone)]
pub struct NullBuilder {
    pub path: String,
    pub len: usize,
}

impl NullBuilder {
    pub open spec fn rows(&self) -> Seq<ValueModel> {
        Seq::new(self.len as nat, |i: int| ValueModel::Null)
    }

    pub fn new(path: String) -> (r: Self)
        ensures
            r.rows() == Seq::<ValueModel>::empty(),
            r.path == path,
    {
        let r = NullBuilder { path, len: 0 };
        assert(r.rows() =~= Seq::<ValueModel>::empty());
        r
    }

    pub fn take(&mut self) -> (r: Self)
        ensures
            r == *old(self),
            final(self).rows() == Seq::<ValueModel>::empty(),
            final(self).path == old(self).path,
    {
        let mut taken = NullBuilder::new(self.path.clone());
        std::mem::swap(self, &mut taken);
        taken
    }

    /// Append a row; every value but `Null` is refused.
    pub fn push(&mut self, v: &Value) -> (r: Result<(), Error>)
        requires
            old(self).len < usize::MAX,
        ensures
            r matches Err(e) ==> e.field is None,
            r is Ok <==> v@ is Null,
            r is Ok ==> final(self).rows() == old(self).rows().push(ValueModel::Null),
            r is Err ==> *final(self) == *old(self),
            final(self).path == old(self).path,
    {
        match v {
            Value::Null => {
                self.len = self.len + 1;
                assert(self.rows() =~= old(self).rows().push(ValueModel::Null));
                Ok(())
            },
            _ => Err(Error::new(ErrorKind::ProtocolMisuse, "a null column takes only nulls")),
        }
    }

    pub fn into_array(self) -> (r: NullArray)
        ensures
            r.len == self.len,
    {
        NullArray { len: self.len }
    }
}

/// Builds a column of booleans, bit-packed.
#[derive(Debug, Clone)]
pub struct BoolBuilder {
    pub path: String,
    pub array: BooleanArray,
}

impl BoolBuilder {
    pub open spec fn wf(&self) -> bool {
        &&& self.array.values.wf()
        &&& match self.array.validity {
            Some(v) => v.wf() && v@.len() == self.array.values@.len(),
            None => true,
        }
    }

    pub open spec fn len_spec(&self) -> nat {
        self.array.values@.len()
    }

    pub open spec fn nullable(&self) -> bool {
        self.array.validity is Some
    }

    pub open spec fn rows(&self) -> Seq<ValueModel> {
        Seq::new(
            self.len_spec(),
            |i: int|
                if valid_at(self.array.validity, i) {
                    ValueModel::Bool(self.array.values@[i])
                } else {
                    ValueModel::Null
                },
        )
    }

    pub fn new(path: String, is_nullable: bool) -> (r: Self)
        ensures
            r.wf(),
            r.rows() == Seq::<ValueModel>::empty(),
            r.nullable() == is_nullable,
            r.path == path,
    {
        let validity = if is_nullable {
            Some(Bitmap::new())
        } else {
            None
        };
        let r = BoolBuilder { path, array: BooleanArray { validity, values: Bitmap::new() } };
        assert(r.rows() =~= Seq::<ValueModel>::empty());
        r
    }

    pub fn take(&mut self) -> (r: Self)
        ensures
            r == *old(self),
            final(self).wf(),
            final(self).rows() == Seq::<ValueModel>::empty(),
            final(self).nullable() == old(self).nullable(),
            final(self).path == old(self).path,
    {
        let mut taken = BoolBuilder::new(self.path.clone(), self.array.validity.is_some());
        std::mem::swap(self, &mut taken);
        taken
    }

    pub fn len(&self) -> (r: usize)
        ensures
            r == self.len_spec(),
    {
        self.array.values.len()
    }

    pub fn is_nullable(&self) -> (r: bool)
        ensures
            r == self.nullable(),
    {
        self.array.validity.is_some()
    }

    fn push_row(&mut self, value: bool, valid: bool)
        requires
            old(self).wf(),
            old(self).len_spec() < usize::MAX - 16,
        ensures
            final(self).wf(),
            final(self).nullable() == old(self).nullable(),
            final(self).path == old(self).path,
            final(self).len_spec() == old(self).len_spec() + 1,
            forall|i: int| 0 <= i < old(self).len_spec() ==> final(self).rows()[i] == old(self).rows()[i],
            final(self).array.values@.last() == value,
            valid_at(final(self).array.validity, old(self).len_spec() as int) == (valid || !old(self).nullable()),
    {
        self.array.values.push(value);
        match &mut self.array.validity {
            Some(v) => v.push(valid),
            None => {},
        }
    }

    /// Append a generic value: a boolean, or `Null` where the column is
    /// nullable.
    pub fn push(&mut self, v: &Value) -> (r: Result<(), Error>)
        requires
            old(self).wf(),
            old(self).len_spec() < usize::MAX - 16,
        ensures
            r matches Err(e) ==> e.field is None,
            r is Ok <==> v@ is Bool || (v@ is Null && old(self).nullable()),
            r is Ok ==> final(self).rows() == old(self).rows().push(v@),
            r is Err ==> *final(self) == *old(self),
            final(self).wf(),
            final(self).nullable() == old(self).nullable(),
            final(self).path == old(self).path,
    {
        match v {
            Value::Bool(b) => {
                self.push_row(*b, true);
                assert(self.rows() =~= old(self).rows().push(v@));
                Ok(())
            },
            Value::Null => {
                if self.array.validity.is_none() {
                    return Err(Error::new(ErrorKind::ProtocolMisuse, "cannot push null into a non-nullable column"));
                }
                self.push_row(false, false);
                assert(self.rows() =~= old(self).rows().push(v@));
                Ok(())
            },
            _ => Err(Error::new(ErrorKind::ProtocolMisuse, "cannot store this value as a boolean")),
        }
    }

    /// Append a present `false`.
    pub fn push_default(&mut self)
        requires
            old(self).wf(),
            old(self).len_spec() < usize::MAX - 16,
        ensures
            final(self).rows() == old(self).rows().push(ValueModel::Bool(false)),
            final(self).wf(),
            final(self).nullable() == old(self).nullable(),
            final(self).path == old(self).path,
    {
        self.push_row(false, true);
        assert(self.rows() =~= old(self).rows().push(ValueModel::Bool(false)));
    }

    pub fn into_array(self) -> (r: BooleanArray)
        requires
            self.wf(),
        ensures
            r == self.array,
    {
        self.array
    }
}

} // verus!
