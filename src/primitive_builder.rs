use vstd::prelude::*;

use crate::array::{primitive_row, PrimitiveArray};
use crate::bits::Bitmap;
use crate::error::{Error, ErrorKind};
use crate::primitive::{fits, numeric_of, primitive_model, Primitive};
use crate::value::{Value, ValueModel};

verus! {

/// What a primitive column stores for a generic value it accepts: `Null`
/// stays `Null`, an integer is read back with the signedness of `T`.
pub open spec fn stored_model<T: Primitive>(v: ValueModel) -> ValueModel {
    if v is Null {
        ValueModel::Null
    } else if T::spec_signed() {
        ValueModel::Int(numeric_of(v)->0)
    } else {
        ValueModel::UInt(numeric_of(v)->0)
    }
}

/// Builds a column of fixed-width integers.
#[derive(Debug, Clone)]
pub struct PrimitiveBuilder<T> {
    pub path: String,
    pub array: PrimitiveArray<T>,
}

impl<T: Primitive> PrimitiveBuilder<T> {
    pub open spec fn wf(&self) -> bool {
        match self.array.validity {
            Some(v) => v.wf() && v@.len() == self.array.values@.len(),
            None => true,
        }
    }

    pub open spec fn len_spec(&self) -> nat {
        self.array.values@.len()
    }

    pub open spec fn nullable(&self) -> bool {
        self.array.validity is Some
    }

    /// The rows written so far.
    pub open spec fn rows(&self) -> Seq<ValueModel> {
        Seq::new(self.len_spec(), |i: int| primitive_row(self.array, i))
    }

    pub fn new(path: String, is_nullable: bool) -> (r: Self)
        ensures
            r.wf(),
            r.rows() == Seq::<ValueModel>::empty(),
            r.nullable() == is_nullable,
            r.path == path,
    {
        let validity = if is_nullable {
            Some(Bitmap::new())
        } else {
            None
        };
        let r = PrimitiveBuilder { path, array: PrimitiveArray { validity, values: Vec::new() } };
        assert(r.rows() =~= Seq::<ValueModel>::empty());
        r
    }

    pub fn is_nullable(&self) -> (r: bool)
        ensures
            r == self.nullable(),
    {
        self.array.validity.is_some()
    }

    pub fn len(&self) -> (r: usize)
        ensures
            r == self.len_spec(),
    {
        self.array.values.len()
    }

    /// Detach the rows written so far, leaving an empty builder behind.
    pub fn take(&mut self) -> (r: Self)
        requires
            old(self).wf(),
        ensures
            r == *old(self),
            final(self).wf(),
            final(self).rows() == Seq::<ValueModel>::empty(),
            final(self).nullable() == old(self).nullable(),
            final(self).path == old(self).path,
    {
        let mut taken = PrimitiveBuilder::new(self.path.clone(), self.array.validity.is_some());
        std::mem::swap(self, &mut taken);
        taken
    }

    fn push_row(&mut self, value: T, valid: bool)
        requires
            old(self).wf(),
            old(self).len_spec() < usize::MAX - 16,
            !valid ==> old(self).nullable(),
        ensures
            final(self).wf(),
            final(self).nullable() == old(self).nullable(),
            final(self).path == old(self).path,
            final(self).rows() == old(self).rows().push(
                if valid { primitive_model(value) } else { ValueModel::Null },
            ),
    {
        let ghost old_rows = self.rows();
        self.array.values.push(value);
        match &mut self.array.validity {
            Some(v) => v.push(valid),
            None => {},
        }
        assert(self.rows() =~= old_rows.push(
            if valid { primitive_model(value) } else { ValueModel::Null },
        ));
    }

    /// Append a generic value: `Null` where the column is nullable, or an
    /// integer in the range of `T`.
    pub fn push(&mut self, v: &Value) -> (r: Result<(), Error>)
        requires
            old(self).wf(),
            old(self).len_spec() < usize::MAX - 16,
        ensures
            r matches Err(e) ==> e.field is None,
            r is Ok <==> (v@ is Null && old(self).nullable()) || fits::<T>(v@),
            r is Ok ==> final(self).rows() == old(self).rows().push(stored_model::<T>(v@)),
            r is Err ==> *final(self) == *old(self),
            r matches Err(e) ==> e.kind == ErrorKind::ProtocolMisuse,
            final(self).wf(),
            final(self).nullable() == old(self).nullable(),
            final(self).path == old(self).path,
    {
        if let Value::Null = v {
            return self.push_none();
        }
        match T::from_value(v) {
            Some(t) => {
                self.push_row(t, true);
                Ok(())
            },
            None => Err(Error::new(ErrorKind::ProtocolMisuse, "value does not fit the integer column")),
        }
    }

    /// Append a null row; fails on a non-nullable column.
    pub fn push_none(&mut self) -> (r: Result<(), Error>)
        requires
            old(self).wf(),
            old(self).len_spec() < usize::MAX - 16,
        ensures
            r matches Err(e) ==> e.field is None,
            r is Ok <==> old(self).nullable(),
            r is Ok ==> final(self).rows() == old(self).rows().push(ValueModel::Null),
            r is Err ==> *final(self) == *old(self),
            r matches Err(e) ==> e.kind == ErrorKind::ProtocolMisuse,
            final(self).wf(),
            final(self).nullable() == old(self).nullable(),
            final(self).path == old(self).path,
    {
        if self.array.validity.is_none() {
            return Err(Error::new(ErrorKind::ProtocolMisuse, "cannot push null into a non-nullable column"));
        }
        self.push_row(T::zero(), false);
        Ok(())
    }

    /// Append a present zero.
    pub fn push_default(&mut self)
        requires
            old(self).wf(),
            old(self).len_spec() < usize::MAX - 16,
        ensures
            final(self).rows() == old(self).rows().push(
                if T::spec_signed() { ValueModel::Int(0) } else { ValueModel::UInt(0) },
            ),
            final(self).wf(),
            final(self).nullable() == old(self).nullable(),
            final(self).path == old(self).path,
    {
        self.push_row(T::zero(), true);
    }

    /// The finished values; the builder is consumed.
    pub fn into_array(self) -> (r: PrimitiveArray<T>)
        requires
            self.wf(),
        ensures
            r.values@.len() == self.len_spec(),
            forall|i: int| 0 <= i < self.len_spec() ==> primitive_row(r, i) == self.rows()[i],
    {
        self.array
    }
}

} // verus!
