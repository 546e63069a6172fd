use vstd::prelude::*;
use vstd::utf8::{decode_utf8, encode_utf8, encode_utf8_decode_utf8, encode_utf8_valid_utf8, valid_utf8};

use crate::array::{Array, BytesArray, bytes_row};
use crate::error::{Error, ErrorKind};
use crate::offsets::{OffsetsArray, Offset};
use crate::value::{Value, ValueModel};

verus! {

/// Builds a column of strings, stored as UTF-8 bytes and offsets of type `O`.
#[derive(Debug, Clone)]
pub struct Utf8Builder<O> {
    pub path: String,
    pub offsets: OffsetsArray<O>,
    pub data: Vec<u8>,
}

/// Append `bytes` to `data`.
pub fn append_bytes(data: &mut Vec<u8>, bytes: &[u8])
    ensures
        final(data)@ == old(data)@ + bytes@,
{
    let mut i: usize = 0;
    while i < bytes.len()
        invariant
            i <= bytes@.len(),
            data@ == old(data)@ + bytes@.subrange(0, i as int),
        decreases bytes@.len() - i,
    {
        data.push(bytes[i]);
        i = i + 1;
        assert(bytes@.subrange(0, i as int) =~= bytes@.subrange(0, i - 1 as int).push(bytes@[i - 1]));
    }
    assert(bytes@.subrange(0, i as int) =~= bytes@);
}

impl<O: Offset> Utf8Builder<O> {
    pub open spec fn wf(&self) -> bool {
        &&& self.offsets.wf()
        &&& self.data@.len() == self.offsets.last()
        &&& self.len_spec() <= usize::MAX - 8
        &&& forall|i: int|
            0 <= i < self.len_spec() ==> valid_utf8(
                #[trigger] self.data@.subrange(self.offsets.ints()[i], self.offsets.ints()[i + 1]),
            )
    }

    pub open spec fn len_spec(&self) -> nat {
        self.offsets.rows()
    }

    pub open spec fn nullable(&self) -> bool {
        self.offsets.validity is Some
    }

    /// The string of row `i`.
    pub open spec fn str_at(&self, i: int) -> Seq<char> {
        decode_utf8(self.data@.subrange(self.offsets.ints()[i], self.offsets.ints()[i + 1]))
    }

    /// The rows written so far.
    pub open spec fn rows(&self) -> Seq<ValueModel> {
        Seq::new(
            self.len_spec(),
            |i: int|
                if self.offsets.valid(i) {
                    ValueModel::Str(self.str_at(i))
                } else {
                    ValueModel::Null
                },
        )
    }

    pub fn new(path: String, is_nullable: bool) -> (r: Self)
        ensures
            r.wf(),
            r.rows() == Seq::<ValueModel>::empty(),
            r.nullable() == is_nullable,
            r.path == path,
    {
        let r = Utf8Builder { path, offsets: OffsetsArray::new(is_nullable), data: Vec::new() };
        assert(r.rows() =~= Seq::<ValueModel>::empty());
        r
    }

    /// Detach the rows written so far, leaving an empty builder behind.
    pub fn take(&mut self) -> (r: Self)
        ensures
            r == *old(self),
            final(self).wf(),
            final(self).rows() == Seq::<ValueModel>::empty(),
            final(self).nullable() == old(self).nullable(),
            final(self).path == old(self).path,
    {
        let mut taken = Utf8Builder::new(self.path.clone(), self.offsets.is_nullable());
        std::mem::swap(self, &mut taken);
        taken
    }

    pub fn is_nullable(&self) -> (r: bool)
        ensures
            r == self.nullable(),
    {
        self.offsets.is_nullable()
    }

    pub fn len(&self) -> (r: usize)
        requires
            self.wf(),
        ensures
            r == self.len_spec(),
    {
        self.offsets.len()
    }

    /// Append a string; fails where its end does not fit the offset type.
    pub fn push_str(&mut self, s: &str) -> (r: Result<(), Error>)
        requires
            old(self).wf(),
            old(self).len_spec() < usize::MAX - 16,
        ensures
            r matches Err(e) ==> e.field is None,
            r is Ok <==> old(self).offsets.last() + encode_utf8(s@).len() <= O::spec_max(),
            r is Ok ==> final(self).rows() == old(self).rows().push(ValueModel::Str(s@)),
            r is Err ==> *final(self) == *old(self),
            r matches Err(e) ==> e.kind == ErrorKind::Representation,
            final(self).wf(),
            final(self).nullable() == old(self).nullable(),
            final(self).path == old(self).path,
    {
        let ghost old_rows = self.rows();
        let ghost old_data = self.data@;
        let bytes = s.as_bytes();
        self.offsets.push_seq_elements(bytes.len())?;
        append_bytes(&mut self.data, bytes);
        let ghost n = old_rows.len() as int;
        proof {
            encode_utf8_decode_utf8(s@);
            encode_utf8_valid_utf8(s@);
            assert(self.data@.subrange(old_data.len() as int, self.data@.len() as int) =~= bytes@);
            assert forall|i: int| 0 <= i < n implies self.str_at(i) == old(self).str_at(i)
                && self.data@.subrange(self.offsets.ints()[i], self.offsets.ints()[i + 1])
                == old_data.subrange(old(self).offsets.ints()[i], old(self).offsets.ints()[i + 1]) by {
                let a = self.offsets.ints()[i];
                let b = self.offsets.ints()[i + 1];
                assert(b <= old(self).offsets.ints()[n]);
                assert(self.data@.subrange(a, b) =~= old_data.subrange(a, b));
            }
            assert forall|i: int| 0 <= i < n + 1 implies valid_utf8(
                #[trigger] self.data@.subrange(self.offsets.ints()[i], self.offsets.ints()[i + 1]),
            ) by {
                if i < n {
                    assert(valid_utf8(old_data.subrange(old(self).offsets.ints()[i], old(self).offsets.ints()[i + 1])));
                    assert(self.data@.subrange(self.offsets.ints()[i], self.offsets.ints()[i + 1])
                        == old_data.subrange(old(self).offsets.ints()[i], old(self).offsets.ints()[i + 1]));
                } else {
                    assert(self.offsets.ints()[i] == old_data.len());
                    assert(self.offsets.ints()[i + 1] == self.data@.len());
                    assert(bytes@ == encode_utf8(s@));
                    assert(self.data@.subrange(self.offsets.ints()[i], self.offsets.ints()[i + 1]) =~= bytes@);
                }
            }
        }
        assert(self.rows() =~= old_rows.push(ValueModel::Str(s@)));
        Ok(())
    }

    /// Append a null row; fails on a non-nullable column.
    pub fn push_none(&mut self) -> (r: Result<(), Error>)
        requires
            old(self).wf(),
            old(self).len_spec() < usize::MAX - 16,
        ensures
            r matches Err(e) ==> e.field is None,
            r is Ok <==> old(self).nullable(),
            r is Ok ==> final(self).rows() == old(self).rows().push(ValueModel::Null),
            r is Err ==> *final(self) == *old(self),
            r matches Err(e) ==> e.kind == ErrorKind::ProtocolMisuse,
            final(self).wf(),
            final(self).nullable() == old(self).nullable(),
            final(self).path == old(self).path,
    {
        let ghost old_rows = self.rows();
        self.offsets.push_seq_none()?;
        let ghost n = old_rows.len() as int;
        assert forall|i: int| 0 <= i < n implies self.str_at(i) == old(self).str_at(i) by {
            assert(self.offsets.ints()[i] == old(self).offsets.ints()[i]);
            assert(self.offsets.ints()[i + 1] == old(self).offsets.ints()[i + 1]);
        }
        assert forall|i: int| 0 <= i < n + 1 implies valid_utf8(
            #[trigger] self.data@.subrange(self.offsets.ints()[i], self.offsets.ints()[i + 1]),
        ) by {
            if i < n {
                assert(self.offsets.ints()[i] == old(self).offsets.ints()[i]);
                assert(self.offsets.ints()[i + 1] == old(self).offsets.ints()[i + 1]);
            } else {
                assert(self.data@.subrange(self.offsets.ints()[i], self.offsets.ints()[i + 1]) =~= Seq::<u8>::empty());
            }
        }
        assert(self.rows() =~= old_rows.push(ValueModel::Null));
        Ok(())
    }

    /// Append a generic value: a string, or `Null` where the column is
    /// nullable.
    pub fn push(&mut self, v: &Value) -> (r: Result<(), Error>)
        requires
            old(self).wf(),
            old(self).len_spec() < usize::MAX - 16,
        ensures
            r matches Err(e) ==> e.field is None,
            r is Ok <==> match v@ {
                ValueModel::Null => old(self).nullable(),
                ValueModel::Str(s) => old(self).offsets.last() + encode_utf8(s).len()
                    <= O::spec_max(),
                _ => false,
            },
            r is Ok ==> final(self).rows() == old(self).rows().push(v@),
            r is Err ==> *final(self) == *old(self),
            final(self).wf(),
            final(self).nullable() == old(self).nullable(),
            final(self).path == old(self).path,
    {
        match v {
            Value::Null => self.push_none(),
            Value::Str(s) => self.push_str(s.as_str()),
            _ => Err(Error::new(ErrorKind::ProtocolMisuse, "cannot store this value as a string")),
        }
    }

    /// Append an empty string.
    pub fn push_default(&mut self) -> (r: Result<(), Error>)
        requires
            old(self).wf(),
            old(self).len_spec() < usize::MAX - 16,
        ensures
            r is Ok <==> old(self).offsets.last() <= O::spec_max(),
            r is Ok ==> final(self).rows() == old(self).rows().push(ValueModel::Str(Seq::empty())),
            final(self).wf(),
            final(self).nullable() == old(self).nullable(),
            final(self).path == old(self).path,
    {
        let ghost old_rows = self.rows();
        self.offsets.push_seq_elements(0)?;
        let ghost n = old_rows.len() as int;
        assert forall|i: int| 0 <= i < n implies self.str_at(i) == old(self).str_at(i) by {
            assert(self.offsets.ints()[i] == old(self).offsets.ints()[i]);
            assert(self.offsets.ints()[i + 1] == old(self).offsets.ints()[i + 1]);
        }
        assert forall|i: int| 0 <= i < n + 1 implies valid_utf8(
            #[trigger] self.data@.subrange(self.offsets.ints()[i], self.offsets.ints()[i + 1]),
        ) by {
            if i < n {
                assert(self.offsets.ints()[i] == old(self).offsets.ints()[i]);
                assert(self.offsets.ints()[i + 1] == old(self).offsets.ints()[i + 1]);
            } else {
                assert(self.data@.subrange(self.offsets.ints()[i], self.offsets.ints()[i + 1]) =~= Seq::<u8>::empty());
            }
        }
        assert(self.data@.subrange(self.offsets.ints()[n], self.offsets.ints()[n + 1])
            =~= Seq::<u8>::empty());
        assert(decode_utf8(Seq::<u8>::empty()) =~= Seq::<char>::empty());
        assert(self.rows() =~= old_rows.push(ValueModel::Str(Seq::empty())));
        Ok(())
    }

    /// The finished bytes column.
    pub fn into_bytes(self) -> (r: BytesArray<O>)
        requires
            self.wf(),
        ensures
            r.offsets@.len() == self.len_spec() + 1,
            r.offsets == self.offsets.offsets,
            r.validity == self.offsets.validity,
            r.data == self.data,
            crate::deserialization::bytes_ok(r),
            forall|i: int| 0 <= i < self.len_spec() ==> bytes_row(r, i) == self.rows()[i],
    {
        BytesArray { validity: self.offsets.validity, offsets: self.offsets.offsets, data: self.data }
    }
}

impl Utf8Builder<i32> {
    /// The finished `Utf8` array.
    pub fn into_array(self) -> (r: Array)
        requires
            self.wf(),
        ensures
            r is Utf8,
            r->Utf8_0.offsets@.len() == self.len_spec() + 1,
            r->Utf8_0.offsets == self.offsets.offsets,
            r->Utf8_0.validity == self.offsets.validity,
            r->Utf8_0.data == self.data,
            crate::deserialization::bytes_ok(r->Utf8_0),
            forall|i: int| 0 <= i < self.len_spec() ==> bytes_row(r->Utf8_0, i) == self.rows()[i],
    {
        Array::Utf8(self.into_bytes())
    }
}

impl Utf8Builder<i64> {
    /// The finished `LargeUtf8` array.
    pub fn into_array(self) -> (r: Array)
        requires
            self.wf(),
        ensures
            r is LargeUtf8,
            r->LargeUtf8_0.offsets@.len() == self.len_spec() + 1,
            r->LargeUtf8_0.offsets == self.offsets.offsets,
            r->LargeUtf8_0.validity == self.offsets.validity,
            r->LargeUtf8_0.data == self.data,
            crate::deserialization::bytes_ok(r->LargeUtf8_0),
            forall|i: int|
                0 <= i < self.len_spec() ==> bytes_row(r->LargeUtf8_0, i) == self.rows()[i],
    {
        Array::LargeUtf8(self.into_bytes())
    }
}

} // verus!
