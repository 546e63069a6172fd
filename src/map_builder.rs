use vstd::prelude::*;

use crate::array::{decode_row, decode_rows, map_row, Array, ListArray, StructArray};
use vstd::string::StringExecFns;
use crate::array_builder::{builder_rows, builder_shape, builder_wf, ArrayBuilder};
use crate::error::{Error, ErrorKind};
use crate::offsets::OffsetsArray;
use crate::shape::{accepts, stored, Shape};
use crate::value::{Value, ValueModel};

verus! {

/// The rows of a map column: row `i` pairs the keys and values in its
/// offset range, by position.
pub open spec fn map_rows(
    offsets: OffsetsArray<i32>,
    keys: Seq<ValueModel>,
    values: Seq<ValueModel>,
) -> Seq<ValueModel> {
    Seq::new(
        offsets.rows(),
        |i: int|
            if offsets.valid(i) {
                ValueModel::Mapping(
                    Seq::new(
                        (offsets.ints()[i + 1] - offsets.ints()[i]) as nat,
                        |k: int| (keys[offsets.ints()[i] + k], values[offsets.ints()[i] + k]),
                    ),
                )
            } else {
                ValueModel::Null
            },
    )
}

/// Builds a map column: a list of (key, value) entries.
#[derive(Debug)]
pub struct MapBuilder {
    pub path: String,
    pub offsets: OffsetsArray<i32>,
    pub keys: Box<ArrayBuilder>,
    pub values: Box<ArrayBuilder>,
}

impl MapBuilder {
    pub open spec fn shape(&self) -> Shape {
        Shape::Mapping {
            nullable: self.offsets.validity is Some,
            key: Box::new(builder_shape(*self.keys)),
            value: Box::new(builder_shape(*self.values)),
        }
    }

    pub open spec fn rows(&self) -> Seq<ValueModel> {
        map_rows(self.offsets, builder_rows(*self.keys), builder_rows(*self.values))
    }

    pub open spec fn wf(&self) -> bool {
        self.offsets.wf() && builder_wf(*self.keys) && builder_wf(*self.values) && builder_rows(
            *self.keys,
        ).len() == self.offsets.last() && builder_rows(*self.values).len() == self.offsets.last()
    }

    /// The finished map array: a list of (key, value) structs; the builder
    /// is consumed.
    pub fn into_array(self) -> (r: Array)
        requires
            self.wf(),
        ensures
            r is Mapping,
            r->Mapping_0.offsets == self.offsets.offsets,
            r->Mapping_0.validity == self.offsets.validity,
            crate::map_deserializer::map_entries_ok(r->Mapping_0),
            decode_rows(r) == self.rows(),
        decreases self, 0int,
    {
        let ghost rows = self.rows();
        let ghost key_rows = builder_rows(*self.keys);
        let ghost value_rows = builder_rows(*self.values);
        let ghost offsets = self.offsets;
        let keys = (*self.keys).into_array();
        let values = (*self.values).into_array();
        let len = self.offsets.last_usize();
        let entries = StructArray {
            len,
            validity: None,
            fields: vec![(String::from_str("key"), keys), (String::from_str("value"), values)],
        };
        let l = ListArray {
            validity: self.offsets.validity,
            offsets: self.offsets.offsets,
            element: Box::new(Array::Struct(entries)),
        };
        let r = Array::Mapping(l);
        assert(decode_rows(keys).len() == decode_rows(values).len());
        assert forall|i: int| 0 <= i < offsets.rows() implies map_row(l, i) == rows[i] by {
            if offsets.valid(i) {
                let a = offsets.ints()[i];
                let b = offsets.ints()[i + 1];
                assert(0 <= a <= b <= offsets.last());
                assert forall|k: int| 0 <= k < b - a implies #[trigger] decode_row(keys, a + k) == key_rows[a + k]
                    && decode_row(values, a + k) == value_rows[a + k] by {
                    assert(decode_rows(keys)[a + k] == decode_row(keys, a + k));
                    assert(decode_rows(values)[a + k] == decode_row(values, a + k));
                }
                assert(map_row(l, i)->Mapping_0 =~= rows[i]->Mapping_0);
            }
        }
        assert(decode_rows(r) =~= rows);
        r
    }

    /// Detach the rows written so far, leaving an empty builder of the same
    /// shape behind.
    pub fn take(&mut self) -> (r: Self)
        requires
            old(self).wf(),
        ensures
            r.wf(),
            r.shape() == old(self).shape(),
            r.rows() == old(self).rows(),
            final(self).wf(),
            final(self).shape() == old(self).shape(),
            final(self).rows().len() == 0,
            r.path == old(self).path,
            final(self).path == old(self).path,
        decreases *old(self), 0int,
    {
        let keys = self.keys.take();
        let values = self.values.take();
        let offsets = self.offsets.take();
        MapBuilder { path: self.path.clone(), offsets, keys: Box::new(keys), values: Box::new(values) }
    }

    /// Append an empty map.
    pub fn push_default(&mut self) -> (r: Result<(), Error>)
        requires
            old(self).wf(),
        ensures
            r is Ok ==> final(self).wf(),
            r is Ok ==> final(self).shape() == old(self).shape(),
            r is Ok ==> final(self).rows() == old(self).rows().push(ValueModel::Mapping(Seq::empty())),
            old(self).rows().len() < usize::MAX - 16 ==> r is Ok,
    {
        if self.offsets.len() >= usize::MAX - 16 {
            return Err(Error::new(ErrorKind::Representation, "too many rows"));
        }
        self.offsets.push_seq_elements(0)?;
        let ghost n = old(self).rows().len() as int;
        assert(self.rows() =~= old(self).rows().push(ValueModel::Mapping(Seq::empty()))) by {
            assert forall|i: int| 0 <= i < n implies self.rows()[i] == old(self).rows()[i] by {
                assert(self.offsets.ints()[i] == old(self).offsets.ints()[i]);
                assert(self.offsets.ints()[i + 1] == old(self).offsets.ints()[i + 1]);
                if self.offsets.valid(i) {
                    assert(self.rows()[i]->Mapping_0 =~= old(self).rows()[i]->Mapping_0);
                }
            }
            assert(self.rows()[n]->Mapping_0 =~= Seq::<(ValueModel, ValueModel)>::empty());
        }
        Ok(())
    }

    /// Append a generic value: a map whose keys and values the children
    /// take, or `Null` where the column is nullable.
    pub fn push(&mut self, v: &Value) -> (r: Result<(), Error>)
        requires
            old(self).wf(),
        ensures
            r is Ok ==> final(self).wf(),
            r is Ok ==> accepts(old(self).shape(), v@),
            r is Ok ==> final(self).shape() == old(self).shape(),
            r is Ok ==> final(self).rows() == old(self).rows().push(stored(old(self).shape(), v@)),
            old(self).rows().len() < usize::MAX - 16 && ((v@ is Null && old(self).offsets.validity
                is Some) || v@ == ValueModel::Mapping(Seq::empty())) ==> r is Ok,
        decreases v, 0int,
    {
        if self.offsets.len() >= usize::MAX - 16 {
            return Err(Error::new(ErrorKind::Representation, "too many rows"));
        }
        match v {
            Value::Null => {
                self.offsets.push_seq_none()?;
                let ghost n = old(self).rows().len() as int;
                assert(self.rows() =~= old(self).rows().push(ValueModel::Null)) by {
                    assert forall|i: int| 0 <= i < n implies self.rows()[i] == old(self).rows()[i] by {
                        assert(self.offsets.ints()[i] == old(self).offsets.ints()[i]);
                        assert(self.offsets.ints()[i + 1] == old(self).offsets.ints()[i + 1]);
                        if self.offsets.valid(i) {
                            assert(self.rows()[i]->Mapping_0 =~= old(self).rows()[i]->Mapping_0);
                        }
                    }
                }
                Ok(())
            },
            Value::Mapping(es) => {
                let n = es.len();
                let last = self.offsets.last_usize();
                if n > i32::MAX as usize - last {
                    return Err(Error::new(ErrorKind::Representation, "offset overflow"));
                }
                let ghost keys0 = builder_rows(*self.keys);
                let ghost values0 = builder_rows(*self.values);
                let ghost ks = builder_shape(*self.keys);
                let ghost vs = builder_shape(*self.values);
                let mut k: usize = 0;
                while k < n
                    invariant
                        k <= n == es@.len(),
                        *v == Value::Mapping(*es),
                        builder_wf(*self.keys),
                        builder_wf(*self.values),
                        builder_shape(*self.keys) == ks,
                        builder_shape(*self.values) == vs,
                        builder_rows(*self.keys) == keys0 + Seq::new(k as nat, |j: int| stored(ks, es@[j].0@)),
                        builder_rows(*self.values) == values0 + Seq::new(k as nat, |j: int| stored(vs, es@[j].1@)),
                        forall|j: int| 0 <= j < k ==> accepts(ks, (#[trigger] es@[j]).0@) && accepts(vs, es@[j].1@),
                        self.offsets == old(self).offsets,
                        self.path == old(self).path,
                        keys0 == builder_rows(*old(self).keys),
                        values0 == builder_rows(*old(self).values),
                        ks == builder_shape(*old(self).keys),
                        vs == builder_shape(*old(self).values),
                        last == old(self).offsets.last(),
                        keys0.len() == last,
                        values0.len() == last,
                    decreases n - k,
                {
                    proof {
                        assert(decreases_to!(*v => (*v)->Mapping_0));
                        assert(decreases_to!((*v)->Mapping_0 => (*v)->Mapping_0@));
                        assert(decreases_to!((*v)->Mapping_0@ => (*v)->Mapping_0@[k as int]));
                        assert(decreases_to!((*v)->Mapping_0@[k as int] => (*v)->Mapping_0@[k as int].0));
                        assert(decreases_to!((*v)->Mapping_0@[k as int] => (*v)->Mapping_0@[k as int].1));
                    }
                    self.keys.push(&es[k].0)?;
                    self.values.push(&es[k].1)?;
                    k = k + 1;
                    assert(builder_rows(*self.keys) =~= keys0 + Seq::new(k as nat, |j: int| stored(ks, es@[j].0@)));
                    assert(builder_rows(*self.values) =~= values0 + Seq::new(k as nat, |j: int| stored(vs, es@[j].1@)));
                }
                match self.offsets.push_seq_elements(n) {
                    Ok(()) => {},
                    Err(e) => {
                        assert(false);
                        return Err(e);
                    },
                }
                let ghost keys1 = builder_rows(*self.keys);
                let ghost values1 = builder_rows(*self.values);
                let ghost vm = v@;
                let ghost em = vm->Mapping_0;
                assert(vm == ValueModel::Mapping(em));
                assert forall|j: int| 0 <= j < n implies em[j] == (es@[j].0@, es@[j].1@) by {}
                assert(old(self).shape() == Shape::Mapping {
                    nullable: old(self).offsets.validity is Some,
                    key: Box::new(ks),
                    value: Box::new(vs),
                });
                assert(accepts(old(self).shape(), v@)) by {
                    assert forall|j: int| 0 <= j < em.len() implies accepts(ks, (#[trigger] em[j]).0) && accepts(vs, em[j].1) by {
                        assert(accepts(ks, es@[j].0@));
                    }
                }
                let ghost sv = stored(old(self).shape(), v@);
                assert(sv is Mapping);
                assert(sv->Mapping_0 =~= Seq::new(n as nat, |j: int| (stored(ks, es@[j].0@), stored(vs, es@[j].1@))));
                assert(self.rows() =~= old(self).rows().push(sv)) by {
                    assert forall|i: int| 0 <= i < old(self).rows().len() implies self.rows()[i]
                        == old(self).rows()[i] by {
                        let a = self.offsets.ints()[i];
                        let b = self.offsets.ints()[i + 1];
                        assert(a == old(self).offsets.ints()[i]);
                        assert(b == old(self).offsets.ints()[i + 1]);
                        assert(b <= last);
                        if self.offsets.valid(i) {
                            assert(self.rows()[i]->Mapping_0 =~= old(self).rows()[i]->Mapping_0);
                        }
                    }
                    let row = self.rows()[old(self).rows().len() as int];
                    assert(row->Mapping_0 =~= sv->Mapping_0);
                }
                Ok(())
            },
            _ => Err(Error::new(ErrorKind::ProtocolMisuse, "cannot store this value as a map")),
        }
    }
}

} // verus!
