use vstd::prelude::*;

use crate::array::{decode_row, decode_rows, union_row, Array, DenseUnionArray};
use crate::array_builder::{
    scalar_room, builder_rows, builder_shape, builder_wf, union_children_rows, union_children_shape, ArrayBuilder};
use crate::error::{Error, ErrorKind};
use crate::shape::{accepts, stored, Shape};
use crate::value::{Value, ValueModel};

verus! {

/// The rows of a dense union: row `i` is row `offsets[i]` of variant
/// `types[i]`.
pub open spec fn union_rows(types: Seq<i8>, offsets: Seq<i32>, fields: Seq<Seq<ValueModel>>) -> Seq<
    ValueModel,
> {
    Seq::new(
        types.len(),
        |i: int|
            ValueModel::Variant(
                types[i] as int,
                Box::new(fields[types[i] as int][offsets[i] as int]),
            ),
    )
}

/// Builds a dense union column: a type id and an offset per row, and one
/// child builder per declared variant.
#[derive(Debug)]
pub struct UnionBuilder {
    pub path: String,
    pub types: Vec<i8>,
    pub offsets: Vec<i32>,
    pub fields: Vec<ArrayBuilder>,
}

impl UnionBuilder {
    pub open spec fn shape(&self) -> Shape {
        Shape::Union { variants: union_children_shape(*self) }
    }

    pub open spec fn rows(&self) -> Seq<ValueModel> {
        union_rows(self.types@, self.offsets@, union_children_rows(*self))
    }

    pub open spec fn wf(&self) -> bool {
        self.layout_wf() && (forall|k: int|
            0 <= k < self.fields@.len() ==> builder_wf(#[trigger] self.fields@[k])) && (forall|i: int|
            0 <= i < self.types@.len() ==> (self.offsets@[i] as int) < builder_rows(
                self.fields@[#[trigger] self.types@[i] as int],
            ).len())
    }

    pub open spec fn layout_wf(&self) -> bool {
        &&& self.types@.len() == self.offsets@.len()
        &&& self.fields@.len() <= 127
        &&& forall|i: int|
            0 <= i < self.types@.len() ==> 0 <= #[trigger] self.types@[i] < self.fields@.len() && 0
                <= self.offsets@[i]
    }
}

impl UnionBuilder {
    /// The finished dense union array; the builder is consumed.
    pub fn into_array(self) -> (r: Array)
        requires
            self.wf(),
        ensures
            r is DenseUnion,
            decode_rows(r) == self.rows(),
        decreases self, 0int,
    {
        let ghost me = self;
        let ghost rows = self.rows();
        proof {
            assert forall|j: int| 0 <= j < self.fields@.len() implies decreases_to!(
                self => #[trigger] self.fields@[j]
            ) by {
                assert(decreases_to!(self => self.fields));
                assert(decreases_to!(self.fields => self.fields@));
                assert(decreases_to!(self.fields@ => self.fields@[j]));
                
            }
        }
        let types = self.types;
        let offsets = self.offsets;
        let mut fields = self.fields;
        let n = fields.len();
        let mut out: Vec<Array> = Vec::new();
        let mut k: usize = 0;
        while k < n
            invariant
                n == me.fields@.len(),
                k <= n,
                fields@ == me.fields@.subrange(k as int, n as int),
                out@.len() == k,
                me.wf(),
                me == self,
                forall|j: int| 0 <= j < n ==> decreases_to!(me => #[trigger] me.fields@[j]),
                forall|j: int| 0 <= j < k ==> decode_rows(#[trigger] out@[j]) == builder_rows(me.fields@[j]),
            decreases n - k,
        {
            let b = fields.remove(0);
            proof {
                assert(b == me.fields@[k as int]);
                assert(decreases_to!(me => me.fields));
                assert(decreases_to!(me.fields => me.fields@));
                assert(decreases_to!(me.fields@ => me.fields@[k as int]));
            }
            let a = b.into_array();
            out.push(a);
            k = k + 1;
            assert(fields@ =~= me.fields@.subrange(k as int, n as int));
        }
        let u = DenseUnionArray { types, offsets, fields: out };
        let r = Array::DenseUnion(u);
        assert forall|i: int| 0 <= i < me.types@.len() implies union_row(u, i) == rows[i] by {
            let t = me.types@[i] as int;
            let o = me.offsets@[i] as int;
            assert(0 <= t < n);
            assert(decode_rows(u.fields@[t])[o] == decode_row(u.fields@[t], o));
        }
        assert(decode_rows(r) =~= rows);
        r
    }

    /// Detach the rows written so far, leaving an empty builder of the same
    /// shape behind.
    pub fn take(&mut self) -> (r: Self)
        requires
            old(self).wf(),
        ensures
            r.wf(),
            r.shape() == old(self).shape(),
            r.rows() == old(self).rows(),
            final(self).wf(),
            final(self).shape() == old(self).shape(),
            final(self).rows().len() == 0,
            r.path == old(self).path,
            final(self).path == old(self).path,
        decreases *old(self), 0int,
    {
        let n = self.fields.len();
        let mut taken: Vec<ArrayBuilder> = Vec::new();
        let mut k: usize = 0;
        while k < n
            invariant
                n == self.fields@.len() == old(self).fields@.len(),
                k <= n,
                taken@.len() == k,
                self.types == old(self).types,
                self.offsets == old(self).offsets,
                self.path == old(self).path,
                old(self).wf(),
                forall|j: int|
                    0 <= j < k ==> {
                        &&& builder_wf(#[trigger] taken@[j])
                        &&& builder_shape(taken@[j]) == builder_shape(old(self).fields@[j])
                        &&& builder_rows(taken@[j]) == builder_rows(old(self).fields@[j])
                    },
                forall|j: int|
                    0 <= j < k ==> {
                        &&& builder_wf(#[trigger] self.fields@[j])
                        &&& builder_shape(self.fields@[j]) == builder_shape(old(self).fields@[j])
                        &&& builder_rows(self.fields@[j]).len() == 0
                    },
                forall|j: int| k <= j < n ==> #[trigger] self.fields@[j] == old(self).fields@[j],
            decreases n - k,
        {
            proof {
                assert(decreases_to!(*old(self) => old(self).fields));
                assert(decreases_to!(old(self).fields => old(self).fields@));
                assert(decreases_to!(old(self).fields@ => old(self).fields@[k as int]));
            }
            let child = &mut self.fields[k];
            let b = child.take();
            taken.push(b);
            k = k + 1;
        }
        let mut types: Vec<i8> = Vec::new();
        let mut offsets: Vec<i32> = Vec::new();
        std::mem::swap(&mut self.types, &mut types);
        std::mem::swap(&mut self.offsets, &mut offsets);
        let r = UnionBuilder { path: self.path.clone(), types, offsets, fields: taken };
        proof {
            assert(union_children_rows(r) =~= union_children_rows(*old(self)));
            assert(union_children_shape(r) =~= union_children_shape(*old(self)));
            assert(union_children_shape(*self) =~= union_children_shape(*old(self)));
            assert(self.rows() =~= Seq::<ValueModel>::empty());
        }
        r
    }

    /// Append a generic value: a variant with a declared index, whose
    /// payload goes to that variant's child; the other children are left
    /// untouched.
    pub fn push(&mut self, v: &Value) -> (r: Result<(), Error>)
        requires
            old(self).wf(),
        ensures
            r is Ok ==> final(self).wf(),
            r is Ok ==> accepts(old(self).shape(), v@),
            r is Ok ==> final(self).shape() == old(self).shape(),
            r is Ok ==> final(self).rows() == old(self).rows().push(stored(old(self).shape(), v@)),
            old(self).types@.len() < usize::MAX - 16 && (v@ matches ValueModel::Variant(idx, p) && 0
                <= idx < old(self).fields@.len() && accepts(builder_shape(old(self).fields@[idx]), *p)
                && scalar_room(old(self).fields@[idx], *p) && builder_rows(old(self).fields@[idx]).len()
                <= i32::MAX) ==> r is Ok,
        decreases v, 0int,
    {
        if self.types.len() >= usize::MAX - 16 {
            return Err(Error::new(ErrorKind::Representation, "too many rows"));
        }
        let (idx, payload) = match v {
            Value::Variant(idx, payload) => (*idx, payload),
            _ => {
                return Err(Error::new(ErrorKind::ProtocolMisuse, "a union takes only variants"));
            },
        };
        if idx as usize >= self.fields.len() {
            return Err(Error::new(ErrorKind::ProtocolMisuse, "unknown variant"));
        }
        let k = idx as usize;
        let child_len = self.fields[k].len();
        if child_len > i32::MAX as usize {
            return Err(Error::new(ErrorKind::Representation, "union offset overflow"));
        }
        let ghost shapes = union_children_shape(*self);
        let ghost children0 = union_children_rows(*self);
        let ghost before = self.fields@;
        proof {
            assert(decreases_to!(*v => *(*v)->Variant_1));
        }
        let child = &mut self.fields[k];
        child.push(payload)?;
        self.types.push(k as i8);
        self.offsets.push(child_len as i32);
        proof {
            let children1 = union_children_rows(*self);
            assert(self.fields@ == before.update(k as int, self.fields@[k as int]));
            assert forall|j: int| 0 <= j < self.fields@.len() && j != k implies #[trigger] self.fields@[j] == before[j] by {}
            assert(union_children_shape(*self) =~= shapes);
            assert(self.shape() == old(self).shape());
            assert forall|i: int| 0 <= i < old(self).types@.len() implies self.rows()[i] == old(self).rows()[i] by {
                let t = self.types@[i] as int;
                assert(t == old(self).types@[i] as int);
                assert(0 <= t < before.len());
                if t == k {
                    assert(children1[t] == children0[t].push(stored(shapes[t], (*payload)@)));
                }
            }
            let sv = stored(old(self).shape(), v@);
            assert(v@ == ValueModel::Variant(idx as int, Box::new((*payload)@)));
            assert(sv == ValueModel::Variant(k as int, Box::new(stored(shapes[k as int], (*payload)@))));
            assert(self.rows() =~= old(self).rows().push(sv));
        }
        Ok(())
    }
}

} // verus!
