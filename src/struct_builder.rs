use vstd::prelude::*;

use crate::array::{decode_row, decode_rows, struct_row, valid_at, Array, StructArray};
use crate::array_builder::{
    leaf_default_room, scalar_room, builder_rows, builder_shape, builder_wf, struct_children_rows, struct_children_shape, ArrayBuilder};
use crate::bits::Bitmap;
use crate::error::{Error, ErrorKind};
use crate::shape::{accepts, stored, Shape};
use crate::value::{Value, ValueModel};

verus! {

/// The rows of a struct column with the given named child rows.
pub open spec fn struct_rows(
    len: nat,
    validity: Option<Bitmap>,
    fields: Seq<(Seq<char>, Seq<ValueModel>)>,
) -> Seq<ValueModel> {
    Seq::new(
        len,
        |i: int|
            if valid_at(validity, i) {
                ValueModel::Struct(Seq::new(fields.len(), |k: int| (fields[k].0, fields[k].1[i])))
            } else {
                ValueModel::Null
            },
    )
}

/// Builds a struct column: named children advanced in lock-step.
#[derive(Debug)]
pub struct StructBuilder {
    pub path: String,
    pub len: usize,
    pub validity: Option<Bitmap>,
    pub fields: Vec<(String, ArrayBuilder)>,
}

/// A struct value whose fields carry the declared names, in order, and
/// values that the children, all of scalar kinds with room, take.
pub open spec fn flat_room(x: StructBuilder, v: ValueModel) -> bool {
    match v {
        ValueModel::Struct(vs) => {
            &&& vs.len() == x.fields@.len()
            &&& forall|k: int|
                0 <= k < vs.len() ==> {
                    &&& (#[trigger] vs[k]).0 == x.fields@[k].0@
                    &&& accepts(builder_shape(x.fields@[k].1), vs[k].1)
                    &&& scalar_room(x.fields@[k].1, vs[k].1)
                }
        },
        _ => false,
    }
}

impl StructBuilder {
    pub open spec fn shape(&self) -> Shape {
        Shape::Struct { nullable: self.validity is Some, fields: struct_children_shape(*self) }
    }

    pub open spec fn rows(&self) -> Seq<ValueModel> {
        struct_rows(self.len as nat, self.validity, struct_children_rows(*self))
    }

    pub open spec fn wf(&self) -> bool {
        self.layout_wf() && forall|k: int|
            0 <= k < self.fields@.len() ==> builder_wf(#[trigger] self.fields@[k].1) && builder_rows(
                self.fields@[k].1,
            ).len() == self.len
    }

    pub open spec fn layout_wf(&self) -> bool {
        match self.validity {
            Some(v) => v.wf() && v@.len() == self.len,
            None => true,
        }
    }
}

impl StructBuilder {
    /// The finished `Struct` array; the builder is consumed.
    pub fn into_array(self) -> (r: Array)
        requires
            self.wf(),
        ensures
            r is Struct,
            decode_rows(r) == self.rows(),
        decreases self, 0int,
    {
        let ghost me = self;
        let ghost rows = self.rows();
        proof {
            assert forall|j: int| 0 <= j < self.fields@.len() implies decreases_to!(
                self => #[trigger] self.fields@[j].1
            ) by {
                assert(decreases_to!(self => self.fields));
                assert(decreases_to!(self.fields => self.fields@));
                assert(decreases_to!(self.fields@ => self.fields@[j]));
                assert(decreases_to!(self.fields@[j] => self.fields@[j].1));
            }
        }
        let len = self.len;
        let validity = self.validity;
        let mut fields = self.fields;
        let n = fields.len();
        let mut out: Vec<(String, Array)> = Vec::new();
        let mut k: usize = 0;
        while k < n
            invariant
                n == me.fields@.len(),
                k <= n,
                fields@ == me.fields@.subrange(k as int, n as int),
                out@.len() == k,
                me.wf(),
                me == self,
                forall|j: int| 0 <= j < n ==> decreases_to!(me => #[trigger] me.fields@[j].1),
                len == me.len,
                forall|j: int|
                    0 <= j < k ==> (#[trigger] out@[j]).0 == me.fields@[j].0 && decode_rows(out@[j].1)
                        == builder_rows(me.fields@[j].1),
            decreases n - k,
        {
            let (name, b) = fields.remove(0);
            proof {
                assert(b == me.fields@[k as int].1);
                assert(decreases_to!(me => me.fields));
                assert(decreases_to!(me.fields => me.fields@));
                assert(decreases_to!(me.fields@ => me.fields@[k as int]));
                assert(decreases_to!(me.fields@[k as int] => me.fields@[k as int].1));
            }
            let a = b.into_array();
            out.push((name, a));
            k = k + 1;
            assert(fields@ =~= me.fields@.subrange(k as int, n as int));
        }
        let st = StructArray { len, validity, fields: out };
        let r = Array::Struct(st);
        assert forall|i: int| 0 <= i < len implies struct_row(st, i) == rows[i] by {
            if valid_at(validity, i) {
                assert forall|j: int| 0 <= j < n implies decode_row(st.fields@[j].1, i) == builder_rows(
                    me.fields@[j].1,
                )[i] by {
                    assert(decode_rows(st.fields@[j].1)[i] == decode_row(st.fields@[j].1, i));
                }
                assert(struct_row(st, i)->Struct_0 =~= rows[i]->Struct_0);
            }
        }
        assert(decode_rows(r) =~= rows);
        r
    }

    /// Detach the rows written so far, leaving an empty builder of the same
    /// shape behind.
    pub fn take(&mut self) -> (r: Self)
        requires
            old(self).wf(),
        ensures
            r.wf(),
            r.shape() == old(self).shape(),
            r.rows() == old(self).rows(),
            final(self).wf(),
            final(self).shape() == old(self).shape(),
            final(self).rows().len() == 0,
            r.path == old(self).path,
            final(self).path == old(self).path,
        decreases *old(self), 0int,
    {
        let n = self.fields.len();
        let mut taken: Vec<(String, ArrayBuilder)> = Vec::new();
        let mut k: usize = 0;
        while k < n
            invariant
                n == self.fields@.len() == old(self).fields@.len(),
                k <= n,
                taken@.len() == k,
                self.len == old(self).len,
                self.validity == old(self).validity,
                self.path == old(self).path,
                old(self).wf(),
                forall|j: int|
                    0 <= j < k ==> {
                        &&& (#[trigger] taken@[j]).0 == old(self).fields@[j].0
                        &&& builder_wf(taken@[j].1)
                        &&& builder_shape(taken@[j].1) == builder_shape(old(self).fields@[j].1)
                        &&& builder_rows(taken@[j].1) == builder_rows(old(self).fields@[j].1)
                    },
                forall|j: int|
                    0 <= j < k ==> {
                        &&& (#[trigger] self.fields@[j]).0 == old(self).fields@[j].0
                        &&& builder_wf(self.fields@[j].1)
                        &&& builder_shape(self.fields@[j].1) == builder_shape(old(self).fields@[j].1)
                        &&& builder_rows(self.fields@[j].1).len() == 0
                    },
                forall|j: int| k <= j < n ==> #[trigger] self.fields@[j] == old(self).fields@[j],
            decreases n - k,
        {
            proof {
                assert(decreases_to!(*old(self) => old(self).fields));
                assert(decreases_to!(old(self).fields => old(self).fields@));
                assert(decreases_to!(old(self).fields@ => old(self).fields@[k as int]));
                assert(decreases_to!(old(self).fields@[k as int] => old(self).fields@[k as int].1));
            }
            let name = self.fields[k].0.clone();
            let child = &mut self.fields[k].1;
            let b = child.take();
            taken.push((name, b));
            k = k + 1;
        }
        let fresh = match &self.validity {
            Some(_) => Some(Bitmap::new()),
            None => None,
        };
        let len = self.len;
        let mut validity = fresh;
        std::mem::swap(&mut self.validity, &mut validity);
        self.len = 0;
        let r = StructBuilder { path: self.path.clone(), len, validity, fields: taken };
        proof {
            assert(struct_children_rows(r) =~= struct_children_rows(*old(self)));
            assert(struct_children_shape(r) =~= struct_children_shape(*old(self)));
            assert(struct_children_shape(*self) =~= struct_children_shape(*old(self)));
            assert(self.rows() =~= Seq::<ValueModel>::empty());
        }
        r
    }

    fn push_row(&mut self, valid: bool)
        requires
            old(self).layout_wf(),
            old(self).len < usize::MAX - 16,
            !valid ==> old(self).validity is Some,
        ensures
            final(self).fields == old(self).fields,
            final(self).path == old(self).path,
            final(self).len == old(self).len + 1,
            final(self).layout_wf(),
            final(self).validity is Some == old(self).validity is Some,
            forall|i: int| 0 <= i < old(self).len ==> valid_at(final(self).validity, i) == valid_at(old(self).validity, i),
            valid_at(final(self).validity, old(self).len as int) == valid,
    {
        match &mut self.validity {
            Some(b) => b.push(valid),
            None => {},
        }
        self.len = self.len + 1;
    }

    /// Append a present row with a default value in every child.
    pub fn push_default(&mut self) -> (r: Result<(), Error>)
        requires
            old(self).wf(),
        ensures
            r is Ok ==> final(self).wf(),
            r is Ok ==> final(self).shape() == old(self).shape(),
            r is Ok ==> final(self).rows().len() == old(self).rows().len() + 1,
            r is Ok ==> final(self).rows().subrange(0, old(self).rows().len() as int) == old(self).rows(),
            (old(self).len < usize::MAX - 16 && (forall|k: int|
                0 <= k < old(self).fields@.len() ==> leaf_default_room(
                    #[trigger] old(self).fields@[k].1,
                ))) ==> r is Ok,
        decreases *old(self), 2int,
    {
        if self.len >= usize::MAX - 16 {
            return Err(Error::new(ErrorKind::Representation, "too many rows"));
        }
        self.push_children_default()?;
        self.push_row(true);
        proof {
            lemma_rows_extend(*old(self), *self);
            assert(struct_children_shape(*self) =~= struct_children_shape(*old(self)));
        }
        Ok(())
    }

    /// Advance every child by one default row.
    fn push_children_default(&mut self) -> (r: Result<(), Error>)
        requires
            old(self).wf(),
            old(self).len < usize::MAX - 16,
        ensures
            r is Ok ==> final(self).len == old(self).len && final(self).validity == old(self).validity
                && final(self).path == old(self).path && final(self).layout_wf()
                && final(self).fields@.len() == old(self).fields@.len(),
            r is Ok ==> forall|j: int|
                0 <= j < old(self).fields@.len() ==> {
                    &&& (#[trigger] final(self).fields@[j]).0 == old(self).fields@[j].0
                    &&& builder_wf(final(self).fields@[j].1)
                    &&& builder_shape(final(self).fields@[j].1) == builder_shape(old(self).fields@[j].1)
                    &&& builder_rows(final(self).fields@[j].1).len() == old(self).len + 1
                    &&& builder_rows(final(self).fields@[j].1).subrange(0, old(self).len as int)
                        == builder_rows(old(self).fields@[j].1)
                },
            (forall|k: int|
                0 <= k < old(self).fields@.len() ==> leaf_default_room(
                    #[trigger] old(self).fields@[k].1,
                )) ==> r is Ok,
        decreases *old(self), 1int,
    {
        let n = self.fields.len();
        let mut k: usize = 0;
        while k < n
            invariant
                n == self.fields@.len() == old(self).fields@.len(),
                k <= n,
                self.len == old(self).len,
                self.validity == old(self).validity,
                self.path == old(self).path,
                old(self).wf(),
                forall|j: int| 0 <= j < n ==> (#[trigger] self.fields@[j]).0 == old(self).fields@[j].0,
                forall|j: int|
                    0 <= j < k ==> {
                        &&& builder_wf(#[trigger] self.fields@[j].1)
                        &&& builder_shape(self.fields@[j].1) == builder_shape(old(self).fields@[j].1)
                        &&& builder_rows(self.fields@[j].1).len() == old(self).len + 1
                        &&& builder_rows(self.fields@[j].1).subrange(0, old(self).len as int)
                            == builder_rows(old(self).fields@[j].1)
                    },
                forall|j: int| k <= j < n ==> #[trigger] self.fields@[j] == old(self).fields@[j],
            decreases n - k,
        {
            proof {
                assert(decreases_to!(*old(self) => old(self).fields));
                assert(decreases_to!(old(self).fields => old(self).fields@));
                assert(decreases_to!(old(self).fields@ => old(self).fields@[k as int]));
                assert(decreases_to!(old(self).fields@[k as int] => old(self).fields@[k as int].1));
            }
            let ghost before = self.fields@;
            let child = &mut self.fields[k].1;
            child.push_default()?;
            k = k + 1;
        }
        Ok(())
    }

    /// Append a generic value: a struct whose fields carry, in order, the
    /// declared names and values the children take; or `Null` where the
    /// column is nullable, which advances every child by a default.
    pub fn push(&mut self, v: &Value) -> (r: Result<(), Error>)
        requires
            old(self).wf(),
        ensures
            r is Ok ==> final(self).wf(),
            r is Ok ==> accepts(old(self).shape(), v@),
            r is Ok ==> final(self).shape() == old(self).shape(),
            r is Ok ==> final(self).rows() == old(self).rows().push(stored(old(self).shape(), v@)),
            old(self).len < usize::MAX - 16 && flat_room(*old(self), v@) ==> r is Ok,
        decreases v, 0int,
    {
        if self.len >= usize::MAX - 16 {
            return Err(Error::new(ErrorKind::Representation, "too many rows"));
        }
        match v {
            Value::Null => {
                if self.validity.is_none() {
                    return Err(Error::new(ErrorKind::ProtocolMisuse, "cannot push null into a non-nullable struct"));
                }
                self.push_children_default()?;
                self.push_row(false);
                proof {
                    lemma_rows_extend(*old(self), *self);
                    assert(struct_children_shape(*self) =~= struct_children_shape(*old(self)));
                    assert(self.rows() =~= old(self).rows().push(ValueModel::Null));
                }
                Ok(())
            },
            Value::Struct(fs) => {
                let n = self.fields.len();
                if fs.len() != n {
                    return Err(Error::new(ErrorKind::ProtocolMisuse, "struct fields differ from the declared ones"));
                }
                let ghost old_children = struct_children_rows(*self);
                let ghost shapes = struct_children_shape(*self);
                let ghost vm = v@;
                let mut k: usize = 0;
                while k < n
                    invariant
                        *v == Value::Struct(*fs),
                        vm == v@,
                        n == self.fields@.len() == fs@.len(),
                        n == old(self).fields@.len(),
                        k <= n,
                        self.len == old(self).len,
                        self.validity == old(self).validity,
                        self.path == old(self).path,
                        old(self).wf(),
                        old_children == struct_children_rows(*old(self)),
                        shapes == struct_children_shape(*old(self)),
                        forall|j: int|
                            0 <= j < n ==> (#[trigger] self.fields@[j]).0 == old(self).fields@[j].0,
                        forall|j: int|
                            0 <= j < n ==> builder_shape(#[trigger] self.fields@[j].1) == builder_shape(
                                old(self).fields@[j].1,
                            ) && builder_wf(self.fields@[j].1),
                        forall|j: int|
                            0 <= j < k ==> fs@[j].0@ == #[trigger] self.fields@[j].0@ && accepts(
                                shapes[j].1,
                                fs@[j].1@,
                            ) && builder_rows(self.fields@[j].1) == builder_rows(
                                old(self).fields@[j].1,
                            ).push(stored(shapes[j].1, fs@[j].1@)),
                        forall|j: int|
                            k <= j < n ==> #[trigger] self.fields@[j] == old(self).fields@[j],
                    decreases n - k,
                {
                    proof {
                        if flat_room(*old(self), vm) {
                            assert(vm->Struct_0[k as int] == (fs@[k as int].0@, fs@[k as int].1@));
                            assert(self.fields@[k as int] == old(self).fields@[k as int]);
                        }
                    }
                    if self.fields[k].0 != fs[k].0 {
                        return Err(Error::new(ErrorKind::ProtocolMisuse, "unknown field"));
                    }
                    proof {
                        assert(decreases_to!(*v => (*v)->Struct_0));
                        assert(decreases_to!((*v)->Struct_0 => (*v)->Struct_0@));
                        assert(decreases_to!((*v)->Struct_0@ => (*v)->Struct_0@[k as int]));
                        assert(decreases_to!((*v)->Struct_0@[k as int] => (*v)->Struct_0@[k as int].1));
                    }
                    let ghost before = self.fields@;
                    let child = &mut self.fields[k].1;
                    child.push(&fs[k].1)?;
                    proof {
                        assert(self.fields@ == before.update(k as int, (before[k as int].0, self.fields@[k as int].1)));
                    }
                    k = k + 1;
                }
                self.push_row(true);
                proof {
                    assert forall|j: int| 0 <= j < n implies {
                        &&& (#[trigger] self.fields@[j]).0 == old(self).fields@[j].0
                        &&& builder_rows(self.fields@[j].1).len() == self.len
                        &&& builder_rows(self.fields@[j].1).subrange(0, old(self).len as int)
                            == builder_rows(old(self).fields@[j].1)
                    } by {
                        assert(old(self).fields@[j] == old(self).fields@[j]);
                        assert(builder_rows(old(self).fields@[j].1).len() == old(self).len);
                        assert(builder_rows(old(self).fields@[j].1).push(stored(shapes[j].1, fs@[j].1@)).subrange(0, old(self).len as int) =~= builder_rows(old(self).fields@[j].1));
                    }
                    lemma_rows_extend(*old(self), *self);
                    assert(struct_children_shape(*self) =~= struct_children_shape(*old(self)));
                    assert(accepts(old(self).shape(), v@)) by {
                        assert(vm->Struct_0.len() == n);
                        assert forall|j: int| 0 <= j < n implies (#[trigger] vm->Struct_0[j]).0 == shapes[j].0
                            && accepts(shapes[j].1, vm->Struct_0[j].1) by {
                            assert(vm->Struct_0[j] == (fs@[j].0@, fs@[j].1@));
                            assert(shapes[j] == (old(self).fields@[j].0@, builder_shape(old(self).fields@[j].1)));
                            assert(self.fields@[j].0 == old(self).fields@[j].0);
                        }
                        assert(old(self).shape() == Shape::Struct { nullable: old(self).validity is Some, fields: shapes });
                    }
                    let sv = stored(old(self).shape(), v@);
                    assert(sv->Struct_0 =~= self.rows()[old(self).len as int]->Struct_0) by {
                        assert(vm->Struct_0.len() == n);
                        assert forall|j: int| 0 <= j < n implies sv->Struct_0[j] == self.rows()[old(self).len as int]->Struct_0[j] by {
                            assert(vm->Struct_0[j] == (fs@[j].0@, fs@[j].1@));
                            assert(builder_rows(self.fields@[j].1)[old(self).len as int] == stored(shapes[j].1, fs@[j].1@));
                        }
                    }
                    assert(self.rows() =~= old(self).rows().push(sv));
                }
                Ok(())
            },
            _ => Err(Error::new(ErrorKind::ProtocolMisuse, "cannot store this value as a struct")),
        }
    }
}

/// Rows of a struct builder whose children each gained one row and whose
/// length grew by one: the earlier rows are kept and the new row is read
/// from the children.
proof fn lemma_rows_extend(a: StructBuilder, b: StructBuilder)
    requires
        a.wf(),
        b.len == a.len + 1,
        b.fields@.len() == a.fields@.len(),
        forall|i: int| 0 <= i < a.len ==> valid_at(b.validity, i) == valid_at(a.validity, i),
        forall|j: int|
            0 <= j < a.fields@.len() ==> {
                &&& (#[trigger] b.fields@[j]).0 == a.fields@[j].0
                &&& builder_rows(b.fields@[j].1).len() == b.len
                &&& builder_rows(b.fields@[j].1).subrange(0, a.len as int) == builder_rows(a.fields@[j].1)
            },
    ensures
        b.rows().len() == a.rows().len() + 1,
        b.rows().subrange(0, a.len as int) == a.rows(),
        b.rows()[a.len as int] == if valid_at(b.validity, a.len as int) {
            ValueModel::Struct(
                Seq::new(
                    b.fields@.len(),
                    |k: int| (b.fields@[k].0@, builder_rows(b.fields@[k].1)[a.len as int]),
                ),
            )
        } else {
            ValueModel::Null
        },
{
    let ca = struct_children_rows(a);
    let cb = struct_children_rows(b);
    assert forall|i: int| 0 <= i < a.len implies b.rows()[i] == a.rows()[i] by {
        if valid_at(a.validity, i) {
            assert forall|k: int| 0 <= k < ca.len() implies cb[k].1[i] == ca[k].1[i] by {
                assert(builder_rows(b.fields@[k].1).subrange(0, a.len as int)[i] == builder_rows(b.fields@[k].1)[i]);
            }
            assert(b.rows()[i]->Struct_0 =~= a.rows()[i]->Struct_0);
        }
    }
    assert(b.rows().subrange(0, a.len as int) =~= a.rows());
    if valid_at(b.validity, a.len as int) {
        assert(b.rows()[a.len as int]->Struct_0 =~= Seq::new(
            b.fields@.len(),
            |k: int| (b.fields@[k].0@, builder_rows(b.fields@[k].1)[a.len as int]),
        ));
    }
}

} // verus!
