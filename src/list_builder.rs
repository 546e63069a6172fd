use vstd::prelude::*;

use crate::array::{Array, ListArray, decode_row, decode_rows, array_len, list_row};
use crate::array_builder::{builder_rows, builder_shape, builder_wf, fixed_width, room, same_kind, ArrayBuilder};
use crate::error::{Error, ErrorKind};
use crate::offsets::{OffsetsArray, Offset};
use crate::shape::{accepts, stored, Shape};
use crate::value::{Value, ValueModel};

verus! {

/// The rows of a list column with the given offsets over the given child rows.
pub open spec fn list_rows<O: Offset>(offsets: OffsetsArray<O>, child: Seq<ValueModel>) -> Seq<
    ValueModel,
> {
    Seq::new(
        offsets.rows(),
        |i: int|
            if offsets.valid(i) {
                ValueModel::List(child.subrange(offsets.ints()[i], offsets.ints()[i + 1]))
            } else {
                ValueModel::Null
            },
    )
}

/// A push of `v` that a list builder promises to take: a null or empty
/// list, or a list of items for a child of fixed-width kind, with room for
/// the row, the offsets and the child's rows.
pub open spec fn list_room<O: Offset>(x: ListBuilder<O>, v: ValueModel) -> bool {
    &&& x.rows().len() < usize::MAX - 16
    &&& match v {
        ValueModel::Null => true,
        ValueModel::List(items) => items.len() == 0 || (x.offsets.last() + items.len() <= O::spec_max()
            && fixed_width(*x.element) && builder_rows(*x.element).len() + items.len() < usize::MAX
            - 16),
        _ => false,
    }
}

/// Builds a list column: offsets of type `O` over one child builder.
#[derive(Debug)]
pub struct ListBuilder<O> {
    pub path: String,
    pub offsets: OffsetsArray<O>,
    pub element: Box<ArrayBuilder>,
}

impl<O: Offset> ListBuilder<O> {
    pub open spec fn wf(&self) -> bool {
        &&& self.offsets.wf()
        &&& builder_wf(*self.element)
        &&& builder_rows(*self.element).len() == self.offsets.last()
    }

    pub open spec fn rows(&self) -> Seq<ValueModel> {
        list_rows(self.offsets, builder_rows(*self.element))
    }

    pub open spec fn shape(&self) -> Shape {
        Shape::List {
            nullable: self.offsets.validity is Some,
            element: Box::new(builder_shape(*self.element)),
        }
    }

    pub fn new(path: String, element: ArrayBuilder, is_nullable: bool) -> (r: Self)
        requires
            builder_wf(element),
            builder_rows(element).len() == 0,
        ensures
            r.wf(),
            r.rows() == Seq::<ValueModel>::empty(),
            r.shape() == (Shape::List { nullable: is_nullable, element: Box::new(builder_shape(element)) }),
            r.path == path,
    {
        let r = ListBuilder { path, offsets: OffsetsArray::new(is_nullable), element: Box::new(element) };
        assert(r.rows() =~= Seq::<ValueModel>::empty());
        r
    }

    /// Detach the rows written so far, leaving an empty builder of the same
    /// shape behind.
    pub fn take(&mut self) -> (r: Self)
        requires
            old(self).wf(),
        ensures
            r.wf(),
            r.shape() == old(self).shape(),
            r.rows() == old(self).rows(),
            final(self).wf(),
            final(self).shape() == old(self).shape(),
            final(self).rows().len() == 0,
            r.path == old(self).path,
            final(self).path == old(self).path,
        decreases *old(self), 0int,
    {
        let element = self.element.take();
        let offsets = self.offsets.take();
        let r = ListBuilder { path: self.path.clone(), offsets, element: Box::new(element) };
        r
    }

    pub fn is_nullable(&self) -> (r: bool)
        ensures
            r == (self.offsets.validity is Some),
    {
        self.offsets.is_nullable()
    }

    pub fn len(&self) -> (r: usize)
        requires
            self.wf(),
        ensures
            r == self.rows().len(),
    {
        self.offsets.len()
    }

    /// Append an empty list.
    pub fn push_default(&mut self) -> (r: Result<(), Error>)
        requires
            old(self).wf(),
        ensures
            r is Ok ==> final(self).wf(),
            r is Ok ==> final(self).shape() == old(self).shape(),
            r is Ok ==> final(self).rows() == old(self).rows().push(ValueModel::List(Seq::empty())),
            old(self).rows().len() < usize::MAX - 16 ==> r is Ok,
    {
        if self.offsets.len() >= usize::MAX - 16 {
            return Err(Error::new(ErrorKind::Representation, "too many rows"));
        }
        let ghost child = builder_rows(*self.element);
        self.offsets.push_seq_elements(0)?;
        let ghost n = old(self).rows().len() as int;
        assert(self.rows() =~= old(self).rows().push(ValueModel::List(Seq::empty()))) by {
            assert forall|i: int| 0 <= i < n implies self.rows()[i] == old(self).rows()[i] by {
                assert(self.offsets.ints()[i] == old(self).offsets.ints()[i]);
                assert(self.offsets.ints()[i + 1] == old(self).offsets.ints()[i + 1]);
            }
            assert(child.subrange(self.offsets.ints()[n], self.offsets.ints()[n + 1]) =~= Seq::<ValueModel>::empty());
        }
        Ok(())
    }

    /// Append a generic value: a list whose items the child takes, or
    /// `Null` where the column is nullable.
    pub fn push(&mut self, v: &Value) -> (r: Result<(), Error>)
        requires
            old(self).wf(),
        ensures
            r is Ok ==> final(self).wf(),
            r is Ok ==> accepts(old(self).shape(), v@),
            r is Ok ==> final(self).shape() == old(self).shape(),
            r is Ok ==> final(self).rows() == old(self).rows().push(stored(old(self).shape(), v@)),
            accepts(old(self).shape(), v@) && list_room(*old(self), v@) ==> r is Ok,
        decreases v, 0int,
    {
        if self.offsets.len() >= usize::MAX - 16 {
            return Err(Error::new(ErrorKind::Representation, "too many rows"));
        }
        match v {
            Value::Null => {
                let ghost child = builder_rows(*self.element);
                self.offsets.push_seq_none()?;
                assert(self.rows() =~= old(self).rows().push(ValueModel::Null)) by {
                    assert forall|i: int| 0 <= i < old(self).rows().len() implies self.rows()[i]
                        == old(self).rows()[i] by {
                        assert(self.offsets.ints()[i] == old(self).offsets.ints()[i]);
                        assert(self.offsets.ints()[i + 1] == old(self).offsets.ints()[i + 1]);
                    }
                }
                Ok(())
            },
            Value::List(items) => {
                let n = items.len();
                let last = self.offsets.last_usize();
                if n > O::max_value() - last {
                    return Err(Error::new(ErrorKind::Representation, "offset overflow"));
                }
                let ghost child0 = builder_rows(*self.element);
                let ghost sh = builder_shape(*self.element);
                let ghost vm = v@;
                let ghost items_model = vm->List_0;
                assert forall|j: int| 0 <= j < n implies items_model[j] == (#[trigger] items@[j])@ by {}
                let mut k: usize = 0;
                while k < n
                    invariant
                        k <= n == items@.len(),
                        *v == Value::List(*items),
                        builder_wf(*self.element),
                        builder_shape(*self.element) == sh,
                        builder_rows(*self.element) == child0 + Seq::new(
                            k as nat,
                            |j: int| stored(sh, items@[j]@),
                        ),
                        forall|j: int| 0 <= j < k ==> accepts(sh, #[trigger] items@[j]@),
                        self.offsets == old(self).offsets,
                        self.path == old(self).path,
                        child0 == builder_rows(*old(self).element),
                        sh == builder_shape(*old(self).element),
                        last == old(self).offsets.last(),
                        child0.len() == last,
                        same_kind(*self.element, *old(self).element),
                        vm == v@,
                        vm == ValueModel::List(items_model),
                        items_model.len() == n,
                        forall|j: int| 0 <= j < n ==> items_model[j] == (#[trigger] items@[j])@,
                    decreases n - k,
                {
                    proof {
                        assert(decreases_to!(*v => (*v)->List_0));
                        assert(decreases_to!((*v)->List_0 => (*v)->List_0@));
                        assert(decreases_to!(items@ => items@[k as int]));
                    }
                    let ghost before = builder_rows(*self.element);
                    proof {
                        if accepts(old(self).shape(), v@) && list_room(*old(self), v@) {
                            assert(old(self).shape() == Shape::List {
                                nullable: old(self).offsets.validity is Some,
                                element: Box::new(sh),
                            });
                            assert(accepts(sh, items_model[k as int]));
                            assert(fixed_width(*self.element));
                            assert(builder_rows(*self.element).len() == last + k);
                            assert(room(*self.element, items@[k as int]@));
                        }
                    }
                    self.element.push(&items[k])?;
                    k = k + 1;
                    assert(builder_rows(*self.element) =~= child0 + Seq::new(
                        k as nat,
                        |j: int| stored(sh, items@[j]@),
                    ));
                }
                match self.offsets.push_seq_elements(n) {
                    Ok(()) => {},
                    Err(e) => {
                        assert(false);
                        return Err(e);
                    },
                }
                let ghost child = builder_rows(*self.element);
                let ghost vm = v@;
                let ghost items_model = vm->List_0;
                assert(vm == ValueModel::List(items_model));
                assert(old(self).shape() == Shape::List {
                    nullable: old(self).offsets.validity is Some,
                    element: Box::new(sh),
                });
                assert(items_model.len() == n);
                assert forall|j: int| 0 <= j < n implies items_model[j] == items@[j]@ by {}
                assert(accepts(old(self).shape(), v@)) by {
                    assert forall|j: int| 0 <= j < items_model.len() implies accepts(
                        sh,
                        #[trigger] items_model[j],
                    ) by {
                        assert(accepts(sh, items@[j]@));
                    }
                }
                let ghost sv = stored(old(self).shape(), v@);
                assert(sv is List);
                assert(sv->List_0 =~= Seq::new(n as nat, |j: int| stored(sh, items@[j]@)));
                assert(sv == ValueModel::List(Seq::new(n as nat, |j: int| stored(sh, items@[j]@))));
                assert(self.rows() =~= old(self).rows().push(stored(old(self).shape(), v@))) by {
                    assert forall|i: int| 0 <= i < old(self).rows().len() implies self.rows()[i]
                        == old(self).rows()[i] by {
                        let a = self.offsets.ints()[i];
                        let b = self.offsets.ints()[i + 1];
                        assert(a == old(self).offsets.ints()[i]);
                        assert(b == old(self).offsets.ints()[i + 1]);
                        assert(b <= last);
                        assert(child.subrange(a, b) =~= child0.subrange(a, b));
                    }
                    assert(child.subrange(last as int, last + n) =~= Seq::new(
                        n as nat,
                        |j: int| stored(sh, items@[j]@),
                    ));
                }
                Ok(())
            },
            _ => Err(Error::new(ErrorKind::ProtocolMisuse, "cannot store this value as a list")),
        }
    }
}

impl ListBuilder<i32> {
    /// The finished `List` array; the builder is consumed.
    pub fn into_array(self) -> (r: Array)
        requires
            self.wf(),
        ensures
            r is List,
            r->List_0.offsets == self.offsets.offsets,
            r->List_0.validity == self.offsets.validity,
            array_len(*r->List_0.element) == self.offsets.last(),
            decode_rows(r) == self.rows(),
        decreases self, 0int,
    {
        let ghost rows = self.rows();
        let ghost child_rows = builder_rows(*self.element);
        let ghost offsets = self.offsets;
        let element = (*self.element).into_array();
        let r = Array::List(ListArray { validity: self.offsets.validity, offsets: self.offsets.offsets, element: Box::new(element) });
        proof {
            lemma_list_decodes(offsets, child_rows, element, r->List_0);
            assert(offsets.ints().len() == offsets.offsets@.len());
            assert(array_len(r) == offsets.rows());
            assert forall|i: int| 0 <= i < offsets.rows() implies decode_rows(r)[i] == rows[i] by {
                assert(decode_row(r, i) == list_row(r->List_0, i));
            }
        }
        assert(decode_rows(r) =~= rows);
        r
    }
}

impl ListBuilder<i64> {
    /// The finished `LargeList` array; the builder is consumed.
    pub fn into_array(self) -> (r: Array)
        requires
            self.wf(),
        ensures
            r is LargeList,
            r->LargeList_0.offsets == self.offsets.offsets,
            r->LargeList_0.validity == self.offsets.validity,
            array_len(*r->LargeList_0.element) == self.offsets.last(),
            decode_rows(r) == self.rows(),
        decreases self, 0int,
    {
        let ghost rows = self.rows();
        let ghost child_rows = builder_rows(*self.element);
        let ghost offsets = self.offsets;
        let element = (*self.element).into_array();
        let r = Array::LargeList(ListArray { validity: self.offsets.validity, offsets: self.offsets.offsets, element: Box::new(element) });
        proof {
            lemma_list_decodes(offsets, child_rows, element, r->LargeList_0);
            assert(offsets.ints().len() == offsets.offsets@.len());
            assert(array_len(r) == offsets.rows());
            assert forall|i: int| 0 <= i < offsets.rows() implies decode_rows(r)[i] == rows[i] by {
                assert(decode_row(r, i) == list_row(r->LargeList_0, i));
            }
        }
        assert(decode_rows(r) =~= rows);
        r
    }
}

/// A list array assembled from builder offsets over a child that decodes to
/// the child rows decodes to the list rows.
proof fn lemma_list_decodes<O: Offset>(
    offsets: OffsetsArray<O>,
    child_rows: Seq<ValueModel>,
    element: Array,
    l: ListArray<O>,
)
    requires
        offsets.wf(),
        child_rows.len() == offsets.last(),
        decode_rows(element) == child_rows,
        l.validity == offsets.validity,
        l.offsets == offsets.offsets,
        *l.element == element,
    ensures
        forall|i: int| 0 <= i < offsets.rows() ==> list_row(l, i) == list_rows(offsets, child_rows)[i],
{
    assert forall|i: int| 0 <= i < offsets.rows() implies list_row(l, i) == list_rows(offsets, child_rows)[i] by {
        if offsets.valid(i) {
            let a = offsets.ints()[i];
            let b = offsets.ints()[i + 1];
            assert(0 <= a <= b <= offsets.last());
            assert(list_row(l, i)->List_0 =~= child_rows.subrange(a, b));
        }
    }
}

} // verus!
