use vstd::prelude::*;

use crate::array::{array_len, decode_row};
use crate::array_deserializer::{deser_source, deser_wf, ArrayDeserializer};
use crate::error::{Error, ErrorKind};
use crate::value::{Value, ValueModel};

verus! {

/// Reads a batch of top-level columns of equal length as one sequence of
/// records, one per row, with a forward cursor.
pub struct OuterSequenceDeserializer<'a> {
    pub fields: Vec<(String, ArrayDeserializer<'a>)>,
    pub len: usize,
    pub next: usize,
}

impl<'a> OuterSequenceDeserializer<'a> {
    pub open spec fn wf(&self) -> bool {
        forall|k: int|
            0 <= k < self.fields@.len() ==> deser_wf(#[trigger] self.fields@[k].1) && array_len(
                deser_source(self.fields@[k].1),
            ) == self.len
    }

    /// The record of row `i`: the value of every column, by name.
    pub open spec fn record(&self, i: int) -> ValueModel {
        ValueModel::Struct(
            Seq::new(
                self.fields@.len(),
                |k: int| (self.fields@[k].0@, decode_row(deser_source(self.fields@[k].1), i)),
            ),
        )
    }

    pub fn new(fields: Vec<(String, ArrayDeserializer<'a>)>, len: usize) -> (r: Self)
        ensures
            r.fields == fields,
            r.len == len,
            r.next == 0,
    {
        OuterSequenceDeserializer { fields, len, next: 0 }
    }

    /// The number of records left.
    pub fn remaining(&self) -> (r: usize)
        ensures
            r == if self.next <= self.len { self.len - self.next } else { 0 },
    {
        if self.next <= self.len {
            self.len - self.next
        } else {
            0
        }
    }

    /// The next record; fails once every row was read.
    pub fn next_record(&mut self) -> (r: Result<Value, Error>)
        requires
            old(self).wf(),
        ensures
            final(self).fields == old(self).fields,
            final(self).len == old(self).len,
            r is Ok <==> old(self).next < old(self).len,
            r is Ok ==> final(self).next == old(self).next + 1,
            r is Err ==> final(self).next == old(self).next,
            r matches Ok(v) ==> v@ == old(self).record(old(self).next as int),
            r matches Err(e) ==> e.kind == ErrorKind::Exhausted,
    {
        if self.next >= self.len {
            return Err(Error::new(ErrorKind::Exhausted, "exhausted record sequence"));
        }
        let i = self.next;
        let mut out: Vec<(String, Value)> = Vec::new();
        let mut k: usize = 0;
        while k < self.fields.len()
            invariant
                self.wf(),
                self.fields == old(self).fields,
                self.len == old(self).len,
                i < self.len,
                i == old(self).next,
                k <= self.fields@.len(),
                out@.len() == k,
                forall|j: int|
                    0 <= j < k ==> (#[trigger] out@[j]).0@ == self.fields@[j].0@ && out@[j].1@
                        == decode_row(deser_source(self.fields@[j].1), i as int),
            decreases self.fields@.len() - k,
        {
            let v = match self.fields[k].1.value_at(i) {
                Ok(v) => v,
                Err(e) => {
                    assert(false);
                    return Err(e);
                },
            };
            out.push((self.fields[k].0.clone(), v));
            k = k + 1;
        }
        self.next = i + 1;
        let r = Value::Struct(out);
        assert(r@->Struct_0 =~= old(self).record(i as int)->Struct_0);
        Ok(r)
    }
}

} // verus!
