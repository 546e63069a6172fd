use vstd::prelude::*;

use crate::array::{bytes_row, decode_row, DictionaryArray, PrimitiveArray, valid_at, Array};
use crate::bits::Bitmap;
use vstd::utf8::encode_utf8;
use crate::error::{Error, ErrorKind};
use crate::utf8_builder::Utf8Builder;
use crate::value::{Value, ValueModel};

verus! {

/// Builds a dictionary-encoded string column: each distinct string is stored
/// once, in order of first appearance, and each row holds its index.
#[derive(Debug, Clone)]
pub struct DictionaryUtf8Builder {
    pub path: String,
    pub indices: PrimitiveArray<u32>,
    pub distinct: Vec<String>,
    pub values: Utf8Builder<i32>,
}

/// The strings that occur among some rows.
pub open spec fn strings_in(rows: Seq<ValueModel>) -> Set<Seq<char>> {
    Set::new(|s: Seq<char>| exists|i: int| 0 <= i < rows.len() && rows[i] == ValueModel::Str(s))
}

proof fn lemma_strings_in_push(rows: Seq<ValueModel>, v: ValueModel)
    ensures
        strings_in(rows.push(v)) == match v {
            ValueModel::Str(s) => strings_in(rows).insert(s),
            _ => strings_in(rows),
        },
{
    let r2 = rows.push(v);
    match v {
        ValueModel::Str(s) => {
            assert forall|t: Seq<char>| strings_in(r2).contains(t) implies strings_in(
                rows,
            ).insert(s).contains(t) by {
                let i = choose|i: int| 0 <= i < r2.len() && r2[i] == ValueModel::Str(t);
                if i < rows.len() {
                    assert(rows[i] == ValueModel::Str(t));
                }
            }
            assert forall|t: Seq<char>| strings_in(rows).insert(s).contains(t) implies strings_in(
                r2,
            ).contains(t) by {
                if t == s {
                    assert(r2[rows.len() as int] == ValueModel::Str(t));
                } else {
                    let i = choose|i: int| 0 <= i < rows.len() && rows[i] == ValueModel::Str(t);
                    assert(r2[i] == ValueModel::Str(t));
                }
            }
            assert(strings_in(r2) =~= strings_in(rows).insert(s));
        },
        _ => {
            assert forall|t: Seq<char>| strings_in(r2).contains(t) implies strings_in(
                rows,
            ).contains(t) by {
                let i = choose|i: int| 0 <= i < r2.len() && r2[i] == ValueModel::Str(t);
                if i < rows.len() {
                    assert(rows[i] == ValueModel::Str(t));
                }
            }
            assert forall|t: Seq<char>| strings_in(rows).contains(t) implies strings_in(
                r2,
            ).contains(t) by {
                let i = choose|i: int| 0 <= i < rows.len() && rows[i] == ValueModel::Str(t);
                assert(r2[i] == ValueModel::Str(t));
            }
            assert(strings_in(r2) =~= strings_in(rows));
        },
    }
}

/// The distinct strings among the rows, in order of first appearance.
pub open spec fn distinct_in_order(rows: Seq<ValueModel>) -> Seq<Seq<char>>
    decreases rows.len(),
{
    if rows.len() == 0 {
        Seq::empty()
    } else {
        let d = distinct_in_order(rows.drop_last());
        match rows.last() {
            ValueModel::Str(s) => if d.contains(s) {
                d
            } else {
                d.push(s)
            },
            _ => d,
        }
    }
}

proof fn lemma_distinct_push(rows: Seq<ValueModel>, v: ValueModel)
    ensures
        distinct_in_order(rows.push(v)) == match v {
            ValueModel::Str(s) => if distinct_in_order(rows).contains(s) {
                distinct_in_order(rows)
            } else {
                distinct_in_order(rows).push(s)
            },
            _ => distinct_in_order(rows),
        },
{
    assert(rows.push(v).drop_last() =~= rows);
}

impl DictionaryUtf8Builder {
    /// The distinct strings, in order of first appearance.
    pub open spec fn dictionary(&self) -> Seq<Seq<char>> {
        self.distinct@.map_values(|s: String| s@)
    }

    pub open spec fn len_spec(&self) -> nat {
        self.indices.values@.len()
    }

    pub open spec fn nullable(&self) -> bool {
        self.indices.validity is Some
    }

    pub open spec fn wf(&self) -> bool {
        &&& self.wf_layout()
        &&& self.dictionary().to_set() == strings_in(self.rows())
        &&& self.dictionary() == distinct_in_order(self.rows())
    }

    pub open spec fn wf_layout(&self) -> bool {
        &&& match self.indices.validity {
            Some(v) => v.wf() && v@.len() == self.indices.values@.len(),
            None => true,
        }
        &&& self.values.wf()
        &&& !self.values.nullable()
        &&& self.values.rows() == self.dictionary().map_values(|s: Seq<char>| ValueModel::Str(s))
        &&& self.dictionary().no_duplicates()
        &&& self.distinct@.len() <= u32::MAX
        &&& forall|i: int|
            0 <= i < self.len_spec() && valid_at(self.indices.validity, i) ==> (
            #[trigger] self.indices.values@[i]) < self.distinct@.len()
    }

    pub open spec fn rows(&self) -> Seq<ValueModel> {
        Seq::new(
            self.len_spec(),
            |i: int|
                if valid_at(self.indices.validity, i) {
                    ValueModel::Str(self.dictionary()[self.indices.values@[i] as int])
                } else {
                    ValueModel::Null
                },
        )
    }

    pub fn new(path: String, is_nullable: bool) -> (r: Self)
        ensures
            r.wf(),
            r.rows() == Seq::<ValueModel>::empty(),
            r.dictionary() == Seq::<Seq<char>>::empty(),
            r.nullable() == is_nullable,
            r.path == path,
    {
        let validity = if is_nullable {
            Some(Bitmap::new())
        } else {
            None
        };
        let values = Utf8Builder::new(path.clone(), false);
        let r = DictionaryUtf8Builder {
            path,
            indices: PrimitiveArray { validity, values: Vec::new() },
            distinct: Vec::new(),
            values,
        };
        assert(r.rows() =~= Seq::<ValueModel>::empty());
        assert(r.dictionary() =~= Seq::<Seq<char>>::empty());
        assert(r.values.rows() =~= r.dictionary().map_values(|s: Seq<char>| ValueModel::Str(s)));
        assert(r.dictionary().to_set() =~= strings_in(r.rows()));
        r
    }

    pub fn take(&mut self) -> (r: Self)
        ensures
            r == *old(self),
            final(self).wf(),
            final(self).rows() == Seq::<ValueModel>::empty(),
            final(self).nullable() == old(self).nullable(),
            final(self).path == old(self).path,
    {
        let mut taken = DictionaryUtf8Builder::new(self.path.clone(), self.indices.validity.is_some());
        std::mem::swap(self, &mut taken);
        taken
    }

    pub fn len(&self) -> (r: usize)
        ensures
            r == self.len_spec(),
    {
        self.indices.values.len()
    }

    pub fn is_nullable(&self) -> (r: bool)
        ensures
            r == self.nullable(),
    {
        self.indices.validity.is_some()
    }

    /// The finished dictionary array; the builder is consumed.
    pub fn into_array(self) -> (r: DictionaryArray)
        requires
            self.wf(),
        ensures
            r.keys == self.indices,
            r.keys.values@.len() == self.len_spec(),
            r.values.validity is None,
            r.values.offsets@.len() == self.dictionary().len() + 1,
            forall|k: int|
                0 <= k < self.dictionary().len() ==> bytes_row(r.values, k) == ValueModel::Str(
                    self.dictionary()[k],
                ),
            forall|i: int|
                0 <= i < self.len_spec() ==> decode_row(Array::Dictionary(r), i) == self.rows()[i],
    {
        let ghost rows = self.rows();
        let ghost dict = self.dictionary();
        let ghost vrows = self.values.rows();
        let values = self.values.into_bytes();
        let r = DictionaryArray { keys: self.indices, values };
        assert(vrows.len() == dict.len());
        assert(vrows.len() == self.values.len_spec());
        assert forall|k: int| 0 <= k < dict.len() implies bytes_row(r.values, k) == ValueModel::Str(
            dict[k],
        ) by {
            assert(0 <= k < self.values.len_spec());
            assert(bytes_row(values, k) == vrows[k]);
            assert(vrows[k] == ValueModel::Str(dict[k]));
        }
        assert forall|i: int| 0 <= i < self.len_spec() implies decode_row(Array::Dictionary(r), i)
            == rows[i] by {
            if valid_at(r.keys.validity, i) {
                let k = r.keys.values@[i] as int;
                assert(k < dict.len());
                assert(vrows.len() == dict.len());
                assert(0 <= k < self.values.len_spec());
                assert(bytes_row(values, k) == self.values.rows()[k]);
                assert(vrows[k] == ValueModel::Str(dict[k]));
            }
        }
        r
    }

    /// The index of `s` among the distinct strings, if present.
    fn find(&self, s: &String) -> (r: Option<usize>)
        ensures
            r matches Some(k) ==> k < self.dictionary().len() && self.dictionary()[k as int] == s@,
            r is None ==> !self.dictionary().contains(s@),
    {
        let mut k: usize = 0;
        while k < self.distinct.len()
            invariant
                k <= self.distinct@.len(),
                forall|j: int| 0 <= j < k ==> self.dictionary()[j] != s@,
            decreases self.distinct@.len() - k,
        {
            if self.distinct[k] == *s {
                return Some(k);
            }
            k = k + 1;
        }
        None
    }

    fn push_index(&mut self, index: u32, valid: bool)
        requires
            old(self).wf_layout(),
            old(self).len_spec() < usize::MAX - 16,
            valid ==> index < old(self).distinct@.len(),
            !valid ==> old(self).nullable(),
        ensures
            final(self).wf_layout(),
            final(self).distinct == old(self).distinct,
            final(self).nullable() == old(self).nullable(),
            final(self).path == old(self).path,
            final(self).rows() == old(self).rows().push(
                if valid {
                    ValueModel::Str(old(self).dictionary()[index as int])
                } else {
                    ValueModel::Null
                },
            ),
    {
        let ghost old_rows = self.rows();
        self.indices.values.push(index);
        match &mut self.indices.validity {
            Some(v) => v.push(valid),
            None => {},
        }
        assert(self.rows() =~= old_rows.push(
            if valid {
                ValueModel::Str(old(self).dictionary()[index as int])
            } else {
                ValueModel::Null
            },
        ));
    }

    /// Append a string, reusing the index of an equal earlier string.
    pub fn push_str(&mut self, s: &String) -> (r: Result<(), Error>)
        requires
            old(self).wf(),
            old(self).len_spec() < usize::MAX - 16,
        ensures
            r matches Err(e) ==> e.field is None,
            r is Ok ==> final(self).rows() == old(self).rows().push(ValueModel::Str(s@)),
            r is Ok ==> final(self).dictionary() == if old(self).dictionary().contains(s@) {
                old(self).dictionary()
            } else {
                old(self).dictionary().push(s@)
            },
            old(self).dictionary().contains(s@) ==> r is Ok,
            old(self).dictionary().len() < u32::MAX && old(self).values.len_spec() < usize::MAX - 16
                && old(self).values.offsets.last() + encode_utf8(s@).len() <= i32::MAX ==> r is Ok,
            r matches Err(e) ==> e.kind == ErrorKind::Representation,
            r is Err ==> *final(self) == *old(self),
            final(self).wf(),
            final(self).nullable() == old(self).nullable(),
            final(self).path == old(self).path,
    {
        match self.find(s) {
            Some(k) => {
                self.push_index(k as u32, true);
                proof {
                    lemma_distinct_push(old(self).rows(), ValueModel::Str(s@));
                    lemma_strings_in_push(old(self).rows(), ValueModel::Str(s@));
                    assert(old(self).dictionary().to_set().contains(s@));
                    assert(strings_in(old(self).rows()).insert(s@) =~= strings_in(old(self).rows()));
                }
                Ok(())
            },
            None => {
                let k = self.distinct.len();
                if k >= u32::MAX as usize {
                    return Err(Error::new(ErrorKind::Representation, "dictionary index overflow"));
                }
                if self.values.len() >= usize::MAX - 16 {
                    return Err(Error::new(ErrorKind::Representation, "dictionary too large"));
                }
                let ghost old_dict = self.dictionary();
                self.values.push_str(s.as_str())?;
                self.distinct.push(s.clone());
                assert(self.dictionary() =~= old_dict.push(s@));
                assert(self.values.rows() =~= self.dictionary().map_values(
                    |t: Seq<char>| ValueModel::Str(t),
                ));
                assert(self.dictionary().no_duplicates());
                assert forall|i: int| 0 <= i < old(self).len_spec() implies self.rows()[i]
                    == old(self).rows()[i] by {
                    if valid_at(old(self).indices.validity, i) {
                        assert(self.dictionary()[old(self).indices.values@[i] as int]
                            == old_dict[old(self).indices.values@[i] as int]);
                    }
                }
                assert(self.rows() =~= old(self).rows());
                self.push_index(k as u32, true);
                assert(self.rows() =~= old(self).rows().push(ValueModel::Str(s@)));
                proof {
                    assert(!strings_in(old(self).rows()).contains(s@)) by {
                        assert(!old_dict.to_set().contains(s@));
                    }
                    lemma_distinct_push(old(self).rows(), ValueModel::Str(s@));
                    assert(!old_dict.contains(s@));
                    lemma_strings_in_push(old(self).rows(), ValueModel::Str(s@));
                    assert(self.dictionary().to_set() =~= old_dict.to_set().insert(s@));
                }
                Ok(())
            },
        }
    }

    /// Append a generic value: a string, or `Null` where the column is
    /// nullable.
    pub fn push(&mut self, v: &Value) -> (r: Result<(), Error>)
        requires
            old(self).wf(),
            old(self).len_spec() < usize::MAX - 16,
        ensures
            r matches Err(e) ==> e.field is None,
            r is Ok ==> v@ is Str || (v@ is Null && old(self).nullable()),
            v@ is Null ==> (r is Ok <==> old(self).nullable()),
            v@ matches ValueModel::Str(t) ==> (old(self).dictionary().contains(t) || (
            old(self).dictionary().len() < u32::MAX && old(self).values.len_spec() < usize::MAX - 16
                && old(self).values.offsets.last() + encode_utf8(t).len() <= i32::MAX) ==> r is Ok),
            r is Ok ==> final(self).rows() == old(self).rows().push(v@),
            r is Err ==> *final(self) == *old(self),
            final(self).wf(),
            final(self).nullable() == old(self).nullable(),
            final(self).path == old(self).path,
    {
        match v {
            Value::Str(s) => self.push_str(s),
            Value::Null => {
                if self.indices.validity.is_none() {
                    return Err(Error::new(ErrorKind::ProtocolMisuse, "cannot push null into a non-nullable column"));
                }
                self.push_index(0, false);
                proof {
                    lemma_distinct_push(old(self).rows(), ValueModel::Null);
                    lemma_strings_in_push(old(self).rows(), ValueModel::Null);
                }
                Ok(())
            },
            _ => Err(Error::new(ErrorKind::ProtocolMisuse, "cannot store this value as a string")),
        }
    }
}

/// Encoding strings through a dictionary builder yields exactly one
/// dictionary value per distinct input string, and one index per row.
pub proof fn lemma_dictionary_uniqueness(b: DictionaryUtf8Builder)
    requires
        b.wf(),
    ensures
        b.dictionary().len() == strings_in(b.rows()).len(),
        b.indices.values@.len() == b.rows().len(),
{
    b.dictionary().unique_seq_to_set();
}

} // verus!
