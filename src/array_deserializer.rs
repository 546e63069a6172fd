use vstd::prelude::*;
use vstd::slice::slice_subrange;
use vstd::string::StringExecFns;
use vstd::utf8::{decode_utf8, valid_utf8};

use crate::array::{
    array_len, bytes_row, decode_row, list_row, primitive_row, struct_row, union_row, valid_at,
    Array, BooleanArray, BytesArray, DenseUnionArray, DictionaryArray, ListArray, NullArray,
    PrimitiveArray, StructArray,
};
use crate::bits::{bitset_is_set, BitBuffer, Bitmap};
use crate::date32_deserializer::Date32Deserializer;
use crate::error::{Error, ErrorKind};
use crate::map_deserializer::{map_children, map_entries_ok, MapDeserializer};
use crate::offsets::{offset_ints, Offset};
use crate::primitive::Primitive;
use crate::value::{Value, ValueModel};

verus! {

/// A borrowed validity view agrees with the bitmap of an array of `len` rows.
pub open spec fn validity_matches(view: Option<BitBuffer>, bitmap: Option<Bitmap>, len: int) -> bool {
    match (view, bitmap) {
        (None, None) => true,
        (Some(v), Some(b)) => {
            &&& b.wf()
            &&& b@.len() == len
            &&& v.data@ == b.buffer@
            &&& v.offset == 0
            &&& v.number_of_bits == b.len
            &&& v.wf()
        },
        _ => false,
    }
}

/// A supported list layout: at least one offset, none negative, never
/// decreasing, and the last within the child.
pub open spec fn offsets_supported(offs: Seq<int>, child_len: int) -> bool {
    &&& offs.len() >= 1
    &&& 0 <= offs[0]
    &&& forall|i: int, j: int| 0 <= i <= j < offs.len() ==> offs[i] <= offs[j]
    &&& offs[offs.len() - 1] <= child_len
    &&& child_len <= usize::MAX
}

/// The borrowed view of a bitmap.
pub fn validity_view(bitmap: &Option<Bitmap>) -> (r: Option<BitBuffer<'_>>)
    requires
        match bitmap {
            Some(b) => b.wf(),
            None => true,
        },
    ensures
        validity_matches(r, *bitmap, match bitmap {
            Some(b) => b@.len() as int,
            None => 0,
        }),
        r matches Some(v) ==> v.wf(),
{
    match bitmap {
        Some(b) => {
            let r = BitBuffer { data: b.buffer.as_slice(), offset: 0, number_of_bits: b.len };
            assert(b.len <= b.buffer@.len() * 8) by (nonlinear_arith)
                requires
                    b.buffer@.len() == (b.len + 7) / 8,
            ;
            Some(r)
        },
        None => None,
    }
}

/// Whether row `i` is present; rows past the bitmap read as absent.
pub fn row_is_valid(validity: &Option<BitBuffer>, i: usize, ghost_bitmap: Ghost<Option<Bitmap>>, len: Ghost<int>) -> (r: bool)
    requires
        validity_matches(*validity, ghost_bitmap@, len@),
        i < len@,
    ensures
        r == valid_at(ghost_bitmap@, i as int),
{
    match validity {
        Some(v) => {
            match bitset_is_set(v, i) {
                Ok(b) => b,
                Err(_) => false,
            }
        },
        None => true,
    }
}

/// Relies on std::str::from_utf8: it succeeds exactly on valid UTF-8 and
/// then views the same bytes as characters.
#[verifier::external_body]
pub(crate) fn str_from_utf8(bytes: &[u8]) -> (r: Option<&str>)
    ensures
        r is Some <==> valid_utf8(bytes@),
        r matches Some(s) ==> s@ == decode_utf8(bytes@),
{
    std::str::from_utf8(bytes).ok()
}

/// Reads a column of nulls.
#[derive(Debug, Clone, Copy)]
pub struct NullDeserializer {
    pub len: usize,
}

impl NullDeserializer {
    pub open spec fn source(&self) -> NullArray {
        NullArray { len: self.len }
    }

    pub fn value_at(&self, i: usize) -> (r: Result<Value, Error>)
        ensures
            r is Ok <==> i < self.len,
            r matches Ok(v) ==> v@ == ValueModel::Null,
            r matches Err(e) ==> e.kind == ErrorKind::Exhausted,
    {
        if i >= self.len {
            return Err(Error::new(ErrorKind::Exhausted, "exhausted null deserializer"));
        }
        Ok(Value::Null)
    }
}

/// Reads a bit-packed boolean column.
pub struct BoolDeserializer<'a> {
    pub values: BitBuffer<'a>,
    pub validity: Option<BitBuffer<'a>>,
    pub source: Ghost<BooleanArray>,
}

impl<'a> BoolDeserializer<'a> {
    pub open spec fn wf(&self) -> bool {
        &&& self.source@.values.wf()
        &&& self.values.wf()
        &&& self.values.data@ == self.source@.values.buffer@
        &&& self.values.offset == 0
        &&& self.values.number_of_bits == self.source@.values.len
        &&& validity_matches(self.validity, self.source@.validity, self.source@.values.len as int)
    }

    pub fn new(values: BitBuffer<'a>, validity: Option<BitBuffer<'a>>, source: Ghost<BooleanArray>) -> (r: Self)
        ensures
            r == (BoolDeserializer { values, validity, source }),
    {
        BoolDeserializer { values, validity, source }
    }

    pub fn len(&self) -> (r: usize)
        requires
            self.wf(),
        ensures
            r == array_len(Array::Boolean(self.source@)),
    {
        self.values.number_of_bits
    }

    pub fn value_at(&self, i: usize) -> (r: Result<Value, Error>)
        requires
            self.wf(),
        ensures
            r is Ok <==> i < array_len(Array::Boolean(self.source@)),
            r matches Ok(v) ==> v@ == decode_row(Array::Boolean(self.source@), i as int),
            r matches Err(e) ==> e.kind == ErrorKind::Exhausted,
    {
        if i >= self.values.number_of_bits {
            return Err(Error::new(ErrorKind::Exhausted, "exhausted bool deserializer"));
        }
        let valid = row_is_valid(&self.validity, i, Ghost(self.source@.validity), Ghost(self.source@.values.len as int));
        if !valid {
            return Ok(Value::Null);
        }
        match bitset_is_set(&self.values, i) {
            Ok(b) => Ok(Value::Bool(b)),
            Err(e) => Err(e),
        }
    }
}

/// Reads a column of fixed-width integers.
pub struct IntegerDeserializer<'a, T> {
    pub buffer: &'a [T],
    pub validity: Option<BitBuffer<'a>>,
    pub source: Ghost<PrimitiveArray<T>>,
}

impl<'a, T: Primitive> IntegerDeserializer<'a, T> {
    pub open spec fn wf(&self) -> bool {
        &&& self.buffer@ == self.source@.values@
        &&& validity_matches(self.validity, self.source@.validity, self.buffer@.len() as int)
    }

    pub fn new(buffer: &'a [T], validity: Option<BitBuffer<'a>>, source: Ghost<PrimitiveArray<T>>) -> (r: Self)
        ensures
            r == (IntegerDeserializer { buffer, validity, source }),
    {
        IntegerDeserializer { buffer, validity, source }
    }

    pub fn len(&self) -> (r: usize)
        requires
            self.wf(),
        ensures
            r == self.source@.values@.len(),
    {
        self.buffer.len()
    }

    /// The stored integer of row `i`, or `None` for a null row.
    pub fn raw_at(&self, i: usize) -> (r: Result<Option<T>, Error>)
        requires
            self.wf(),
        ensures
            r is Ok <==> i < self.source@.values@.len(),
            r matches Ok(o) ==> (o is None <==> !valid_at(self.source@.validity, i as int)),
            r matches Ok(Some(t)) ==> t == self.source@.values@[i as int],
            r matches Err(e) ==> e.kind == ErrorKind::Exhausted,
    {
        if i >= self.buffer.len() {
            return Err(Error::new(ErrorKind::Exhausted, "exhausted integer deserializer"));
        }
        if !row_is_valid(&self.validity, i, Ghost(self.source@.validity), Ghost(self.buffer@.len() as int)) {
            return Ok(None);
        }
        Ok(Some(self.buffer[i]))
    }

    pub fn value_at(&self, i: usize) -> (r: Result<Value, Error>)
        requires
            self.wf(),
        ensures
            r is Ok <==> i < self.source@.values@.len(),
            r matches Ok(v) ==> v@ == primitive_row(self.source@, i as int),
            r matches Err(e) ==> e.kind == ErrorKind::Exhausted,
    {
        match self.raw_at(i) {
            Ok(Some(t)) => Ok(t.to_value()),
            Ok(None) => Ok(Value::Null),
            Err(e) => Err(e),
        }
    }
}

/// Reads a `Date64` column: milliseconds since the epoch.
pub struct Date64Deserializer<'a> {
    pub array: IntegerDeserializer<'a, i64>,
    pub is_utc: bool,
}

/// The ISO 8601 rendering (`YYYY-MM-DDThh:mm:ss` with any fraction) of the
/// instant `millis` milliseconds after 1970-01-01T00:00:00, without zone.
pub uninterp spec fn timestamp_text(millis: int) -> Seq<char>;

/// Relies on chrono's `DateTime::from_timestamp_millis` and the `Debug`
/// rendering of its naive UTC date and time; `None` outside chrono's range
/// of dates (years -262143 to 262142), which holds every instant within
/// 8 * 10^15 milliseconds (about 92 600 000 days) of the epoch.
#[verifier::external_body]
fn naive_timestamp_string(millis: i64) -> (r: Option<String>)
    ensures
        r matches Some(s) ==> s@ == timestamp_text(millis as int),
        -8_000_000_000_000_000 <= millis <= 8_000_000_000_000_000 ==> r is Some,
{
    match chrono::DateTime::from_timestamp_millis(millis) {
        Some(d) => Some(format!("{:?}", d.naive_utc())),
        None => None,
    }
}

impl<'a> Date64Deserializer<'a> {
    /// The rendering of `ts` milliseconds after the epoch: naive, or with a
    /// `Z` suffix for a column that holds UTC timestamps.
    pub fn get_string_repr(&self, ts: i64) -> (r: Result<String, Error>)
        ensures
            r matches Ok(s) ==> s@ == if self.is_utc {
                timestamp_text(ts as int) + "Z"@
            } else {
                timestamp_text(ts as int)
            },
            r matches Err(e) ==> e.kind == ErrorKind::Representation,
            -8_000_000_000_000_000 <= ts <= 8_000_000_000_000_000 ==> r is Ok,
    {
        match naive_timestamp_string(ts) {
            Some(mut s) => {
                if self.is_utc {
                    s.append("Z");
                }
                Ok(s)
            },
            None => Err(Error::new(ErrorKind::Representation, "timestamp out of range")),
        }
    }
}

/// Reads a column of strings from UTF-8 bytes and offsets of type `O`.
pub struct StringDeserializer<'a, O> {
    pub buffer: &'a [u8],
    pub offsets: &'a [O],
    pub validity: Option<BitBuffer<'a>>,
    pub source: Ghost<BytesArray<O>>,
}

impl<'a, O: Offset> StringDeserializer<'a, O> {
    pub open spec fn rows(&self) -> int {
        self.offsets@.len() - 1
    }

    pub open spec fn wf(&self) -> bool {
        &&& self.buffer@ == self.source@.data@
        &&& self.offsets@ == self.source@.offsets@
        &&& offsets_supported(offset_ints(self.offsets@), self.buffer@.len() as int)
        &&& validity_matches(self.validity, self.source@.validity, self.rows())
        &&& forall|i: int|
            0 <= i < self.rows() ==> valid_utf8(
                #[trigger] self.buffer@.subrange(
                    offset_ints(self.offsets@)[i],
                    offset_ints(self.offsets@)[i + 1],
                ),
            )
    }

    pub fn len(&self) -> (r: usize)
        requires
            self.wf(),
        ensures
            r == self.rows(),
    {
        self.offsets.len() - 1
    }

    pub fn value_at(&self, i: usize) -> (r: Result<Value, Error>)
        requires
            self.wf(),
        ensures
            r is Ok <==> i < self.rows(),
            r matches Ok(v) ==> v@ == bytes_row(self.source@, i as int),
            r matches Err(e) ==> e.kind == ErrorKind::Exhausted,
    {
        if i >= self.offsets.len() - 1 {
            return Err(Error::new(ErrorKind::Exhausted, "exhausted string deserializer"));
        }
        if !row_is_valid(&self.validity, i, Ghost(self.source@.validity), Ghost(self.rows())) {
            return Ok(Value::Null);
        }
        let ghost offs = offset_ints(self.offsets@);
        assert(offs[i as int] == self.offsets@[i as int].spec_int());
        assert(offs[i + 1] == self.offsets@[i + 1].spec_int());
        assert(0 <= offs[i as int] <= offs[i + 1] <= self.buffer@.len());
        let start = match self.offsets[i].try_into_usize() {
            Some(s) => s,
            None => {
                assert(false);
                0
            },
        };
        let end = match self.offsets[i + 1].try_into_usize() {
            Some(s) => s,
            None => {
                assert(false);
                0
            },
        };
        let bytes = slice_subrange(self.buffer, start, end);
        match str_from_utf8(bytes) {
            Some(s) => Ok(Value::Str(s.to_owned())),
            None => {
                assert(valid_utf8(self.buffer@.subrange(offs[i as int], offs[i + 1])));
                assert(false);
                Err(Error::new(ErrorKind::Representation, "invalid utf-8"))
            },
        }
    }
}

/// Reads a list column: offsets of type `O` over an item deserializer.
pub struct ListDeserializer<'a, O> {
    pub item: Box<ArrayDeserializer<'a>>,
    pub offsets: &'a [O],
    pub validity: Option<BitBuffer<'a>>,
    pub source: Ghost<ListArray<O>>,
}

impl<'a, O: Offset> ListDeserializer<'a, O> {
    pub open spec fn wf(&self) -> bool {
        &&& deser_wf(*self.item)
        &&& deser_source(*self.item) == *self.source@.element
        &&& self.offsets@ == self.source@.offsets@
        &&& offsets_supported(offset_ints(self.offsets@), array_len(*self.source@.element))
        &&& validity_matches(self.validity, self.source@.validity, self.offsets@.len() - 1)
    }

    pub fn value_at(&self, i: usize) -> (r: Result<Value, Error>)
        requires
            self.wf(),
        ensures
            r is Ok <==> i < self.offsets@.len() - 1,
            r matches Ok(v) ==> v@ == list_row(self.source@, i as int),
            r matches Err(e) ==> e.kind == ErrorKind::Exhausted,
        decreases self, 0int,
    {
        if i >= self.offsets.len() - 1 {
            return Err(Error::new(ErrorKind::Exhausted, "exhausted list deserializer"));
        }
        if !row_is_valid(&self.validity, i, Ghost(self.source@.validity), Ghost(self.offsets@.len() - 1)) {
            return Ok(Value::Null);
        }
        let ghost offs = offset_ints(self.offsets@);
        assert(offs[i as int] == self.offsets@[i as int].spec_int());
        assert(offs[i + 1] == self.offsets@[i + 1].spec_int());
        assert(0 <= offs[i as int] <= offs[i + 1]);
        let start = match self.offsets[i].try_into_usize() {
            Some(s) => s,
            None => {
                assert(false);
                0
            },
        };
        let end = match self.offsets[i + 1].try_into_usize() {
            Some(s) => s,
            None => {
                assert(false);
                0
            },
        };
        let ghost child = *self.source@.element;
        let mut items: Vec<Value> = Vec::new();
        let mut k: usize = start;
        while k < end
            invariant
                self.wf(),
                start <= k <= end,
                end <= array_len(child),
                child == *self.source@.element,
                items@.len() == k - start,
                forall|j: int| 0 <= j < items@.len() ==> (#[trigger] items@[j])@ == decode_row(child, start + j),
            decreases end - k,
        {
            let v = match self.item.value_at(k) {
                Ok(v) => v,
                Err(e) => {
                    assert(false);
                    return Err(e);
                },
            };
            items.push(v);
            k = k + 1;
        }
        let r = Value::List(items);
        assert(r@->List_0 =~= list_row(self.source@, i as int)->List_0);
        Ok(r)
    }
}

/// Reads a struct column: named child deserializers of equal length.
pub struct StructDeserializer<'a> {
    pub fields: Vec<(String, ArrayDeserializer<'a>)>,
    pub validity: Option<BitBuffer<'a>>,
    pub len: usize,
    pub source: Ghost<StructArray>,
}

impl<'a> StructDeserializer<'a> {
    pub open spec fn wf(&self) -> bool {
        &&& self.len == self.source@.len
        &&& validity_matches(self.validity, self.source@.validity, self.len as int)
        &&& self.fields@.len() == self.source@.fields@.len()
        &&& forall|k: int|
            0 <= k < self.fields@.len() ==> {
                &&& (#[trigger] self.fields@[k]).0@ == self.source@.fields@[k].0@
                &&& deser_wf(self.fields@[k].1)
                &&& deser_source(self.fields@[k].1) == self.source@.fields@[k].1
                &&& array_len(self.source@.fields@[k].1) == self.len
            }
    }

    pub fn value_at(&self, i: usize) -> (r: Result<Value, Error>)
        requires
            self.wf(),
        ensures
            r is Ok <==> i < self.len,
            r matches Ok(v) ==> v@ == struct_row(self.source@, i as int),
            r matches Err(e) ==> e.kind == ErrorKind::Exhausted,
        decreases self, 0int,
    {
        if i >= self.len {
            return Err(Error::new(ErrorKind::Exhausted, "exhausted struct deserializer"));
        }
        if !row_is_valid(&self.validity, i, Ghost(self.source@.validity), Ghost(self.len as int)) {
            return Ok(Value::Null);
        }
        let ghost src = self.source@;
        let mut out: Vec<(String, Value)> = Vec::new();
        let mut k: usize = 0;
        while k < self.fields.len()
            invariant
                self.wf(),
                src == self.source@,
                i < self.len,
                k <= self.fields@.len(),
                out@.len() == k,
                forall|j: int|
                    0 <= j < k ==> (#[trigger] out@[j]).0@ == src.fields@[j].0@ && out@[j].1@
                        == decode_row(src.fields@[j].1, i as int),
            decreases self.fields@.len() - k,
        {
            proof {
                assert(decreases_to!(*self => self.fields));
                assert(decreases_to!(self.fields => self.fields@));
                assert(decreases_to!(self.fields@ => self.fields@[k as int]));
                assert(decreases_to!(self.fields@[k as int] => self.fields@[k as int].1));
            }
            let v = match self.fields[k].1.value_at(i) {
                Ok(v) => v,
                Err(e) => {
                    assert(false);
                    return Err(e);
                },
            };
            out.push((self.fields[k].0.clone(), v));
            k = k + 1;
        }
        let r = Value::Struct(out);
        assert(r@->Struct_0 =~= struct_row(src, i as int)->Struct_0);
        Ok(r)
    }
}

/// Reads a dense union column: type ids select the child that answers.
pub struct EnumDeserializer<'a> {
    pub type_ids: &'a [i8],
    pub offsets: &'a [i32],
    pub variants: Vec<(String, ArrayDeserializer<'a>)>,
    pub source: Ghost<DenseUnionArray>,
}

impl<'a> EnumDeserializer<'a> {
    pub open spec fn wf(&self) -> bool {
        &&& self.type_ids@ == self.source@.types@
        &&& self.offsets@ == self.source@.offsets@
        &&& self.type_ids@.len() == self.offsets@.len()
        &&& self.variants@.len() == self.source@.fields@.len()
        &&& forall|k: int|
            0 <= k < self.variants@.len() ==> deser_wf(#[trigger] self.variants@[k].1) && deser_source(
                self.variants@[k].1,
            ) == self.source@.fields@[k]
        &&& forall|i: int|
            0 <= i < self.type_ids@.len() ==> 0 <= #[trigger] self.type_ids@[i] < self.variants@.len()
                && 0 <= self.offsets@[i] < array_len(self.source@.fields@[self.type_ids@[i] as int])
    }

    pub fn value_at(&self, i: usize) -> (r: Result<Value, Error>)
        requires
            self.wf(),
        ensures
            r is Ok <==> i < self.type_ids@.len(),
            r matches Ok(v) ==> v@ == union_row(self.source@, i as int),
            r matches Err(e) ==> e.kind == ErrorKind::Exhausted,
        decreases self, 0int,
    {
        if i >= self.type_ids.len() {
            return Err(Error::new(ErrorKind::Exhausted, "exhausted enum deserializer"));
        }
        let t = self.type_ids[i];
        let o = self.offsets[i];
        let k = t as usize;
        proof {
            assert(0 <= t < self.variants@.len());
            assert(decreases_to!(*self => self.variants));
            assert(decreases_to!(self.variants => self.variants@));
            assert(decreases_to!(self.variants@ => self.variants@[k as int]));
            assert(decreases_to!(self.variants@[k as int] => self.variants@[k as int].1));
        }
        let payload = match self.variants[k].1.value_at(o as usize) {
            Ok(v) => v,
            Err(e) => {
                assert(false);
                return Err(e);
            },
        };
        Ok(Value::Variant(k as u32, Box::new(payload)))
    }

    /// The declared name of the variant of row `i`.
    pub fn variant_name(&self, i: usize) -> (r: Result<&String, Error>)
        requires
            self.wf(),
        ensures
            r is Ok <==> i < self.type_ids@.len(),
            r matches Ok(n) ==> *n == self.variants@[self.type_ids@[i as int] as int].0,
    {
        if i >= self.type_ids.len() {
            return Err(Error::new(ErrorKind::Exhausted, "exhausted enum deserializer"));
        }
        let k = self.type_ids[i] as usize;
        Ok(&self.variants[k].0)
    }
}

/// Reads a dictionary-encoded string column: the keys carry the nulls and
/// index a table of strings without nulls.
pub struct DictionaryDeserializer<'a> {
    pub keys: IntegerDeserializer<'a, u32>,
    pub values: StringDeserializer<'a, i32>,
    pub source: Ghost<DictionaryArray>,
}

impl<'a> DictionaryDeserializer<'a> {
    pub open spec fn wf(&self) -> bool {
        &&& self.keys.wf()
        &&& self.keys.source@ == self.source@.keys
        &&& self.values.wf()
        &&& self.values.source@ == self.source@.values
        &&& self.source@.values.validity is None
        &&& forall|i: int|
            0 <= i < self.source@.keys.values@.len() && valid_at(self.source@.keys.validity, i) ==> (
            #[trigger] self.source@.keys.values@[i]) < self.values.rows()
    }

    pub fn value_at(&self, i: usize) -> (r: Result<Value, Error>)
        requires
            self.wf(),
        ensures
            r is Ok <==> i < self.source@.keys.values@.len(),
            r matches Ok(v) ==> v@ == decode_row(Array::Dictionary(self.source@), i as int),
            r matches Err(e) ==> e.kind == ErrorKind::Exhausted,
    {
        match self.keys.raw_at(i)? {
            None => Ok(Value::Null),
            Some(k) => match self.values.value_at(k as usize) {
                Ok(v) => Ok(v),
                Err(e) => {
                    assert(false);
                    Err(e)
                },
            },
        }
    }
}

/// One deserializer per column kind; every request is forwarded to the
/// deserializer of the active kind.
pub enum ArrayDeserializer<'a> {
    Null(NullDeserializer),
    Bool(BoolDeserializer<'a>),
    I8(IntegerDeserializer<'a, i8>),
    I16(IntegerDeserializer<'a, i16>),
    I32(IntegerDeserializer<'a, i32>),
    I64(IntegerDeserializer<'a, i64>),
    U8(IntegerDeserializer<'a, u8>),
    U16(IntegerDeserializer<'a, u16>),
    U32(IntegerDeserializer<'a, u32>),
    U64(IntegerDeserializer<'a, u64>),
    Date32(Date32Deserializer<'a>),
    Date64(Date64Deserializer<'a>),
    Utf8(StringDeserializer<'a, i32>),
    LargeUtf8(StringDeserializer<'a, i64>),
    List(ListDeserializer<'a, i32>),
    LargeList(ListDeserializer<'a, i64>),
    Struct(StructDeserializer<'a>),
    Mapping(MapDeserializer<'a>),
    Dictionary(DictionaryDeserializer<'a>),
    Enum(EnumDeserializer<'a>),
}

/// The array a deserializer reads.
pub open spec fn deser_source(d: ArrayDeserializer) -> Array {
    match d {
        ArrayDeserializer::Null(x) => Array::Null(x.source()),
        ArrayDeserializer::Bool(x) => Array::Boolean(x.source@),
        ArrayDeserializer::I8(x) => Array::Int8(x.source@),
        ArrayDeserializer::I16(x) => Array::Int16(x.source@),
        ArrayDeserializer::I32(x) => Array::Int32(x.source@),
        ArrayDeserializer::I64(x) => Array::Int64(x.source@),
        ArrayDeserializer::U8(x) => Array::UInt8(x.source@),
        ArrayDeserializer::U16(x) => Array::UInt16(x.source@),
        ArrayDeserializer::U32(x) => Array::UInt32(x.source@),
        ArrayDeserializer::U64(x) => Array::UInt64(x.source@),
        ArrayDeserializer::Date32(x) => Array::Date32(x.array.source@),
        ArrayDeserializer::Date64(x) => Array::Date64(x.array.source@),
        ArrayDeserializer::Utf8(x) => Array::Utf8(x.source@),
        ArrayDeserializer::LargeUtf8(x) => Array::LargeUtf8(x.source@),
        ArrayDeserializer::List(x) => Array::List(x.source@),
        ArrayDeserializer::LargeList(x) => Array::LargeList(x.source@),
        ArrayDeserializer::Struct(x) => Array::Struct(x.source@),
        ArrayDeserializer::Mapping(x) => Array::Mapping(x.source@),
        ArrayDeserializer::Dictionary(x) => Array::Dictionary(x.source@),
        ArrayDeserializer::Enum(x) => Array::DenseUnion(x.source@),
    }
}

/// The borrowed views of a deserializer, and of every nested one, agree
/// with the array it reads, which has a supported layout.
#[verifier::opaque]
pub open spec fn deser_wf(d: ArrayDeserializer) -> bool
    decreases d,
{
    match d {
        ArrayDeserializer::Null(x) => true,
        ArrayDeserializer::Bool(x) => x.wf(),
        ArrayDeserializer::I8(x) => x.wf(),
        ArrayDeserializer::I16(x) => x.wf(),
        ArrayDeserializer::I32(x) => x.wf(),
        ArrayDeserializer::I64(x) => x.wf(),
        ArrayDeserializer::U8(x) => x.wf(),
        ArrayDeserializer::U16(x) => x.wf(),
        ArrayDeserializer::U32(x) => x.wf(),
        ArrayDeserializer::U64(x) => x.wf(),
        ArrayDeserializer::Date32(x) => x.array.wf(),
        ArrayDeserializer::Date64(x) => x.array.wf(),
        ArrayDeserializer::Utf8(x) => x.wf(),
        ArrayDeserializer::LargeUtf8(x) => x.wf(),
        ArrayDeserializer::List(x) => {
            &&& deser_wf(*x.item)
            &&& deser_source(*x.item) == *x.source@.element
            &&& x.offsets@ == x.source@.offsets@
            &&& offsets_supported(offset_ints(x.offsets@), array_len(*x.source@.element))
            &&& validity_matches(x.validity, x.source@.validity, x.offsets@.len() - 1)
        },
        ArrayDeserializer::LargeList(x) => {
            &&& deser_wf(*x.item)
            &&& deser_source(*x.item) == *x.source@.element
            &&& x.offsets@ == x.source@.offsets@
            &&& offsets_supported(offset_ints(x.offsets@), array_len(*x.source@.element))
            &&& validity_matches(x.validity, x.source@.validity, x.offsets@.len() - 1)
        },
        ArrayDeserializer::Struct(x) => {
            &&& x.len == x.source@.len
            &&& validity_matches(x.validity, x.source@.validity, x.len as int)
            &&& x.fields@.len() == x.source@.fields@.len()
            &&& forall|k: int|
                0 <= k < x.fields@.len() ==> {
                    &&& (#[trigger] x.fields@[k]).0@ == x.source@.fields@[k].0@
                    &&& deser_wf(x.fields@[k].1)
                    &&& deser_source(x.fields@[k].1) == x.source@.fields@[k].1
                    &&& array_len(x.source@.fields@[k].1) == x.len
                }
        },
        ArrayDeserializer::Mapping(x) => {
            &&& map_entries_ok(x.source@)
            &&& deser_wf(*x.key)
            &&& deser_wf(*x.value)
            &&& deser_source(*x.key) == map_children(x.source@).0
            &&& deser_source(*x.value) == map_children(x.source@).1
            &&& x.offsets@ == x.source@.offsets@
            &&& offsets_supported(offset_ints(x.offsets@), array_len(map_children(x.source@).0))
            &&& validity_matches(x.validity, x.source@.validity, x.rows())
            &&& x.next.0 <= x.rows()
            &&& x.offsets@.len() <= usize::MAX
        },
        ArrayDeserializer::Dictionary(x) => x.wf(),
        ArrayDeserializer::Enum(x) => {
            &&& x.type_ids@ == x.source@.types@
            &&& x.offsets@ == x.source@.offsets@
            &&& x.type_ids@.len() == x.offsets@.len()
            &&& x.variants@.len() == x.source@.fields@.len()
            &&& forall|k: int|
                0 <= k < x.variants@.len() ==> deser_wf(#[trigger] x.variants@[k].1) && deser_source(
                    x.variants@[k].1,
                ) == x.source@.fields@[k]
            &&& forall|i: int|
                0 <= i < x.type_ids@.len() ==> 0 <= #[trigger] x.type_ids@[i] < x.variants@.len()
                    && 0 <= x.offsets@[i] < array_len(x.source@.fields@[x.type_ids@[i] as int])
        },
    }
}

proof fn lemma_unfold_null<'b>(x: NullDeserializer)
    ensures
        deser_wf(ArrayDeserializer::Null(x)) == true,
{
    reveal(deser_wf);
}

proof fn lemma_unfold_bool<'b>(x: BoolDeserializer<'b>)
    ensures
        deser_wf(ArrayDeserializer::Bool(x)) == x.wf(),
{
    reveal(deser_wf);
}

proof fn lemma_unfold_i8<'b>(x: IntegerDeserializer<'b, i8>)
    ensures
        deser_wf(ArrayDeserializer::I8(x)) == x.wf(),
{
    reveal(deser_wf);
}

proof fn lemma_unfold_i16<'b>(x: IntegerDeserializer<'b, i16>)
    ensures
        deser_wf(ArrayDeserializer::I16(x)) == x.wf(),
{
    reveal(deser_wf);
}

proof fn lemma_unfold_i32<'b>(x: IntegerDeserializer<'b, i32>)
    ensures
        deser_wf(ArrayDeserializer::I32(x)) == x.wf(),
{
    reveal(deser_wf);
}

proof fn lemma_unfold_i64<'b>(x: IntegerDeserializer<'b, i64>)
    ensures
        deser_wf(ArrayDeserializer::I64(x)) == x.wf(),
{
    reveal(deser_wf);
}

proof fn lemma_unfold_u8<'b>(x: IntegerDeserializer<'b, u8>)
    ensures
        deser_wf(ArrayDeserializer::U8(x)) == x.wf(),
{
    reveal(deser_wf);
}

proof fn lemma_unfold_u16<'b>(x: IntegerDeserializer<'b, u16>)
    ensures
        deser_wf(ArrayDeserializer::U16(x)) == x.wf(),
{
    reveal(deser_wf);
}

proof fn lemma_unfold_u32<'b>(x: IntegerDeserializer<'b, u32>)
    ensures
        deser_wf(ArrayDeserializer::U32(x)) == x.wf(),
{
    reveal(deser_wf);
}

proof fn lemma_unfold_u64<'b>(x: IntegerDeserializer<'b, u64>)
    ensures
        deser_wf(ArrayDeserializer::U64(x)) == x.wf(),
{
    reveal(deser_wf);
}

proof fn lemma_unfold_date32<'b>(x: Date32Deserializer<'b>)
    ensures
        deser_wf(ArrayDeserializer::Date32(x)) == x.array.wf(),
{
    reveal(deser_wf);
}

proof fn lemma_unfold_date64<'b>(x: Date64Deserializer<'b>)
    ensures
        deser_wf(ArrayDeserializer::Date64(x)) == x.array.wf(),
{
    reveal(deser_wf);
}

proof fn lemma_unfold_utf8<'b>(x: StringDeserializer<'b, i32>)
    ensures
        deser_wf(ArrayDeserializer::Utf8(x)) == x.wf(),
{
    reveal(deser_wf);
}

proof fn lemma_unfold_largeutf8<'b>(x: StringDeserializer<'b, i64>)
    ensures
        deser_wf(ArrayDeserializer::LargeUtf8(x)) == x.wf(),
{
    reveal(deser_wf);
}

proof fn lemma_unfold_list<'b>(x: ListDeserializer<'b, i32>)
    ensures
        deser_wf(ArrayDeserializer::List(x)) == {
        &&& deser_wf(*x.item)
        &&& deser_source(*x.item) == *x.source@.element
        &&& x.offsets@ == x.source@.offsets@
        &&& offsets_supported(offset_ints(x.offsets@), array_len(*x.source@.element))
        &&& validity_matches(x.validity, x.source@.validity, x.offsets@.len() - 1)
    },
{
    reveal(deser_wf);
}

proof fn lemma_unfold_largelist<'b>(x: ListDeserializer<'b, i64>)
    ensures
        deser_wf(ArrayDeserializer::LargeList(x)) == {
        &&& deser_wf(*x.item)
        &&& deser_source(*x.item) == *x.source@.element
        &&& x.offsets@ == x.source@.offsets@
        &&& offsets_supported(offset_ints(x.offsets@), array_len(*x.source@.element))
        &&& validity_matches(x.validity, x.source@.validity, x.offsets@.len() - 1)
    },
{
    reveal(deser_wf);
}

proof fn lemma_unfold_struct<'b>(x: StructDeserializer<'b>)
    ensures
        deser_wf(ArrayDeserializer::Struct(x)) == {
        &&& x.len == x.source@.len
        &&& validity_matches(x.validity, x.source@.validity, x.len as int)
        &&& x.fields@.len() == x.source@.fields@.len()
        &&& forall|k: int|
            0 <= k < x.fields@.len() ==> {
                &&& (#[trigger] x.fields@[k]).0@ == x.source@.fields@[k].0@
                &&& deser_wf(x.fields@[k].1)
                &&& deser_source(x.fields@[k].1) == x.source@.fields@[k].1
                &&& array_len(x.source@.fields@[k].1) == x.len
            }
    },
{
    reveal(deser_wf);
}

proof fn lemma_unfold_mapping<'b>(x: MapDeserializer<'b>)
    ensures
        deser_wf(ArrayDeserializer::Mapping(x)) == {
        &&& map_entries_ok(x.source@)
        &&& deser_wf(*x.key)
        &&& deser_wf(*x.value)
        &&& deser_source(*x.key) == map_children(x.source@).0
        &&& deser_source(*x.value) == map_children(x.source@).1
        &&& x.offsets@ == x.source@.offsets@
        &&& offsets_supported(offset_ints(x.offsets@), array_len(map_children(x.source@).0))
        &&& validity_matches(x.validity, x.source@.validity, x.rows())
        &&& x.next.0 <= x.rows()
        &&& x.offsets@.len() <= usize::MAX
    },
{
    reveal(deser_wf);
}

proof fn lemma_unfold_dictionary<'b>(x: DictionaryDeserializer<'b>)
    ensures
        deser_wf(ArrayDeserializer::Dictionary(x)) == x.wf(),
{
    reveal(deser_wf);
}

proof fn lemma_unfold_enum<'b>(x: EnumDeserializer<'b>)
    ensures
        deser_wf(ArrayDeserializer::Enum(x)) == {
        &&& x.type_ids@ == x.source@.types@
        &&& x.offsets@ == x.source@.offsets@
        &&& x.type_ids@.len() == x.offsets@.len()
        &&& x.variants@.len() == x.source@.fields@.len()
        &&& forall|k: int|
            0 <= k < x.variants@.len() ==> deser_wf(#[trigger] x.variants@[k].1) && deser_source(
                x.variants@[k].1,
            ) == x.source@.fields@[k]
        &&& forall|i: int|
            0 <= i < x.type_ids@.len() ==> 0 <= #[trigger] x.type_ids@[i] < x.variants@.len()
                && 0 <= x.offsets@[i] < array_len(x.source@.fields@[x.type_ids@[i] as int])
    },
{
    reveal(deser_wf);
}

impl<'a> ArrayDeserializer<'a> {
    pub open spec fn source(&self) -> Array {
        deser_source(*self)
    }

    pub open spec fn wf(&self) -> bool {
        deser_wf(*self)
    }

    /// The number of rows.
    pub fn len(&self) -> (r: usize)
        requires
            self.wf(),
        ensures
            r == array_len(self.source()),
    {
        match self {
            ArrayDeserializer::Null(x) => {
                proof {
                    lemma_unfold_null(*x);
                }
                x.len
            },
            ArrayDeserializer::Bool(x) => {
                proof {
                    lemma_unfold_bool(*x);
                }
                x.len()
            },
            ArrayDeserializer::I8(x) => {
                proof {
                    lemma_unfold_i8(*x);
                }
                x.len()
            },
            ArrayDeserializer::I16(x) => {
                proof {
                    lemma_unfold_i16(*x);
                }
                x.len()
            },
            ArrayDeserializer::I32(x) => {
                proof {
                    lemma_unfold_i32(*x);
                }
                x.len()
            },
            ArrayDeserializer::I64(x) => {
                proof {
                    lemma_unfold_i64(*x);
                }
                x.len()
            },
            ArrayDeserializer::U8(x) => {
                proof {
                    lemma_unfold_u8(*x);
                }
                x.len()
            },
            ArrayDeserializer::U16(x) => {
                proof {
                    lemma_unfold_u16(*x);
                }
                x.len()
            },
            ArrayDeserializer::U32(x) => {
                proof {
                    lemma_unfold_u32(*x);
                }
                x.len()
            },
            ArrayDeserializer::U64(x) => {
                proof {
                    lemma_unfold_u64(*x);
                }
                x.len()
            },
            ArrayDeserializer::Date32(x) => {
                proof {
                    lemma_unfold_date32(*x);
                }
                x.array.len()
            },
            ArrayDeserializer::Date64(x) => {
                proof {
                    lemma_unfold_date64(*x);
                }
                x.array.len()
            },
            ArrayDeserializer::Utf8(x) => {
                proof {
                    lemma_unfold_utf8(*x);
                }
                x.len()
            },
            ArrayDeserializer::LargeUtf8(x) => {
                proof {
                    lemma_unfold_largeutf8(*x);
                }
                x.len()
            },
            ArrayDeserializer::List(x) => {
                proof {
                    lemma_unfold_list(*x);
                }
                x.offsets.len() - 1
            },
            ArrayDeserializer::LargeList(x) => {
                proof {
                    lemma_unfold_largelist(*x);
                }
                x.offsets.len() - 1
            },
            ArrayDeserializer::Struct(x) => {
                proof {
                    lemma_unfold_struct(*x);
                }
                x.len
            },
            ArrayDeserializer::Mapping(x) => {
                proof {
                    lemma_unfold_mapping(*x);
                }
                x.offsets.len() - 1
            },
            ArrayDeserializer::Dictionary(x) => {
                proof {
                    lemma_unfold_dictionary(*x);
                }
                x.keys.len()
            },
            ArrayDeserializer::Enum(x) => {
                proof {
                    lemma_unfold_enum(*x);
                }
                x.type_ids.len()
            },
        }
    }

    /// The generic value of row `i`; fails exactly past the last row.
    pub fn value_at(&self, i: usize) -> (r: Result<Value, Error>)
        requires
            self.wf(),
        ensures
            r is Ok <==> i < array_len(self.source()),
            r matches Ok(v) ==> v@ == decode_row(self.source(), i as int),
            r matches Err(e) ==> e.kind == ErrorKind::Exhausted,
        decreases self, 1int,
    {
        match self {
            ArrayDeserializer::Null(x) => {
                proof {
                    lemma_unfold_null(*x);
                }
                x.value_at(i)
            },
            ArrayDeserializer::Bool(x) => {
                proof {
                    lemma_unfold_bool(*x);
                }
                x.value_at(i)
            },
            ArrayDeserializer::I8(x) => {
                proof {
                    lemma_unfold_i8(*x);
                }
                x.value_at(i)
            },
            ArrayDeserializer::I16(x) => {
                proof {
                    lemma_unfold_i16(*x);
                }
                x.value_at(i)
            },
            ArrayDeserializer::I32(x) => {
                proof {
                    lemma_unfold_i32(*x);
                }
                x.value_at(i)
            },
            ArrayDeserializer::I64(x) => {
                proof {
                    lemma_unfold_i64(*x);
                }
                x.value_at(i)
            },
            ArrayDeserializer::U8(x) => {
                proof {
                    lemma_unfold_u8(*x);
                }
                x.value_at(i)
            },
            ArrayDeserializer::U16(x) => {
                proof {
                    lemma_unfold_u16(*x);
                }
                x.value_at(i)
            },
            ArrayDeserializer::U32(x) => {
                proof {
                    lemma_unfold_u32(*x);
                }
                x.value_at(i)
            },
            ArrayDeserializer::U64(x) => {
                proof {
                    lemma_unfold_u64(*x);
                }
                x.value_at(i)
            },
            ArrayDeserializer::Date32(x) => {
                proof {
                    lemma_unfold_date32(*x);
                }
                x.array.value_at(i)
            },
            ArrayDeserializer::Date64(x) => {
                proof {
                    lemma_unfold_date64(*x);
                }
                x.array.value_at(i)
            },
            ArrayDeserializer::Utf8(x) => {
                proof {
                    lemma_unfold_utf8(*x);
                }
                x.value_at(i)
            },
            ArrayDeserializer::LargeUtf8(x) => {
                proof {
                    lemma_unfold_largeutf8(*x);
                }
                x.value_at(i)
            },
            ArrayDeserializer::List(x) => {
                proof {
                    lemma_unfold_list(*x);
                }
                x.value_at(i)
            },
            ArrayDeserializer::LargeList(x) => {
                proof {
                    lemma_unfold_largelist(*x);
                }
                x.value_at(i)
            },
            ArrayDeserializer::Struct(x) => {
                proof {
                    lemma_unfold_struct(*x);
                }
                x.value_at(i)
            },
            ArrayDeserializer::Mapping(x) => {
                proof {
                    lemma_unfold_mapping(*x);
                }
                x.value_at(i)
            },
            ArrayDeserializer::Dictionary(x) => {
                proof {
                    lemma_unfold_dictionary(*x);
                }
                x.value_at(i)
            },
            ArrayDeserializer::Enum(x) => {
                proof {
                    lemma_unfold_enum(*x);
                }
                x.value_at(i)
            },
        }
    }
}

} // verus!
