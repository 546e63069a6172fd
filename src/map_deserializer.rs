use vstd::prelude::*;

use crate::array::{array_len, decode_row, map_row, valid_at, Array, ListArray};
use crate::array_deserializer::{
    deser_source, deser_wf, offsets_supported, row_is_valid, validity_matches, validity_view,
    ArrayDeserializer};

use crate::bits::BitBuffer;
use crate::error::{Error, ErrorKind};
use crate::offsets::{check_null_rows, null_rows_empty, offset_ints, Offset};
use crate::value::Value;

verus! {

/// Reads a map column: per row, the keys and values in its offset range.
/// The cursor is (row, entry within the row).
pub struct MapDeserializer<'a> {
    pub path: String,
    pub key: Box<ArrayDeserializer<'a>>,
    pub value: Box<ArrayDeserializer<'a>>,
    pub offsets: &'a [i32],
    pub validity: Option<BitBuffer<'a>>,
    pub next: (usize, usize),
    pub source: Ghost<ListArray<i32>>,
}

/// The child arrays of a map array's entries: keys and values.
pub open spec fn map_children(a: ListArray<i32>) -> (Array, Array) {
    let entries = (*a.element)->Struct_0;
    (entries.fields@[0].1, entries.fields@[1].1)
}

/// A map array whose entries are a struct of two children of equal length.
pub open spec fn map_entries_ok(a: ListArray<i32>) -> bool {
    &&& *a.element is Struct
    &&& (*a.element)->Struct_0.fields@.len() == 2
    &&& array_len(map_children(a).0) == array_len(map_children(a).1)
}

impl<'a> MapDeserializer<'a> {
    pub open spec fn rows(&self) -> int {
        self.offsets@.len() - 1
    }

    pub open spec fn start(&self, i: int) -> int {
        offset_ints(self.offsets@)[i]
    }

    pub open spec fn end(&self, i: int) -> int {
        offset_ints(self.offsets@)[i + 1]
    }

    pub open spec fn wf(&self) -> bool {
        &&& map_entries_ok(self.source@)
        &&& deser_wf(*self.key)
        &&& deser_wf(*self.value)
        &&& deser_source(*self.key) == map_children(self.source@).0
        &&& deser_source(*self.value) == map_children(self.source@).1
        &&& self.offsets@ == self.source@.offsets@
        &&& offsets_supported(offset_ints(self.offsets@), array_len(map_children(self.source@).0))
        &&& validity_matches(self.validity, self.source@.validity, self.rows())
        &&& self.next.0 <= self.rows()
        &&& self.offsets@.len() <= usize::MAX
    }

    /// A deserializer over `array`, whose entries are read by `key` and
    /// `value`; fails where the offsets or bitmap are not a supported layout.
    pub fn new(
        path: String,
        key: ArrayDeserializer<'a>,
        value: ArrayDeserializer<'a>,
        array: &'a ListArray<i32>,
    ) -> (r: Result<Self, Error>)
        requires
            map_entries_ok(*array),
            deser_wf(key),
            deser_wf(value),
            deser_source(key) == map_children(*array).0,
            deser_source(value) == map_children(*array).1,
        ensures
            r is Ok <==> offsets_supported(
                offset_ints(array.offsets@),
                array_len(map_children(*array).0),
            ) && match array.validity {
                Some(b) => b.wf() && b@.len() == array.offsets@.len() - 1 && b.len <= usize::MAX - 8,
                None => true,
            } && null_rows_empty(offset_ints(array.offsets@), array.validity),
            r matches Ok(d) ==> d.wf() && d.source@ == *array && d.next == (0usize, 0usize)
                && d.path == path,
            r matches Err(e) ==> e.kind == ErrorKind::SchemaMismatch,
    {
        let child_len = key.len();
        check_supported_list_layout(&array.offsets, child_len)?;
        match &array.validity {
            Some(b) => {
                if !b.check_wf() || b.len() != array.offsets.len() - 1 {
                    assert(!(b.wf() && b@.len() == array.offsets@.len() - 1) || b.len > usize::MAX - 8);
                    return Err(Error::new(ErrorKind::SchemaMismatch, "validity does not match the offsets"));
                }
            },
            None => {},
        }
        proof {
            crate::deserialization::lemma_offsets_in_range(offset_ints(array.offsets@), child_len as int);
        }
        check_null_rows(&array.offsets, &array.validity)?;
        let validity = validity_view(&array.validity);
        let offsets = array.offsets.as_slice();
        Ok(MapDeserializer {
            path,
            key: Box::new(key),
            value: Box::new(value),
            offsets,
            validity,
            next: (0, 0),
            source: Ghost(*array),
        })
    }

    /// Whether the current row is present; fails when every row was read.
    pub fn peek_next(&self) -> (r: Result<bool, Error>)
        requires
            self.wf(),
        ensures
            r is Ok <==> self.next.0 < self.rows(),
            r matches Ok(b) ==> b == valid_at(self.source@.validity, self.next.0 as int),
            r matches Err(e) ==> e.kind == ErrorKind::Exhausted,
    {
        if self.next.0 >= self.offsets.len() - 1 {
            return Err(Error::new(ErrorKind::Exhausted, "exhausted map deserializer"));
        }
        Ok(row_is_valid(&self.validity, self.next.0, Ghost(self.source@.validity), Ghost(self.rows())))
    }

    /// Move to the start of the next row.
    pub fn consume_next(&mut self)
        requires
            old(self).wf(),
            old(self).next.0 < old(self).rows(),
        ensures
            final(self).wf(),
            final(self).next == ((old(self).next.0 + 1) as usize, 0usize),
            final(self).source == old(self).source,
            final(self).path == old(self).path,
            final(self).offsets == old(self).offsets,
            final(self).validity == old(self).validity,
            final(self).key == old(self).key,
            final(self).value == old(self).value,
    {
        self.next = (self.next.0 + 1, 0);
    }

    /// The key of the next entry of the current row; `None`, moving to the
    /// next row, when the row has no more entries.
    pub fn next_key(&mut self) -> (r: Result<Option<Value>, Error>)
        requires
            old(self).wf(),
        ensures
            final(self).wf(),
            final(self).source == old(self).source,
            r is Ok <==> old(self).next.0 < old(self).rows(),
            r matches Ok(None) ==> old(self).next.1 >= old(self).end(old(self).next.0 as int)
                - old(self).start(old(self).next.0 as int) && final(self).next == (
            (old(self).next.0 + 1) as usize, 0usize),
            r matches Ok(Some(k)) ==> old(self).next.1 < old(self).end(old(self).next.0 as int)
                - old(self).start(old(self).next.0 as int) && final(self).next == old(self).next
                && k@ == decode_row(
                map_children(old(self).source@).0,
                old(self).start(old(self).next.0 as int) + old(self).next.1,
            ),
            r matches Err(e) ==> e.kind == ErrorKind::Exhausted,
            r is Err ==> final(self).next == old(self).next,
    {
        let (item, entry) = self.next;
        if item >= self.offsets.len() - 1 {
            return Err(Error::new(ErrorKind::Exhausted, "exhausted map deserializer"));
        }
        let (start, end) = self.entry_range(item);
        if entry >= end - start {
            self.next = (item + 1, 0);
            return Ok(None);
        }
        match self.key.value_at(start + entry) {
            Ok(k) => Ok(Some(k)),
            Err(e) => {
                assert(false);
                Err(e)
            },
        }
    }

    /// The value of the entry whose key was read last; moves to the next
    /// entry. Fails without a preceding key.
    pub fn next_value(&mut self) -> (r: Result<Value, Error>)
        requires
            old(self).wf(),
        ensures
            final(self).wf(),
            final(self).source == old(self).source,
            r is Ok <==> old(self).next.0 < old(self).rows() && old(self).next.1 < old(self).end(
                old(self).next.0 as int,
            ) - old(self).start(old(self).next.0 as int),
            r is Err ==> final(self).next == old(self).next,
            r matches Ok(v) ==> final(self).next == (old(self).next.0, (old(self).next.1 + 1) as usize)
                && v@ == decode_row(
                map_children(old(self).source@).1,
                old(self).start(old(self).next.0 as int) + old(self).next.1,
            ),
    {
        let (item, entry) = self.next;
        if item >= self.offsets.len() - 1 {
            return Err(Error::new(ErrorKind::Exhausted, "exhausted map deserializer"));
        }
        let (start, end) = self.entry_range(item);
        if entry >= end - start {
            return Err(Error::new(ErrorKind::ProtocolMisuse, "map value without a preceding key"));
        }
        let v = match self.value.value_at(start + entry) {
            Ok(v) => v,
            Err(e) => {
                assert(false);
                return Err(e);
            },
        };
        self.next = (item, entry + 1);
        Ok(v)
    }

    /// The child range of row `item`.
    fn entry_range(&self, item: usize) -> (r: (usize, usize))
        requires
            self.wf(),
            item < self.rows(),
        ensures
            r.0 == self.start(item as int),
            r.1 == self.end(item as int),
            r.0 <= r.1 <= array_len(map_children(self.source@).0),
    {
        let ghost offs = offset_ints(self.offsets@);
        assert(offs[item as int] == self.offsets@[item as int].spec_int());
        assert(offs[item + 1] == self.offsets@[item + 1].spec_int());
        let start = match self.offsets[item].try_into_usize() {
            Some(s) => s,
            None => {
                assert(false);
                0
            },
        };
        let end = match self.offsets[item + 1].try_into_usize() {
            Some(s) => s,
            None => {
                assert(false);
                0
            },
        };
        (start, end)
    }

    /// Row `i` as a whole.
    pub fn value_at(&self, i: usize) -> (r: Result<Value, Error>)
        requires
            self.wf(),
        ensures
            r is Ok <==> i < self.rows(),
            r matches Ok(v) ==> v@ == map_row(self.source@, i as int),
            r matches Err(e) ==> e.kind == ErrorKind::Exhausted,
        decreases self, 0int,
    {
        if i >= self.offsets.len() - 1 {
            return Err(Error::new(ErrorKind::Exhausted, "exhausted map deserializer"));
        }
        if !row_is_valid(&self.validity, i, Ghost(self.source@.validity), Ghost(self.rows())) {
            return Ok(Value::Null);
        }
        let (start, end) = self.entry_range(i);
        let ghost keys = map_children(self.source@).0;
        let ghost values = map_children(self.source@).1;
        let mut entries: Vec<(Value, Value)> = Vec::new();
        let mut k: usize = start;
        while k < end
            invariant
                self.wf(),
                start <= k <= end,
                end <= array_len(keys),
                keys == map_children(self.source@).0,
                values == map_children(self.source@).1,
                entries@.len() == k - start,
                forall|j: int|
                    0 <= j < entries@.len() ==> (#[trigger] entries@[j]).0@ == decode_row(
                        keys,
                        start + j,
                    ) && entries@[j].1@ == decode_row(values, start + j),
            decreases end - k,
        {
            let kv = match self.key.value_at(k) {
                Ok(v) => v,
                Err(e) => {
                    assert(false);
                    return Err(e);
                },
            };
            let vv = match self.value.value_at(k) {
                Ok(v) => v,
                Err(e) => {
                    assert(false);
                    return Err(e);
                },
            };
            entries.push((kv, vv));
            k = k + 1;
        }
        let r = Value::Mapping(entries);
        assert(r@->Mapping_0 =~= map_row(self.source@, i as int)->Mapping_0);
        Ok(r)
    }
}

/// Check a list layout: at least one offset, none negative, never
/// decreasing, and the last within a child of `child_len` rows.
pub fn check_supported_list_layout<O: Offset>(offsets: &Vec<O>, child_len: usize) -> (r: Result<(), Error>)
    ensures
        r is Ok <==> offsets_supported(offset_ints(offsets@), child_len as int),
        r matches Err(e) ==> e.kind == ErrorKind::SchemaMismatch,
        offsets@.len() <= usize::MAX,
{
    let ghost offs = offset_ints(offsets@);
    if offsets.len() == 0 {
        return Err(Error::new(ErrorKind::SchemaMismatch, "list layout without offsets"));
    }
    let mut prev: usize = match offsets[0].try_into_usize() {
        Some(p) => p,
        None => {
            assert(!offsets_supported(offs, child_len as int)) by {
                assert(offs[0] == offsets@[0].spec_int());
                if offsets_supported(offs, child_len as int) {
                    assert(offs[0] <= offs[offs.len() - 1]);
                }
            }
            return Err(Error::new(ErrorKind::SchemaMismatch, "negative offset"));
        },
    };
    let mut i: usize = 1;
    while i < offsets.len()
        invariant
            1 <= i <= offsets@.len(),
            offs == offset_ints(offsets@),
            prev == offs[i - 1],
            0 <= offs[0],
            forall|a: int, b: int| 0 <= a <= b < i ==> offs[a] <= offs[b],
        decreases offsets@.len() - i,
    {
        let cur = match offsets[i].try_into_usize() {
            Some(c) => c,
            None => {
                assert(!offsets_supported(offs, child_len as int)) by {
                    assert(offs[i as int] == offsets@[i as int].spec_int());
                    if offsets_supported(offs, child_len as int) {
                        assert(offs[0] <= offs[i as int]);
                        assert(offs[i as int] <= offs[offs.len() - 1]);
                    }
                }
                return Err(Error::new(ErrorKind::SchemaMismatch, "negative offset"));
            },
        };
        if cur < prev {
            assert(!offsets_supported(offs, child_len as int)) by {
                assert(offs[i - 1] > offs[i as int]);
            }
            return Err(Error::new(ErrorKind::SchemaMismatch, "decreasing offsets"));
        }
        prev = cur;
        i = i + 1;
    }
    if prev > child_len {
        return Err(Error::new(ErrorKind::SchemaMismatch, "offsets beyond the child array"));
    }
    Ok(())
}

} // verus!
