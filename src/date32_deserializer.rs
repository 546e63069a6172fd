use vstd::prelude::*;

use crate::array::{primitive_row, valid_at, PrimitiveArray};
use crate::array_deserializer::{validity_view, IntegerDeserializer};
use crate::error::{Error, ErrorKind};
use crate::value::Value;

verus! {

/// The `%Y-%m-%d` rendering of the calendar date `days` days after
/// 1970-01-01, without time zone.
pub uninterp spec fn date32_text(days: int) -> Seq<char>;

/// Relies on chrono's `NaiveDate::from_epoch_days` and its `Display`: the
/// date `days` days after the epoch, rendered, or `None` where it lies
/// outside chrono's range of dates (years -262143 to 262142, which holds
/// every day within 95 000 000 days of the epoch).
#[verifier::external_body]
fn naive_date_string(days: i32) -> (r: Option<String>)
    ensures
        r matches Some(s) ==> s@ == date32_text(days as int),
        -95_000_000 <= days <= 95_000_000 ==> r is Some,
{
    match chrono::NaiveDate::from_epoch_days(days) {
        Some(d) => Some(d.to_string()),
        None => None,
    }
}

/// The bitmap of a primitive array is well formed and covers its values.
pub open spec fn primitive_array_wf<T>(a: PrimitiveArray<T>) -> bool {
    match a.validity {
        Some(b) => b.wf() && b@.len() == a.values@.len(),
        None => true,
    }
}

/// Reads a `Date32` column (days since 1970-01-01) with a forward cursor.
pub struct Date32Deserializer<'a> {
    pub path: String,
    pub array: IntegerDeserializer<'a, i32>,
    pub next: usize,
}

impl<'a> Date32Deserializer<'a> {
    pub fn new(path: String, array: &'a PrimitiveArray<i32>) -> (r: Self)
        requires
            primitive_array_wf(*array),
        ensures
            r.array.wf(),
            r.array.source@ == *array,
            r.next == 0,
            r.path == path,
    {
        let validity = validity_view(&array.validity);
        let d = IntegerDeserializer::new(array.values.as_slice(), validity, Ghost(*array));
        Date32Deserializer { path, array: d, next: 0 }
    }

    /// The calendar date of `ts` days after the epoch, as `%Y-%m-%d`.
    pub fn get_string_repr(&self, ts: i32) -> (r: Result<String, Error>)
        ensures
            r matches Ok(s) ==> s@ == date32_text(ts as int),
            r matches Err(e) ==> e.kind == ErrorKind::Representation,
            -95_000_000 <= ts <= 95_000_000 ==> r is Ok,
    {
        match naive_date_string(ts) {
            Some(s) => Ok(s),
            None => Err(Error::new(ErrorKind::Representation, "date out of range")),
        }
    }

    /// Read the next row as its day number (`Int`), or `Null`.
    pub fn next_value(&mut self) -> (r: Result<Value, Error>)
        requires
            old(self).array.wf(),
        ensures
            final(self).array == old(self).array,
            final(self).path == old(self).path,
            r is Ok <==> old(self).next < old(self).array.source@.values@.len(),
            r is Ok ==> final(self).next == old(self).next + 1,
            r is Err ==> final(self).next == old(self).next,
            r matches Ok(v) ==> v@ == primitive_row(old(self).array.source@, old(self).next as int),
            r matches Err(e) ==> e.kind == ErrorKind::Exhausted,
    {
        if self.next >= self.array.len() {
            return Err(Error::new(ErrorKind::Exhausted, "exhausted date deserializer"));
        }
        let v = self.array.value_at(self.next)?;
        self.next = self.next + 1;
        Ok(v)
    }

    /// Read the next row, which must be present, as a date string.
    pub fn next_string(&mut self) -> (r: Result<String, Error>)
        requires
            old(self).array.wf(),
        ensures
            final(self).array == old(self).array,
            r is Ok ==> old(self).next < old(self).array.source@.values@.len() && valid_at(
                old(self).array.source@.validity,
                old(self).next as int,
            ),
            r matches Ok(s) ==> s@ == date32_text(
                old(self).array.source@.values@[old(self).next as int] as int,
            ),
            r is Ok ==> final(self).next == old(self).next + 1,
            r is Err ==> final(self).next == old(self).next,
            old(self).next >= old(self).array.source@.values@.len() ==> r is Err,
            old(self).next < old(self).array.source@.values@.len() && valid_at(
                old(self).array.source@.validity,
                old(self).next as int,
            ) && -95_000_000 <= old(self).array.source@.values@[old(self).next as int]
                <= 95_000_000 ==> r is Ok,
    {
        if self.next >= self.array.len() {
            return Err(Error::new(ErrorKind::Exhausted, "exhausted date deserializer"));
        }
        match self.array.raw_at(self.next)? {
            Some(ts) => {
                let s = self.get_string_repr(ts)?;
                self.next = self.next + 1;
                Ok(s)
            },
            None => Err(Error::new(ErrorKind::ProtocolMisuse, "missing value for a required date")),
        }
    }
}

} // verus!
