use vstd::prelude::*;
use vstd::string::StringExecFns;

use crate::error::Error;
use crate::schema::GenericField;

verus! {

/// Which entry point is tracing a schema; used to phrase errors.
#[derive(Debug, Clone, Copy, PartialEq, Eq, Structural)]
pub enum TracingMode {
    Unknown,
    FromType,
    FromSamples,
}

/// The overwrite registered last for `key`, if any.
pub open spec fn overwrite_of(entries: Seq<(String, GenericField)>, key: Seq<char>) -> Option<
    GenericField,
>
    decreases entries.len(),
{
    if entries.len() == 0 {
        None
    } else if entries.last().0@ == key {
        Some(entries.last().1)
    } else {
        overwrite_of(entries.drop_last(), key)
    }
}

/// A mapping of dotted field paths to replacement field descriptions.
#[derive(Debug)]
pub struct Overwrites(pub Vec<(String, GenericField)>);

impl Overwrites {
    /// Create a new empty instance.
    pub fn new() -> (r: Overwrites)
        ensures
            r.0@.len() == 0,
    {
        Overwrites(Vec::new())
    }

    pub open spec fn get_spec(&self, key: Seq<char>) -> Option<GenericField> {
        overwrite_of(self.0@, key)
    }
}

/// Options of schema tracing.
#[derive(Debug)]
pub struct TracingOptions {
    /// Accept fields that hold only nulls.
    pub allow_null_fields: bool,
    /// Encode maps as structs.
    pub map_as_struct: bool,
    /// Encode strings as dictionaries.
    pub string_dictionary_encoding: bool,
    /// Coerce different numeric types to a common one.
    pub coerce_numbers: bool,
    /// Detect dates in string columns.
    pub guess_dates: bool,
    /// How many tracing iterations to perform when tracing from a type.
    pub from_type_budget: usize,
    /// Encode enums without data as strings.
    pub enums_without_data_as_strings: bool,
    /// Replacement field descriptions, by dotted path.
    pub overwrites: Overwrites,
    /// Encode sequences as lists with 64-bit offsets.
    pub sequence_as_large_list: bool,
    /// The entry point that traces.
    pub tracing_mode: TracingMode,
}

impl Default for TracingOptions {
    fn default() -> (r: TracingOptions)
        ensures
            r.allow_null_fields == false,
            r.map_as_struct == true,
            r.string_dictionary_encoding == false,
            r.coerce_numbers == false,
            r.guess_dates == false,
            r.from_type_budget == 100,
            r.enums_without_data_as_strings == false,
            r.overwrites.0@.len() == 0,
            r.sequence_as_large_list == true,
            r.tracing_mode == TracingMode::Unknown,
    {
        TracingOptions {
            allow_null_fields: false,
            map_as_struct: true,
            string_dictionary_encoding: false,
            coerce_numbers: false,
            guess_dates: false,
            from_type_budget: 100,
            enums_without_data_as_strings: false,
            overwrites: Overwrites::new(),
            sequence_as_large_list: true,
            tracing_mode: TracingMode::Unknown,
        }
    }
}

impl TracingOptions {
    /// The default options.
    pub fn new() -> (r: TracingOptions)
        ensures
            r.allow_null_fields == false,
            r.map_as_struct == true,
            r.string_dictionary_encoding == false,
            r.coerce_numbers == false,
            r.guess_dates == false,
            r.from_type_budget == 100,
            r.enums_without_data_as_strings == false,
            r.overwrites.0@.len() == 0,
            r.sequence_as_large_list == true,
            r.tracing_mode == TracingMode::Unknown,
    {
        TracingOptions::default()
    }

    /// Set `allow_null_fields`.
    pub fn allow_null_fields(self, value: bool) -> (r: TracingOptions)
        ensures
            r == (TracingOptions { allow_null_fields: value, ..self }),
    {
        TracingOptions { allow_null_fields: value, ..self }
    }

    /// Set `map_as_struct`.
    pub fn map_as_struct(self, value: bool) -> (r: TracingOptions)
        ensures
            r == (TracingOptions { map_as_struct: value, ..self }),
    {
        TracingOptions { map_as_struct: value, ..self }
    }

    /// Set `sequence_as_large_list`.
    pub fn sequence_as_large_list(self, value: bool) -> (r: TracingOptions)
        ensures
            r == (TracingOptions { sequence_as_large_list: value, ..self }),
    {
        TracingOptions { sequence_as_large_list: value, ..self }
    }

    /// Set `string_dictionary_encoding`.
    pub fn string_dictionary_encoding(self, value: bool) -> (r: TracingOptions)
        ensures
            r == (TracingOptions { string_dictionary_encoding: value, ..self }),
    {
        TracingOptions { string_dictionary_encoding: value, ..self }
    }

    /// Set `coerce_numbers`.
    pub fn coerce_numbers(self, value: bool) -> (r: TracingOptions)
        ensures
            r == (TracingOptions { coerce_numbers: value, ..self }),
    {
        TracingOptions { coerce_numbers: value, ..self }
    }

    /// Set `guess_dates`.
    pub fn guess_dates(self, value: bool) -> (r: TracingOptions)
        ensures
            r == (TracingOptions { guess_dates: value, ..self }),
    {
        TracingOptions { guess_dates: value, ..self }
    }

    /// Set `from_type_budget`.
    pub fn from_type_budget(self, value: usize) -> (r: TracingOptions)
        ensures
            r == (TracingOptions { from_type_budget: value, ..self }),
    {
        TracingOptions { from_type_budget: value, ..self }
    }

    /// Set `enums_without_data_as_strings`.
    pub fn enums_without_data_as_strings(self, value: bool) -> (r: TracingOptions)
        ensures
            r == (TracingOptions { enums_without_data_as_strings: value, ..self }),
    {
        TracingOptions { enums_without_data_as_strings: value, ..self }
    }

    /// Set the tracing mode.
    pub fn tracing_mode(self, value: TracingMode) -> (r: TracingOptions)
        ensures
            r == (TracingOptions { tracing_mode: value, ..self }),
    {
        TracingOptions { tracing_mode: value, ..self }
    }

    /// Register `field` as the description of the field at the dotted
    /// `path`; the key stored is the path prefixed with `$.`.
    pub fn overwrite(self, path: &str, field: GenericField) -> (r: Result<TracingOptions, Error>)
        ensures
            r is Ok,
            r matches Ok(o) ==> o.overwrites.get_spec("$."@ + path@) == Some(field),
            r matches Ok(o) ==> forall|k: Seq<char>|
                k != "$."@ + path@ ==> o.overwrites.get_spec(k) == self.overwrites.get_spec(k),
            r matches Ok(o) ==> o.allow_null_fields == self.allow_null_fields
                && o.map_as_struct == self.map_as_struct && o.string_dictionary_encoding
                == self.string_dictionary_encoding && o.coerce_numbers == self.coerce_numbers
                && o.guess_dates == self.guess_dates && o.from_type_budget == self.from_type_budget
                && o.enums_without_data_as_strings == self.enums_without_data_as_strings
                && o.sequence_as_large_list == self.sequence_as_large_list && o.tracing_mode
                == self.tracing_mode,
    {
        let mut key = String::from_str("$.");
        key.append(path);
        let mut entries = self.overwrites.0;
        let ghost before = entries@;
        entries.push((key, field));
        assert(entries@.drop_last() == before);
        Ok(TracingOptions { overwrites: Overwrites(entries), ..self })
    }

    /// The overwrite registered for `path`, if any.
    pub fn get_overwrite(&self, path: &str) -> (r: Option<&GenericField>)
        ensures
            r is None <==> self.overwrites.get_spec(path@) is None,
            r matches Some(f) ==> self.overwrites.get_spec(path@) == Some(*f),
    {
        let key = path.to_owned();
        let entries = &self.overwrites.0;
        let mut i: usize = entries.len();
        assert(entries@.subrange(0, i as int) =~= entries@);
        while i > 0
            invariant
                i <= entries@.len(),
                key@ == path@,
                entries@ == self.overwrites.0@,
                overwrite_of(entries@, key@) == overwrite_of(entries@.subrange(0, i as int), key@),
            decreases i,
        {
            let ghost prefix = entries@.subrange(0, i as int);
            if entries[i - 1].0 == key {
                assert(prefix.last() == entries@[i - 1]);
                assert(overwrite_of(prefix, key@) == Some(entries@[i - 1].1));
                return Some(&entries[i - 1].1);
            }
            assert(prefix.drop_last() =~= entries@.subrange(0, i - 1));
            i = i - 1;
        }
        assert(entries@.subrange(0, 0).len() == 0);
        None
    }
}

} // verus!
