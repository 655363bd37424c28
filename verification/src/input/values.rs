//! What this crate takes on trust about the TOML values it reads: the
//! types of the `toml` crate, a name for the contents of each, and one
//! function for each of its accessors that the readers call.

use vstd::prelude::*;
use toml::value::{Table, Value};

verus! {

/// A TOML value, declared so that it can pass through verified code.
#[verifier::external_type_specification]
#[verifier::external_body]
pub struct ExValue(toml::Value);

/// A TOML table, declared so that it can pass through verified code.
#[verifier::external_type_specification]
#[verifier::external_body]
#[verifier::reject_recursive_types(K)]
#[verifier::reject_recursive_types(V)]
pub struct ExTable<K, V>(toml::map::Map<K, V>);

/// The entries of a table: the value that stands under each key.
pub uninterp spec fn table_entries(table: Table) -> Map<Seq<char>, Value>;

/// What `Value::as_table` gives for `value`: the table, if it is one.
pub uninterp spec fn as_table_of(value: Value) -> Option<Table>;

/// What `Value::as_str` gives for `value`: the text, if it is a string.
pub uninterp spec fn as_str_of(value: Value) -> Option<Seq<char>>;

/// What `Value::as_integer` gives for `value`: the number, if it is an
/// integer.
pub uninterp spec fn as_integer_of(value: Value) -> Option<i64>;

/// What `Value::as_float` gives for `value`, as the bits of the number in
/// binary64: the number, if it is a float.
pub uninterp spec fn as_float_of(value: Value) -> Option<u64>;

/// What `Value::as_bool` gives for `value`: the truth value, if it is one.
pub uninterp spec fn as_bool_of(value: Value) -> Option<bool>;

/// What `Value::as_array` gives for `value`: the items, if it is an array.
pub uninterp spec fn as_array_of(value: Value) -> Option<Seq<Value>>;

/// `toml::map::Map::get` with a string key: the value that stands under
/// `key` in `table`, or `None` if the table has no such key.
#[verifier::external_body]
pub(crate) fn get<'a>(table: &'a Table, key: &str) -> (value: Option<&'a Value>)
    ensures
        match value {
            Some(found) => table_entries(*table).contains_key(key@) && table_entries(*table)[key@]
                == *found,
            None => !table_entries(*table).contains_key(key@),
        },
{
    table.get(key)
}

/// `toml::Value::as_table`: the table that `value` is, or `None` if it is
/// a value of another type.
#[verifier::external_body]
pub(crate) fn as_table(value: &Value) -> (table: Option<&Table>)
    ensures
        match table {
            Some(found) => as_table_of(*value) == Some(*found),
            None => as_table_of(*value) is None,
        },
{
    value.as_table()
}

/// `toml::Value::as_str`: the text of `value`, or `None` if it is not a
/// string.
#[verifier::external_body]
pub(crate) fn as_str(value: &Value) -> (text: Option<&str>)
    ensures
        match text {
            Some(found) => as_str_of(*value) == Some(found@),
            None => as_str_of(*value) is None,
        },
{
    value.as_str()
}

/// `toml::Value::as_integer`: the number that `value` is, or `None` if it
/// is not an integer.
#[verifier::external_body]
pub(crate) fn as_integer(value: &Value) -> (number: Option<i64>)
    ensures
        number == as_integer_of(*value),
{
    value.as_integer()
}

/// `toml::Value::as_float`: the number that `value` is, handed on as its
/// bits in binary64, or `None` if it is not a float.
#[verifier::external_body]
pub(crate) fn as_float(value: &Value) -> (bits: Option<u64>)
    ensures
        bits == as_float_of(*value),
{
    match value.as_float() {
        Some(number) => Some(number.to_bits()),
        None => None,
    }
}

/// `toml::Value::as_bool`: the truth value that `value` is, or `None` if
/// it is not a boolean.
#[verifier::external_body]
pub(crate) fn as_bool(value: &Value) -> (truth: Option<bool>)
    ensures
        truth == as_bool_of(*value),
{
    value.as_bool()
}

/// `toml::Value::as_array`: the items of `value`, or `None` if it is not
/// an array.
#[verifier::external_body]
pub(crate) fn as_array(value: &Value) -> (items: Option<&Vec<Value>>)
    ensures
        match items {
            Some(found) => as_array_of(*value) == Some(found@),
            None => as_array_of(*value) is None,
        },
{
    value.as_array()
}

} // verus!
