//! Taking a value of a given type out of a table, or saying what is wrong.

use vstd::prelude::*;
use vstd::string::*;
use toml::value::{Table, Value};
use crate::input::error::{Error, fails_with};
use crate::input::values::{
    as_array,
    as_array_of,
    as_float,
    as_float_of,
    as_integer,
    as_integer_of,
    as_str,
    as_str_of,
    as_table,
    as_table_of,
    get,
    table_entries,
};

verus! {

/// A number as it stands in a configuration: an integer, or a float by
/// its bits in binary64.
#[derive(Clone, Copy, Debug, PartialEq, Eq, Structural)]
pub enum Number {
    Integer(i64),
    Float { bits: u64 },
}

/// The text that says that `key` is missing in `context`.
pub open spec fn missing_key(key: Seq<char>, context: Seq<char>) -> Seq<char> {
    "Missing '"@ + key + "' key in "@ + context
}

/// The text that says that `key` must be `what` in `context`.
pub open spec fn must_be(key: Seq<char>, what: Seq<char>, context: Seq<char>) -> Seq<char> {
    "'"@ + key + what + context
}

/// The value under `key` in `config`, or the text that says that it is
/// missing in `context`.
pub open spec fn value_spec(key: Seq<char>, config: Table, context: Seq<char>) -> Result<
    Value,
    Seq<char>,
> {
    if table_entries(config).contains_key(key) {
        Ok(table_entries(config)[key])
    } else {
        Err(missing_key(key, context))
    }
}

/// The table under `key` in `config`, or what is wrong.
pub open spec fn table_spec(key: Seq<char>, config: Table, context: Seq<char>) -> Result<
    Table,
    Seq<char>,
> {
    match value_spec(key, config, context) {
        Err(text) => Err(text),
        Ok(value) => match as_table_of(value) {
            Some(table) => Ok(table),
            None => Err(must_be(key, "' must be a table in "@, context)),
        },
    }
}

/// The string under `key` in `config`, or what is wrong.
pub open spec fn str_spec(key: Seq<char>, config: Table, context: Seq<char>) -> Result<
    Seq<char>,
    Seq<char>,
> {
    match value_spec(key, config, context) {
        Err(text) => Err(text),
        Ok(value) => match as_str_of(value) {
            Some(text) => Ok(text),
            None => Err(must_be(key, "' must be a string in "@, context)),
        },
    }
}

/// The number that `value` is, if it is an integer or a float.
pub open spec fn number_of(value: Value) -> Option<Number> {
    match as_integer_of(value) {
        Some(number) => Some(Number::Integer(number)),
        None => match as_float_of(value) {
            Some(bits) => Some(Number::Float { bits }),
            None => None,
        },
    }
}

/// The number under `key` in `config`, or what is wrong.
pub open spec fn number_spec(key: Seq<char>, config: Table, context: Seq<char>) -> Result<
    Number,
    Seq<char>,
> {
    match value_spec(key, config, context) {
        Err(text) => Err(text),
        Ok(value) => match number_of(value) {
            Some(number) => Ok(number),
            None => Err(must_be(key, "' must be a number in "@, context)),
        },
    }
}

/// The array under `key` in `config`, or what is wrong.
pub open spec fn slice_spec(key: Seq<char>, config: Table, context: Seq<char>) -> Result<
    Seq<Value>,
    Seq<char>,
> {
    match value_spec(key, config, context) {
        Err(text) => Err(text),
        Ok(value) => match as_array_of(value) {
            Some(items) => Ok(items),
            None => Err(must_be(key, "' must be an array in "@, context)),
        },
    }
}

/// The string under the key `type` in `config`, or what is wrong.
pub open spec fn typ_spec(config: Table, context: Seq<char>) -> Result<Seq<char>, Seq<char>> {
    match value_spec("type"@, config, context) {
        Err(text) => Err(text),
        Ok(value) => match as_str_of(value) {
            Some(text) => Ok(text),
            None => Err("'type' key must be a string in "@ + context),
        },
    }
}

/// What was found under `key`, or the error that the key is missing in
/// `context` if nothing was found.
pub fn found<T>(value: Option<T>, key: &str, context: &str) -> (result: Result<T, Error>)
    ensures
        match value {
            Some(held) => result == Ok::<T, Error>(held),
            None => fails_with(result, missing_key(key@, context@)),
        },
{
    match value {
        Some(held) => Ok(held),
        None => Err(Error::from_parts("Missing '", key, "' key in ", context)),
    }
}

/// The value under `key` read as the type it should have, or, if it is of
/// another type, the error that `key` must be `what` in `context`.
pub fn typed<T>(value: Option<T>, key: &str, what: &str, context: &str) -> (result: Result<T, Error>)
    ensures
        match value {
            Some(held) => result == Ok::<T, Error>(held),
            None => fails_with(result, must_be(key@, what@, context@)),
        },
{
    match value {
        Some(held) => Ok(held),
        None => Err(Error::from_parts("'", key, what, context)),
    }
}

/// The number that a value is, from what it is as an integer and what it
/// is as a float: the integer, if it is one, and else the float.
pub fn number_from(integer: Option<i64>, float: Option<u64>) -> (number: Option<Number>)
    ensures
        number == match integer {
            Some(whole) => Some(Number::Integer(whole)),
            None => match float {
                Some(bits) => Some(Number::Float { bits }),
                None => None,
            },
        },
{
    match integer {
        Some(whole) => Some(Number::Integer(whole)),
        None => match float {
            Some(bits) => Some(Number::Float { bits }),
            None => None,
        },
    }
}

/// The string under the key `type`, or, if the value there is no string,
/// the error that says so for `context`.
pub fn typed_type<T>(value: Option<T>, context: &str) -> (result: Result<T, Error>)
    ensures
        match value {
            Some(held) => result == Ok::<T, Error>(held),
            None => fails_with(result, "'type' key must be a string in "@ + context@),
        },
{
    match value {
        Some(held) => Ok(held),
        None => {
            let error = Error::from_parts("'type' key must be a string in ", context, "", "");
            proof {
                reveal_strlit("");
                assert(error.text() =~= "'type' key must be a string in "@ + context@);
            }
            Err(error)
        },
    }
}

/// Extract the table at the given `key` from the table `config`, which is
/// called `context` in errors.
pub fn table<'a>(key: &str, config: &'a Table, context: &str) -> (result: Result<&'a Table, Error>)
    ensures
        match result {
            Ok(table) => table_spec(key@, *config, context@) == Ok::<Table, Seq<char>>(*table),
            Err(error) => table_spec(key@, *config, context@) == Err::<Table, Seq<char>>(error.text()),
        },
{
    match found(get(config, key), key, context) {
        Ok(value) => typed(as_table(value), key, "' must be a table in ", context),
        Err(error) => Err(error),
    }
}

/// Extract the string at the given `key` from the table `config`, which
/// is called `context` in errors.
pub fn str<'a>(key: &str, config: &'a Table, context: &str) -> (result: Result<&'a str, Error>)
    ensures
        match result {
            Ok(text) => str_spec(key@, *config, context@) == Ok::<Seq<char>, Seq<char>>(text@),
            Err(error) => str_spec(key@, *config, context@) == Err::<Seq<char>, Seq<char>>(
                error.text(),
            ),
        },
{
    match found(get(config, key), key, context) {
        Ok(value) => typed(as_str(value), key, "' must be a string in ", context),
        Err(error) => Err(error),
    }
}

/// The number that `value` is, if it is an integer or a float.
pub fn as_number(value: &Value) -> (number: Option<Number>)
    ensures
        number == number_of(*value),
{
    number_from(as_integer(value), as_float(value))
}

/// Extract the number, integer or float, at the given `key` from the table
/// `config`, which is called `context` in errors.
pub fn number(key: &str, config: &Table, context: &str) -> (result: Result<Number, Error>)
    ensures
        match result {
            Ok(number) => number_spec(key@, *config, context@) == Ok::<Number, Seq<char>>(number),
            Err(error) => number_spec(key@, *config, context@) == Err::<Number, Seq<char>>(
                error.text(),
            ),
        },
{
    match found(get(config, key), key, context) {
        Ok(value) => typed(as_number(value), key, "' must be a number in ", context),
        Err(error) => Err(error),
    }
}

/// Extract the array at the given `key` from the table `config`, which is
/// called `context` in errors.
pub fn slice<'a>(key: &str, config: &'a Table, context: &str) -> (result: Result<&'a [Value], Error>)
    ensures
        match result {
            Ok(items) => slice_spec(key@, *config, context@) == Ok::<Seq<Value>, Seq<char>>(items@),
            Err(error) => slice_spec(key@, *config, context@) == Err::<Seq<Value>, Seq<char>>(
                error.text(),
            ),
        },
{
    match found(get(config, key), key, context) {
        Ok(value) => match typed(as_array(value), key, "' must be an array in ", context) {
            Ok(items) => Ok(items.as_slice()),
            Err(error) => Err(error),
        },
        Err(error) => Err(error),
    }
}

/// Extract the string at the key `type` of the table `config`, which is
/// called `context` in errors.
pub fn typ<'a>(config: &'a Table, context: &str) -> (result: Result<&'a str, Error>)
    ensures
        match result {
            Ok(text) => typ_spec(*config, context@) == Ok::<Seq<char>, Seq<char>>(text@),
            Err(error) => typ_spec(*config, context@) == Err::<Seq<char>, Seq<char>>(error.text()),
        },
{
    match found(get(config, "type"), "type", context) {
        Ok(value) => typed_type(as_str(value), context),
        Err(error) => Err(error),
    }
}

} // verus!
