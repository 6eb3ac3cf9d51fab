//! The mapping from PostgreSQL types and text values to the value model.

pub mod pg_oid;

use vstd::prelude::*;
use vstd::slice::slice_to_vec;
use vstd::string::StringSliceAdditionalSpecFns;
use vstd::utf8::{decode_utf8, valid_utf8};
use crate::buffer::bytes_as_slice;
use crate::bytea::{decode_bytea_hex, has_hex_prefix, is_hex_text, hex_bytes, ByteaText};
use crate::message::{Column, ColumnView, Tuple, TupleData, TupleDataView};
use crate::model::{ColumnDef, ColumnDefView, ColumnValue, ColumnValueView, DataType, Value, ValueView};
use crate::money::{spec_strip_money_symbol, strip_money_symbol};
use crate::numeric_text::{i64_literal_value, is_float_literal, is_float_literal_chars, parse_i64_chars};
use crate::pg_array::{parse_pg_array, spec_parse_pg_array};
use crate::text::{chars_of, same_chars};
use crate::timestamp::{normalize_timestamptz, spec_normalize_timestamptz};

verus! {

/// The logical type that stands for the PostgreSQL type `type_id` with type
/// modifier `type_mod`.
///
/// For `NUMERIC` with a positive modifier, precision and scale are read from
/// `type_mod - 4`: the precision from bits 16 and up, the scale from bits 0
/// to 15, each kept to its low eight bits. Without a modifier the type is
/// `Decimal { precision: 38, scale: 10 }`. A type that is not known maps to
/// `String`.
pub open spec fn spec_pg_type_to_data_type(type_id: u32, type_mod: i32) -> DataType {
    if type_id == pg_oid::BOOL {
        DataType::Boolean
    } else if type_id == pg_oid::INT2 {
        DataType::Int16
    } else if type_id == pg_oid::INT4 || type_id == pg_oid::OID {
        DataType::Int32
    } else if type_id == pg_oid::INT8 {
        DataType::Int64
    } else if type_id == pg_oid::FLOAT4 {
        DataType::Float32
    } else if type_id == pg_oid::FLOAT8 || type_id == pg_oid::MONEY {
        DataType::Float64
    } else if type_id == pg_oid::NUMERIC {
        if type_mod > 0 {
            DataType::Decimal {
                precision: (((type_mod - 4) / 0x1_0000) % 0x100) as u8,
                scale: ((type_mod - 4) % 0x100) as u8,
            }
        } else {
            DataType::Decimal { precision: 38, scale: 10 }
        }
    } else if type_id == pg_oid::TEXT || type_id == pg_oid::XML {
        DataType::Text
    } else if type_id == pg_oid::BYTEA {
        DataType::Bytes
    } else if type_id == pg_oid::JSON {
        DataType::Json
    } else if type_id == pg_oid::JSONB {
        DataType::Jsonb
    } else if type_id == pg_oid::UUID {
        DataType::Uuid
    } else if type_id == pg_oid::DATE {
        DataType::Date
    } else if type_id == pg_oid::TIME || type_id == pg_oid::TIMETZ {
        DataType::Time
    } else if type_id == pg_oid::TIMESTAMP {
        DataType::Timestamp
    } else if type_id == pg_oid::TIMESTAMPTZ {
        DataType::TimestampTz
    } else if is_array_oid(type_id) {
        DataType::Json
    } else {
        DataType::String
    }
}

/// The array types that are decoded into JSON arrays.
pub open spec fn is_array_oid(type_id: u32) -> bool {
    ||| is_int_array_oid(type_id)
    ||| is_float_array_oid(type_id)
    ||| is_text_array_oid(type_id)
}

pub open spec fn is_int_array_oid(type_id: u32) -> bool {
    type_id == pg_oid::INT2_ARRAY || type_id == pg_oid::INT4_ARRAY || type_id
        == pg_oid::INT8_ARRAY
}

pub open spec fn is_float_array_oid(type_id: u32) -> bool {
    type_id == pg_oid::FLOAT4_ARRAY || type_id == pg_oid::FLOAT8_ARRAY
}

pub open spec fn is_text_array_oid(type_id: u32) -> bool {
    type_id == pg_oid::TEXT_ARRAY || type_id == pg_oid::VARCHAR_ARRAY
}

/// The types that have a place of their own in the mapping.
pub open spec fn is_known_oid(type_id: u32) -> bool {
    ||| type_id == pg_oid::BOOL
    ||| type_id == pg_oid::BYTEA
    ||| type_id == pg_oid::CHAR
    ||| type_id == pg_oid::NAME
    ||| type_id == pg_oid::INT8
    ||| type_id == pg_oid::INT2
    ||| type_id == pg_oid::INT4
    ||| type_id == pg_oid::TEXT
    ||| type_id == pg_oid::OID
    ||| type_id == pg_oid::JSON
    ||| type_id == pg_oid::XML
    ||| type_id == pg_oid::FLOAT4
    ||| type_id == pg_oid::FLOAT8
    ||| type_id == pg_oid::MONEY
    ||| type_id == pg_oid::MACADDR
    ||| type_id == pg_oid::INET
    ||| type_id == pg_oid::CIDR
    ||| type_id == pg_oid::MACADDR8
    ||| type_id == pg_oid::BPCHAR
    ||| type_id == pg_oid::VARCHAR
    ||| type_id == pg_oid::DATE
    ||| type_id == pg_oid::TIME
    ||| type_id == pg_oid::TIMESTAMP
    ||| type_id == pg_oid::TIMESTAMPTZ
    ||| type_id == pg_oid::INTERVAL
    ||| type_id == pg_oid::TIMETZ
    ||| type_id == pg_oid::BIT
    ||| type_id == pg_oid::VARBIT
    ||| type_id == pg_oid::NUMERIC
    ||| type_id == pg_oid::UUID
    ||| type_id == pg_oid::JSONB
    ||| is_array_oid(type_id)
}

/// Whether the type has a place of its own in the mapping. A type that
/// has none is read as a string, which the caller may want to warn of.
pub fn is_known_type(type_id: u32) -> (r: bool)
    ensures
        r == is_known_oid(type_id),
        !r ==> forall|type_mod: i32|
            spec_pg_type_to_data_type(type_id, type_mod) == DataType::String,
{
    match type_id {
        pg_oid::BOOL
        | pg_oid::BYTEA
        | pg_oid::CHAR
        | pg_oid::NAME
        | pg_oid::INT8
        | pg_oid::INT2
        | pg_oid::INT4
        | pg_oid::TEXT
        | pg_oid::OID
        | pg_oid::JSON
        | pg_oid::XML
        | pg_oid::FLOAT4
        | pg_oid::FLOAT8
        | pg_oid::MONEY
        | pg_oid::MACADDR
        | pg_oid::INET
        | pg_oid::CIDR
        | pg_oid::MACADDR8
        | pg_oid::BPCHAR
        | pg_oid::VARCHAR
        | pg_oid::DATE
        | pg_oid::TIME
        | pg_oid::TIMESTAMP
        | pg_oid::TIMESTAMPTZ
        | pg_oid::INTERVAL
        | pg_oid::TIMETZ
        | pg_oid::BIT
        | pg_oid::VARBIT
        | pg_oid::NUMERIC
        | pg_oid::UUID
        | pg_oid::JSONB
        | pg_oid::INT2_ARRAY
        | pg_oid::INT4_ARRAY
        | pg_oid::INT8_ARRAY
        | pg_oid::TEXT_ARRAY
        | pg_oid::VARCHAR_ARRAY
        | pg_oid::FLOAT4_ARRAY
        | pg_oid::FLOAT8_ARRAY => true,
        _ => false,
    }
}

/// The logical type of a type without modifier is fixed by the type
/// alone, and a decimal only for `NUMERIC`. The modifier is read for
/// `NUMERIC` only, and there only where it is positive.
pub proof fn lemma_type_without_modifier(type_id: u32, type_mod: i32)
    requires
        type_id != pg_oid::NUMERIC || type_mod <= 0,
    ensures
        spec_pg_type_to_data_type(type_id, type_mod) == spec_pg_type_to_data_type(type_id, -1i32),
        spec_pg_type_to_data_type(type_id, -1i32) is Decimal <==> type_id == pg_oid::NUMERIC,
        !is_known_oid(type_id) ==> spec_pg_type_to_data_type(type_id, type_mod)
            == DataType::String,
{
}

/// Converts a PostgreSQL type to its logical type.
pub fn pg_type_to_data_type(type_id: u32, type_mod: i32) -> (r: DataType)
    ensures
        r == spec_pg_type_to_data_type(type_id, type_mod),
{
    match type_id {
        pg_oid::BOOL => DataType::Boolean,
        pg_oid::INT2 => DataType::Int16,
        pg_oid::INT4 | pg_oid::OID => DataType::Int32,
        pg_oid::INT8 => DataType::Int64,
        pg_oid::FLOAT4 => DataType::Float32,
        pg_oid::FLOAT8 | pg_oid::MONEY => DataType::Float64,
        pg_oid::NUMERIC => {
            if type_mod > 0 {
                let packed: i32 = type_mod - 4;
                let precision: u8 = #[verifier::truncate]
                ((packed >> 16) as u8);
                let scale: u8 = #[verifier::truncate]
                ((packed & 0xFFFF) as u8);
                assert(precision == ((packed as int / 0x1_0000) % 0x100) as u8 && scale == (
                packed as int % 0x100) as u8) by (bit_vector)
                    requires
                        precision == (packed >> 16) as u8,
                        scale == (packed & 0xFFFF) as u8,
                ;
                DataType::Decimal { precision, scale }
            } else {
                DataType::Decimal { precision: 38, scale: 10 }
            }
        },
        pg_oid::CHAR | pg_oid::BPCHAR | pg_oid::VARCHAR | pg_oid::NAME => DataType::String,
        pg_oid::TEXT | pg_oid::XML => DataType::Text,
        pg_oid::BYTEA => DataType::Bytes,
        pg_oid::JSON => DataType::Json,
        pg_oid::JSONB => DataType::Jsonb,
        pg_oid::UUID => DataType::Uuid,
        pg_oid::DATE => DataType::Date,
        pg_oid::TIME | pg_oid::TIMETZ => DataType::Time,
        pg_oid::TIMESTAMP => DataType::Timestamp,
        pg_oid::TIMESTAMPTZ => DataType::TimestampTz,
        pg_oid::INET | pg_oid::CIDR | pg_oid::MACADDR | pg_oid::MACADDR8 => DataType::String,
        pg_oid::BIT | pg_oid::VARBIT => DataType::String,
        pg_oid::INTERVAL => DataType::String,
        pg_oid::INT2_ARRAY
        | pg_oid::INT4_ARRAY
        | pg_oid::INT8_ARRAY
        | pg_oid::TEXT_ARRAY
        | pg_oid::VARCHAR_ARRAY
        | pg_oid::FLOAT4_ARRAY
        | pg_oid::FLOAT8_ARRAY => DataType::Json,
        _ => DataType::String,
    }
}

/// Questions about a PostgreSQL type, asked by its identifier.
pub struct PgTypeMapper;

impl PgTypeMapper {
    /// The logical type of a PostgreSQL type: [`pg_type_to_data_type`].
    pub fn pg_oid_to_data_type(type_id: u32, type_mod: i32) -> (r: DataType)
        ensures
            r == spec_pg_type_to_data_type(type_id, type_mod),
    {
        pg_type_to_data_type(type_id, type_mod)
    }

    /// Whether the type holds numbers.
    pub fn is_numeric(type_id: u32) -> (r: bool)
        ensures
            r == (type_id == pg_oid::INT2 || type_id == pg_oid::INT4 || type_id == pg_oid::INT8
                || type_id == pg_oid::FLOAT4 || type_id == pg_oid::FLOAT8 || type_id
                == pg_oid::NUMERIC || type_id == pg_oid::MONEY),
    {
        type_id == pg_oid::INT2 || type_id == pg_oid::INT4 || type_id == pg_oid::INT8 || type_id
            == pg_oid::FLOAT4 || type_id == pg_oid::FLOAT8 || type_id == pg_oid::NUMERIC
            || type_id == pg_oid::MONEY
    }

    /// Whether the type holds character data.
    pub fn is_text(type_id: u32) -> (r: bool)
        ensures
            r == (type_id == pg_oid::TEXT || type_id == pg_oid::VARCHAR || type_id
                == pg_oid::BPCHAR || type_id == pg_oid::CHAR || type_id == pg_oid::NAME),
    {
        type_id == pg_oid::TEXT || type_id == pg_oid::VARCHAR || type_id == pg_oid::BPCHAR
            || type_id == pg_oid::CHAR || type_id == pg_oid::NAME
    }

    /// Whether the type holds dates, times or intervals.
    pub fn is_temporal(type_id: u32) -> (r: bool)
        ensures
            r == (type_id == pg_oid::DATE || type_id == pg_oid::TIME || type_id == pg_oid::TIMETZ
                || type_id == pg_oid::TIMESTAMP || type_id == pg_oid::TIMESTAMPTZ || type_id
                == pg_oid::INTERVAL),
    {
        type_id == pg_oid::DATE || type_id == pg_oid::TIME || type_id == pg_oid::TIMETZ || type_id
            == pg_oid::TIMESTAMP || type_id == pg_oid::TIMESTAMPTZ || type_id == pg_oid::INTERVAL
    }

    /// Whether the type holds JSON.
    pub fn is_json(type_id: u32) -> (r: bool)
        ensures
            r == (type_id == pg_oid::JSON || type_id == pg_oid::JSONB),
    {
        type_id == pg_oid::JSON || type_id == pg_oid::JSONB
    }
}

/// `core::str::Utf8Error`, which says where bytes stop being UTF-8.
#[verifier::external_type_specification]
#[verifier::external_body]
pub struct ExUtf8Error(core::str::Utf8Error);

/// `core::str::from_utf8`: succeeds exactly on well-formed UTF-8, and the
/// string it gives is made of the very bytes it was given.
pub assume_specification<'a>[ core::str::from_utf8 ](bytes: &'a [u8]) -> (r: Result<
    &'a str,
    core::str::Utf8Error,
>)
    ensures
        r is Ok == valid_utf8(bytes@),
        r matches Ok(s) ==> s.spec_bytes() == bytes@,
;

/// Whether `text` is one of the three spellings of true: `t`, `true`, `1`.
pub open spec fn is_true_text(text: Seq<char>) -> bool {
    text == seq!['t'] || text == seq!['t', 'r', 'u', 'e'] || text == seq!['1']
}

/// The value that a `bytea` column holds: the bytes that the hex format
/// writes; the text as a string where it has the prefix `\x` but is not
/// hexadecimal; the raw bytes where it has no prefix.
pub open spec fn spec_bytea_value(text: Seq<char>, raw: Seq<u8>) -> ValueView {
    if !has_hex_prefix(text) {
        ValueView::Bytes(raw)
    } else if is_hex_text(text.skip(2)) {
        ValueView::Bytes(hex_bytes(text.skip(2)))
    } else {
        ValueView::String(text)
    }
}

/// The value of a column of type `type_id` whose text is `text`, sent as
/// the bytes `raw`.
///
/// Text that cannot be read as its type asks for is kept as a string.
pub open spec fn spec_text_to_value(text: Seq<char>, raw: Seq<u8>, type_id: u32) -> ValueView {
    if type_id == pg_oid::BOOL {
        ValueView::Bool(is_true_text(text))
    } else if type_id == pg_oid::INT2 || type_id == pg_oid::INT4 || type_id == pg_oid::INT8 {
        match i64_literal_value(text) {
            Some(n) => ValueView::Int64(n),
            None => ValueView::String(text),
        }
    } else if type_id == pg_oid::FLOAT4 || type_id == pg_oid::FLOAT8 {
        if is_float_literal(text) {
            ValueView::Float64(text)
        } else {
            ValueView::String(text)
        }
    } else if type_id == pg_oid::NUMERIC {
        ValueView::Decimal(text)
    } else if type_id == pg_oid::MONEY {
        ValueView::Decimal(spec_strip_money_symbol(text))
    } else if type_id == pg_oid::JSON || type_id == pg_oid::JSONB {
        ValueView::Json(text)
    } else if type_id == pg_oid::UUID {
        ValueView::Uuid(text)
    } else if type_id == pg_oid::TIMESTAMP {
        ValueView::String(text)
    } else if type_id == pg_oid::TIMESTAMPTZ {
        ValueView::String(spec_normalize_timestamptz(text))
    } else if type_id == pg_oid::BYTEA {
        spec_bytea_value(text, raw)
    } else if is_int_array_oid(type_id) {
        ValueView::Json(spec_parse_pg_array(text, seq!['i', 'n', 't']))
    } else if is_float_array_oid(type_id) {
        ValueView::Json(spec_parse_pg_array(text, seq!['f', 'l', 'o', 'a', 't']))
    } else if is_text_array_oid(type_id) {
        ValueView::Json(spec_parse_pg_array(text, seq!['t', 'e', 'x', 't']))
    } else {
        ValueView::String(text)
    }
}

/// The value of a column of type `type_id` that was sent as `data`.
///
/// A value that was not sent because it has not changed is `Unchanged`,
/// never `Null`. Bytes that are not UTF-8 are kept as bytes.
pub open spec fn spec_tuple_data_to_value(data: TupleDataView, type_id: u32) -> ValueView {
    match data {
        TupleDataView::Null => ValueView::Null,
        TupleDataView::Toast => ValueView::Unchanged,
        TupleDataView::Text(raw) => if valid_utf8(raw) {
            spec_text_to_value(decode_utf8(raw), raw, type_id)
        } else {
            ValueView::Bytes(raw)
        },
    }
}

fn text_is_true(text: &str) -> (r: bool)
    ensures
        r == is_true_text(text@),
{
    let chars = chars_of(text);
    let t: Vec<char> = vec!['t'];
    let long: Vec<char> = vec!['t', 'r', 'u', 'e'];
    let one: Vec<char> = vec!['1'];
    assert(t@ == seq!['t']);
    assert(long@ == seq!['t', 'r', 'u', 'e']);
    assert(one@ == seq!['1']);
    same_chars(&chars, &t) || same_chars(&chars, &long) || same_chars(&chars, &one)
}

/// Decodes the text of a column value according to the column's type.
pub fn text_to_value(text: &str, raw: &[u8], type_id: u32) -> (r: Value)
    ensures
        r@ == spec_text_to_value(text@, raw@, type_id),
{
    proof {
        reveal_strlit("int");
        reveal_strlit("float");
        reveal_strlit("text");
        assert("int"@ =~= seq!['i', 'n', 't']);
        assert("float"@ =~= seq!['f', 'l', 'o', 'a', 't']);
        assert("text"@ =~= seq!['t', 'e', 'x', 't']);
    }
    match type_id {
        pg_oid::BOOL => Value::Bool(text_is_true(text)),
        pg_oid::INT2 | pg_oid::INT4 | pg_oid::INT8 => {
            let chars = chars_of(text);
            match parse_i64_chars(&chars) {
                Some(n) => Value::Int64(n),
                None => Value::String(text.to_owned()),
            }
        },
        pg_oid::FLOAT4 | pg_oid::FLOAT8 => {
            let chars = chars_of(text);
            if is_float_literal_chars(&chars) {
                Value::Float64(text.to_owned())
            } else {
                Value::String(text.to_owned())
            }
        },
        pg_oid::NUMERIC => Value::Decimal(text.to_owned()),
        pg_oid::MONEY => Value::Decimal(strip_money_symbol(text)),
        pg_oid::JSON | pg_oid::JSONB => Value::Json(text.to_owned()),
        pg_oid::UUID => Value::Uuid(text.to_owned()),
        pg_oid::TIMESTAMP => Value::String(text.to_owned()),
        pg_oid::TIMESTAMPTZ => Value::String(normalize_timestamptz(text)),
        pg_oid::BYTEA => match decode_bytea_hex(text) {
            ByteaText::Hex(bytes) => Value::Bytes(bytes),
            ByteaText::Malformed => Value::String(text.to_owned()),
            ByteaText::Plain => Value::Bytes(slice_to_vec(raw)),
        },
        pg_oid::INT2_ARRAY | pg_oid::INT4_ARRAY | pg_oid::INT8_ARRAY => Value::Json(
            parse_pg_array(text, "int"),
        ),
        pg_oid::FLOAT4_ARRAY | pg_oid::FLOAT8_ARRAY => Value::Json(parse_pg_array(text, "float")),
        pg_oid::TEXT_ARRAY | pg_oid::VARCHAR_ARRAY => Value::Json(parse_pg_array(text, "text")),
        _ => Value::String(text.to_owned()),
    }
}

/// Converts one value of a row image to a [`Value`].
pub fn tuple_data_to_value(data: &TupleData, type_id: u32) -> (r: Value)
    ensures
        r@ == spec_tuple_data_to_value(data@, type_id),
{
    match data {
        TupleData::Null => Value::Null,
        TupleData::Toast => Value::Unchanged,
        TupleData::Text(bytes) => {
            let raw = bytes_as_slice(bytes);
            match core::str::from_utf8(raw) {
                Ok(text) => {
                    proof {
                        vstd::utf8::encode_utf8_decode_utf8(text@);
                    }
                    text_to_value(text, raw, type_id)
                },
                Err(_) => Value::Bytes(slice_to_vec(raw)),
            }
        },
    }
}

/// The named value of the column `column` in a row image that holds `data`
/// for it.
pub open spec fn spec_column_value(data: TupleData, column: Column) -> ColumnValueView {
    ColumnValueView {
        name: column.name@,
        value: spec_tuple_data_to_value(data@, column.type_id),
    }
}

/// Converts a row image to named values, pairing the values with the
/// columns in order. Where one of the two lists is longer, what it holds
/// beyond the other is left out.
pub fn tuple_to_column_values(tuple: &Tuple, columns: &[Column]) -> (r: Vec<ColumnValue>)
    ensures
        r@.len() == if tuple.cols@.len() <= columns@.len() {
            tuple.cols@.len()
        } else {
            columns@.len()
        },
        forall|i: int|
            0 <= i < r@.len() ==> (#[trigger] r@[i])@ == spec_column_value(
                tuple.cols@[i],
                columns@[i],
            ),
{
    let mut out: Vec<ColumnValue> = Vec::new();
    let mut i: usize = 0;
    while i < tuple.cols.len() && i < columns.len()
        invariant
            i <= tuple.cols@.len(),
            i <= columns@.len(),
            out@.len() == i,
            forall|k: int|
                0 <= k < i ==> (#[trigger] out@[k])@ == spec_column_value(
                    tuple.cols@[k],
                    columns@[k],
                ),
        decreases tuple.cols@.len() - i,
    {
        let value = tuple_data_to_value(&tuple.cols[i], columns[i].type_id);
        out.push(ColumnValue::new(columns[i].name.clone(), value));
        i += 1;
    }
    out
}

/// The definition of a column: its name, its logical type, and whether it
/// may be null, which is the case unless it belongs to the replica key.
pub open spec fn spec_column_def(column: ColumnView) -> ColumnDefView {
    ColumnDefView {
        name: column.name,
        data_type: spec_pg_type_to_data_type(column.type_id, column.type_mod),
        nullable: !column.is_key(),
    }
}

/// The definition of one column.
pub fn column_to_def(column: &Column) -> (r: ColumnDef)
    ensures
        r@ == spec_column_def(column@),
{
    let data_type = pg_type_to_data_type(column.type_id, column.type_mod);
    let nullable = !column.is_key();
    ColumnDef::new(column.name.clone(), data_type, nullable)
}

/// Converts the columns of a relation to column definitions, in order.
pub fn columns_to_defs(columns: &[Column]) -> (r: Vec<ColumnDef>)
    ensures
        r@.len() == columns@.len(),
        forall|i: int| 0 <= i < r@.len() ==> (#[trigger] r@[i])@ == spec_column_def(columns@[i]@),
{
    let mut out: Vec<ColumnDef> = Vec::new();
    let mut i: usize = 0;
    while i < columns.len()
        invariant
            i <= columns@.len(),
            out@.len() == i,
            forall|k: int| 0 <= k < i ==> (#[trigger] out@[k])@ == spec_column_def(columns@[k]@),
        decreases columns@.len() - i,
    {
        out.push(column_to_def(&columns[i]));
        i += 1;
    }
    out
}

} // verus!
