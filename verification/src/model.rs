//! The database-agnostic value model that decoded rows are expressed in.

use vstd::prelude::*;

verus! {

/// The logical type of a column, independent of the source database.
#[derive(Clone, Copy, Debug, PartialEq, Eq, Structural)]
pub enum DataType {
    Boolean,
    Int16,
    Int32,
    Int64,
    Float32,
    Float64,
    Decimal { precision: u8, scale: u8 },
    String,
    Text,
    Bytes,
    Json,
    Jsonb,
    Uuid,
    Date,
    Time,
    Timestamp,
    TimestampTz,
}

/// A decoded column value.
///
/// `Unchanged` stands for a value that the source did not send because it
/// has not changed since the previous row image; it is never the same as
/// `Null`. Decimal, JSON and UUID values are carried as text. So is
/// `Float64`: it holds a literal in the syntax of Rust's `f64::from_str`,
/// which the consumer converts.
#[derive(Clone, Debug, PartialEq)]
pub enum Value {
    Null,
    Unchanged,
    Bool(bool),
    Int64(i64),
    Float64(String),
    Decimal(String),
    String(String),
    Text(String),
    Bytes(Vec<u8>),
    Json(String),
    Jsonb(String),
    Uuid(String),
}

/// What a [`Value`] holds, as mathematical data.
pub enum ValueView {
    Null,
    Unchanged,
    Bool(bool),
    Int64(i64),
    Float64(Seq<char>),
    Decimal(Seq<char>),
    String(Seq<char>),
    Text(Seq<char>),
    Bytes(Seq<u8>),
    Json(Seq<char>),
    Jsonb(Seq<char>),
    Uuid(Seq<char>),
}

impl View for Value {
    type V = ValueView;

    open spec fn view(&self) -> ValueView {
        match *self {
            Value::Null => ValueView::Null,
            Value::Unchanged => ValueView::Unchanged,
            Value::Bool(b) => ValueView::Bool(b),
            Value::Int64(n) => ValueView::Int64(n),
            Value::Float64(s) => ValueView::Float64(s@),
            Value::Decimal(s) => ValueView::Decimal(s@),
            Value::String(s) => ValueView::String(s@),
            Value::Text(s) => ValueView::Text(s@),
            Value::Bytes(b) => ValueView::Bytes(b@),
            Value::Json(s) => ValueView::Json(s@),
            Value::Jsonb(s) => ValueView::Jsonb(s@),
            Value::Uuid(s) => ValueView::Uuid(s@),
        }
    }
}

/// The definition of a column: its name, logical type and nullability.
#[derive(Clone, Debug, PartialEq)]
pub struct ColumnDef {
    pub name: String,
    pub data_type: DataType,
    pub nullable: bool,
}

/// What a [`ColumnDef`] holds, as mathematical data.
pub struct ColumnDefView {
    pub name: Seq<char>,
    pub data_type: DataType,
    pub nullable: bool,
}

impl View for ColumnDef {
    type V = ColumnDefView;

    open spec fn view(&self) -> ColumnDefView {
        ColumnDefView { name: self.name@, data_type: self.data_type, nullable: self.nullable }
    }
}

impl ColumnDef {
    pub fn new(name: String, data_type: DataType, nullable: bool) -> (r: ColumnDef)
        ensures
            r@ == (ColumnDefView { name: name@, data_type, nullable }),
    {
        ColumnDef { name, data_type, nullable }
    }
}

/// A column's name together with its decoded value.
#[derive(Clone, Debug, PartialEq)]
pub struct ColumnValue {
    pub name: String,
    pub value: Value,
}

/// What a [`ColumnValue`] holds, as mathematical data.
pub struct ColumnValueView {
    pub name: Seq<char>,
    pub value: ValueView,
}

impl View for ColumnValue {
    type V = ColumnValueView;

    open spec fn view(&self) -> ColumnValueView {
        ColumnValueView { name: self.name@, value: self.value@ }
    }
}

impl ColumnValue {
    pub fn new(name: String, value: Value) -> (r: ColumnValue)
        ensures
            r@ == (ColumnValueView { name: name@, value: value@ }),
    {
        ColumnValue { name, value }
    }
}

} // verus!
