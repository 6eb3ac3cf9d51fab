//! The replication messages that the `pgoutput` parser hands to the
//! pipeline.

use vstd::prelude::*;
use crate::buffer::bytes_contents;

verus! {

/// One column of a relation, as a Relation message announces it.
#[derive(Clone, Debug, PartialEq)]
pub struct Column {
    pub flags: u8,
    pub name: String,
    pub type_id: u32,
    pub type_mod: i32,
}

/// What a [`Column`] holds, as mathematical data.
pub struct ColumnView {
    pub flags: u8,
    pub name: Seq<char>,
    pub type_id: u32,
    pub type_mod: i32,
}

impl View for Column {
    type V = ColumnView;

    open spec fn view(&self) -> ColumnView {
        ColumnView {
            flags: self.flags,
            name: self.name@,
            type_id: self.type_id,
            type_mod: self.type_mod,
        }
    }
}

impl ColumnView {
    /// Whether the column belongs to the replica key: bit 0 of the flags.
    pub open spec fn is_key(self) -> bool {
        self.flags % 2 == 1
    }
}

impl Column {
    /// Whether the column belongs to the replica key.
    pub fn is_key(&self) -> (r: bool)
        ensures
            r == self@.is_key(),
    {
        let flags = self.flags;
        assert(((flags & 1) != 0) == (flags % 2 == 1)) by (bit_vector);
        (flags & 1) != 0
    }
}

/// The views of a list of columns, in order.
pub open spec fn columns_view(columns: Seq<Column>) -> Seq<ColumnView> {
    columns.map_values(|c: Column| c@)
}

/// One value of a row image.
#[derive(Clone, Debug, PartialEq)]
pub enum TupleData {
    /// SQL NULL.
    Null,
    /// A value that was not sent, because it is stored out of line and has
    /// not changed.
    Toast,
    /// The value in PostgreSQL's text format.
    Text(bytes::Bytes),
}

/// What a [`TupleData`] holds, as mathematical data.
pub enum TupleDataView {
    Null,
    Toast,
    Text(Seq<u8>),
}

impl View for TupleData {
    type V = TupleDataView;

    open spec fn view(&self) -> TupleDataView {
        match *self {
            TupleData::Null => TupleDataView::Null,
            TupleData::Toast => TupleDataView::Toast,
            TupleData::Text(b) => TupleDataView::Text(bytes_contents(b)),
        }
    }
}

/// A row image: one [`TupleData`] per column.
#[derive(Clone, Debug, PartialEq)]
pub struct Tuple {
    pub cols: Vec<TupleData>,
}

/// A message of the logical replication stream.
#[derive(Clone, Debug, PartialEq)]
pub enum CdcMessage {
    Begin { lsn: u64 },
    Commit { lsn: u64 },
    Relation { table_id: u32, namespace: String, name: String, columns: Vec<Column> },
    Insert { table_id: u32, tuple: Tuple },
    Update { table_id: u32, tuple: Tuple },
    Delete { table_id: u32, tuple: Tuple },
    Truncate { table_ids: Vec<u32> },
}

/// A message together with the position in the write-ahead log at which it
/// was read.
#[derive(Clone, Debug, PartialEq)]
pub struct CdcEvent {
    pub lsn: u64,
    pub message: CdcMessage,
}

} // verus!
