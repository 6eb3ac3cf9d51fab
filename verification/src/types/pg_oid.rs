//! The object identifiers that PostgreSQL gives to its built-in types.

use vstd::prelude::*;

verus! {

pub const BOOL: u32 = 16;

pub const BYTEA: u32 = 17;

pub const CHAR: u32 = 18;

pub const NAME: u32 = 19;

pub const INT8: u32 = 20;

pub const INT2: u32 = 21;

pub const INT4: u32 = 23;

pub const TEXT: u32 = 25;

pub const OID: u32 = 26;

pub const JSON: u32 = 114;

pub const XML: u32 = 142;

pub const FLOAT4: u32 = 700;

pub const FLOAT8: u32 = 701;

pub const MONEY: u32 = 790;

pub const MACADDR: u32 = 829;

pub const INET: u32 = 869;

pub const CIDR: u32 = 650;

pub const MACADDR8: u32 = 774;

/// `char(n)`
pub const BPCHAR: u32 = 1042;

pub const VARCHAR: u32 = 1043;

pub const DATE: u32 = 1082;

pub const TIME: u32 = 1083;

pub const TIMESTAMP: u32 = 1114;

pub const TIMESTAMPTZ: u32 = 1184;

pub const INTERVAL: u32 = 1186;

pub const TIMETZ: u32 = 1266;

pub const BIT: u32 = 1560;

pub const VARBIT: u32 = 1562;

pub const NUMERIC: u32 = 1700;

pub const UUID: u32 = 2950;

pub const JSONB: u32 = 3802;

pub const INT2_ARRAY: u32 = 1005;

pub const INT4_ARRAY: u32 = 1007;

pub const INT8_ARRAY: u32 = 1016;

pub const TEXT_ARRAY: u32 = 1009;

pub const VARCHAR_ARRAY: u32 = 1015;

pub const FLOAT4_ARRAY: u32 = 1021;

pub const FLOAT8_ARRAY: u32 = 1022;

} // verus!
