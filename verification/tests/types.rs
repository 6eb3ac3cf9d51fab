use bytes::Bytes;
use pg_cdc::message::{Column, TupleData};
use pg_cdc::model::{DataType, Value};
use pg_cdc::money::strip_money_symbol;
use pg_cdc::pg_array::parse_pg_array;
use pg_cdc::timestamp::normalize_timestamptz;
use pg_cdc::types::pg_oid;
use pg_cdc::types::{
    columns_to_defs, pg_type_to_data_type, tuple_data_to_value, PgTypeMapper,
};

#[test]
fn test_basic_type_mapping() {
    assert_eq!(pg_type_to_data_type(pg_oid::BOOL, -1), DataType::Boolean);
    assert_eq!(pg_type_to_data_type(pg_oid::INT2, -1), DataType::Int16);
    assert_eq!(pg_type_to_data_type(pg_oid::INT4, -1), DataType::Int32);
    assert_eq!(pg_type_to_data_type(pg_oid::INT8, -1), DataType::Int64);
    assert_eq!(pg_type_to_data_type(pg_oid::FLOAT4, -1), DataType::Float32);
    assert_eq!(pg_type_to_data_type(pg_oid::FLOAT8, -1), DataType::Float64);
    assert_eq!(pg_type_to_data_type(pg_oid::TEXT, -1), DataType::Text);
    assert_eq!(pg_type_to_data_type(pg_oid::VARCHAR, -1), DataType::String);
    assert_eq!(pg_type_to_data_type(pg_oid::UUID, -1), DataType::Uuid);
    assert_eq!(pg_type_to_data_type(pg_oid::JSON, -1), DataType::Json);
    assert_eq!(pg_type_to_data_type(pg_oid::JSONB, -1), DataType::Jsonb);
}

#[test]
fn test_temporal_type_mapping() {
    assert_eq!(pg_type_to_data_type(pg_oid::DATE, -1), DataType::Date);
    assert_eq!(pg_type_to_data_type(pg_oid::TIME, -1), DataType::Time);
    assert_eq!(
        pg_type_to_data_type(pg_oid::TIMESTAMP, -1),
        DataType::Timestamp
    );
    assert_eq!(
        pg_type_to_data_type(pg_oid::TIMESTAMPTZ, -1),
        DataType::TimestampTz
    );
}

#[test]
fn test_numeric_with_precision() {
    // NUMERIC(10,2) has type_mod = (10 << 16) | (2 + 4) = 655366
    let type_mod = (10 << 16) | (2 + 4);
    let dt = pg_type_to_data_type(pg_oid::NUMERIC, type_mod);
    assert_eq!(
        dt,
        DataType::Decimal {
            precision: 10,
            scale: 2
        }
    );
}

#[test]
fn test_tuple_data_conversion() {
    // NULL
    let null_val = tuple_data_to_value(&TupleData::Null, pg_oid::INT4);
    assert!(matches!(null_val, Value::Null));

    // TOAST
    let toast_val = tuple_data_to_value(&TupleData::Toast, pg_oid::TEXT);
    assert!(matches!(toast_val, Value::Unchanged));

    // Integer
    let int_val = tuple_data_to_value(&TupleData::Text(Bytes::from("42")), pg_oid::INT4);
    assert!(matches!(int_val, Value::Int64(42)));

    // Float
    let float_val = tuple_data_to_value(&TupleData::Text(Bytes::from("3.5")), pg_oid::FLOAT8);
    match float_val {
        Value::Float64(literal) => {
            let f: f64 = literal.parse().unwrap();
            assert!((f - 3.5).abs() < 0.001)
        }
        _ => panic!("Expected Float64"),
    }

    // Boolean true
    let bool_val = tuple_data_to_value(&TupleData::Text(Bytes::from("t")), pg_oid::BOOL);
    assert!(matches!(bool_val, Value::Bool(true)));

    // Boolean false
    let bool_val = tuple_data_to_value(&TupleData::Text(Bytes::from("f")), pg_oid::BOOL);
    assert!(matches!(bool_val, Value::Bool(false)));

    // String
    let str_val = tuple_data_to_value(&TupleData::Text(Bytes::from("hello")), pg_oid::TEXT);
    match str_val {
        Value::String(s) => assert_eq!(s, "hello"),
        _ => panic!("Expected String"),
    }
}

#[test]
fn test_type_predicates() {
    assert!(PgTypeMapper::is_numeric(pg_oid::INT4));
    assert!(PgTypeMapper::is_numeric(pg_oid::FLOAT8));
    assert!(PgTypeMapper::is_numeric(pg_oid::NUMERIC));
    assert!(!PgTypeMapper::is_numeric(pg_oid::TEXT));

    assert!(PgTypeMapper::is_text(pg_oid::TEXT));
    assert!(PgTypeMapper::is_text(pg_oid::VARCHAR));
    assert!(!PgTypeMapper::is_text(pg_oid::INT4));

    assert!(PgTypeMapper::is_temporal(pg_oid::TIMESTAMP));
    assert!(PgTypeMapper::is_temporal(pg_oid::DATE));
    assert!(!PgTypeMapper::is_temporal(pg_oid::TEXT));

    assert!(PgTypeMapper::is_json(pg_oid::JSON));
    assert!(PgTypeMapper::is_json(pg_oid::JSONB));
    assert!(!PgTypeMapper::is_json(pg_oid::TEXT));
}

#[test]
fn test_columns_to_defs() {
    let columns = vec![
        Column {
            flags: 1, // key column
            name: "id".to_string(),
            type_id: pg_oid::INT4,
            type_mod: -1,
        },
        Column {
            flags: 0, // regular column
            name: "name".to_string(),
            type_id: pg_oid::VARCHAR,
            type_mod: -1,
        },
    ];

    let defs = columns_to_defs(&columns);

    assert_eq!(defs.len(), 2);
    assert_eq!(defs[0].name, "id");
    assert_eq!(defs[0].data_type, DataType::Int32);
    assert!(!defs[0].nullable); // key column

    assert_eq!(defs[1].name, "name");
    assert_eq!(defs[1].data_type, DataType::String);
    assert!(defs[1].nullable); // non-key column
}

#[test]
fn test_parse_pg_array_int() {
    assert_eq!(parse_pg_array("{1,2,3}", "int"), "[1,2,3]");
    assert_eq!(parse_pg_array("{-10,0,42}", "int"), "[-10,0,42]");
    assert_eq!(parse_pg_array("{}", "int"), "[]");
    assert_eq!(parse_pg_array("{NULL,1,2}", "int"), "[null,1,2]");
    assert_eq!(parse_pg_array("{10}", "int"), "[10]");
}

#[test]
fn test_parse_pg_array_float() {
    assert_eq!(parse_pg_array("{1.5,2.3,3.0}", "float"), "[1.5,2.3,3.0]");
    assert_eq!(parse_pg_array("{NaN}", "float"), "[\"NaN\"]");
    assert_eq!(
        parse_pg_array("{Infinity,-Infinity}", "float"),
        "[\"Infinity\",\"-Infinity\"]"
    );
    assert_eq!(parse_pg_array("{NULL,1.0}", "float"), "[null,1.0]");
}

#[test]
fn test_parse_pg_array_text() {
    assert_eq!(
        parse_pg_array("{hello,world}", "text"),
        "[\"hello\",\"world\"]"
    );
    assert_eq!(
        parse_pg_array("{\"with comma, here\",simple}", "text"),
        "[\"with comma, here\",\"simple\"]"
    );
    assert_eq!(
        parse_pg_array("{\"with \\\"quotes\\\"\"}", "text"),
        "[\"with \\\"quotes\\\"\"]"
    );
    assert_eq!(parse_pg_array("{}", "text"), "[]");
    assert_eq!(parse_pg_array("{NULL}", "text"), "[null]");
}

#[test]
fn test_normalize_timestamptz() {
    // Standard offset
    assert_eq!(
        normalize_timestamptz("2024-06-15 17:30:00+05:30"),
        "2024-06-15 12:00:00"
    );
    // UTC
    assert_eq!(
        normalize_timestamptz("2024-06-15 17:30:00+00:00"),
        "2024-06-15 17:30:00"
    );
    // Short offset (PG often emits +00 instead of +00:00)
    assert_eq!(
        normalize_timestamptz("2024-06-15 17:30:00+00"),
        "2024-06-15 17:30:00"
    );
    // Negative offset
    assert_eq!(
        normalize_timestamptz("2024-06-15 17:30:00-03:00"),
        "2024-06-15 20:30:00"
    );
    // With microseconds
    assert_eq!(
        normalize_timestamptz("2024-06-15 17:30:00.123456+05:30"),
        "2024-06-15 12:00:00.123456"
    );
    // Fallback: invalid input returned as-is
    assert_eq!(normalize_timestamptz("not a timestamp"), "not a timestamp");
}

#[test]
fn test_strip_money_symbol() {
    assert_eq!(strip_money_symbol("$99.95"), "99.95");
    assert_eq!(strip_money_symbol("$1,234.56"), "1234.56");
    assert_eq!(strip_money_symbol("-$100.00"), "-100.00");
    assert_eq!(strip_money_symbol("$0.00"), "0.00");
    // European-style with only comma as decimal
    assert_eq!(strip_money_symbol("€99,95"), "99.95");
    // Plain number (no symbol)
    assert_eq!(strip_money_symbol("42.50"), "42.50");
}

#[test]
fn test_tuple_data_money() {
    let val = tuple_data_to_value(&TupleData::Text(Bytes::from("$99.95")), pg_oid::MONEY);
    match val {
        Value::Decimal(s) => assert_eq!(s, "99.95"),
        _ => panic!("Expected Decimal, got {:?}", val),
    }
}

#[test]
fn test_tuple_data_timestamptz() {
    let val = tuple_data_to_value(
        &TupleData::Text(Bytes::from("2024-06-15 17:30:00+05:30")),
        pg_oid::TIMESTAMPTZ,
    );
    match val {
        Value::String(s) => assert_eq!(s, "2024-06-15 12:00:00"),
        _ => panic!("Expected String, got {:?}", val),
    }
}

#[test]
fn test_tuple_data_int_array() {
    let val = tuple_data_to_value(
        &TupleData::Text(Bytes::from("{10,20,30}")),
        pg_oid::INT4_ARRAY,
    );
    match val {
        Value::Json(s) => assert_eq!(s, "[10,20,30]"),
        _ => panic!("Expected Json, got {:?}", val),
    }
}

#[test]
fn test_tuple_data_float_array() {
    let val = tuple_data_to_value(
        &TupleData::Text(Bytes::from("{1.5,2.5}")),
        pg_oid::FLOAT8_ARRAY,
    );
    match val {
        Value::Json(s) => assert_eq!(s, "[1.5,2.5]"),
        _ => panic!("Expected Json, got {:?}", val),
    }
}

#[test]
fn test_tuple_data_text_array() {
    let val = tuple_data_to_value(
        &TupleData::Text(Bytes::from("{hello,world}")),
        pg_oid::TEXT_ARRAY,
    );
    match val {
        Value::Json(s) => assert_eq!(s, "[\"hello\",\"world\"]"),
        _ => panic!("Expected Json, got {:?}", val),
    }
}
