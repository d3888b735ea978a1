use bigdecimal::BigDecimal;
use mysql_binlog::column_types::MYSQL_TYPE_NEWDECIMAL;
use mysql_binlog::decode_helper;
use mysql_binlog::error::ReplicationError;
use mysql_binlog::event::Event;
use mysql_binlog::fields::{DecodeDatetime, DecodeDecimal, DecodeFieldData, DecodeJson};
use mysql_binlog::rows_event::RowsEvent;
use mysql_binlog::table_map::TableMapEvent;
use std::collections::HashMap;
use std::str::FromStr;

/// The text of a decoded DECIMAL value.
fn decimal_string(v: &DecodeDecimal) -> String {
    match v {
        DecodeDecimal::Decimal(d) => d.to_string(),
        DecodeDecimal::String(s) => s.clone(),
        DecodeDecimal::Unknown => String::new(),
    }
}

/// A decoded JSON document as a JSON value.
fn json_value(v: &DecodeJson) -> serde_json::Value {
    match v {
        DecodeJson::Null => serde_json::Value::Null,
        DecodeJson::Bool(b) => serde_json::Value::Bool(*b),
        DecodeJson::Isize(i) => serde_json::Value::from(*i),
        DecodeJson::Usize(u) => serde_json::Value::from(*u),
        DecodeJson::F64(bits) => serde_json::Value::from(f64::from_bits(*bits)),
        DecodeJson::String(s) => serde_json::Value::String(s.clone()),
        DecodeJson::Decimal(d) => serde_json::Value::String(decimal_string(d)),
        DecodeJson::Datetime(DecodeDatetime::String(s)) => serde_json::Value::String(s.clone()),
        DecodeJson::Datetime(DecodeDatetime::FracTime(t)) => serde_json::Value::String(t.to_text()),
        DecodeJson::Vec(items) => serde_json::Value::Array(items.iter().map(json_value).collect()),
        DecodeJson::Object(members) => {
            let mut m = serde_json::Map::new();
            for (k, val) in members {
                m.insert(k.clone(), json_value(val));
            }
            serde_json::Value::Object(m)
        }
        DecodeJson::Bytes(b) => serde_json::Value::from(b.clone()),
        DecodeJson::JsonDiff(_) => serde_json::Value::Null,
    }
}

/// The JSON text of a decoded JSON column value.
fn json_text(v: &DecodeFieldData) -> String {
    match v {
        DecodeFieldData::Json(j) => serde_json::to_string(&json_value(j)).unwrap(),
        _ => String::from("<not json>"),
    }
}

#[test]
fn test_decode_decimal() -> Result<(), ReplicationError> {
    // _PLACEHOLDER_ := 0
    struct Case {
        pub data: Vec<u8>,
        pub precision: isize,
        pub decimals: isize,
        pub expected: String,
        pub expected_pos: isize,
        pub expected_err: Result<(), ReplicationError>,
    }
    let test_cases = vec![
        Case {
            data: vec![117_u8, 200, 127, 255],
            precision: 4,
            decimals: 2,
            expected: "-10.55".to_string(),
            expected_pos: 2,
            expected_err: Ok(()),
        },
        Case {
            data: vec![127, 255, 244, 127, 245],
            precision: 5,
            decimals: 0,
            expected: "-11".to_string(),
            expected_pos: 3,
            expected_err: Ok(()),
        },
        Case {
            data: vec![127, 245, 253, 217, 127, 255],
            precision: 7,
            decimals: 3,
            expected: "-10.550".to_string(),
            expected_pos: 4,
            expected_err: Ok(()),
        },
        Case {
            data: vec![127, 255, 255, 245, 253, 217, 127, 255],
            precision: 10,
            decimals: 3,
            expected: "-10.550".to_string(),
            expected_pos: 6,
            expected_err: Ok(()),
        },
        Case {
            data: vec![127, 255, 255, 255, 245, 200, 118, 196],
            precision: 13,
            decimals: 2,
            expected: "-10.55".to_string(),
            expected_pos: 6,
            expected_err: Ok(()),
        },
        Case {
            data: vec![118, 196, 101, 54, 0, 254, 121, 96, 127, 255],
            precision: 15,
            decimals: 14,
            expected: "-9.99999999999999".to_string(),
            expected_pos: 8,
            expected_err: Ok(()),
        },
        Case {
            data: vec![127, 255, 255, 255, 245, 223, 55, 170, 127, 255, 127, 255],
            precision: 20,
            decimals: 10,
            expected: "-10.5500000000".to_string(),
            expected_pos: 10,
            expected_err: Ok(()),
        },
        Case {
            data: vec![
                127, 255, 255, 255, 255, 255, 255, 255, 255, 255, 255, 245, 255, 41, 39, 127,
                255,
            ],
            precision: 30,
            decimals: 5,
            expected: "-10.55000".to_string(),
            expected_pos: 15,
            expected_err: Ok(()),
        },
        Case {
            data: vec![
                127, 255, 255, 255, 245, 223, 55, 170, 127, 255, 255, 255, 255, 255, 127, 255,
            ],
            precision: 30,
            decimals: 20,
            expected: "-10.55000000000000000000".to_string(),
            expected_pos: 14,
            expected_err: Ok(()),
        },
        Case {
            data: vec![
                127, 255, 245, 223, 55, 170, 127, 255, 255, 255, 255, 255, 255, 255, 255, 4, 0,
            ],
            precision: 30,
            decimals: 25,
            expected: "-10.5500000000000000000000000".to_string(),
            expected_pos: 15,
            expected_err: Ok(()),
        },
        Case {
            data: vec![128, 1, 128, 0],
            precision: 4,
            decimals: 2,
            expected: "0.01".to_string(),
            expected_pos: 2,
            expected_err: Ok(()),
        },
        Case {
            data: vec![128, 0, 0, 0, 1, 128, 0],
            precision: 10,
            decimals: 2,
            expected: "0.01".to_string(),
            expected_pos: 5,
            expected_err: Ok(()),
        },
        Case {
            data: vec![128, 0, 0, 0, 0, 12, 128, 0],
            precision: 10,
            decimals: 3,
            expected: "0.012".to_string(),
            expected_pos: 6,
            expected_err: Ok(()),
        },
        Case {
            data: vec![128, 0, 0, 0, 0, 1, 128, 0],
            precision: 13,
            decimals: 2,
            expected: "0.01".to_string(),
            expected_pos: 6,
            expected_err: Ok(()),
        },
        Case {
            data: vec![128, 0, 188, 97, 78, 1, 96, 11, 128, 0],
            precision: 15,
            decimals: 14,
            expected: "0.01234567890123".to_string(),
            expected_pos: 8,
            expected_err: Ok(()),
        },
        Case {
            data: vec![128, 0, 0, 0, 0, 0, 188, 97, 78, 9, 128, 0],
            precision: 20,
            decimals: 10,
            expected: "0.0123456789".to_string(),
            expected_pos: 10,
            expected_err: Ok(()),
        },
        Case {
            data: vec![128, 0, 0, 0, 0, 0, 0, 0, 0, 0, 0, 0, 0, 4, 211, 128, 0],
            precision: 30,
            decimals: 5,
            expected: "0.01235".to_string(),
            expected_pos: 15,
            expected_err: Ok(()),
        },
        Case {
            data: vec![
                128, 0, 0, 0, 0, 0, 188, 97, 78, 53, 183, 191, 135, 89, 128, 0,
            ],
            precision: 30,
            decimals: 20,
            expected: "0.01234567890123456789".to_string(),
            expected_pos: 14,
            expected_err: Ok(()),
        },
        Case {
            data: vec![
                128, 0, 0, 0, 188, 97, 78, 53, 183, 191, 135, 0, 135, 253, 217, 30, 0,
            ],
            precision: 30,
            decimals: 25,
            expected: "0.0123456789012345678912345".to_string(),
            expected_pos: 15,
            expected_err: Ok(()),
        },
        Case {
            data: vec![227, 99, 128, 48],
            precision: 4,
            decimals: 2,
            expected: "99.99".to_string(),
            expected_pos: 2,
            expected_err: Ok(()),
        },
        Case {
            data: vec![128, 48, 57, 167, 15],
            precision: 5,
            decimals: 0,
            expected: "12345".to_string(),
            expected_pos: 3,
            expected_err: Ok(()),
        },
        Case {
            data: vec![167, 15, 3, 231, 128, 0],
            precision: 7,
            decimals: 3,
            expected: "9999.999".to_string(),
            expected_pos: 4,
            expected_err: Ok(()),
        },
        Case {
            data: vec![128, 0, 48, 57, 0, 128, 0],
            precision: 10,
            decimals: 2,
            expected: "12345.00".to_string(),
            expected_pos: 5,
            expected_err: Ok(()),
        },
        Case {
            data: vec![128, 0, 48, 57, 0, 0, 128, 0],
            precision: 10,
            decimals: 3,
            expected: "12345.000".to_string(),
            expected_pos: 6,
            expected_err: Ok(()),
        },
        Case {
            data: vec![128, 0, 0, 48, 57, 0, 137, 59],
            precision: 13,
            decimals: 2,
            expected: "12345.00".to_string(),
            expected_pos: 6,
            expected_err: Ok(()),
        },
        Case {
            data: vec![137, 59, 154, 201, 255, 1, 134, 159, 128, 0],
            precision: 15,
            decimals: 14,
            expected: "9.99999999999999".to_string(),
            expected_pos: 8,
            expected_err: Ok(()),
        },
        Case {
            data: vec![128, 0, 0, 48, 57, 0, 0, 0, 0, 0, 128, 0],
            precision: 20,
            decimals: 10,
            expected: "12345.0000000000".to_string(),
            expected_pos: 10,
            expected_err: Ok(()),
        },
        Case {
            data: vec![128, 0, 0, 0, 0, 0, 0, 0, 0, 0, 48, 57, 0, 0, 0, 128, 0],
            precision: 30,
            decimals: 5,
            expected: "12345.00000".to_string(),
            expected_pos: 15,
            expected_err: Ok(()),
        },
        Case {
            data: vec![128, 0, 0, 48, 57, 0, 0, 0, 0, 0, 0, 0, 0, 0, 128, 48],
            precision: 30,
            decimals: 20,
            expected: "12345.00000000000000000000".to_string(),
            expected_pos: 14,
            expected_err: Ok(()),
        },
        Case {
            data: vec![128, 48, 57, 0, 0, 0, 0, 0, 0, 0, 0, 0, 0, 0, 0, 5, 0],
            precision: 30,
            decimals: 25,
            expected: "12345.0000000000000000000000000".to_string(),
            expected_pos: 15,
            expected_err: Ok(()),
        },
        Case {
            data: vec![227, 99, 128, 48],
            precision: 4,
            decimals: 2,
            expected: "99.99".to_string(),
            expected_pos: 2,
            expected_err: Ok(()),
        },
        Case {
            data: vec![128, 48, 57, 167, 15],
            precision: 5,
            decimals: 0,
            expected: "12345".to_string(),
            expected_pos: 3,
            expected_err: Ok(()),
        },
        Case {
            data: vec![167, 15, 3, 231, 128, 0],
            precision: 7,
            decimals: 3,
            expected: "9999.999".to_string(),
            expected_pos: 4,
            expected_err: Ok(()),
        },
        Case {
            data: vec![128, 0, 48, 57, 0, 128, 0],
            precision: 10,
            decimals: 2,
            expected: "12345.00".to_string(),
            expected_pos: 5,
            expected_err: Ok(()),
        },
        Case {
            data: vec![128, 0, 48, 57, 0, 0, 128, 0],
            precision: 10,
            decimals: 3,
            expected: "12345.000".to_string(),
            expected_pos: 6,
            expected_err: Ok(()),
        },
        Case {
            data: vec![128, 0, 0, 48, 57, 0, 137, 59],
            precision: 13,
            decimals: 2,
            expected: "12345.00".to_string(),
            expected_pos: 6,
            expected_err: Ok(()),
        },
        Case {
            data: vec![137, 59, 154, 201, 255, 1, 134, 159, 128, 0],
            precision: 15,
            decimals: 14,
            expected: "9.99999999999999".to_string(),
            expected_pos: 8,
            expected_err: Ok(()),
        },
        Case {
            data: vec![128, 0, 0, 48, 57, 0, 0, 0, 0, 0, 128, 0],
            precision: 20,
            decimals: 10,
            expected: "12345.0000000000".to_string(),
            expected_pos: 10,
            expected_err: Ok(()),
        },
        Case {
            data: vec![128, 0, 0, 0, 0, 0, 0, 0, 0, 0, 48, 57, 0, 0, 0, 128, 0],
            precision: 30,
            decimals: 5,
            expected: "12345.00000".to_string(),
            expected_pos: 15,
            expected_err: Ok(()),
        },
        Case {
            data: vec![128, 0, 0, 48, 57, 0, 0, 0, 0, 0, 0, 0, 0, 0, 128, 48],
            precision: 30,
            decimals: 20,
            expected: "12345.00000000000000000000".to_string(),
            expected_pos: 14,
            expected_err: Ok(()),
        },
        Case {
            data: vec![128, 48, 57, 0, 0, 0, 0, 0, 0, 0, 0, 0, 0, 0, 0, 5, 0],
            precision: 30,
            decimals: 25,
            expected: "12345.0000000000000000000000000".to_string(),
            expected_pos: 15,
            expected_err: Ok(()),
        },
        Case {
            data: vec![227, 99, 128, 48],
            precision: 4,
            decimals: 2,
            expected: "99.99".to_string(),
            expected_pos: 2,
            expected_err: Ok(()),
        },
        Case {
            data: vec![128, 48, 57, 167, 15],
            precision: 5,
            decimals: 0,
            expected: "12345".to_string(),
            expected_pos: 3,
            expected_err: Ok(()),
        },
        Case {
            data: vec![167, 15, 3, 231, 128, 0],
            precision: 7,
            decimals: 3,
            expected: "9999.999".to_string(),
            expected_pos: 4,
            expected_err: Ok(()),
        },
        Case {
            data: vec![128, 0, 48, 57, 0, 128, 0],
            precision: 10,
            decimals: 2,
            expected: "12345.00".to_string(),
            expected_pos: 5,
            expected_err: Ok(()),
        },
        Case {
            data: vec![128, 0, 48, 57, 0, 0, 128, 0],
            precision: 10,
            decimals: 3,
            expected: "12345.000".to_string(),
            expected_pos: 6,
            expected_err: Ok(()),
        },
        Case {
            data: vec![128, 0, 0, 48, 57, 0, 137, 59],
            precision: 13,
            decimals: 2,
            expected: "12345.00".to_string(),
            expected_pos: 6,
            expected_err: Ok(()),
        },
        Case {
            data: vec![137, 59, 154, 201, 255, 1, 134, 159, 128, 0],
            precision: 15,
            decimals: 14,
            expected: "9.99999999999999".to_string(),
            expected_pos: 8,
            expected_err: Ok(()),
        },
        Case {
            data: vec![128, 0, 0, 48, 57, 0, 0, 0, 0, 0, 128, 0],
            precision: 20,
            decimals: 10,
            expected: "12345.0000000000".to_string(),
            expected_pos: 10,
            expected_err: Ok(()),
        },
        Case {
            data: vec![128, 0, 0, 0, 0, 0, 0, 0, 0, 0, 48, 57, 0, 0, 0, 128, 0],
            precision: 30,
            decimals: 5,
            expected: "12345.00000".to_string(),
            expected_pos: 15,
            expected_err: Ok(()),
        },
        Case {
            data: vec![128, 0, 0, 48, 57, 0, 0, 0, 0, 0, 0, 0, 0, 0, 128, 48],
            precision: 30,
            decimals: 20,
            expected: "12345.00000000000000000000".to_string(),
            expected_pos: 14,
            expected_err: Ok(()),
        },
        Case {
            data: vec![128, 48, 57, 0, 0, 0, 0, 0, 0, 0, 0, 0, 0, 0, 0, 10, 0],
            precision: 30,
            decimals: 25,
            expected: "12345.0000000000000000000000000".to_string(),
            expected_pos: 15,
            expected_err: Ok(()),
        },
        Case {
            data: vec![227, 99, 128, 0],
            precision: 4,
            decimals: 2,
            expected: "99.99".to_string(),
            expected_pos: 2,
            expected_err: Ok(()),
        },
        Case {
            data: vec![128, 0, 123, 128, 123],
            precision: 5,
            decimals: 0,
            expected: "123".to_string(),
            expected_pos: 3,
            expected_err: Ok(()),
        },
        Case {
            data: vec![128, 123, 1, 194, 128, 0],
            precision: 7,
            decimals: 3,
            expected: "123.450".to_string(),
            expected_pos: 4,
            expected_err: Ok(()),
        },
        Case {
            data: vec![128, 0, 0, 123, 45, 128, 0],
            precision: 10,
            decimals: 2,
            expected: "123.45".to_string(),
            expected_pos: 5,
            expected_err: Ok(()),
        },
        Case {
            data: vec![128, 0, 0, 123, 1, 194, 128, 0],
            precision: 10,
            decimals: 3,
            expected: "123.450".to_string(),
            expected_pos: 6,
            expected_err: Ok(()),
        },
        Case {
            data: vec![128, 0, 0, 0, 123, 45, 137, 59],
            precision: 13,
            decimals: 2,
            expected: "123.45".to_string(),
            expected_pos: 6,
            expected_err: Ok(()),
        },
        Case {
            data: vec![137, 59, 154, 201, 255, 1, 134, 159, 128, 0],
            precision: 15,
            decimals: 14,
            expected: "9.99999999999999".to_string(),
            expected_pos: 8,
            expected_err: Ok(()),
        },
        Case {
            data: vec![128, 0, 0, 0, 123, 26, 210, 116, 128, 0, 128, 0],
            precision: 20,
            decimals: 10,
            expected: "123.4500000000".to_string(),
            expected_pos: 10,
            expected_err: Ok(()),
        },
        Case {
            data: vec![128, 0, 0, 0, 0, 0, 0, 0, 0, 0, 0, 123, 0, 175, 200, 128, 0],
            precision: 30,
            decimals: 5,
            expected: "123.45000".to_string(),
            expected_pos: 15,
            expected_err: Ok(()),
        },
        Case {
            data: vec![128, 0, 0, 0, 123, 26, 210, 116, 128, 0, 0, 0, 0, 0, 128, 0],
            precision: 30,
            decimals: 20,
            expected: "123.45000000000000000000".to_string(),
            expected_pos: 14,
            expected_err: Ok(()),
        },
        Case {
            data: vec![
                128, 0, 123, 26, 210, 116, 128, 0, 0, 0, 0, 0, 0, 0, 0, 10, 0,
            ],
            precision: 30,
            decimals: 25,
            expected: "123.4500000000000000000000000".to_string(),
            expected_pos: 15,
            expected_err: Ok(()),
        },
        Case {
            data: vec![28, 156, 127, 255],
            precision: 4,
            decimals: 2,
            expected: "-99.99".to_string(),
            expected_pos: 2,
            expected_err: Ok(()),
        },
        Case {
            data: vec![127, 255, 132, 127, 132],
            precision: 5,
            decimals: 0,
            expected: "-123".to_string(),
            expected_pos: 3,
            expected_err: Ok(()),
        },
        Case {
            data: vec![127, 132, 254, 61, 127, 255],
            precision: 7,
            decimals: 3,
            expected: "-123.450".to_string(),
            expected_pos: 4,
            expected_err: Ok(()),
        },
        Case {
            data: vec![127, 255, 255, 132, 210, 127, 255],
            precision: 10,
            decimals: 2,
            expected: "-123.45".to_string(),
            expected_pos: 5,
            expected_err: Ok(()),
        },
        Case {
            data: vec![127, 255, 255, 132, 254, 61, 127, 255],
            precision: 10,
            decimals: 3,
            expected: "-123.450".to_string(),
            expected_pos: 6,
            expected_err: Ok(()),
        },
        Case {
            data: vec![127, 255, 255, 255, 132, 210, 118, 196],
            precision: 13,
            decimals: 2,
            expected: "-123.45".to_string(),
            expected_pos: 6,
            expected_err: Ok(()),
        },
        Case {
            data: vec![118, 196, 101, 54, 0, 254, 121, 96, 127, 255],
            precision: 15,
            decimals: 14,
            expected: "-9.99999999999999".to_string(),
            expected_pos: 8,
            expected_err: Ok(()),
        },
        Case {
            data: vec![127, 255, 255, 255, 132, 229, 45, 139, 127, 255, 127, 255],
            precision: 20,
            decimals: 10,
            expected: "-123.4500000000".to_string(),
            expected_pos: 10,
            expected_err: Ok(()),
        },
        Case {
            data: vec![
                127, 255, 255, 255, 255, 255, 255, 255, 255, 255, 255, 132, 255, 80, 55, 127,
                255,
            ],
            precision: 30,
            decimals: 5,
            expected: "-123.45000".to_string(),
            expected_pos: 15,
            expected_err: Ok(()),
        },
        Case {
            data: vec![
                127, 255, 255, 255, 132, 229, 45, 139, 127, 255, 255, 255, 255, 255, 127, 255,
            ],
            precision: 30,
            decimals: 20,
            expected: "-123.45000000000000000000".to_string(),
            expected_pos: 14,
            expected_err: Ok(()),
        },
        Case {
            data: vec![
                127, 255, 132, 229, 45, 139, 127, 255, 255, 255, 255, 255, 255, 255, 255, 20, 0,
            ],
            precision: 30,
            decimals: 25,
            expected: "-123.4500000000000000000000000".to_string(),
            expected_pos: 15,
            expected_err: Ok(()),
        },
        Case {
            data: vec![128, 0, 128, 0],
            precision: 4,
            decimals: 2,
            expected: "0.00".to_string(),
            expected_pos: 2,
            expected_err: Ok(()),
        },
        Case {
            data: vec![128, 0, 0, 128, 0],
            precision: 5,
            decimals: 0,
            expected: "0".to_string(),
            expected_pos: 3,
            expected_err: Ok(()),
        },
        Case {
            data: vec![128, 0, 0, 0, 128, 0],
            precision: 7,
            decimals: 3,
            expected: "0.000".to_string(),
            expected_pos: 4,
            expected_err: Ok(()),
        },
        Case {
            data: vec![128, 0, 0, 0, 0, 128, 0],
            precision: 10,
            decimals: 2,
            expected: "0.00".to_string(),
            expected_pos: 5,
            expected_err: Ok(()),
        },
        Case {
            data: vec![128, 0, 0, 0, 0, 0, 128, 0],
            precision: 10,
            decimals: 3,
            expected: "0.000".to_string(),
            expected_pos: 6,
            expected_err: Ok(()),
        },
        Case {
            data: vec![128, 0, 0, 0, 0, 0, 128, 0],
            precision: 13,
            decimals: 2,
            expected: "0.00".to_string(),
            expected_pos: 6,
            expected_err: Ok(()),
        },
        Case {
            data: vec![128, 0, 1, 226, 58, 0, 0, 99, 128, 0],
            precision: 15,
            decimals: 14,
            expected: "0.00012345000099".to_string(),
            expected_pos: 8,
            expected_err: Ok(()),
        },
        Case {
            data: vec![128, 0, 0, 0, 0, 0, 1, 226, 58, 0, 128, 0],
            precision: 20,
            decimals: 10,
            expected: "0.0001234500".to_string(),
            expected_pos: 10,
            expected_err: Ok(()),
        },
        Case {
            data: vec![128, 0, 0, 0, 0, 0, 0, 0, 0, 0, 0, 0, 0, 0, 12, 128, 0],
            precision: 30,
            decimals: 5,
            expected: "0.00012".to_string(),
            expected_pos: 15,
            expected_err: Ok(()),
        },
        Case {
            data: vec![128, 0, 0, 0, 0, 0, 1, 226, 58, 0, 15, 18, 2, 0, 128, 0],
            precision: 30,
            decimals: 20,
            expected: "0.00012345000098765000".to_string(),
            expected_pos: 14,
            expected_err: Ok(()),
        },
        Case {
            data: vec![128, 0, 0, 0, 1, 226, 58, 0, 15, 18, 2, 0, 0, 0, 0, 15, 0],
            precision: 30,
            decimals: 25,
            expected: "0.0001234500009876500000000".to_string(),
            expected_pos: 15,
            expected_err: Ok(()),
        },
        Case {
            data: vec![128, 0, 128, 0],
            precision: 4,
            decimals: 2,
            expected: "0.00".to_string(),
            expected_pos: 2,
            expected_err: Ok(()),
        },
        Case {
            data: vec![128, 0, 0, 128, 0],
            precision: 5,
            decimals: 0,
            expected: "0".to_string(),
            expected_pos: 3,
            expected_err: Ok(()),
        },
        Case {
            data: vec![128, 0, 0, 0, 128, 0],
            precision: 7,
            decimals: 3,
            expected: "0.000".to_string(),
            expected_pos: 4,
            expected_err: Ok(()),
        },
        Case {
            data: vec![128, 0, 0, 0, 0, 128, 0],
            precision: 10,
            decimals: 2,
            expected: "0.00".to_string(),
            expected_pos: 5,
            expected_err: Ok(()),
        },
        Case {
            data: vec![128, 0, 0, 0, 0, 0, 128, 0],
            precision: 10,
            decimals: 3,
            expected: "0.000".to_string(),
            expected_pos: 6,
            expected_err: Ok(()),
        },
        Case {
            data: vec![128, 0, 0, 0, 0, 0, 128, 0],
            precision: 13,
            decimals: 2,
            expected: "0.00".to_string(),
            expected_pos: 6,
            expected_err: Ok(()),
        },
        Case {
            data: vec![128, 0, 1, 226, 58, 0, 0, 99, 128, 0],
            precision: 15,
            decimals: 14,
            expected: "0.00012345000099".to_string(),
            expected_pos: 8,
            expected_err: Ok(()),
        },
        Case {
            data: vec![128, 0, 0, 0, 0, 0, 1, 226, 58, 0, 128, 0],
            precision: 20,
            decimals: 10,
            expected: "0.0001234500".to_string(),
            expected_pos: 10,
            expected_err: Ok(()),
        },
        Case {
            data: vec![128, 0, 0, 0, 0, 0, 0, 0, 0, 0, 0, 0, 0, 0, 12, 128, 0],
            precision: 30,
            decimals: 5,
            expected: "0.00012".to_string(),
            expected_pos: 15,
            expected_err: Ok(()),
        },
        Case {
            data: vec![128, 0, 0, 0, 0, 0, 1, 226, 58, 0, 15, 18, 2, 0, 128, 0],
            precision: 30,
            decimals: 20,
            expected: "0.00012345000098765000".to_string(),
            expected_pos: 14,
            expected_err: Ok(()),
        },
        Case {
            data: vec![128, 0, 0, 0, 1, 226, 58, 0, 15, 18, 2, 0, 0, 0, 0, 22, 0],
            precision: 30,
            decimals: 25,
            expected: "0.0001234500009876500000000".to_string(),
            expected_pos: 15,
            expected_err: Ok(()),
        },
        Case {
            data: vec![128, 12, 128, 0],
            precision: 4,
            decimals: 2,
            expected: "0.12".to_string(),
            expected_pos: 2,
            expected_err: Ok(()),
        },
        Case {
            data: vec![128, 0, 0, 128, 0],
            precision: 5,
            decimals: 0,
            expected: "0".to_string(),
            expected_pos: 3,
            expected_err: Ok(()),
        },
        Case {
            data: vec![128, 0, 0, 123, 128, 0],
            precision: 7,
            decimals: 3,
            expected: "0.123".to_string(),
            expected_pos: 4,
            expected_err: Ok(()),
        },
        Case {
            data: vec![128, 0, 0, 0, 12, 128, 0],
            precision: 10,
            decimals: 2,
            expected: "0.12".to_string(),
            expected_pos: 5,
            expected_err: Ok(()),
        },
        Case {
            data: vec![128, 0, 0, 0, 0, 123, 128, 0],
            precision: 10,
            decimals: 3,
            expected: "0.123".to_string(),
            expected_pos: 6,
            expected_err: Ok(()),
        },
        Case {
            data: vec![128, 0, 0, 0, 0, 12, 128, 7],
            precision: 13,
            decimals: 2,
            expected: "0.12".to_string(),
            expected_pos: 6,
            expected_err: Ok(()),
        },
        Case {
            data: vec![128, 7, 91, 178, 144, 1, 129, 205, 128, 0],
            precision: 15,
            decimals: 14,
            expected: "0.12345000098765".to_string(),
            expected_pos: 8,
            expected_err: Ok(()),
        },
        Case {
            data: vec![128, 0, 0, 0, 0, 7, 91, 178, 145, 0, 128, 0],
            precision: 20,
            decimals: 10,
            expected: "0.1234500010".to_string(),
            expected_pos: 10,
            expected_err: Ok(()),
        },
        Case {
            data: vec![128, 0, 0, 0, 0, 0, 0, 0, 0, 0, 0, 0, 0, 48, 57, 128, 0],
            precision: 30,
            decimals: 5,
            expected: "0.12345".to_string(),
            expected_pos: 15,
            expected_err: Ok(()),
        },
        Case {
            data: vec![
                128, 0, 0, 0, 0, 7, 91, 178, 144, 58, 222, 87, 208, 0, 128, 0,
            ],
            precision: 30,
            decimals: 20,
            expected: "0.12345000098765000000".to_string(),
            expected_pos: 14,
            expected_err: Ok(()),
        },
        Case {
            data: vec![
                128, 0, 0, 7, 91, 178, 144, 58, 222, 87, 208, 0, 0, 0, 0, 30, 0,
            ],
            precision: 30,
            decimals: 25,
            expected: "0.1234500009876500000000000".to_string(),
            expected_pos: 15,
            expected_err: Ok(()),
        },
        Case {
            data: vec![128, 0, 128, 0],
            precision: 4,
            decimals: 2,
            expected: "0.00".to_string(),
            expected_pos: 2,
            expected_err: Ok(()),
        },
        Case {
            data: vec![128, 0, 0, 128, 0],
            precision: 5,
            decimals: 0,
            expected: "0".to_string(),
            expected_pos: 3,
            expected_err: Ok(()),
        },
        Case {
            data: vec![128, 0, 0, 0, 128, 0],
            precision: 7,
            decimals: 3,
            expected: "0.000".to_string(),
            expected_pos: 4,
            expected_err: Ok(()),
        },
        Case {
            data: vec![128, 0, 0, 0, 0, 128, 0],
            precision: 10,
            decimals: 2,
            expected: "0.00".to_string(),
            expected_pos: 5,
            expected_err: Ok(()),
        },
        Case {
            data: vec![128, 0, 0, 0, 0, 0, 128, 0],
            precision: 10,
            decimals: 3,
            expected: "0.000".to_string(),
            expected_pos: 6,
            expected_err: Ok(()),
        },
        Case {
            data: vec![128, 0, 0, 0, 0, 0, 127, 255],
            precision: 13,
            decimals: 2,
            expected: "0.00".to_string(),
            expected_pos: 6,
            expected_err: Ok(()),
        },
        Case {
            data: vec![127, 255, 255, 255, 243, 255, 121, 59, 127, 255],
            precision: 15,
            decimals: 14,
            expected: "-0.00000001234500".to_string(),
            expected_pos: 8,
            expected_err: Ok(()),
        },
        Case {
            data: vec![127, 255, 255, 255, 255, 255, 255, 255, 243, 252, 128, 0],
            precision: 20,
            decimals: 10,
            expected: "-0.0000000123".to_string(),
            expected_pos: 10,
            expected_err: Ok(()),
        },
        Case {
            data: vec![128, 0, 0, 0, 0, 0, 0, 0, 0, 0, 0, 0, 0, 0, 0, 127, 255],
            precision: 30,
            decimals: 5,
            expected: "0.00000".to_string(),
            expected_pos: 15,
            expected_err: Ok(()),
        },
        Case {
            data: vec![
                127, 255, 255, 255, 255, 255, 255, 255, 243, 235, 111, 183, 93, 178, 127, 255,
            ],
            precision: 30,
            decimals: 20,
            expected: "-0.00000001234500009877".to_string(),
            expected_pos: 14,
            expected_err: Ok(()),
        },
        Case {
            data: vec![
                127, 255, 255, 255, 255, 255, 243, 235, 111, 183, 93, 255, 139, 69, 47, 30, 0,
            ],
            precision: 30,
            decimals: 25,
            expected: "-0.0000000123450000987650000".to_string(),
            expected_pos: 15,
            expected_err: Ok(()),
        },
        Case {
            data: vec![227, 99, 129, 134],
            precision: 4,
            decimals: 2,
            expected: "99.99".to_string(),
            expected_pos: 2,
            expected_err: Ok(()),
        },
        Case {
            data: vec![129, 134, 159, 167, 15],
            precision: 5,
            decimals: 0,
            expected: "99999".to_string(),
            expected_pos: 3,
            expected_err: Ok(()),
        },
        Case {
            data: vec![167, 15, 3, 231, 133, 245],
            precision: 7,
            decimals: 3,
            expected: "9999.999".to_string(),
            expected_pos: 4,
            expected_err: Ok(()),
        },
        Case {
            data: vec![133, 245, 224, 255, 99, 128, 152],
            precision: 10,
            decimals: 2,
            expected: "99999999.99".to_string(),
            expected_pos: 5,
            expected_err: Ok(()),
        },
        Case {
            data: vec![128, 152, 150, 127, 3, 231, 227, 59],
            precision: 10,
            decimals: 3,
            expected: "9999999.999".to_string(),
            expected_pos: 6,
            expected_err: Ok(()),
        },
        Case {
            data: vec![227, 59, 154, 201, 255, 99, 137, 59],
            precision: 13,
            decimals: 2,
            expected: "99999999999.99".to_string(),
            expected_pos: 6,
            expected_err: Ok(()),
        },
        Case {
            data: vec![137, 59, 154, 201, 255, 1, 134, 159, 137, 59],
            precision: 15,
            decimals: 14,
            expected: "9.99999999999999".to_string(),
            expected_pos: 8,
            expected_err: Ok(()),
        },
        Case {
            data: vec![137, 59, 154, 201, 255, 59, 154, 201, 255, 9, 128, 0],
            precision: 20,
            decimals: 10,
            expected: "9999999999.9999999999".to_string(),
            expected_pos: 10,
            expected_err: Ok(()),
        },
        Case {
            data: vec![
                128, 0, 0, 0, 0, 0, 4, 210, 29, 205, 139, 148, 0, 195, 80, 137, 59,
            ],
            precision: 30,
            decimals: 5,
            expected: "1234500009876.50000".to_string(),
            expected_pos: 15,
            expected_err: Ok(()),
        },
        Case {
            data: vec![
                137, 59, 154, 201, 255, 59, 154, 201, 255, 59, 154, 201, 255, 99, 129, 134,
            ],
            precision: 30,
            decimals: 20,
            expected: "9999999999.99999999999999999999".to_string(),
            expected_pos: 14,
            expected_err: Ok(()),
        },
        Case {
            data: vec![
                129, 134, 159, 59, 154, 201, 255, 59, 154, 201, 255, 0, 152, 150, 127, 30, 0,
            ],
            precision: 30,
            decimals: 25,
            expected: "99999.9999999999999999999999999".to_string(),
            expected_pos: 15,
            expected_err: Ok(()),
        },
        Case {
            data: vec![227, 99, 129, 134],
            precision: 4,
            decimals: 2,
            expected: "99.99".to_string(),
            expected_pos: 2,
            expected_err: Ok(()),
        },
        Case {
            data: vec![129, 134, 159, 167, 15],
            precision: 5,
            decimals: 0,
            expected: "99999".to_string(),
            expected_pos: 3,
            expected_err: Ok(()),
        },
        Case {
            data: vec![167, 15, 3, 231, 133, 245],
            precision: 7,
            decimals: 3,
            expected: "9999.999".to_string(),
            expected_pos: 4,
            expected_err: Ok(()),
        },
        Case {
            data: vec![133, 245, 224, 255, 99, 128, 152],
            precision: 10,
            decimals: 2,
            expected: "99999999.99".to_string(),
            expected_pos: 5,
            expected_err: Ok(()),
        },
        Case {
            data: vec![128, 152, 150, 127, 3, 231, 128, 6],
            precision: 10,
            decimals: 3,
            expected: "9999999.999".to_string(),
            expected_pos: 6,
            expected_err: Ok(()),
        },
        Case {
            data: vec![128, 6, 159, 107, 199, 11, 137, 59],
            precision: 13,
            decimals: 2,
            expected: "111111111.11".to_string(),
            expected_pos: 6,
            expected_err: Ok(()),
        },
        Case {
            data: vec![137, 59, 154, 201, 255, 1, 134, 159, 128, 6],
            precision: 15,
            decimals: 14,
            expected: "9.99999999999999".to_string(),
            expected_pos: 8,
            expected_err: Ok(()),
        },
        Case {
            data: vec![128, 6, 159, 107, 199, 6, 142, 119, 128, 0, 128, 0],
            precision: 20,
            decimals: 10,
            expected: "111111111.1100000000".to_string(),
            expected_pos: 10,
            expected_err: Ok(()),
        },
        Case {
            data: vec![
                128, 0, 0, 0, 0, 0, 0, 0, 6, 159, 107, 199, 0, 42, 248, 128, 6,
            ],
            precision: 30,
            decimals: 5,
            expected: "111111111.11000".to_string(),
            expected_pos: 15,
            expected_err: Ok(()),
        },
        Case {
            data: vec![
                128, 6, 159, 107, 199, 6, 142, 119, 128, 0, 0, 0, 0, 0, 129, 134,
            ],
            precision: 30,
            decimals: 20,
            expected: "111111111.11000000000000000000".to_string(),
            expected_pos: 14,
            expected_err: Ok(()),
        },
        Case {
            data: vec![
                129, 134, 159, 59, 154, 201, 255, 59, 154, 201, 255, 0, 152, 150, 127, 10, 0,
            ],
            precision: 30,
            decimals: 25,
            expected: "99999.9999999999999999999999999".to_string(),
            expected_pos: 15,
            expected_err: Ok(()),
        },
        Case {
            data: vec![128, 1, 128, 0],
            precision: 4,
            decimals: 2,
            expected: "0.01".to_string(),
            expected_pos: 2,
            expected_err: Ok(()),
        },
        Case {
            data: vec![128, 0, 0, 128, 0],
            precision: 5,
            decimals: 0,
            expected: "0".to_string(),
            expected_pos: 3,
            expected_err: Ok(()),
        },
        Case {
            data: vec![128, 0, 0, 10, 128, 0],
            precision: 7,
            decimals: 3,
            expected: "0.010".to_string(),
            expected_pos: 4,
            expected_err: Ok(()),
        },
        Case {
            data: vec![128, 0, 0, 0, 1, 128, 0],
            precision: 10,
            decimals: 2,
            expected: "0.01".to_string(),
            expected_pos: 5,
            expected_err: Ok(()),
        },
        Case {
            data: vec![128, 0, 0, 0, 0, 10, 128, 0],
            precision: 10,
            decimals: 3,
            expected: "0.010".to_string(),
            expected_pos: 6,
            expected_err: Ok(()),
        },
        Case {
            data: vec![128, 0, 0, 0, 0, 1, 128, 0],
            precision: 13,
            decimals: 2,
            expected: "0.01".to_string(),
            expected_pos: 6,
            expected_err: Ok(()),
        },
        Case {
            data: vec![128, 0, 152, 150, 128, 0, 0, 0, 128, 0],
            precision: 15,
            decimals: 14,
            expected: "0.01000000000000".to_string(),
            expected_pos: 8,
            expected_err: Ok(()),
        },
        Case {
            data: vec![128, 0, 0, 0, 0, 0, 152, 150, 128, 0, 128, 0],
            precision: 20,
            decimals: 10,
            expected: "0.0100000000".to_string(),
            expected_pos: 10,
            expected_err: Ok(()),
        },
        Case {
            data: vec![128, 0, 0, 0, 0, 0, 0, 0, 0, 0, 0, 0, 0, 3, 232, 128, 0],
            precision: 30,
            decimals: 5,
            expected: "0.01000".to_string(),
            expected_pos: 15,
            expected_err: Ok(()),
        },
        Case {
            data: vec![128, 0, 0, 0, 0, 0, 152, 150, 128, 0, 0, 0, 0, 0, 128, 0],
            precision: 30,
            decimals: 20,
            expected: "0.01000000000000000000".to_string(),
            expected_pos: 14,
            expected_err: Ok(()),
        },
        Case {
            data: vec![128, 0, 0, 0, 152, 150, 128, 0, 0, 0, 0, 0, 0, 0, 0, 7, 0],
            precision: 30,
            decimals: 25,
            expected: "0.0100000000000000000000000".to_string(),
            expected_pos: 15,
            expected_err: Ok(()),
        },
        Case {
            data: vec![227, 99, 128, 0],
            precision: 4,
            decimals: 2,
            expected: "99.99".to_string(),
            expected_pos: 2,
            expected_err: Ok(()),
        },
        Case {
            data: vec![128, 0, 123, 128, 123],
            precision: 5,
            decimals: 0,
            expected: "123".to_string(),
            expected_pos: 3,
            expected_err: Ok(()),
        },
        Case {
            data: vec![128, 123, 1, 144, 128, 0],
            precision: 7,
            decimals: 3,
            expected: "123.400".to_string(),
            expected_pos: 4,
            expected_err: Ok(()),
        },
        Case {
            data: vec![128, 0, 0, 123, 40, 128, 0],
            precision: 10,
            decimals: 2,
            expected: "123.40".to_string(),
            expected_pos: 5,
            expected_err: Ok(()),
        },
        Case {
            data: vec![128, 0, 0, 123, 1, 144, 128, 0],
            precision: 10,
            decimals: 3,
            expected: "123.400".to_string(),
            expected_pos: 6,
            expected_err: Ok(()),
        },
        Case {
            data: vec![128, 0, 0, 0, 123, 40, 137, 59],
            precision: 13,
            decimals: 2,
            expected: "123.40".to_string(),
            expected_pos: 6,
            expected_err: Ok(()),
        },
        Case {
            data: vec![137, 59, 154, 201, 255, 1, 134, 159, 128, 0],
            precision: 15,
            decimals: 14,
            expected: "9.99999999999999".to_string(),
            expected_pos: 8,
            expected_err: Ok(()),
        },
        Case {
            data: vec![128, 0, 0, 0, 123, 23, 215, 132, 0, 0, 128, 0],
            precision: 20,
            decimals: 10,
            expected: "123.4000000000".to_string(),
            expected_pos: 10,
            expected_err: Ok(()),
        },
        Case {
            data: vec![128, 0, 0, 0, 0, 0, 0, 0, 0, 0, 0, 123, 0, 156, 64, 128, 0],
            precision: 30,
            decimals: 5,
            expected: "123.40000".to_string(),
            expected_pos: 15,
            expected_err: Ok(()),
        },
        Case {
            data: vec![128, 0, 0, 0, 123, 23, 215, 132, 0, 0, 0, 0, 0, 0, 128, 0],
            precision: 30,
            decimals: 20,
            expected: "123.40000000000000000000".to_string(),
            expected_pos: 14,
            expected_err: Ok(()),
        },
        Case {
            data: vec![128, 0, 123, 23, 215, 132, 0, 0, 0, 0, 0, 0, 0, 0, 0, 10, 0],
            precision: 30,
            decimals: 25,
            expected: "123.4000000000000000000000000".to_string(),
            expected_pos: 15,
            expected_err: Ok(()),
        },
        Case {
            data: vec![28, 156, 127, 253],
            precision: 4,
            decimals: 2,
            expected: "-99.99".to_string(),
            expected_pos: 2,
            expected_err: Ok(()),
        },
        Case {
            data: vec![127, 253, 204, 125, 205],
            precision: 5,
            decimals: 0,
            expected: "-563".to_string(),
            expected_pos: 3,
            expected_err: Ok(()),
        },
        Case {
            data: vec![125, 205, 253, 187, 127, 255],
            precision: 7,
            decimals: 3,
            expected: "-562.580".to_string(),
            expected_pos: 4,
            expected_err: Ok(()),
        },
        Case {
            data: vec![127, 255, 253, 205, 197, 127, 255],
            precision: 10,
            decimals: 2,
            expected: "-562.58".to_string(),
            expected_pos: 5,
            expected_err: Ok(()),
        },
        Case {
            data: vec![127, 255, 253, 205, 253, 187, 127, 255],
            precision: 10,
            decimals: 3,
            expected: "-562.580".to_string(),
            expected_pos: 6,
            expected_err: Ok(()),
        },
        Case {
            data: vec![127, 255, 255, 253, 205, 197, 118, 196],
            precision: 13,
            decimals: 2,
            expected: "-562.58".to_string(),
            expected_pos: 6,
            expected_err: Ok(()),
        },
        Case {
            data: vec![118, 196, 101, 54, 0, 254, 121, 96, 127, 255],
            precision: 15,
            decimals: 14,
            expected: "-9.99999999999999".to_string(),
            expected_pos: 8,
            expected_err: Ok(()),
        },
        Case {
            data: vec![127, 255, 255, 253, 205, 221, 109, 230, 255, 255, 127, 255],
            precision: 20,
            decimals: 10,
            expected: "-562.5800000000".to_string(),
            expected_pos: 10,
            expected_err: Ok(()),
        },
        Case {
            data: vec![
                127, 255, 255, 255, 255, 255, 255, 255, 255, 255, 253, 205, 255, 29, 111, 127,
                255,
            ],
            precision: 30,
            decimals: 5,
            expected: "-562.58000".to_string(),
            expected_pos: 15,
            expected_err: Ok(()),
        },
        Case {
            data: vec![
                127, 255, 255, 253, 205, 221, 109, 230, 255, 255, 255, 255, 255, 255, 127, 253,
            ],
            precision: 30,
            decimals: 20,
            expected: "-562.58000000000000000000".to_string(),
            expected_pos: 14,
            expected_err: Ok(()),
        },
        Case {
            data: vec![
                127, 253, 205, 221, 109, 230, 255, 255, 255, 255, 255, 255, 255, 255, 255, 13,
                0,
            ],
            precision: 30,
            decimals: 25,
            expected: "-562.5800000000000000000000000".to_string(),
            expected_pos: 15,
            expected_err: Ok(()),
        },
        Case {
            data: vec![28, 156, 127, 241],
            precision: 4,
            decimals: 2,
            expected: "-99.99".to_string(),
            expected_pos: 2,
            expected_err: Ok(()),
        },
        Case {
            data: vec![127, 241, 140, 113, 140],
            precision: 5,
            decimals: 0,
            expected: "-3699".to_string(),
            expected_pos: 3,
            expected_err: Ok(()),
        },
        Case {
            data: vec![113, 140, 255, 245, 127, 255],
            precision: 7,
            decimals: 3,
            expected: "-3699.010".to_string(),
            expected_pos: 4,
            expected_err: Ok(()),
        },
        Case {
            data: vec![127, 255, 241, 140, 254, 127, 255],
            precision: 10,
            decimals: 2,
            expected: "-3699.01".to_string(),
            expected_pos: 5,
            expected_err: Ok(()),
        },
        Case {
            data: vec![127, 255, 241, 140, 255, 245, 127, 255],
            precision: 10,
            decimals: 3,
            expected: "-3699.010".to_string(),
            expected_pos: 6,
            expected_err: Ok(()),
        },
        Case {
            data: vec![127, 255, 255, 241, 140, 254, 118, 196],
            precision: 13,
            decimals: 2,
            expected: "-3699.01".to_string(),
            expected_pos: 6,
            expected_err: Ok(()),
        },
        Case {
            data: vec![118, 196, 101, 54, 0, 254, 121, 96, 127, 255],
            precision: 15,
            decimals: 14,
            expected: "-9.99999999999999".to_string(),
            expected_pos: 8,
            expected_err: Ok(()),
        },
        Case {
            data: vec![127, 255, 255, 241, 140, 255, 103, 105, 127, 255, 127, 255],
            precision: 20,
            decimals: 10,
            expected: "-3699.0100000000".to_string(),
            expected_pos: 10,
            expected_err: Ok(()),
        },
        Case {
            data: vec![
                127, 255, 255, 255, 255, 255, 255, 255, 255, 255, 241, 140, 255, 252, 23, 127,
                255,
            ],
            precision: 30,
            decimals: 5,
            expected: "-3699.01000".to_string(),
            expected_pos: 15,
            expected_err: Ok(()),
        },
        Case {
            data: vec![
                127, 255, 255, 241, 140, 255, 103, 105, 127, 255, 255, 255, 255, 255, 127, 241,
            ],
            precision: 30,
            decimals: 20,
            expected: "-3699.01000000000000000000".to_string(),
            expected_pos: 14,
            expected_err: Ok(()),
        },
        Case {
            data: vec![
                127, 241, 140, 255, 103, 105, 127, 255, 255, 255, 255, 255, 255, 255, 255, 13,
                0,
            ],
            precision: 30,
            decimals: 25,
            expected: "-3699.0100000000000000000000000".to_string(),
            expected_pos: 15,
            expected_err: Ok(()),
        },
        Case {
            data: vec![28, 156, 127, 248],
            precision: 4,
            decimals: 2,
            expected: "-99.99".to_string(),
            expected_pos: 2,
            expected_err: Ok(()),
        },
        Case {
            data: vec![127, 248, 99, 120, 99],
            precision: 5,
            decimals: 0,
            expected: "-1948".to_string(),
            expected_pos: 3,
            expected_err: Ok(()),
        },
        Case {
            data: vec![120, 99, 255, 115, 127, 255],
            precision: 7,
            decimals: 3,
            expected: "-1948.140".to_string(),
            expected_pos: 4,
            expected_err: Ok(()),
        },
        Case {
            data: vec![127, 255, 248, 99, 241, 127, 255],
            precision: 10,
            decimals: 2,
            expected: "-1948.14".to_string(),
            expected_pos: 5,
            expected_err: Ok(()),
        },
        Case {
            data: vec![127, 255, 248, 99, 255, 115, 127, 255],
            precision: 10,
            decimals: 3,
            expected: "-1948.140".to_string(),
            expected_pos: 6,
            expected_err: Ok(()),
        },
        Case {
            data: vec![127, 255, 255, 248, 99, 241, 118, 196],
            precision: 13,
            decimals: 2,
            expected: "-1948.14".to_string(),
            expected_pos: 6,
            expected_err: Ok(()),
        },
        Case {
            data: vec![118, 196, 101, 54, 0, 254, 121, 96, 127, 255],
            precision: 15,
            decimals: 14,
            expected: "-9.99999999999999".to_string(),
            expected_pos: 8,
            expected_err: Ok(()),
        },
        Case {
            data: vec![127, 255, 255, 248, 99, 247, 167, 196, 255, 255, 127, 255],
            precision: 20,
            decimals: 10,
            expected: "-1948.1400000000".to_string(),
            expected_pos: 10,
            expected_err: Ok(()),
        },
        Case {
            data: vec![
                127, 255, 255, 255, 255, 255, 255, 255, 255, 255, 248, 99, 255, 201, 79, 127,
                255,
            ],
            precision: 30,
            decimals: 5,
            expected: "-1948.14000".to_string(),
            expected_pos: 15,
            expected_err: Ok(()),
        },
        Case {
            data: vec![
                127, 255, 255, 248, 99, 247, 167, 196, 255, 255, 255, 255, 255, 255, 127, 248,
            ],
            precision: 30,
            decimals: 20,
            expected: "-1948.14000000000000000000".to_string(),
            expected_pos: 14,
            expected_err: Ok(()),
        },
        Case {
            data: vec![
                127, 248, 99, 247, 167, 196, 255, 255, 255, 255, 255, 255, 255, 255, 255, 13, 0,
            ],
            precision: 30,
            decimals: 25,
            expected: "-1948.1400000000000000000000000".to_string(),
            expected_pos: 15,
            expected_err: Ok(()),
        },
    ];

    for tc in &test_cases {
        match decode_helper::decode_decimal(&tc.data, tc.precision, tc.decimals, false) {
            Ok((ref value, pos)) => {
                assert_eq!(tc.expected, decimal_string(value));
                assert_eq!(tc.expected_pos, pos);
            }
            Err(_) => {
                assert_eq!(true, tc.expected_err.is_err());
            }
        }

        match decode_helper::decode_decimal(&tc.data, tc.precision, tc.decimals, true) {
            Ok((ref value, pos)) => {
                let expected_decimal = BigDecimal::from_str(&tc.expected).unwrap();
                assert_eq!(value, &DecodeDecimal::Decimal(expected_decimal));
                assert_eq!(tc.expected_pos, pos);
            }
            Err(_) => {
                assert_eq!(true, tc.expected_err.is_err());
            }
        }
    }

    Ok(())
}

// Table format:
// desc funnytable;
// +-------+------------+------+-----+---------+-------+
// | Field | Type       | Null | Key | Default | Extra |
// +-------+------------+------+-----+---------+-------+
// | value | tinyint(4) | YES  |     | NULL    |       |
// +-------+------------+------+-----+---------+-------+

// insert into funnytable values (1), (2), (null);
// insert into funnytable values (1), (null), (2);
// all must get 3 rows
#[test]
fn test_last_null() -> Result<(), ReplicationError> {
    let table_map_event_data =
        b"\xd3\x01\x00\x00\x00\x00\x01\x00\x04test\x00\nfunnytable\x00\x01\x01\x00\x01";
    let mut table_map_event = TableMapEvent::default();
    table_map_event.table_id_size = 6;
    table_map_event.decode(table_map_event_data)?;

    let mut rows = RowsEvent::default();
    rows.table_id_size = 6;
    rows.tables = HashMap::default();
    rows.tables
        .insert(table_map_event.table_id, table_map_event);
    rows.version = 2;

    let tbls = vec![
        b"\xd3\x01\x00\x00\x00\x00\x01\x00\x02\x00\x01\xff\xfe\x01\xff\xfe\x02",
        b"\xd3\x01\x00\x00\x00\x00\x01\x00\x02\x00\x01\xff\xfe\x01\xfe\x02\xff",
    ];
    for tbl in &tbls {
        rows.rows = vec![];
        rows.decode(*tbl)?;
        assert_eq!(rows.rows.len(), 3)
    }

    Ok(())
}

#[test]
fn test_parse_row_panic() -> Result<(), ReplicationError> {
    let mut table_map_event = TableMapEvent::default();
    table_map_event.table_id_size = 6;
    table_map_event.table_id = 1810;
    table_map_event.column_type = vec![
        3, 15, 15, 15, 9, 15, 15, 252, 3, 3, 3, 15, 3, 3, 3, 15, 3, 15, 1, 15, 3, 1, 252, 15,
        15, 15,
    ];
    table_map_event.column_meta = vec![
        0, 108, 60, 765, 0, 765, 765, 4, 0, 0, 0, 765, 0, 0, 0, 3, 0, 3, 0, 765, 0, 0, 2, 108,
        108, 108,
    ];

    let mut rows = RowsEvent::default();
    rows.table_id_size = 6;
    rows.tables = HashMap::default();
    rows.tables
        .insert(table_map_event.table_id, table_map_event);
    rows.version = 2;

    let data = vec![
        18_u8, 7, 0, 0, 0, 0, 1, 0, 2, 0, 26, 1, 1, 16, 252, 248, 142, 63, 0, 0, 13, 0, 0, 0,
        13, 0, 0, 0,
    ];
    rows.decode(&data)?;

    assert_eq!(DecodeFieldData::Isize(16270), rows.rows[0][0]);

    Ok(())
}

// Table format:
// mysql> desc t10;
// +-------+---------------+------+-----+---------+-------+
// | Field | Type          | Null | Key | Default | Extra |
// +-------+---------------+------+-----+---------+-------+
// | c1    | json          | YES  |     | NULL    |       |
// | c2    | decimal(10,0) | YES  |     | NULL    |       |
// +-------+---------------+------+-----+---------+-------+

// CREATE TABLE `t10` (
//   `c1` json DEFAULT NULL,
//   `c2` decimal(10,0)
// ) ENGINE=InnoDB DEFAULT CHARSET=utf8;

//nolint:misspell
// INSERT INTO `t10` (`c2`) VALUES (1);
// INSERT INTO `t10` (`c1`, `c2`) VALUES ('{"key1": "value1", "key2": "value2"}', 1);
// test json deserialization
// INSERT INTO `t10`(`c1`,`c2`) VALUES ('{"text":"Lorem ipsum dolor sit amet, consectetuer adipiscing elit. Aenean commodo ligula eget dolor. Aenean massa. Cum sociis natoque penatibus et magnis dis parturient montes, nascetur ridiculus mus. Donec quam felis, ultricies nec, pellentesque eu, pretium quis, sem. Nulla consequat massa quis enim. Donec pede justo, fringilla vel, aliquet nec, vulputate eget, arcu. In enim justo, rhoncus ut, imperdiet a, venenatis vitae, justo. Nullam dictum felis eu pede mollis pretium. Integer tincidunt. Cras dapibus. Vivamus elementum semper nisi. Aenean vulputate eleifend tellus. Aenean leo ligula, porttitor eu, consequat vitae, eleifend ac, enim. Aliquam lorem ante, dapibus in, viverra quis, feugiat a, tellus. Phasellus viverra nulla ut metus varius laoreet. Quisque rutrum. Aenean imperdiet. Etiam ultricies nisi vel augue. Curabitur ullamcorper ultricies nisi. Nam eget dui. Etiam rhoncus. Maecenas tempus, tellus eget condimentum rhoncus, sem quam semper libero, sit amet adipiscing sem neque sed ipsum. Nam quam nunc, blandit vel, luctus pulvinar, hendrerit id, lorem. Maecenas nec odio et ante tincidunt tempus. Donec vitae sapien ut libero venenatis faucibus. Nullam quis ante. Etiam sit amet orci eget eros faucibus tincidunt. Duis leo. Sed fringilla mauris sit amet nibh. Donec sodales sagittis magna. Sed consequat, leo eget bibendum sodales, augue velit cursus nunc, quis gravida magna mi a libero. Fusce vulputate eleifend sapien. Vestibulum purus quam, scelerisque ut, mollis sed, nonummy id, metus. Nullam accumsan lorem in dui. Cras ultricies mi eu turpis hendrerit fringilla. Vestibulum ante ipsum primis in faucibus orci luctus et ultrices posuere cubilia Curae; In ac dui quis mi consectetuer lacinia. Nam pretium turpis et arcu. Duis arcu tortor, suscipit eget, imperdiet nec, imperdiet iaculis, ipsum. Sed aliquam ultrices mauris. Integer ante arcu, accumsan a, consectetuer eget, posuere ut, mauris. Praesent adipiscing. Phasellus ullamcorper ipsum rutrum nunc. Nunc nonummy metus. Vestibulum volutpat pretium libero. Cras id dui. Aenean ut eros et nisl sagittis vestibulum. Nullam nulla eros, ultricies sit amet, nonummy id, imperdiet feugiat, pede. Sed lectus. Donec mollis hendrerit risus. Phasellus nec sem in justo pellentesque facilisis. Etiam imperdiet imperdiet orci. Nunc nec neque. Phasellus leo dolor, tempus non, auctor et, hendrerit quis, nisi. Curabitur ligula sapien, tincidunt non, euismod vitae, posuere imperdiet, leo. Maecenas malesuada. Praesent congue erat at massa. Sed cursus turpis vitae tortor. Donec posuere vulputate arcu. Phasellus accumsan cursus velit. Vestibulum ante ipsum primis in faucibus orci luctus et ultrices posuere cubilia Curae; Sed aliquam, nisi quis porttitor congue, elit erat euismod orci, ac"}',101);
#[test]
fn test_parse_json() -> Result<(), ReplicationError> {
    let table_map_event_data = vec![
        109, 0, 0, 0, 0, 0, 1, 0, 4, 116, 101, 115, 116, 0, 3, 116, 49, 48, 0, 2, 245, 246, 3,
        4, 10, 0, 3,
    ];
    let mut table_map_event = TableMapEvent::default();
    table_map_event.table_id_size = 6;
    table_map_event.decode(&table_map_event_data)?;

    let mut rows = RowsEvent::default();
    rows.table_id_size = 6;
    rows.tables = HashMap::default();
    rows.tables
        .insert(table_map_event.table_id, table_map_event);
    rows.version = 2;

    let tbls = vec![
        vec![
            109_u8, 0, 0, 0, 0, 0, 1, 0, 2, 0, 2, 255, 253, 128, 0, 0, 0, 1,
        ],
        vec![
            109, 0, 0, 0, 0, 0, 1, 0, 2, 0, 2, 255, 252, 41, 0, 0, 0, 0, 2, 0, 40, 0, 18, 0, 4,
            0, 22, 0, 4, 0, 12, 26, 0, 12, 33, 0, 107, 101, 121, 49, 107, 101, 121, 50, 6, 118,
            97, 108, 117, 101, 49, 6, 118, 97, 108, 117, 101, 50, 128, 0, 0, 0, 1,
        ],
    ];

    for tbl in &tbls {
        rows.rows = vec![];
        rows.decode(&tbl)?;
        assert_eq!(
            DecodeFieldData::Decimal(DecodeDecimal::String("1".to_string())),
            rows.rows[0][1]
        );
    }

    let long_tbls = vec![vec![
        109, 0, 0, 0, 0, 0, 1, 0, 2, 0, 2, 255, 252, 208, 10, 0, 0, 0, 1, 0, 207, 10, 11, 0, 4,
        0, 12, 15, 0, 116, 101, 120, 116, 190, 21, 76, 111, 114, 101, 109, 32, 105, 112, 115,
        117, 109, 32, 100, 111, 108, 111, 114, 32, 115, 105, 116, 32, 97, 109, 101, 116, 44,
        32, 99, 111, 110, 115, 101, 99, 116, 101, 116, 117, 101, 114, 32, 97, 100, 105, 112,
        105, 115, 99, 105, 110, 103, 32, 101, 108, 105, 116, 46, 32, 65, 101, 110, 101, 97,
        110, 32, 99, 111, 109, 109, 111, 100, 111, 32, 108, 105, 103, 117, 108, 97, 32, 101,
        103, 101, 116, 32, 100, 111, 108, 111, 114, 46, 32, 65, 101, 110, 101, 97, 110, 32,
        109, 97, 115, 115, 97, 46, 32, 67, 117, 109, 32, 115, 111, 99, 105, 105, 115, 32, 110,
        97, 116, 111, 113, 117, 101, 32, 112, 101, 110, 97, 116, 105, 98, 117, 115, 32, 101,
        116, 32, 109, 97, 103, 110, 105, 115, 32, 100, 105, 115, 32, 112, 97, 114, 116, 117,
        114, 105, 101, 110, 116, 32, 109, 111, 110, 116, 101, 115, 44, 32, 110, 97, 115, 99,
        101, 116, 117, 114, 32, 114, 105, 100, 105, 99, 117, 108, 117, 115, 32, 109, 117, 115,
        46, 32, 68, 111, 110, 101, 99, 32, 113, 117, 97, 109, 32, 102, 101, 108, 105, 115, 44,
        32, 117, 108, 116, 114, 105, 99, 105, 101, 115, 32, 110, 101, 99, 44, 32, 112, 101,
        108, 108, 101, 110, 116, 101, 115, 113, 117, 101, 32, 101, 117, 44, 32, 112, 114, 101,
        116, 105, 117, 109, 32, 113, 117, 105, 115, 44, 32, 115, 101, 109, 46, 32, 78, 117,
        108, 108, 97, 32, 99, 111, 110, 115, 101, 113, 117, 97, 116, 32, 109, 97, 115, 115, 97,
        32, 113, 117, 105, 115, 32, 101, 110, 105, 109, 46, 32, 68, 111, 110, 101, 99, 32, 112,
        101, 100, 101, 32, 106, 117, 115, 116, 111, 44, 32, 102, 114, 105, 110, 103, 105, 108,
        108, 97, 32, 118, 101, 108, 44, 32, 97, 108, 105, 113, 117, 101, 116, 32, 110, 101, 99,
        44, 32, 118, 117, 108, 112, 117, 116, 97, 116, 101, 32, 101, 103, 101, 116, 44, 32, 97,
        114, 99, 117, 46, 32, 73, 110, 32, 101, 110, 105, 109, 32, 106, 117, 115, 116, 111, 44,
        32, 114, 104, 111, 110, 99, 117, 115, 32, 117, 116, 44, 32, 105, 109, 112, 101, 114,
        100, 105, 101, 116, 32, 97, 44, 32, 118, 101, 110, 101, 110, 97, 116, 105, 115, 32,
        118, 105, 116, 97, 101, 44, 32, 106, 117, 115, 116, 111, 46, 32, 78, 117, 108, 108, 97,
        109, 32, 100, 105, 99, 116, 117, 109, 32, 102, 101, 108, 105, 115, 32, 101, 117, 32,
        112, 101, 100, 101, 32, 109, 111, 108, 108, 105, 115, 32, 112, 114, 101, 116, 105, 117,
        109, 46, 32, 73, 110, 116, 101, 103, 101, 114, 32, 116, 105, 110, 99, 105, 100, 117,
        110, 116, 46, 32, 67, 114, 97, 115, 32, 100, 97, 112, 105, 98, 117, 115, 46, 32, 86,
        105, 118, 97, 109, 117, 115, 32, 101, 108, 101, 109, 101, 110, 116, 117, 109, 32, 115,
        101, 109, 112, 101, 114, 32, 110, 105, 115, 105, 46, 32, 65, 101, 110, 101, 97, 110,
        32, 118, 117, 108, 112, 117, 116, 97, 116, 101, 32, 101, 108, 101, 105, 102, 101, 110,
        100, 32, 116, 101, 108, 108, 117, 115, 46, 32, 65, 101, 110, 101, 97, 110, 32, 108,
        101, 111, 32, 108, 105, 103, 117, 108, 97, 44, 32, 112, 111, 114, 116, 116, 105, 116,
        111, 114, 32, 101, 117, 44, 32, 99, 111, 110, 115, 101, 113, 117, 97, 116, 32, 118,
        105, 116, 97, 101, 44, 32, 101, 108, 101, 105, 102, 101, 110, 100, 32, 97, 99, 44, 32,
        101, 110, 105, 109, 46, 32, 65, 108, 105, 113, 117, 97, 109, 32, 108, 111, 114, 101,
        109, 32, 97, 110, 116, 101, 44, 32, 100, 97, 112, 105, 98, 117, 115, 32, 105, 110, 44,
        32, 118, 105, 118, 101, 114, 114, 97, 32, 113, 117, 105, 115, 44, 32, 102, 101, 117,
        103, 105, 97, 116, 32, 97, 44, 32, 116, 101, 108, 108, 117, 115, 46, 32, 80, 104, 97,
        115, 101, 108, 108, 117, 115, 32, 118, 105, 118, 101, 114, 114, 97, 32, 110, 117, 108,
        108, 97, 32, 117, 116, 32, 109, 101, 116, 117, 115, 32, 118, 97, 114, 105, 117, 115,
        32, 108, 97, 111, 114, 101, 101, 116, 46, 32, 81, 117, 105, 115, 113, 117, 101, 32,
        114, 117, 116, 114, 117, 109, 46, 32, 65, 101, 110, 101, 97, 110, 32, 105, 109, 112,
        101, 114, 100, 105, 101, 116, 46, 32, 69, 116, 105, 97, 109, 32, 117, 108, 116, 114,
        105, 99, 105, 101, 115, 32, 110, 105, 115, 105, 32, 118, 101, 108, 32, 97, 117, 103,
        117, 101, 46, 32, 67, 117, 114, 97, 98, 105, 116, 117, 114, 32, 117, 108, 108, 97, 109,
        99, 111, 114, 112, 101, 114, 32, 117, 108, 116, 114, 105, 99, 105, 101, 115, 32, 110,
        105, 115, 105, 46, 32, 78, 97, 109, 32, 101, 103, 101, 116, 32, 100, 117, 105, 46, 32,
        69, 116, 105, 97, 109, 32, 114, 104, 111, 110, 99, 117, 115, 46, 32, 77, 97, 101, 99,
        101, 110, 97, 115, 32, 116, 101, 109, 112, 117, 115, 44, 32, 116, 101, 108, 108, 117,
        115, 32, 101, 103, 101, 116, 32, 99, 111, 110, 100, 105, 109, 101, 110, 116, 117, 109,
        32, 114, 104, 111, 110, 99, 117, 115, 44, 32, 115, 101, 109, 32, 113, 117, 97, 109, 32,
        115, 101, 109, 112, 101, 114, 32, 108, 105, 98, 101, 114, 111, 44, 32, 115, 105, 116,
        32, 97, 109, 101, 116, 32, 97, 100, 105, 112, 105, 115, 99, 105, 110, 103, 32, 115,
        101, 109, 32, 110, 101, 113, 117, 101, 32, 115, 101, 100, 32, 105, 112, 115, 117, 109,
        46, 32, 78, 97, 109, 32, 113, 117, 97, 109, 32, 110, 117, 110, 99, 44, 32, 98, 108, 97,
        110, 100, 105, 116, 32, 118, 101, 108, 44, 32, 108, 117, 99, 116, 117, 115, 32, 112,
        117, 108, 118, 105, 110, 97, 114, 44, 32, 104, 101, 110, 100, 114, 101, 114, 105, 116,
        32, 105, 100, 44, 32, 108, 111, 114, 101, 109, 46, 32, 77, 97, 101, 99, 101, 110, 97,
        115, 32, 110, 101, 99, 32, 111, 100, 105, 111, 32, 101, 116, 32, 97, 110, 116, 101, 32,
        116, 105, 110, 99, 105, 100, 117, 110, 116, 32, 116, 101, 109, 112, 117, 115, 46, 32,
        68, 111, 110, 101, 99, 32, 118, 105, 116, 97, 101, 32, 115, 97, 112, 105, 101, 110, 32,
        117, 116, 32, 108, 105, 98, 101, 114, 111, 32, 118, 101, 110, 101, 110, 97, 116, 105,
        115, 32, 102, 97, 117, 99, 105, 98, 117, 115, 46, 32, 78, 117, 108, 108, 97, 109, 32,
        113, 117, 105, 115, 32, 97, 110, 116, 101, 46, 32, 69, 116, 105, 97, 109, 32, 115, 105,
        116, 32, 97, 109, 101, 116, 32, 111, 114, 99, 105, 32, 101, 103, 101, 116, 32, 101,
        114, 111, 115, 32, 102, 97, 117, 99, 105, 98, 117, 115, 32, 116, 105, 110, 99, 105,
        100, 117, 110, 116, 46, 32, 68, 117, 105, 115, 32, 108, 101, 111, 46, 32, 83, 101, 100,
        32, 102, 114, 105, 110, 103, 105, 108, 108, 97, 32, 109, 97, 117, 114, 105, 115, 32,
        115, 105, 116, 32, 97, 109, 101, 116, 32, 110, 105, 98, 104, 46, 32, 68, 111, 110, 101,
        99, 32, 115, 111, 100, 97, 108, 101, 115, 32, 115, 97, 103, 105, 116, 116, 105, 115,
        32, 109, 97, 103, 110, 97, 46, 32, 83, 101, 100, 32, 99, 111, 110, 115, 101, 113, 117,
        97, 116, 44, 32, 108, 101, 111, 32, 101, 103, 101, 116, 32, 98, 105, 98, 101, 110, 100,
        117, 109, 32, 115, 111, 100, 97, 108, 101, 115, 44, 32, 97, 117, 103, 117, 101, 32,
        118, 101, 108, 105, 116, 32, 99, 117, 114, 115, 117, 115, 32, 110, 117, 110, 99, 44,
        32, 113, 117, 105, 115, 32, 103, 114, 97, 118, 105, 100, 97, 32, 109, 97, 103, 110, 97,
        32, 109, 105, 32, 97, 32, 108, 105, 98, 101, 114, 111, 46, 32, 70, 117, 115, 99, 101,
        32, 118, 117, 108, 112, 117, 116, 97, 116, 101, 32, 101, 108, 101, 105, 102, 101, 110,
        100, 32, 115, 97, 112, 105, 101, 110, 46, 32, 86, 101, 115, 116, 105, 98, 117, 108,
        117, 109, 32, 112, 117, 114, 117, 115, 32, 113, 117, 97, 109, 44, 32, 115, 99, 101,
        108, 101, 114, 105, 115, 113, 117, 101, 32, 117, 116, 44, 32, 109, 111, 108, 108, 105,
        115, 32, 115, 101, 100, 44, 32, 110, 111, 110, 117, 109, 109, 121, 32, 105, 100, 44,
        32, 109, 101, 116, 117, 115, 46, 32, 78, 117, 108, 108, 97, 109, 32, 97, 99, 99, 117,
        109, 115, 97, 110, 32, 108, 111, 114, 101, 109, 32, 105, 110, 32, 100, 117, 105, 46,
        32, 67, 114, 97, 115, 32, 117, 108, 116, 114, 105, 99, 105, 101, 115, 32, 109, 105, 32,
        101, 117, 32, 116, 117, 114, 112, 105, 115, 32, 104, 101, 110, 100, 114, 101, 114, 105,
        116, 32, 102, 114, 105, 110, 103, 105, 108, 108, 97, 46, 32, 86, 101, 115, 116, 105,
        98, 117, 108, 117, 109, 32, 97, 110, 116, 101, 32, 105, 112, 115, 117, 109, 32, 112,
        114, 105, 109, 105, 115, 32, 105, 110, 32, 102, 97, 117, 99, 105, 98, 117, 115, 32,
        111, 114, 99, 105, 32, 108, 117, 99, 116, 117, 115, 32, 101, 116, 32, 117, 108, 116,
        114, 105, 99, 101, 115, 32, 112, 111, 115, 117, 101, 114, 101, 32, 99, 117, 98, 105,
        108, 105, 97, 32, 67, 117, 114, 97, 101, 59, 32, 73, 110, 32, 97, 99, 32, 100, 117,
        105, 32, 113, 117, 105, 115, 32, 109, 105, 32, 99, 111, 110, 115, 101, 99, 116, 101,
        116, 117, 101, 114, 32, 108, 97, 99, 105, 110, 105, 97, 46, 32, 78, 97, 109, 32, 112,
        114, 101, 116, 105, 117, 109, 32, 116, 117, 114, 112, 105, 115, 32, 101, 116, 32, 97,
        114, 99, 117, 46, 32, 68, 117, 105, 115, 32, 97, 114, 99, 117, 32, 116, 111, 114, 116,
        111, 114, 44, 32, 115, 117, 115, 99, 105, 112, 105, 116, 32, 101, 103, 101, 116, 44,
        32, 105, 109, 112, 101, 114, 100, 105, 101, 116, 32, 110, 101, 99, 44, 32, 105, 109,
        112, 101, 114, 100, 105, 101, 116, 32, 105, 97, 99, 117, 108, 105, 115, 44, 32, 105,
        112, 115, 117, 109, 46, 32, 83, 101, 100, 32, 97, 108, 105, 113, 117, 97, 109, 32, 117,
        108, 116, 114, 105, 99, 101, 115, 32, 109, 97, 117, 114, 105, 115, 46, 32, 73, 110,
        116, 101, 103, 101, 114, 32, 97, 110, 116, 101, 32, 97, 114, 99, 117, 44, 32, 97, 99,
        99, 117, 109, 115, 97, 110, 32, 97, 44, 32, 99, 111, 110, 115, 101, 99, 116, 101, 116,
        117, 101, 114, 32, 101, 103, 101, 116, 44, 32, 112, 111, 115, 117, 101, 114, 101, 32,
        117, 116, 44, 32, 109, 97, 117, 114, 105, 115, 46, 32, 80, 114, 97, 101, 115, 101, 110,
        116, 32, 97, 100, 105, 112, 105, 115, 99, 105, 110, 103, 46, 32, 80, 104, 97, 115, 101,
        108, 108, 117, 115, 32, 117, 108, 108, 97, 109, 99, 111, 114, 112, 101, 114, 32, 105,
        112, 115, 117, 109, 32, 114, 117, 116, 114, 117, 109, 32, 110, 117, 110, 99, 46, 32,
        78, 117, 110, 99, 32, 110, 111, 110, 117, 109, 109, 121, 32, 109, 101, 116, 117, 115,
        46, 32, 86, 101, 115, 116, 105, 98, 117, 108, 117, 109, 32, 118, 111, 108, 117, 116,
        112, 97, 116, 32, 112, 114, 101, 116, 105, 117, 109, 32, 108, 105, 98, 101, 114, 111,
        46, 32, 67, 114, 97, 115, 32, 105, 100, 32, 100, 117, 105, 46, 32, 65, 101, 110, 101,
        97, 110, 32, 117, 116, 32, 101, 114, 111, 115, 32, 101, 116, 32, 110, 105, 115, 108,
        32, 115, 97, 103, 105, 116, 116, 105, 115, 32, 118, 101, 115, 116, 105, 98, 117, 108,
        117, 109, 46, 32, 78, 117, 108, 108, 97, 109, 32, 110, 117, 108, 108, 97, 32, 101, 114,
        111, 115, 44, 32, 117, 108, 116, 114, 105, 99, 105, 101, 115, 32, 115, 105, 116, 32,
        97, 109, 101, 116, 44, 32, 110, 111, 110, 117, 109, 109, 121, 32, 105, 100, 44, 32,
        105, 109, 112, 101, 114, 100, 105, 101, 116, 32, 102, 101, 117, 103, 105, 97, 116, 44,
        32, 112, 101, 100, 101, 46, 32, 83, 101, 100, 32, 108, 101, 99, 116, 117, 115, 46, 32,
        68, 111, 110, 101, 99, 32, 109, 111, 108, 108, 105, 115, 32, 104, 101, 110, 100, 114,
        101, 114, 105, 116, 32, 114, 105, 115, 117, 115, 46, 32, 80, 104, 97, 115, 101, 108,
        108, 117, 115, 32, 110, 101, 99, 32, 115, 101, 109, 32, 105, 110, 32, 106, 117, 115,
        116, 111, 32, 112, 101, 108, 108, 101, 110, 116, 101, 115, 113, 117, 101, 32, 102, 97,
        99, 105, 108, 105, 115, 105, 115, 46, 32, 69, 116, 105, 97, 109, 32, 105, 109, 112,
        101, 114, 100, 105, 101, 116, 32, 105, 109, 112, 101, 114, 100, 105, 101, 116, 32, 111,
        114, 99, 105, 46, 32, 78, 117, 110, 99, 32, 110, 101, 99, 32, 110, 101, 113, 117, 101,
        46, 32, 80, 104, 97, 115, 101, 108, 108, 117, 115, 32, 108, 101, 111, 32, 100, 111,
        108, 111, 114, 44, 32, 116, 101, 109, 112, 117, 115, 32, 110, 111, 110, 44, 32, 97,
        117, 99, 116, 111, 114, 32, 101, 116, 44, 32, 104, 101, 110, 100, 114, 101, 114, 105,
        116, 32, 113, 117, 105, 115, 44, 32, 110, 105, 115, 105, 46, 32, 67, 117, 114, 97, 98,
        105, 116, 117, 114, 32, 108, 105, 103, 117, 108, 97, 32, 115, 97, 112, 105, 101, 110,
        44, 32, 116, 105, 110, 99, 105, 100, 117, 110, 116, 32, 110, 111, 110, 44, 32, 101,
        117, 105, 115, 109, 111, 100, 32, 118, 105, 116, 97, 101, 44, 32, 112, 111, 115, 117,
        101, 114, 101, 32, 105, 109, 112, 101, 114, 100, 105, 101, 116, 44, 32, 108, 101, 111,
        46, 32, 77, 97, 101, 99, 101, 110, 97, 115, 32, 109, 97, 108, 101, 115, 117, 97, 100,
        97, 46, 32, 80, 114, 97, 101, 115, 101, 110, 116, 32, 99, 111, 110, 103, 117, 101, 32,
        101, 114, 97, 116, 32, 97, 116, 32, 109, 97, 115, 115, 97, 46, 32, 83, 101, 100, 32,
        99, 117, 114, 115, 117, 115, 32, 116, 117, 114, 112, 105, 115, 32, 118, 105, 116, 97,
        101, 32, 116, 111, 114, 116, 111, 114, 46, 32, 68, 111, 110, 101, 99, 32, 112, 111,
        115, 117, 101, 114, 101, 32, 118, 117, 108, 112, 117, 116, 97, 116, 101, 32, 97, 114,
        99, 117, 46, 32, 80, 104, 97, 115, 101, 108, 108, 117, 115, 32, 97, 99, 99, 117, 109,
        115, 97, 110, 32, 99, 117, 114, 115, 117, 115, 32, 118, 101, 108, 105, 116, 46, 32, 86,
        101, 115, 116, 105, 98, 117, 108, 117, 109, 32, 97, 110, 116, 101, 32, 105, 112, 115,
        117, 109, 32, 112, 114, 105, 109, 105, 115, 32, 105, 110, 32, 102, 97, 117, 99, 105,
        98, 117, 115, 32, 111, 114, 99, 105, 32, 108, 117, 99, 116, 117, 115, 32, 101, 116, 32,
        117, 108, 116, 114, 105, 99, 101, 115, 32, 112, 111, 115, 117, 101, 114, 101, 32, 99,
        117, 98, 105, 108, 105, 97, 32, 67, 117, 114, 97, 101, 59, 32, 83, 101, 100, 32, 97,
        108, 105, 113, 117, 97, 109, 44, 32, 110, 105, 115, 105, 32, 113, 117, 105, 115, 32,
        112, 111, 114, 116, 116, 105, 116, 111, 114, 32, 99, 111, 110, 103, 117, 101, 44, 32,
        101, 108, 105, 116, 32, 101, 114, 97, 116, 32, 101, 117, 105, 115, 109, 111, 100, 32,
        111, 114, 99, 105, 44, 32, 97, 99, 128, 0, 0, 0, 101,
    ]];

    //nolint:misspell
    for ltbl in &long_tbls {
        rows.rows = vec![];
        rows.decode(ltbl)?;
        assert_eq!(
            DecodeFieldData::Decimal(DecodeDecimal::String("101".to_string())),
            rows.rows[0][1]
        )
    }
    Ok(())
}

// Table format:
// mysql> desc t10;
// +-------+---------------+------+-----+---------+-------+
// | Field | Type          | Null | Key | Default | Extra |
// +-------+---------------+------+-----+---------+-------+
// | c1    | json          | YES  |     | NULL    |       |
// | c2    | decimal(10,0) | YES  |     | NULL    |       |
// +-------+---------------+------+-----+---------+-------+

// CREATE TABLE `t10` (
//   `c1` json DEFAULT NULL,
//   `c2` decimal(10,0)
// ) ENGINE=InnoDB DEFAULT CHARSET=utf8;

//nolint:misspell
// INSERT INTO `t10` (`c2`) VALUES (1);
// INSERT INTO `t10` (`c1`, `c2`) VALUES ('{"key1": "value1", "key2": "value2"}', 1);
// test json deserialization
// INSERT INTO `t10`(`c1`,`c2`) VALUES ('{"text":"Lorem ipsum dolor sit amet, consectetuer adipiscing elit. Aenean commodo ligula eget dolor. Aenean massa. Cum sociis natoque penatibus et magnis dis parturient montes, nascetur ridiculus mus. Donec quam felis, ultricies nec, pellentesque eu, pretium quis, sem. Nulla consequat massa quis enim. Donec pede justo, fringilla vel, aliquet nec, vulputate eget, arcu. In enim justo, rhoncus ut, imperdiet a, venenatis vitae, justo. Nullam dictum felis eu pede mollis pretium. Integer tincidunt. Cras dapibus. Vivamus elementum semper nisi. Aenean vulputate eleifend tellus. Aenean leo ligula, porttitor eu, consequat vitae, eleifend ac, enim. Aliquam lorem ante, dapibus in, viverra quis, feugiat a, tellus. Phasellus viverra nulla ut metus varius laoreet. Quisque rutrum. Aenean imperdiet. Etiam ultricies nisi vel augue. Curabitur ullamcorper ultricies nisi. Nam eget dui. Etiam rhoncus. Maecenas tempus, tellus eget condimentum rhoncus, sem quam semper libero, sit amet adipiscing sem neque sed ipsum. Nam quam nunc, blandit vel, luctus pulvinar, hendrerit id, lorem. Maecenas nec odio et ante tincidunt tempus. Donec vitae sapien ut libero venenatis faucibus. Nullam quis ante. Etiam sit amet orci eget eros faucibus tincidunt. Duis leo. Sed fringilla mauris sit amet nibh. Donec sodales sagittis magna. Sed consequat, leo eget bibendum sodales, augue velit cursus nunc, quis gravida magna mi a libero. Fusce vulputate eleifend sapien. Vestibulum purus quam, scelerisque ut, mollis sed, nonummy id, metus. Nullam accumsan lorem in dui. Cras ultricies mi eu turpis hendrerit fringilla. Vestibulum ante ipsum primis in faucibus orci luctus et ultrices posuere cubilia Curae; In ac dui quis mi consectetuer lacinia. Nam pretium turpis et arcu. Duis arcu tortor, suscipit eget, imperdiet nec, imperdiet iaculis, ipsum. Sed aliquam ultrices mauris. Integer ante arcu, accumsan a, consectetuer eget, posuere ut, mauris. Praesent adipiscing. Phasellus ullamcorper ipsum rutrum nunc. Nunc nonummy metus. Vestibulum volutpat pretium libero. Cras id dui. Aenean ut eros et nisl sagittis vestibulum. Nullam nulla eros, ultricies sit amet, nonummy id, imperdiet feugiat, pede. Sed lectus. Donec mollis hendrerit risus. Phasellus nec sem in justo pellentesque facilisis. Etiam imperdiet imperdiet orci. Nunc nec neque. Phasellus leo dolor, tempus non, auctor et, hendrerit quis, nisi. Curabitur ligula sapien, tincidunt non, euismod vitae, posuere imperdiet, leo. Maecenas malesuada. Praesent congue erat at massa. Sed cursus turpis vitae tortor. Donec posuere vulputate arcu. Phasellus accumsan cursus velit. Vestibulum ante ipsum primis in faucibus orci luctus et ultrices posuere cubilia Curae; Sed aliquam, nisi quis porttitor congue, elit erat euismod orci, ac"}',101);
#[test]
fn test_parse_json_decimal() -> Result<(), ReplicationError> {
    let table_map_event_data =
        b"m\x00\x00\x00\x00\x00\x01\x00\x04test\x00\x03t10\x00\x02\xf5\xf6\x03\x04\n\x00\x03"
            .to_vec();
    let mut table_map_event = TableMapEvent::default();
    table_map_event.table_id_size = 6;
    table_map_event.decode(&table_map_event_data)?;

    let mut rows = RowsEvent::default();
    rows.use_decimal = true;
    rows.table_id_size = 6;
    rows.tables = HashMap::default();
    rows.tables
        .insert(table_map_event.table_id, table_map_event);
    rows.version = 2;

    let tbls = vec![
        vec![109, 0, 0, 0, 0, 0, 1, 0, 2, 0, 2, 255, 253, 128, 0, 0, 0, 1],
        vec![
            109, 0, 0, 0, 0, 0, 1, 0, 2, 0, 2, 255, 252, 41, 0, 0, 0, 0, 2, 0, 40, 0, 18, 0, 4,
            0, 22, 0, 4, 0, 12, 26, 0, 12, 33, 0, 107, 101, 121, 49, 107, 101, 121, 50, 6, 118,
            97, 108, 117, 101, 49, 6, 118, 97, 108, 117, 101, 50, 128, 0, 0, 0, 1,
        ],
    ];

    for tbl in &tbls {
        rows.rows = vec![];
        rows.decode(&tbl)?;
        assert_eq!(
            DecodeFieldData::Decimal(DecodeDecimal::Decimal("1".parse().unwrap())),
            rows.rows[0][1]
        );
    }

    //nolint:misspell
    let long_tbls = vec![vec![
        109, 0, 0, 0, 0, 0, 1, 0, 2, 0, 2, 255, 252, 208, 10, 0, 0, 0, 1, 0, 207, 10, 11, 0, 4,
        0, 12, 15, 0, 116, 101, 120, 116, 190, 21, 76, 111, 114, 101, 109, 32, 105, 112, 115,
        117, 109, 32, 100, 111, 108, 111, 114, 32, 115, 105, 116, 32, 97, 109, 101, 116, 44,
        32, 99, 111, 110, 115, 101, 99, 116, 101, 116, 117, 101, 114, 32, 97, 100, 105, 112,
        105, 115, 99, 105, 110, 103, 32, 101, 108, 105, 116, 46, 32, 65, 101, 110, 101, 97,
        110, 32, 99, 111, 109, 109, 111, 100, 111, 32, 108, 105, 103, 117, 108, 97, 32, 101,
        103, 101, 116, 32, 100, 111, 108, 111, 114, 46, 32, 65, 101, 110, 101, 97, 110, 32,
        109, 97, 115, 115, 97, 46, 32, 67, 117, 109, 32, 115, 111, 99, 105, 105, 115, 32, 110,
        97, 116, 111, 113, 117, 101, 32, 112, 101, 110, 97, 116, 105, 98, 117, 115, 32, 101,
        116, 32, 109, 97, 103, 110, 105, 115, 32, 100, 105, 115, 32, 112, 97, 114, 116, 117,
        114, 105, 101, 110, 116, 32, 109, 111, 110, 116, 101, 115, 44, 32, 110, 97, 115, 99,
        101, 116, 117, 114, 32, 114, 105, 100, 105, 99, 117, 108, 117, 115, 32, 109, 117, 115,
        46, 32, 68, 111, 110, 101, 99, 32, 113, 117, 97, 109, 32, 102, 101, 108, 105, 115, 44,
        32, 117, 108, 116, 114, 105, 99, 105, 101, 115, 32, 110, 101, 99, 44, 32, 112, 101,
        108, 108, 101, 110, 116, 101, 115, 113, 117, 101, 32, 101, 117, 44, 32, 112, 114, 101,
        116, 105, 117, 109, 32, 113, 117, 105, 115, 44, 32, 115, 101, 109, 46, 32, 78, 117,
        108, 108, 97, 32, 99, 111, 110, 115, 101, 113, 117, 97, 116, 32, 109, 97, 115, 115, 97,
        32, 113, 117, 105, 115, 32, 101, 110, 105, 109, 46, 32, 68, 111, 110, 101, 99, 32, 112,
        101, 100, 101, 32, 106, 117, 115, 116, 111, 44, 32, 102, 114, 105, 110, 103, 105, 108,
        108, 97, 32, 118, 101, 108, 44, 32, 97, 108, 105, 113, 117, 101, 116, 32, 110, 101, 99,
        44, 32, 118, 117, 108, 112, 117, 116, 97, 116, 101, 32, 101, 103, 101, 116, 44, 32, 97,
        114, 99, 117, 46, 32, 73, 110, 32, 101, 110, 105, 109, 32, 106, 117, 115, 116, 111, 44,
        32, 114, 104, 111, 110, 99, 117, 115, 32, 117, 116, 44, 32, 105, 109, 112, 101, 114,
        100, 105, 101, 116, 32, 97, 44, 32, 118, 101, 110, 101, 110, 97, 116, 105, 115, 32,
        118, 105, 116, 97, 101, 44, 32, 106, 117, 115, 116, 111, 46, 32, 78, 117, 108, 108, 97,
        109, 32, 100, 105, 99, 116, 117, 109, 32, 102, 101, 108, 105, 115, 32, 101, 117, 32,
        112, 101, 100, 101, 32, 109, 111, 108, 108, 105, 115, 32, 112, 114, 101, 116, 105, 117,
        109, 46, 32, 73, 110, 116, 101, 103, 101, 114, 32, 116, 105, 110, 99, 105, 100, 117,
        110, 116, 46, 32, 67, 114, 97, 115, 32, 100, 97, 112, 105, 98, 117, 115, 46, 32, 86,
        105, 118, 97, 109, 117, 115, 32, 101, 108, 101, 109, 101, 110, 116, 117, 109, 32, 115,
        101, 109, 112, 101, 114, 32, 110, 105, 115, 105, 46, 32, 65, 101, 110, 101, 97, 110,
        32, 118, 117, 108, 112, 117, 116, 97, 116, 101, 32, 101, 108, 101, 105, 102, 101, 110,
        100, 32, 116, 101, 108, 108, 117, 115, 46, 32, 65, 101, 110, 101, 97, 110, 32, 108,
        101, 111, 32, 108, 105, 103, 117, 108, 97, 44, 32, 112, 111, 114, 116, 116, 105, 116,
        111, 114, 32, 101, 117, 44, 32, 99, 111, 110, 115, 101, 113, 117, 97, 116, 32, 118,
        105, 116, 97, 101, 44, 32, 101, 108, 101, 105, 102, 101, 110, 100, 32, 97, 99, 44, 32,
        101, 110, 105, 109, 46, 32, 65, 108, 105, 113, 117, 97, 109, 32, 108, 111, 114, 101,
        109, 32, 97, 110, 116, 101, 44, 32, 100, 97, 112, 105, 98, 117, 115, 32, 105, 110, 44,
        32, 118, 105, 118, 101, 114, 114, 97, 32, 113, 117, 105, 115, 44, 32, 102, 101, 117,
        103, 105, 97, 116, 32, 97, 44, 32, 116, 101, 108, 108, 117, 115, 46, 32, 80, 104, 97,
        115, 101, 108, 108, 117, 115, 32, 118, 105, 118, 101, 114, 114, 97, 32, 110, 117, 108,
        108, 97, 32, 117, 116, 32, 109, 101, 116, 117, 115, 32, 118, 97, 114, 105, 117, 115,
        32, 108, 97, 111, 114, 101, 101, 116, 46, 32, 81, 117, 105, 115, 113, 117, 101, 32,
        114, 117, 116, 114, 117, 109, 46, 32, 65, 101, 110, 101, 97, 110, 32, 105, 109, 112,
        101, 114, 100, 105, 101, 116, 46, 32, 69, 116, 105, 97, 109, 32, 117, 108, 116, 114,
        105, 99, 105, 101, 115, 32, 110, 105, 115, 105, 32, 118, 101, 108, 32, 97, 117, 103,
        117, 101, 46, 32, 67, 117, 114, 97, 98, 105, 116, 117, 114, 32, 117, 108, 108, 97, 109,
        99, 111, 114, 112, 101, 114, 32, 117, 108, 116, 114, 105, 99, 105, 101, 115, 32, 110,
        105, 115, 105, 46, 32, 78, 97, 109, 32, 101, 103, 101, 116, 32, 100, 117, 105, 46, 32,
        69, 116, 105, 97, 109, 32, 114, 104, 111, 110, 99, 117, 115, 46, 32, 77, 97, 101, 99,
        101, 110, 97, 115, 32, 116, 101, 109, 112, 117, 115, 44, 32, 116, 101, 108, 108, 117,
        115, 32, 101, 103, 101, 116, 32, 99, 111, 110, 100, 105, 109, 101, 110, 116, 117, 109,
        32, 114, 104, 111, 110, 99, 117, 115, 44, 32, 115, 101, 109, 32, 113, 117, 97, 109, 32,
        115, 101, 109, 112, 101, 114, 32, 108, 105, 98, 101, 114, 111, 44, 32, 115, 105, 116,
        32, 97, 109, 101, 116, 32, 97, 100, 105, 112, 105, 115, 99, 105, 110, 103, 32, 115,
        101, 109, 32, 110, 101, 113, 117, 101, 32, 115, 101, 100, 32, 105, 112, 115, 117, 109,
        46, 32, 78, 97, 109, 32, 113, 117, 97, 109, 32, 110, 117, 110, 99, 44, 32, 98, 108, 97,
        110, 100, 105, 116, 32, 118, 101, 108, 44, 32, 108, 117, 99, 116, 117, 115, 32, 112,
        117, 108, 118, 105, 110, 97, 114, 44, 32, 104, 101, 110, 100, 114, 101, 114, 105, 116,
        32, 105, 100, 44, 32, 108, 111, 114, 101, 109, 46, 32, 77, 97, 101, 99, 101, 110, 97,
        115, 32, 110, 101, 99, 32, 111, 100, 105, 111, 32, 101, 116, 32, 97, 110, 116, 101, 32,
        116, 105, 110, 99, 105, 100, 117, 110, 116, 32, 116, 101, 109, 112, 117, 115, 46, 32,
        68, 111, 110, 101, 99, 32, 118, 105, 116, 97, 101, 32, 115, 97, 112, 105, 101, 110, 32,
        117, 116, 32, 108, 105, 98, 101, 114, 111, 32, 118, 101, 110, 101, 110, 97, 116, 105,
        115, 32, 102, 97, 117, 99, 105, 98, 117, 115, 46, 32, 78, 117, 108, 108, 97, 109, 32,
        113, 117, 105, 115, 32, 97, 110, 116, 101, 46, 32, 69, 116, 105, 97, 109, 32, 115, 105,
        116, 32, 97, 109, 101, 116, 32, 111, 114, 99, 105, 32, 101, 103, 101, 116, 32, 101,
        114, 111, 115, 32, 102, 97, 117, 99, 105, 98, 117, 115, 32, 116, 105, 110, 99, 105,
        100, 117, 110, 116, 46, 32, 68, 117, 105, 115, 32, 108, 101, 111, 46, 32, 83, 101, 100,
        32, 102, 114, 105, 110, 103, 105, 108, 108, 97, 32, 109, 97, 117, 114, 105, 115, 32,
        115, 105, 116, 32, 97, 109, 101, 116, 32, 110, 105, 98, 104, 46, 32, 68, 111, 110, 101,
        99, 32, 115, 111, 100, 97, 108, 101, 115, 32, 115, 97, 103, 105, 116, 116, 105, 115,
        32, 109, 97, 103, 110, 97, 46, 32, 83, 101, 100, 32, 99, 111, 110, 115, 101, 113, 117,
        97, 116, 44, 32, 108, 101, 111, 32, 101, 103, 101, 116, 32, 98, 105, 98, 101, 110, 100,
        117, 109, 32, 115, 111, 100, 97, 108, 101, 115, 44, 32, 97, 117, 103, 117, 101, 32,
        118, 101, 108, 105, 116, 32, 99, 117, 114, 115, 117, 115, 32, 110, 117, 110, 99, 44,
        32, 113, 117, 105, 115, 32, 103, 114, 97, 118, 105, 100, 97, 32, 109, 97, 103, 110, 97,
        32, 109, 105, 32, 97, 32, 108, 105, 98, 101, 114, 111, 46, 32, 70, 117, 115, 99, 101,
        32, 118, 117, 108, 112, 117, 116, 97, 116, 101, 32, 101, 108, 101, 105, 102, 101, 110,
        100, 32, 115, 97, 112, 105, 101, 110, 46, 32, 86, 101, 115, 116, 105, 98, 117, 108,
        117, 109, 32, 112, 117, 114, 117, 115, 32, 113, 117, 97, 109, 44, 32, 115, 99, 101,
        108, 101, 114, 105, 115, 113, 117, 101, 32, 117, 116, 44, 32, 109, 111, 108, 108, 105,
        115, 32, 115, 101, 100, 44, 32, 110, 111, 110, 117, 109, 109, 121, 32, 105, 100, 44,
        32, 109, 101, 116, 117, 115, 46, 32, 78, 117, 108, 108, 97, 109, 32, 97, 99, 99, 117,
        109, 115, 97, 110, 32, 108, 111, 114, 101, 109, 32, 105, 110, 32, 100, 117, 105, 46,
        32, 67, 114, 97, 115, 32, 117, 108, 116, 114, 105, 99, 105, 101, 115, 32, 109, 105, 32,
        101, 117, 32, 116, 117, 114, 112, 105, 115, 32, 104, 101, 110, 100, 114, 101, 114, 105,
        116, 32, 102, 114, 105, 110, 103, 105, 108, 108, 97, 46, 32, 86, 101, 115, 116, 105,
        98, 117, 108, 117, 109, 32, 97, 110, 116, 101, 32, 105, 112, 115, 117, 109, 32, 112,
        114, 105, 109, 105, 115, 32, 105, 110, 32, 102, 97, 117, 99, 105, 98, 117, 115, 32,
        111, 114, 99, 105, 32, 108, 117, 99, 116, 117, 115, 32, 101, 116, 32, 117, 108, 116,
        114, 105, 99, 101, 115, 32, 112, 111, 115, 117, 101, 114, 101, 32, 99, 117, 98, 105,
        108, 105, 97, 32, 67, 117, 114, 97, 101, 59, 32, 73, 110, 32, 97, 99, 32, 100, 117,
        105, 32, 113, 117, 105, 115, 32, 109, 105, 32, 99, 111, 110, 115, 101, 99, 116, 101,
        116, 117, 101, 114, 32, 108, 97, 99, 105, 110, 105, 97, 46, 32, 78, 97, 109, 32, 112,
        114, 101, 116, 105, 117, 109, 32, 116, 117, 114, 112, 105, 115, 32, 101, 116, 32, 97,
        114, 99, 117, 46, 32, 68, 117, 105, 115, 32, 97, 114, 99, 117, 32, 116, 111, 114, 116,
        111, 114, 44, 32, 115, 117, 115, 99, 105, 112, 105, 116, 32, 101, 103, 101, 116, 44,
        32, 105, 109, 112, 101, 114, 100, 105, 101, 116, 32, 110, 101, 99, 44, 32, 105, 109,
        112, 101, 114, 100, 105, 101, 116, 32, 105, 97, 99, 117, 108, 105, 115, 44, 32, 105,
        112, 115, 117, 109, 46, 32, 83, 101, 100, 32, 97, 108, 105, 113, 117, 97, 109, 32, 117,
        108, 116, 114, 105, 99, 101, 115, 32, 109, 97, 117, 114, 105, 115, 46, 32, 73, 110,
        116, 101, 103, 101, 114, 32, 97, 110, 116, 101, 32, 97, 114, 99, 117, 44, 32, 97, 99,
        99, 117, 109, 115, 97, 110, 32, 97, 44, 32, 99, 111, 110, 115, 101, 99, 116, 101, 116,
        117, 101, 114, 32, 101, 103, 101, 116, 44, 32, 112, 111, 115, 117, 101, 114, 101, 32,
        117, 116, 44, 32, 109, 97, 117, 114, 105, 115, 46, 32, 80, 114, 97, 101, 115, 101, 110,
        116, 32, 97, 100, 105, 112, 105, 115, 99, 105, 110, 103, 46, 32, 80, 104, 97, 115, 101,
        108, 108, 117, 115, 32, 117, 108, 108, 97, 109, 99, 111, 114, 112, 101, 114, 32, 105,
        112, 115, 117, 109, 32, 114, 117, 116, 114, 117, 109, 32, 110, 117, 110, 99, 46, 32,
        78, 117, 110, 99, 32, 110, 111, 110, 117, 109, 109, 121, 32, 109, 101, 116, 117, 115,
        46, 32, 86, 101, 115, 116, 105, 98, 117, 108, 117, 109, 32, 118, 111, 108, 117, 116,
        112, 97, 116, 32, 112, 114, 101, 116, 105, 117, 109, 32, 108, 105, 98, 101, 114, 111,
        46, 32, 67, 114, 97, 115, 32, 105, 100, 32, 100, 117, 105, 46, 32, 65, 101, 110, 101,
        97, 110, 32, 117, 116, 32, 101, 114, 111, 115, 32, 101, 116, 32, 110, 105, 115, 108,
        32, 115, 97, 103, 105, 116, 116, 105, 115, 32, 118, 101, 115, 116, 105, 98, 117, 108,
        117, 109, 46, 32, 78, 117, 108, 108, 97, 109, 32, 110, 117, 108, 108, 97, 32, 101, 114,
        111, 115, 44, 32, 117, 108, 116, 114, 105, 99, 105, 101, 115, 32, 115, 105, 116, 32,
        97, 109, 101, 116, 44, 32, 110, 111, 110, 117, 109, 109, 121, 32, 105, 100, 44, 32,
        105, 109, 112, 101, 114, 100, 105, 101, 116, 32, 102, 101, 117, 103, 105, 97, 116, 44,
        32, 112, 101, 100, 101, 46, 32, 83, 101, 100, 32, 108, 101, 99, 116, 117, 115, 46, 32,
        68, 111, 110, 101, 99, 32, 109, 111, 108, 108, 105, 115, 32, 104, 101, 110, 100, 114,
        101, 114, 105, 116, 32, 114, 105, 115, 117, 115, 46, 32, 80, 104, 97, 115, 101, 108,
        108, 117, 115, 32, 110, 101, 99, 32, 115, 101, 109, 32, 105, 110, 32, 106, 117, 115,
        116, 111, 32, 112, 101, 108, 108, 101, 110, 116, 101, 115, 113, 117, 101, 32, 102, 97,
        99, 105, 108, 105, 115, 105, 115, 46, 32, 69, 116, 105, 97, 109, 32, 105, 109, 112,
        101, 114, 100, 105, 101, 116, 32, 105, 109, 112, 101, 114, 100, 105, 101, 116, 32, 111,
        114, 99, 105, 46, 32, 78, 117, 110, 99, 32, 110, 101, 99, 32, 110, 101, 113, 117, 101,
        46, 32, 80, 104, 97, 115, 101, 108, 108, 117, 115, 32, 108, 101, 111, 32, 100, 111,
        108, 111, 114, 44, 32, 116, 101, 109, 112, 117, 115, 32, 110, 111, 110, 44, 32, 97,
        117, 99, 116, 111, 114, 32, 101, 116, 44, 32, 104, 101, 110, 100, 114, 101, 114, 105,
        116, 32, 113, 117, 105, 115, 44, 32, 110, 105, 115, 105, 46, 32, 67, 117, 114, 97, 98,
        105, 116, 117, 114, 32, 108, 105, 103, 117, 108, 97, 32, 115, 97, 112, 105, 101, 110,
        44, 32, 116, 105, 110, 99, 105, 100, 117, 110, 116, 32, 110, 111, 110, 44, 32, 101,
        117, 105, 115, 109, 111, 100, 32, 118, 105, 116, 97, 101, 44, 32, 112, 111, 115, 117,
        101, 114, 101, 32, 105, 109, 112, 101, 114, 100, 105, 101, 116, 44, 32, 108, 101, 111,
        46, 32, 77, 97, 101, 99, 101, 110, 97, 115, 32, 109, 97, 108, 101, 115, 117, 97, 100,
        97, 46, 32, 80, 114, 97, 101, 115, 101, 110, 116, 32, 99, 111, 110, 103, 117, 101, 32,
        101, 114, 97, 116, 32, 97, 116, 32, 109, 97, 115, 115, 97, 46, 32, 83, 101, 100, 32,
        99, 117, 114, 115, 117, 115, 32, 116, 117, 114, 112, 105, 115, 32, 118, 105, 116, 97,
        101, 32, 116, 111, 114, 116, 111, 114, 46, 32, 68, 111, 110, 101, 99, 32, 112, 111,
        115, 117, 101, 114, 101, 32, 118, 117, 108, 112, 117, 116, 97, 116, 101, 32, 97, 114,
        99, 117, 46, 32, 80, 104, 97, 115, 101, 108, 108, 117, 115, 32, 97, 99, 99, 117, 109,
        115, 97, 110, 32, 99, 117, 114, 115, 117, 115, 32, 118, 101, 108, 105, 116, 46, 32, 86,
        101, 115, 116, 105, 98, 117, 108, 117, 109, 32, 97, 110, 116, 101, 32, 105, 112, 115,
        117, 109, 32, 112, 114, 105, 109, 105, 115, 32, 105, 110, 32, 102, 97, 117, 99, 105,
        98, 117, 115, 32, 111, 114, 99, 105, 32, 108, 117, 99, 116, 117, 115, 32, 101, 116, 32,
        117, 108, 116, 114, 105, 99, 101, 115, 32, 112, 111, 115, 117, 101, 114, 101, 32, 99,
        117, 98, 105, 108, 105, 97, 32, 67, 117, 114, 97, 101, 59, 32, 83, 101, 100, 32, 97,
        108, 105, 113, 117, 97, 109, 44, 32, 110, 105, 115, 105, 32, 113, 117, 105, 115, 32,
        112, 111, 114, 116, 116, 105, 116, 111, 114, 32, 99, 111, 110, 103, 117, 101, 44, 32,
        101, 108, 105, 116, 32, 101, 114, 97, 116, 32, 101, 117, 105, 115, 109, 111, 100, 32,
        111, 114, 99, 105, 44, 32, 97, 99, 128, 0, 0, 0, 101,
    ]];

    for ltbl in &long_tbls {
        rows.rows = vec![];
        rows.decode(ltbl)?;
        assert_eq!(
            DecodeFieldData::Decimal(DecodeDecimal::Decimal("101".parse().unwrap())),
            rows.rows[0][1]
        )
    }

    Ok(())
}

// mysql> desc aenum;
// +-------+-------------------------------------------+------+-----+---------+-------+
// | Field | Type                                      | Null | Key | Default | Extra |
// +-------+-------------------------------------------+------+-----+---------+-------+
// | id    | int(11)                                   | YES  |     | NULL    |       |
// | aset  | enum('0','1','2','3','4','5','6','7','8') | YES  |     | NULL    |       |
// +-------+-------------------------------------------+------+-----+---------+-------+
// 2 rows in set (0.00 sec)
//
// insert into aenum(id, aset) values(1, '0');
#[test]
fn test_enum() -> Result<(), ReplicationError> {
    let mut table_map_event_data =
        b"\x42\x0f\x00\x00\x00\x00\x01\x00\x05\x74\x74\x65\x73\x74\x00\x05".to_vec();
    table_map_event_data
        .extend(b"\x61\x65\x6e\x75\x6d\x00\x02\x03\xfe\x02\xf7\x01\x03".to_vec());
    let mut table_map_event = TableMapEvent::default();
    table_map_event.table_id_size = 6;
    table_map_event.decode(&table_map_event_data)?;

    let mut rows = RowsEvent::default();
    rows.table_id_size = 6;
    rows.tables = HashMap::default();
    rows.tables
        .insert(table_map_event.table_id, table_map_event);
    rows.version = 2;

    let data =
        b"\x42\x0f\x00\x00\x00\x00\x01\x00\x02\x00\x02\xff\xfc\x01\x00\x00\x00\x01".to_vec();

    rows.rows = vec![];
    rows.decode(&data)?;
    assert_eq!(DecodeFieldData::Isize(1), rows.rows[0][1]);

    Ok(())
}

// CREATE TABLE numbers (
// 	id int auto_increment,
// 	num ENUM( '0', '1', '2', '3', '4', '5', '6', '7', '8', '9', '10', '11', '12', '13', '14', '15', '16', '17', '18', '19', '20', '21', '22', '23', '24', '25', '26', '27', '28', '29', '30', '31', '32', '33', '34', '35', '36', '37', '38', '39', '40', '41', '42', '43', '44', '45', '46', '47', '48', '49', '50', '51', '52', '53', '54', '55', '56', '57', '58', '59', '60', '61', '62', '63', '64', '65', '66', '67', '68', '69', '70', '71', '72', '73', '74', '75', '76', '77', '78', '79', '80', '81', '82', '83', '84', '85', '86', '87', '88', '89', '90', '91', '92', '93', '94', '95', '96', '97', '98', '99', '100', '101', '102', '103', '104', '105', '106', '107', '108', '109', '110', '111', '112', '113', '114', '115', '116', '117', '118', '119', '120', '121', '122', '123', '124', '125', '126', '127', '128', '129', '130', '131', '132', '133', '134', '135', '136', '137', '138', '139', '140', '141', '142', '143', '144', '145', '146', '147', '148', '149', '150', '151', '152', '153', '154', '155', '156', '157', '158', '159', '160', '161', '162', '163', '164', '165', '166', '167', '168', '169', '170', '171', '172', '173', '174', '175', '176', '177', '178', '179', '180', '181', '182', '183', '184', '185', '186', '187', '188', '189', '190', '191', '192', '193', '194', '195', '196', '197', '198', '199', '200', '201', '202', '203', '204', '205', '206', '207', '208', '209', '210', '211', '212', '213', '214', '215', '216', '217', '218', '219', '220', '221', '222', '223', '224', '225', '226', '227', '228', '229', '230', '231', '232', '233', '234', '235', '236', '237', '238', '239', '240', '241', '242', '243', '244', '245', '246', '247', '248', '249', '250', '251', '252', '253', '254', '255','256','257'

// ),
// primary key(id)
// );

//
// insert into numbers(num) values ('0'), ('256');
#[test]
fn test_multi_bytes_enum() -> Result<(), ReplicationError> {
    let mut table_map_event_data =
        b"\x84\x0f\x00\x00\x00\x00\x01\x00\x05\x74\x74\x65\x73\x74\x00\x07".to_vec();
    table_map_event_data
        .extend(b"\x6e\x75\x6d\x62\x65\x72\x73\x00\x02\x03\xfe\x02\xf7\x02\x02".to_vec());
    let mut table_map_event = TableMapEvent::default();
    table_map_event.table_id_size = 6;
    table_map_event.decode(&table_map_event_data)?;

    let mut rows = RowsEvent::default();
    rows.table_id_size = 6;
    rows.tables = HashMap::default();
    rows.tables
        .insert(table_map_event.table_id, table_map_event);
    rows.version = 2;

    let data =
    b"\x84\x0f\x00\x00\x00\x00\x01\x00\x02\x00\x02\xff\xfc\x01\x00\x00\x00\x01\x00\xfc\x02\x00\x00\x00\x01\x01".to_vec();

    rows.rows = vec![];
    rows.decode(&data)?;
    assert_eq!(DecodeFieldData::Isize(1), rows.rows[0][1]);
    assert_eq!(DecodeFieldData::Isize(257), rows.rows[1][1]);

    Ok(())
}

// mysql> desc aset;
// +--------+---------------------------------------------------------------------------------------+------+-----+---------+-------+
// | Field  | Type                                                                                  | Null | Key | Default | Extra |
// +--------+---------------------------------------------------------------------------------------+------+-----+---------+-------+
// | id     | int(11)                                                                               | YES  |     | NULL    |       |
// | region | set('1','2','3','4','5','6','7','8','9','10','11','12','13','14','15','16','17','18') | YES  |     | NULL    |       |
// +--------+---------------------------------------------------------------------------------------+------+-----+---------+-------+
// 2 rows in set (0.00 sec)
//
// insert into aset(id, region) values(1, '1,3');
#[test]
fn test_set() -> Result<(), ReplicationError> {
    let mut table_map_event_data =
        b"\xe7\x0e\x00\x00\x00\x00\x01\x00\x05\x74\x74\x65\x73\x74\x00\x04".to_vec();
    table_map_event_data.extend(b"\x61\x73\x65\x74\x00\x02\x03\xfe\x02\xf8\x03\x03".to_vec());
    let mut table_map_event = TableMapEvent::default();
    table_map_event.table_id_size = 6;
    table_map_event.decode(&table_map_event_data)?;

    let mut rows = RowsEvent::default();
    rows.table_id_size = 6;
    rows.tables = HashMap::default();
    rows.tables
        .insert(table_map_event.table_id, table_map_event);
    rows.version = 2;

    let data =
        b"\xe7\x0e\x00\x00\x00\x00\x01\x00\x02\x00\x02\xff\xfc\x01\x00\x00\x00\x05\x00\x00"
            .to_vec();

    rows.rows = vec![];
    rows.decode(&data)?;
    assert_eq!(DecodeFieldData::Isize(5), rows.rows[0][1]);

    Ok(())
}

// Table:
// desc hj_order_preview
// +------------------+------------+------+-----+-------------------+----------------+
// | Field            | Type       | Null | Key | Default           | Extra          |
// +------------------+------------+------+-----+-------------------+----------------+
// | id               | int(13)    | NO   | PRI | <null>            | auto_increment |
// | buyer_id         | bigint(13) | NO   |     | <null>            |                |
// | order_sn         | bigint(13) | NO   |     | <null>            |                |
// | order_detail     | json       | NO   |     | <null>            |                |
// | is_del           | tinyint(1) | NO   |     | 0                 |                |
// | add_time         | int(13)    | NO   |     | <null>            |                |
// | last_update_time | timestamp  | NO   |     | CURRENT_TIMESTAMP |                |
// +------------------+------------+------+-----+-------------------+----------------+
// insert into hj_order_preview
// (id, buyer_id, order_sn, is_del, add_time, last_update_time)
// values (1, 95891865464386, 13376222192996417, 0, 1479983995, 1479983995)
#[test]
fn test_json_null() -> Result<(), ReplicationError> {
    let table_map_event_data = vec![
        114, 0, 0, 0, 0, 0, 1, 0, 4, 116, 101, 115, 116, 0, 16, 104, 106, 95, 111, 114, 100,
        101, 114, 95, 112, 114, 101, 118, 105, 101, 119, 0, 7, 3, 8, 8, 245, 1, 3, 17, 2, 4, 0,
        0,
    ];

    let mut table_map_event = TableMapEvent::default();
    table_map_event.table_id_size = 6;
    table_map_event.decode(&table_map_event_data)?;

    let mut rows = RowsEvent::default();
    rows.table_id_size = 6;
    rows.tables = HashMap::default();
    rows.tables
        .insert(table_map_event.table_id, table_map_event);
    rows.version = 2;

    let data = vec![
        114, 0, 0, 0, 0, 0, 1, 0, 2, 0, 7, 255, 128, 1, 0, 0, 0, 66, 238, 147, 144, 54, 87, 0,
        0, 65, 16, 64, 108, 154, 133, 47, 0, 0, 0, 0, 0, 0, 123, 195, 54, 88, 0, 0, 0, 0,
    ];

    rows.rows = vec![];
    rows.decode(&data)?;
    assert_eq!(
        DecodeFieldData::Json(DecodeJson::Bytes(vec![])),
        rows.rows[0][3]
    );

    Ok(())
}

// Table:
// mysql> desc t11;
// +----------+--------------+------+-----+---------+-------------------+
// | Field    | Type         | Null | Key | Default | Extra             |
// +----------+--------------+------+-----+---------+-------------------+
// | id       | int(11)      | YES  |     | NULL    |                   |
// | cfg      | varchar(100) | YES  |     | NULL    |                   |
// | cfg_json | json         | YES  |     | NULL    | VIRTUAL GENERATED |
// | age      | int(11)      | YES  |     | NULL    |                   |
// +----------+--------------+------+-----+---------+-------------------+
// mysql> insert into t11(id, cfg) values (1, '{}');

// test json deserialization
// mysql> update t11 set cfg = '{"a":1234}' where id = 1;
// mysql> update test set cfg = '{}' where id = 1;
#[test]
fn test_json_compatibility() -> Result<(), ReplicationError> {
    let table_map_event_data =
        b"l\x00\x00\x00\x00\x00\x01\x00\x04test\x00\x03t11\x00\x04\x03\x0f\xf5\x03\x03d\x00\x04\x0f".to_vec();
    let mut table_map_event = TableMapEvent::default();
    table_map_event.table_id_size = 6;
    table_map_event.decode(&table_map_event_data)?;

    let mut rows = RowsEvent::default();
    rows.table_id_size = 6;
    rows.tables = HashMap::default();
    rows.tables
        .insert(table_map_event.table_id, table_map_event);
    rows.version = 2;

    let data =
        b"l\x00\x00\x00\x00\x00\x01\x00\x02\x00\x04\xff\xf8\x01\x00\x00\x00\x02{}\x05\x00\x00\x00\x00\x00\x00\x04\x00"
            .to_vec();

    rows.rows = vec![];
    rows.decode(&data)?;
    assert_eq!("{}".to_string(), json_text(&rows.rows[0][2]));

    // after MySQL 5.7.22
    let data =
        b"l\x00\x00\x00\x00\x00\x01\x00\x02\x00\x04\xff\xff\xf8\x01\x00\x00\x00\x02{}\x05\x00\x00\x00\x00\x00\x00\x04\x00\xf8\x01\x00\x00\x00\n{\"a\":1234}\r\x00\x00\x00\x00\x01\x00\x0c\x00\x0b\x00\x01\x00\x05\xd2\x04a"
            .to_vec();

    rows.rows = vec![];
    rows.decode(&data)?;
    assert_eq!("{\"a\":1234}".to_string(), json_text(&rows.rows[2][2]));

    let data =
        b"l\x00\x00\x00\x00\x00\x01\x00\x02\x00\x04\xff\xff\xf8\x01\x00\x00\x00\n{\"a\":1234}\r\x00\x00\x00\x00\x01\x00\x0c\x00\x0b\x00\x01\x00\x05\xd2\x04a\xf8\x01\x00\x00\x00\x02{}\x05\x00\x00\x00\x00\x00\x00\x04\x00"
            .to_vec();

    rows.rows = vec![];
    rows.decode(&data)?;
    assert_eq!("{\"a\":1234}".to_string(), json_text(&rows.rows[1][2]));
    assert_eq!("{}".to_string(), json_text(&rows.rows[2][2]));

    // before MySQL 5.7.22
    let data =
        b"l\x00\x00\x00\x00\x00\x01\x00\x02\x00\x04\xff\xff\xf8\x01\x00\x00\x00\x02{}\x05\x00\x00\x00\x00\x01\x00\x0c\x00\xf8\x01\x00\x00\x00\n{\"a\":1234}\r\x00\x00\x00\x00\x01\x00\x0c\x00\x0b\x00\x01\x00\x05\xd2\x04a"
            .to_vec();

    rows.ignore_json_decode_err = true;
    rows.rows = vec![];
    rows.decode(&data)?;
    assert_eq!("null".to_string(), json_text(&rows.rows[1][2]));
    assert_eq!("{\"a\":1234}".to_string(), json_text(&rows.rows[2][2]));

    let data =
        b"l\x00\x00\x00\x00\x00\x01\x00\x02\x00\x04\xff\xff\xf8\x01\x00\x00\x00\n{\"a\":1234}\r\x00\x00\x00\x00\x00\x00\x04\x00\x00\x00\x01\x00\x05\xd2\x04a\xf8\x01\x00\x00\x00\x02{}\x05\x00\x00\x00\x00\x00\x00\x04\x00"
            .to_vec();

    rows.ignore_json_decode_err = false;
    rows.rows = vec![];
    rows.decode(&data)?;
    // this value is wrong in binlog, but can be parsed without error
    assert_eq!("{}".to_string(), json_text(&rows.rows[1][2]));
    assert_eq!("{}".to_string(), json_text(&rows.rows[2][2]));

    Ok(())
}

#[test]
fn test_decode_datetime2() -> Result<(), ReplicationError> {
    struct Case {
        pub data: Vec<u8>,
        pub dec: u16,
        pub get_frac_time: bool,
        pub expected: String,
    }
    let testcases = vec![
        Case {
            data: b"\xfe\xf3\xff\x7e\xfb".to_vec(),
            dec: 0,
            get_frac_time: true,
            expected: "9999-12-31 23:59:59".to_string(),
        },
        Case {
            data: b"\x99\x9a\xb8\xf7\xaa".to_vec(),
            dec: 0,
            get_frac_time: true,
            expected: "2016-10-28 15:30:42".to_string(),
        },
        Case {
            data: b"\x99\x02\xc2\x00\x00".to_vec(),
            dec: 0,
            get_frac_time: true,
            expected: "1970-01-01 00:00:00".to_string(),
        },
        Case {
            data: b"\x80\x00\x00\x00\x00".to_vec(),
            dec: 0,
            get_frac_time: false,
            expected: "0000-00-00 00:00:00".to_string(),
        },
        Case {
            data: b"\x80\x00\x02\xf1\x05".to_vec(),
            dec: 0,
            get_frac_time: false,
            expected: "0000-00-01 15:04:05".to_string(),
        },
        Case {
            data: b"\x80\x03\x82\x00\x00".to_vec(),
            dec: 0,
            get_frac_time: false,
            expected: "0001-01-01 00:00:00".to_string(),
        },
        Case {
            data: b"\x80\x03\x82\x00\x00\x0c".to_vec(),
            dec: 2,
            get_frac_time: false,
            expected: "0001-01-01 00:00:00.12".to_string(),
        },
        Case {
            data: b"\x80\x03\x82\x00\x00\x04\xd3".to_vec(),
            dec: 4,
            get_frac_time: false,
            expected: "0001-01-01 00:00:00.1235".to_string(),
        },
        Case {
            data: b"\x80\x03\x82\x00\x00\x01\xe2\x40".to_vec(),
            dec: 6,
            get_frac_time: false,
            expected: "0001-01-01 00:00:00.123456".to_string(),
        },
    ];

    for tc in &testcases {
        let (value, _) = decode_helper::decode_datetime2(&tc.data, tc.dec)?;
        match value {
            DecodeDatetime::FracTime(ref v) => {
                assert_eq!(true, tc.get_frac_time);
                assert_eq!(tc.expected, v.to_text());
            }
            DecodeDatetime::String(ref v) => {
                assert_eq!(false, tc.get_frac_time);
                assert_eq!(&tc.expected, v);
            }
        }
    }
    Ok(())
}

/*
    create table _null (c1 int null, c2 int not null default '2', c3 timestamp default now(), c4 text);
*/
#[test]
fn test_invalid_event() -> Result<(), ReplicationError> {
    let data = b"@\x01\x00\x00\x00\x00\x01\x00\x02\xff\xfc\x01\x00\x00\x00\x00B\x14U\x16\x8ew"
        .to_vec();
    let mut table = TableMapEvent::default();
    table.table_id_size = 6;
    table.table_id = 0x140;
    table.flags = 0x1;
    table.schema = vec![0x74, 0x65, 0x73, 0x74];
    table.table = vec![0x74];
    table.column_count = 0x2;
    table.column_type = vec![0x3, 0xc];
    table.column_meta = vec![0x0, 0x0];
    table.null_bitmap = vec![0x2];

    let mut e2 = RowsEvent::default();
    e2.version = 1;
    e2.table_id_size = 6;
    e2.tables = HashMap::default();
    e2.tables.insert(0x140, table);
    let have_err = e2.decode(&data).is_err();
    assert_eq!(true, have_err);

    Ok(())
}

#[test]
fn test_decode_time2() -> Result<(), ReplicationError> {
    struct Case {
        data: Vec<u8>,
        dec: u16,
        get_frac_time: bool,
        expected: String,
    }
    let testcases = vec![
        Case {
            data: b"\xb4\x6e\xfb".to_vec(),
            dec: 0,
            get_frac_time: false,
            expected: "838:59:59".to_string(),
        },
        Case {
            data: b"\x80\xf1\x05".to_vec(),
            dec: 0,
            get_frac_time: false,
            expected: "15:04:05".to_string(),
        },
        Case {
            data: b"\x80\x00\x00".to_vec(),
            dec: 0,
            get_frac_time: false,
            expected: "00:00:00".to_string(),
        },
        Case {
            data: b"\x7f\xff\xff".to_vec(),
            dec: 0,
            get_frac_time: false,
            expected: "-00:00:01".to_string(),
        },
        Case {
            data: b"\x7f\x0e\xfb".to_vec(),
            dec: 0,
            get_frac_time: false,
            expected: "-15:04:05".to_string(),
        },
        Case {
            data: b"\x4b\x91\x05".to_vec(),
            dec: 0,
            get_frac_time: false,
            expected: "-838:59:59".to_string(),
        },
        Case {
            data: b"\x7f\xff\xff\xff".to_vec(),
            dec: 2,
            get_frac_time: true,
            expected: "-00:00:00.01".to_string(),
        },
        Case {
            data: b"\x7f\x0e\xfa\xf4".to_vec(),
            dec: 2,
            get_frac_time: true,
            expected: "-15:04:05.12".to_string(),
        },
        Case {
            data: b"\x4b\x91\x05\xf4".to_vec(),
            dec: 2,
            get_frac_time: true,
            expected: "-838:59:58.12".to_string(),
        },
        Case {
            data: b"\x7f\xff\xff\xff\xff".to_vec(),
            dec: 4,
            get_frac_time: true,
            expected: "-00:00:00.0001".to_string(),
        },
        Case {
            data: b"\x7f\x0e\xfa\xfb\x2d".to_vec(),
            dec: 4,
            get_frac_time: true,
            expected: "-15:04:05.1235".to_string(),
        },
        Case {
            data: b"\x4b\x91\x05\xfb\x2d".to_vec(),
            dec: 4,
            get_frac_time: true,
            expected: "-838:59:58.1235".to_string(),
        },
        Case {
            data: b"\x7f\x0e\xfa\xfe\x1d\xc0".to_vec(),
            dec: 6,
            get_frac_time: true,
            expected: "-15:04:05.123456".to_string(),
        },
        Case {
            data: b"\x4b\x91\x05\xfe\x1d\xc0".to_vec(),
            dec: 6,
            get_frac_time: true,
            expected: "-838:59:58.123456".to_string(),
        },
    ];

    for tc in &testcases {
        let (value, _) = decode_helper::decode_time2(&tc.data, tc.dec)?;
        assert_eq!(tc.expected, value);
    }

    Ok(())
}

struct DecimalTest {
    pub num: String,
    pub dump_data: Vec<u8>,
    pub meta: u16,
}

fn get_decimal_data() -> Vec<DecimalTest> {
    // DECIMAL(40, 16)
    vec![
        DecimalTest {
            num: "123.4560000000000000".to_string(),
            dump_data: vec![
                128, 0, 0, 0, 0, 0, 0, 0, 0, 0, 123, 27, 46, 2, 0, 0, 0, 0, 0,
            ],
            meta: 10256,
        },
        DecimalTest {
            num: "0.0000010000000000".to_string(),
            dump_data: vec![128, 0, 0, 0, 0, 0, 0, 0, 0, 0, 0, 0, 0, 3, 232, 0, 0, 0, 0],
            meta: 10256,
        },
        DecimalTest {
            num: "100000000.0000000000000000".to_string(),
            dump_data: vec![
                128, 0, 0, 0, 0, 0, 0, 5, 245, 225, 0, 0, 0, 0, 0, 0, 0, 0, 0,
            ],
            meta: 10256,
        },
        DecimalTest {
            num: "100000000.0000000200000000".to_string(),
            dump_data: vec![
                128, 0, 0, 0, 0, 0, 0, 5, 245, 225, 0, 0, 0, 0, 20, 0, 0, 0, 0,
            ],
            meta: 10256,
        },
        DecimalTest {
            num: "123456.1234567890000000".to_string(),
            dump_data: vec![
                128, 0, 0, 0, 0, 0, 0, 0, 1, 226, 64, 7, 91, 205, 21, 0, 0, 0, 0,
            ],
            meta: 10256,
        },
        DecimalTest {
            num: "123456234234234757655.1234567890123456".to_string(),
            dump_data: vec![
                128, 0, 123, 27, 49, 148, 250, 13, 254, 30, 23, 7, 91, 205, 21, 0, 1, 226, 64,
            ],
            meta: 10256,
        },
        DecimalTest {
            num: "-123456234234234757655.1234567890123456".to_string(),
            dump_data: vec![
                127, 255, 132, 228, 206, 107, 5, 242, 1, 225, 232, 248, 164, 50, 234, 255, 254,
                29, 191,
            ],
            meta: 10256,
        },
        DecimalTest {
            num: "0.0000000000000000".to_string(),
            dump_data: vec![128, 0, 0, 0, 0, 0, 0, 0, 0, 0, 0, 0, 0, 0, 0, 0, 0, 0, 0],
            meta: 10256,
        },
        // DECIMAL(60, 0)
        DecimalTest {
            num: "1000000000000000000000000000000".to_string(),
            dump_data: vec![
                128, 0, 0, 0, 0, 0, 0, 0, 0, 0, 0, 0, 0, 3, 232, 0, 0, 0, 0, 0, 0, 0, 0, 0, 0,
                0, 0,
            ],
            meta: 15360,
        },
        DecimalTest {
            num: "1".to_string(),
            dump_data: vec![
                128, 0, 0, 0, 0, 0, 0, 0, 0, 0, 0, 0, 0, 0, 0, 0, 0, 0, 0, 0, 0, 0, 0, 0, 0, 0,
                1,
            ],
            meta: 15360,
        },
        // DECIMAL(30, 30)
        DecimalTest {
            num: "0.100000000000000000000000000000".to_string(),
            dump_data: vec![133, 245, 225, 0, 0, 0, 0, 0, 0, 0, 0, 0, 0, 0],
            meta: 7710,
        },
        DecimalTest {
            num: "0.000000000000001000000000000000".to_string(),
            dump_data: vec![128, 0, 0, 0, 0, 0, 3, 232, 0, 0, 0, 0, 0, 0],
            meta: 7710,
        },
    ]
}

#[test]
fn test_decimal() -> Result<(), ReplicationError> {
    let mut e = RowsEvent::default();
    e.use_decimal = true;

    let mut e2 = RowsEvent::default();
    e2.use_decimal = false;

    let decimal_datas = get_decimal_data();
    for d in &decimal_datas {
        let (v, _) =
            e.decode_value(&d.dump_data, MYSQL_TYPE_NEWDECIMAL, d.meta, false)?;
        // no trailing zero
        let dec = d.num.parse::<BigDecimal>().unwrap();
        assert_eq!(
            DecodeFieldData::Decimal(DecodeDecimal::Decimal(dec.clone())),
            v
        );

        let (v, _) =
            e.decode_value(&d.dump_data, MYSQL_TYPE_NEWDECIMAL, d.meta, true)?;
        assert_eq!(
            DecodeFieldData::Decimal(DecodeDecimal::Decimal(dec.clone())),
            v
        );
    }

    Ok(())
}
