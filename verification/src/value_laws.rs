use vstd::prelude::*;
use crate::bytes::{le_at, be_at, le_uint, be_uint};
use crate::column_types::{MYSQL_TYPE_DATE, MYSQL_TYPE_BIT, MYSQL_TYPE_TINY, MYSQL_TYPE_SHORT, MYSQL_TYPE_INT24,
    MYSQL_TYPE_LONG, MYSQL_TYPE_LONGLONG, MYSQL_TYPE_YEAR, MYSQL_TYPE_TIME, MYSQL_TYPE_TIMESTAMP, MYSQL_TYPE_STRING,
    MYSQL_TYPE_NEWDECIMAL, MYSQL_TYPE_VARCHAR, MYSQL_TYPE_VAR_STRING, MYSQL_TYPE_BLOB, MYSQL_TYPE_DOUBLE,
    MYSQL_TYPE_FLOAT, MYSQL_TYPE_GEOMETRY, MYSQL_TYPE_JSON, MYSQL_TYPE_TIME2, MYSQL_TYPE_DATETIME2,
    MYSQL_TYPE_TIMESTAMP2};
use crate::decode_helper::{timestamp2_model, datetime2_model, calendar_of, DtModel};
use crate::event::{header_fields, EventHeader, Event, RotateEvent, XIDEvent, IntVarEvent, FormatDescriptionEvent,
    MariadbGTIDEvent};
use crate::consts::event_type_of;
use crate::time::fields_valid;
use crate::json_binary::{json_value, JSONB_INT16, JSONB_UINT16, JSONB_INT32, JSONB_UINT32, JSONB_INT64, JSONB_UINT64};
use crate::fields::JsonModel;
use crate::rows_spec::{field_model, dt_field, FieldContext, FieldModel};
use crate::table_map_decode::{meta_from, table_map_parts};
use crate::rows_event::rows_header;
use crate::decode_helper::time2_model;
use crate::json_binary::JSONB_LITERAL;
use crate::column_types::MYSQL_TYPE_ENUM;
use crate::text::padded;
use crate::time::unix_calendar;

verus! {

/// Three bytes read least significant first.
proof fn lemma_le3(d: Seq<u8>, pos: int)
    requires
        0 <= pos,
        pos + 3 <= d.len(),
    ensures
        le_at(d, pos, 3) == d[pos] + 256 * d[pos + 1] + 65536 * d[pos + 2],
{
    let s = d.subrange(pos, pos + 3);
    reveal_with_fuel(le_uint, 4);
    assert(s.drop_first().drop_first().drop_first().len() == 0);
}

/// Two bytes read least significant first.
proof fn lemma_le2(d: Seq<u8>, pos: int)
    requires
        0 <= pos,
        pos + 2 <= d.len(),
    ensures
        le_at(d, pos, 2) == d[pos] + 256 * d[pos + 1],
{
    let s = d.subrange(pos, pos + 2);
    reveal_with_fuel(le_uint, 3);
    assert(s.drop_first().drop_first().len() == 0);
}

/// Four bytes read least significant first.
proof fn lemma_le4(d: Seq<u8>)
    requires
        4 <= d.len(),
    ensures
        le_at(d, 0, 4) == d[0] + 256 * d[1] + 65536 * d[2] + 16777216 * d[3],
{
    lemma_le4_at(d, 0);
}

/// Four bytes at `pos` read least significant first.
proof fn lemma_le4_at(d: Seq<u8>, pos: int)
    requires
        0 <= pos,
        pos + 4 <= d.len(),
    ensures
        le_at(d, pos, 4) == d[pos] + 256 * d[pos + 1] + 65536 * d[pos + 2] + 16777216 * d[pos + 3],
{
    let s = d.subrange(pos, pos + 4);
    reveal_with_fuel(le_uint, 5);
    assert(s.drop_first().drop_first().drop_first().drop_first().len() == 0);
}

/// Four bytes read most significant first.
proof fn lemma_be4(d: Seq<u8>)
    requires
        4 <= d.len(),
    ensures
        be_at(d, 0, 4) == 16777216 * d[0] + 65536 * d[1] + 256 * d[2] + d[3],
{
    let s = d.subrange(0, 4);
    reveal_with_fuel(be_uint, 5);
    assert(s.drop_last().drop_last().drop_last().drop_last().len() == 0);
}

/// A DATE column stores `year * 512 + month * 32 + day` in three bytes, least significant
/// first; a value other than 0 decodes to the text `YYYY-MM-DD`: the year, then the month,
/// then the day, and takes three bytes.
pub proof fn law_date_text(
    d: Seq<u8>,
    year: int,
    month: int,
    day: int,
    meta: u16,
    is_partial: bool,
    c: FieldContext,
)
    requires
        d.len() >= 3,
        0 <= year < 32768,
        0 <= month < 16,
        0 <= day < 32,
        year * 512 + month * 32 + day != 0,
        d[0] + 256 * d[1] + 65536 * d[2] == year * 512 + month * 32 + day,
    ensures
        field_model(d, MYSQL_TYPE_DATE, meta, is_partial, c) == Ok::<(FieldModel, int), crate::error::ReplicationError>(
            (
                FieldModel::Text(
                    padded(year as nat, 4) + seq!['-'] + padded(month as nat, 2) + seq!['-'] + padded(day as nat, 2),
                ),
                3,
            ),
        ),
{
    reveal(field_model);
    lemma_le3(d, 0);
    let v = le_at(d, 0, 3);
    assert(v / 512 == year && (v / 32) % 16 == month && v % 32 == day) by (nonlinear_arith)
        requires
            v == year * 512 + month * 32 + day,
            0 <= year,
            0 <= month < 16,
            0 <= day < 32,
    ;
}

/// The whole seconds of a TIMESTAMP2 value are the four bytes at its start, most
/// significant first. With no fraction digits, a value other than 0 decodes to the UTC time
/// that many seconds after the epoch and takes four bytes; with fraction digits, the date
/// and the time down to the second are those of that many seconds too.
pub proof fn law_timestamp2_seconds(d: Seq<u8>, dec: u16, tz: Option<chrono_tz::Tz>)
    requires
        d.len() >= 4,
        16777216 * d[0] + 65536 * d[1] + 256 * d[2] + d[3] != 0,
    ensures
        ({
            let sec = 16777216 * d[0] + 65536 * d[1] + 256 * d[2] + d[3];
            let whole = calendar_of(unix_calendar(sec as i64, 0)->Some_0);
            &&& unix_calendar(sec as i64, 0) is Some
            &&& dec == 0 ==> timestamp2_model(d, dec, tz) == Ok::<(DtModel, int), crate::error::ReplicationError>(
                (DtModel::Time(whole, 0, tz), 4),
            )
            &&& timestamp2_model(d, dec, tz) matches Ok((DtModel::Time(t, _, _), _)) ==> t.year == whole.year
                && t.month == whole.month && t.day == whole.day && t.hour == whole.hour && t.minute
                == whole.minute && t.second == whole.second
        }),
{
    lemma_be4(d);
    let sec = be_at(d, 0, 4);
    assert(sec < 0x1_0000_0000);
    
}

/// The bytes `d[pos]` and `d[pos + 1]`, least significant first.
pub open spec fn u16_lsb(d: Seq<u8>, pos: int) -> int {
    d[pos] + 256 * d[pos + 1]
}

/// The bytes `d[pos]` to `d[pos + 3]`, least significant first.
pub open spec fn u32_lsb(d: Seq<u8>, pos: int) -> int {
    d[pos] + 256 * d[pos + 1] + 65536 * d[pos + 2] + 16777216 * d[pos + 3]
}

/// The eight bytes at the start of `d`, least significant first.
pub open spec fn u64_lsb(d: Seq<u8>) -> int {
    u32_lsb(d, 0) + 0x1_0000_0000 * u32_lsb(d, 4)
}

/// `u`, an unsigned number of `bytes` bytes, read as a two's complement number.
pub open spec fn twos_complement(u: int, bytes: nat) -> int {
    let half: int = if bytes == 1 {
        0x80
    } else if bytes == 2 {
        0x8000
    } else if bytes == 3 {
        0x80_0000
    } else if bytes == 4 {
        0x8000_0000
    } else {
        0x8000_0000_0000_0000
    };
    if u >= half {
        u - 2 * half
    } else {
        u
    }
}

/// One more byte in front of a little-endian read.
proof fn lemma_le_step(d: Seq<u8>, pos: int, n: int)
    requires
        0 <= pos,
        0 <= n,
        pos + n + 1 <= d.len(),
    ensures
        le_at(d, pos, n + 1) == d[pos] + 256 * le_at(d, pos + 1, n),
{
    let s = d.subrange(pos, pos + n + 1);
    assert(s.drop_first() =~= d.subrange(pos + 1, pos + 1 + n));
}

/// Eight bytes read least significant first.
proof fn lemma_le8(d: Seq<u8>)
    requires
        8 <= d.len(),
    ensures
        le_at(d, 0, 8) == u64_lsb(d),
        le_at(d, 0, 4) == u32_lsb(d, 0),
        le_at(d, 0, 2) == u16_lsb(d, 0),
{
    assert(le_at(d, 8, 0) == 0);
    lemma_le_step(d, 7, 0);
    lemma_le_step(d, 6, 1);
    lemma_le_step(d, 5, 2);
    lemma_le_step(d, 4, 3);
    lemma_le_step(d, 3, 4);
    lemma_le_step(d, 2, 5);
    lemma_le_step(d, 1, 6);
    lemma_le_step(d, 0, 7);
    assert(le_at(d, 4, 0) == 0);
    lemma_le_step(d, 3, 0);
    lemma_le_step(d, 2, 1);
    lemma_le_step(d, 1, 2);
    lemma_le_step(d, 0, 3);
    lemma_le_step(d, 1, 0);
    lemma_le_step(d, 0, 1);
}

/// The integer columns hold a two's complement number, least significant byte first: one
/// byte for TINYINT, two for SMALLINT, three for MEDIUMINT, four for INT and eight for
/// BIGINT; the value takes that many bytes.
pub proof fn law_int_columns(d: Seq<u8>, meta: u16, is_partial: bool, c: FieldContext)
    ensures
        d.len() >= 1 ==> field_model(d, MYSQL_TYPE_TINY, meta, is_partial, c) == Ok::<(FieldModel, int), crate::error::ReplicationError>(
            (FieldModel::Int(twos_complement(d[0] as int, 1)), 1),
        ),
        d.len() >= 2 ==> field_model(d, MYSQL_TYPE_SHORT, meta, is_partial, c) == Ok::<(FieldModel, int), crate::error::ReplicationError>(
            (FieldModel::Int(twos_complement(u16_lsb(d, 0), 2)), 2),
        ),
        d.len() >= 3 ==> field_model(d, MYSQL_TYPE_INT24, meta, is_partial, c) == Ok::<(FieldModel, int), crate::error::ReplicationError>(
            (FieldModel::Int(twos_complement(d[0] + 256 * d[1] + 65536 * d[2], 3)), 3),
        ),
        d.len() >= 4 ==> field_model(d, MYSQL_TYPE_LONG, meta, is_partial, c) == Ok::<(FieldModel, int), crate::error::ReplicationError>(
            (FieldModel::Int(twos_complement(u32_lsb(d, 0), 4)), 4),
        ),
        d.len() >= 8 ==> field_model(d, MYSQL_TYPE_LONGLONG, meta, is_partial, c) == Ok::<(FieldModel, int), crate::error::ReplicationError>(
            (FieldModel::Int(twos_complement(u64_lsb(d), 8)), 8),
        ),
{
    if d.len() >= 1 {
        lemma_int_field(d, 1, MYSQL_TYPE_TINY, meta, is_partial, c);
        lemma_le_step(d, 0, 0);
        assert(le_at(d, 1, 0) == 0);
    }
    if d.len() >= 2 {
        lemma_int_field(d, 2, MYSQL_TYPE_SHORT, meta, is_partial, c);
        lemma_le_step(d, 1, 0);
        lemma_le_step(d, 0, 1);
        assert(le_at(d, 2, 0) == 0);
    }
    if d.len() >= 3 {
        lemma_int_field(d, 3, MYSQL_TYPE_INT24, meta, is_partial, c);
        lemma_le3(d, 0);
    }
    if d.len() >= 4 {
        lemma_int_field(d, 4, MYSQL_TYPE_LONG, meta, is_partial, c);
        lemma_le4(d);
    }
    if d.len() >= 8 {
        lemma_int_field(d, 8, MYSQL_TYPE_LONGLONG, meta, is_partial, c);
        lemma_le8(d);
    }
}

/// An integer column of `k` bytes: the bytes read least significant first, as two's
/// complement.
proof fn lemma_int_field(d: Seq<u8>, k: nat, t: u8, meta: u16, is_partial: bool, c: FieldContext)
    requires
        d.len() >= k,
        (k == 1 && t == MYSQL_TYPE_TINY) || (k == 2 && t == MYSQL_TYPE_SHORT) || (k == 3 && t == MYSQL_TYPE_INT24)
            || (k == 4 && t == MYSQL_TYPE_LONG) || (k == 8 && t == MYSQL_TYPE_LONGLONG),
    ensures
        field_model(d, t, meta, is_partial, c) == Ok::<(FieldModel, int), crate::error::ReplicationError>(
            (FieldModel::Int(twos_complement(le_at(d, 0, k as int) as int, k)), k as int),
        ),
{
    reveal(field_model);
    reveal_with_fuel(crate::bytes::byte_pow, 9);
}

/// A YEAR column is one byte: 0 for the zero year, else the year less 1900.
pub proof fn law_year(d: Seq<u8>, meta: u16, is_partial: bool, c: FieldContext)
    requires
        d.len() >= 1,
    ensures
        field_model(d, MYSQL_TYPE_YEAR, meta, is_partial, c) == Ok::<(FieldModel, int), crate::error::ReplicationError>(
            (FieldModel::Int(if d[0] == 0 { 0 } else { 1900 + d[0] }), 1),
        ),
{
    reveal(field_model);
}

/// A TIME column (the old format) stores `hours * 10000 + minutes * 100 + seconds` in three
/// bytes, least significant first; a value other than 0 decodes to `HH:MM:SS`.
pub proof fn law_time_text(
    d: Seq<u8>,
    hour: int,
    minute: int,
    second: int,
    meta: u16,
    is_partial: bool,
    c: FieldContext,
)
    requires
        d.len() >= 3,
        0 <= hour,
        0 <= minute < 100,
        0 <= second < 100,
        hour * 10000 + minute * 100 + second != 0,
        d[0] + 256 * d[1] + 65536 * d[2] == hour * 10000 + minute * 100 + second,
    ensures
        field_model(d, MYSQL_TYPE_TIME, meta, is_partial, c) == Ok::<(FieldModel, int), crate::error::ReplicationError>(
            (
                FieldModel::Text(
                    padded(hour as nat, 2) + seq![':'] + padded(minute as nat, 2) + seq![':'] + padded(second as nat, 2),
                ),
                3,
            ),
        ),
{
    reveal(field_model);
    lemma_le3(d, 0);
    let v = le_at(d, 0, 3) as int;
    assert(v / 10000 == hour && (v % 10000) / 100 == minute && v % 100 == second) by (nonlinear_arith)
        requires
            v == hour * 10000 + minute * 100 + second,
            0 <= hour,
            0 <= minute < 100,
            0 <= second < 100,
    ;
}

/// A TIMESTAMP column (the old format) stores the seconds since the epoch in four bytes,
/// least significant first; a value other than 0 decodes to the UTC time that many seconds
/// after the epoch.
pub proof fn law_timestamp_seconds(d: Seq<u8>, meta: u16, is_partial: bool, c: FieldContext)
    requires
        d.len() >= 4,
        u32_lsb(d, 0) != 0,
    ensures
        unix_calendar(u32_lsb(d, 0) as i64, 0) is Some,
        field_model(d, MYSQL_TYPE_TIMESTAMP, meta, is_partial, c) == Ok::<(FieldModel, int), crate::error::ReplicationError>(
            (
                dt_field(
                    c.parse_time,
                    DtModel::Time(calendar_of(unix_calendar(u32_lsb(d, 0) as i64, 0)->Some_0), 0, c.tz),
                ),
                4,
            ),
        ),
{
    reveal(field_model);
    lemma_le4(d);
}

/// The JSON integers are the number their bytes spell, least significant first: two bytes
/// for INT16 and UINT16, four for INT32 and UINT32, eight for INT64 and UINT64, read as two's
/// complement for the signed ones.
pub proof fn law_json_ints(d: Seq<u8>, depth: nat, use_decimal: bool, ignore: bool)
    ensures
        d.len() >= 2 ==> json_value(JSONB_INT16, d, depth, use_decimal, ignore) == Ok::<JsonModel, crate::error::ReplicationError>(
            JsonModel::Int(twos_complement(u16_lsb(d, 0), 2)),
        ),
        d.len() >= 2 ==> json_value(JSONB_UINT16, d, depth, use_decimal, ignore) == Ok::<JsonModel, crate::error::ReplicationError>(
            JsonModel::UInt(u16_lsb(d, 0)),
        ),
        d.len() >= 4 ==> json_value(JSONB_INT32, d, depth, use_decimal, ignore) == Ok::<JsonModel, crate::error::ReplicationError>(
            JsonModel::Int(twos_complement(u32_lsb(d, 0), 4)),
        ),
        d.len() >= 4 ==> json_value(JSONB_UINT32, d, depth, use_decimal, ignore) == Ok::<JsonModel, crate::error::ReplicationError>(
            JsonModel::UInt(u32_lsb(d, 0)),
        ),
        d.len() >= 8 ==> json_value(JSONB_INT64, d, depth, use_decimal, ignore) == Ok::<JsonModel, crate::error::ReplicationError>(
            JsonModel::Int(twos_complement(u64_lsb(d), 8)),
        ),
        d.len() >= 8 ==> json_value(JSONB_UINT64, d, depth, use_decimal, ignore) == Ok::<JsonModel, crate::error::ReplicationError>(
            JsonModel::UInt(u64_lsb(d)),
        ),
{
    if d.len() >= 2 {
        lemma_json_int(d, 2, depth, use_decimal, ignore);
        lemma_le_step(d, 1, 0);
        lemma_le_step(d, 0, 1);
        assert(le_at(d, 2, 0) == 0);
    }
    if d.len() >= 4 {
        lemma_json_int(d, 4, depth, use_decimal, ignore);
        lemma_le4(d);
    }
    if d.len() >= 8 {
        lemma_json_int(d, 8, depth, use_decimal, ignore);
        lemma_le8(d);
    }
}

/// The JSON integers of `k` bytes.
proof fn lemma_json_int(d: Seq<u8>, k: nat, depth: nat, use_decimal: bool, ignore: bool)
    requires
        d.len() >= k,
        k == 2 || k == 4 || k == 8,
    ensures
        ({
            let u = le_at(d, 0, k as int) as int;
            let (st, ut) = if k == 2 {
                (JSONB_INT16, JSONB_UINT16)
            } else if k == 4 {
                (JSONB_INT32, JSONB_UINT32)
            } else {
                (JSONB_INT64, JSONB_UINT64)
            };
            &&& json_value(st, d, depth, use_decimal, ignore) == Ok::<JsonModel, crate::error::ReplicationError>(
                JsonModel::Int(twos_complement(u, k)),
            )
            &&& json_value(ut, d, depth, use_decimal, ignore) == Ok::<JsonModel, crate::error::ReplicationError>(
                JsonModel::UInt(u),
            )
        }),
{
    reveal(crate::json_binary::json_scalar);
    reveal_with_fuel(crate::bytes::byte_pow, 9);
}

/// The table-map metadata of a column, read where the column's entry starts: two bytes most
/// significant first for CHAR and DECIMAL (the real type or precision first); two bytes least
/// significant first for VARCHAR and BIT; one byte for BLOB, DOUBLE, FLOAT, GEOMETRY, JSON
/// and the fractional temporal types; and nothing, as 0, for the rest. The next column's
/// entry starts right after it.
pub proof fn law_column_meta(types: Seq<u8>, m: Seq<u8>, i: int, pos: int)
    requires
        0 <= i < types.len(),
        0 <= pos,
        meta_from(types, m, i, pos) is Ok,
    ensures
        ({
            let t = types[i];
            let size: int = if t == MYSQL_TYPE_STRING || t == MYSQL_TYPE_NEWDECIMAL || t == MYSQL_TYPE_VARCHAR || t
                == MYSQL_TYPE_VAR_STRING || t == MYSQL_TYPE_BIT {
                2
            } else if t == MYSQL_TYPE_BLOB || t == MYSQL_TYPE_DOUBLE || t == MYSQL_TYPE_FLOAT || t == MYSQL_TYPE_GEOMETRY
                || t == MYSQL_TYPE_JSON || t == MYSQL_TYPE_TIME2 || t == MYSQL_TYPE_DATETIME2 || t
                == MYSQL_TYPE_TIMESTAMP2 {
                1
            } else {
                0
            };
            let v: int = if t == MYSQL_TYPE_STRING || t == MYSQL_TYPE_NEWDECIMAL {
                256 * m[pos] + m[pos + 1]
            } else if size == 2 {
                m[pos] + 256 * m[pos + 1]
            } else if size == 1 {
                m[pos] as int
            } else {
                0
            };
            let ms = meta_from(types, m, i, pos)->Ok_0;
            &&& pos + size <= m.len()
            &&& ms.len() >= 1
            &&& ms[0] == v
            &&& meta_from(types, m, i + 1, pos + size) == Ok::<Seq<u16>, crate::error::ReplicationError>(ms.drop_first())
        }),
{
    let t = types[i];
    if t == MYSQL_TYPE_STRING || t == MYSQL_TYPE_NEWDECIMAL {
        let s = m.subrange(pos, pos + 2);
        reveal_with_fuel(be_uint, 3);
        assert(s.drop_last().drop_last().len() == 0);
    } else if t == MYSQL_TYPE_VARCHAR || t == MYSQL_TYPE_VAR_STRING || t == MYSQL_TYPE_BIT {
        lemma_le2(m, pos);
    } else if t == MYSQL_TYPE_BLOB || t == MYSQL_TYPE_DOUBLE || t == MYSQL_TYPE_FLOAT || t == MYSQL_TYPE_GEOMETRY
        || t == MYSQL_TYPE_JSON || t == MYSQL_TYPE_TIME2 || t == MYSQL_TYPE_DATETIME2 || t == MYSQL_TYPE_TIMESTAMP2 {
        lemma_le_step(m, pos, 0);
        assert(le_at(m, pos + 1, 0) == 0);
    }
    let ms = meta_from(types, m, i, pos)->Ok_0;
    assert(ms.drop_first() =~= meta_from(types, m, i + 1, pos + (if t == MYSQL_TYPE_STRING || t == MYSQL_TYPE_NEWDECIMAL
        || t == MYSQL_TYPE_VARCHAR || t == MYSQL_TYPE_VAR_STRING || t == MYSQL_TYPE_BIT {
        2int
    } else if t == MYSQL_TYPE_BLOB || t == MYSQL_TYPE_DOUBLE || t == MYSQL_TYPE_FLOAT || t == MYSQL_TYPE_GEOMETRY
        || t == MYSQL_TYPE_JSON || t == MYSQL_TYPE_TIME2 || t == MYSQL_TYPE_DATETIME2 || t == MYSQL_TYPE_TIMESTAMP2 {
        1int
    } else {
        0int
    }))->Ok_0);
}

/// The event header: the timestamp, then the type byte, the server id, the event size, the
/// position of the next event, each of four bytes least significant first, and two bytes
/// of flags.
pub proof fn law_header_fields(d: Seq<u8>)
    requires
        d.len() >= 19,
    ensures
        header_fields(d) == (EventHeader {
            timestamp: u32_lsb(d, 0) as u32,
            event_type: event_type_of(d[4]),
            server_id: u32_lsb(d, 5) as u32,
            event_size: u32_lsb(d, 9) as u32,
            log_pos: u32_lsb(d, 13) as u32,
            flags: u16_lsb(d, 17) as u16,
        }),
{
    lemma_le4_at(d, 0);
    lemma_le4_at(d, 5);
    lemma_le4_at(d, 9);
    lemma_le4_at(d, 13);
    lemma_le2(d, 17);
}

/// FLOAT and DOUBLE columns keep the bits of the IEEE 754 number, least significant byte
/// first: four bytes and eight bytes.
pub proof fn law_float_bits(d: Seq<u8>, meta: u16, is_partial: bool, c: FieldContext)
    ensures
        d.len() >= 4 ==> field_model(d, MYSQL_TYPE_FLOAT, meta, is_partial, c) == Ok::<(FieldModel, int), crate::error::ReplicationError>(
            (FieldModel::F32(u32_lsb(d, 0) as u32), 4),
        ),
        d.len() >= 8 ==> field_model(d, MYSQL_TYPE_DOUBLE, meta, is_partial, c) == Ok::<(FieldModel, int), crate::error::ReplicationError>(
            (FieldModel::F64(u64_lsb(d) as u64), 8),
        ),
{
    reveal(field_model);
    if d.len() >= 4 {
        lemma_le4(d);
    }
    if d.len() >= 8 {
        lemma_le8(d);
    }
}

/// A VARCHAR value is its length, then that many bytes of text: the length is one byte
/// where the column holds fewer than 256 bytes, else two bytes least significant first.
pub proof fn law_varchar_length(d: Seq<u8>, meta: u16, is_partial: bool, c: FieldContext)
    ensures
        meta < 256 && d.len() >= 1 && d[0] < 255 && d[0] + 1 <= d.len() ==> field_model(
            d,
            MYSQL_TYPE_VARCHAR,
            meta,
            is_partial,
            c,
        ) == Ok::<(FieldModel, int), crate::error::ReplicationError>(
            (FieldModel::Text(crate::text::utf8_lossy(d.subrange(1, d[0] + 1))), d[0] + 1),
        ),
        meta >= 256 && d.len() >= 2 && u16_lsb(d, 0) + 2 <= d.len() && u16_lsb(d, 0) + 2 <= 0xffff ==> field_model(
            d,
            MYSQL_TYPE_VARCHAR,
            meta,
            is_partial,
            c,
        ) == Ok::<(FieldModel, int), crate::error::ReplicationError>(
            (FieldModel::Text(crate::text::utf8_lossy(d.subrange(2, u16_lsb(d, 0) + 2))), u16_lsb(d, 0) + 2),
        ),
{
    reveal(field_model);
    if d.len() >= 2 {
        lemma_le2(d, 0);
    }
}

/// A BLOB value is its length in `meta` bytes (1 to 4), least significant first, then
/// that many bytes.
pub proof fn law_blob_length(d: Seq<u8>, meta: u16, is_partial: bool, c: FieldContext)
    requires
        1 <= meta <= 4,
        d.len() >= meta,
    ensures
        ({
            let len: int = if meta == 1 {
                d[0] as int
            } else if meta == 2 {
                u16_lsb(d, 0)
            } else if meta == 3 {
                d[0] + 256 * d[1] + 65536 * d[2]
            } else {
                u32_lsb(d, 0)
            };
            len + meta <= d.len() ==> field_model(d, MYSQL_TYPE_BLOB, meta, is_partial, c) == Ok::<
                (FieldModel, int),
                crate::error::ReplicationError,
            >((FieldModel::Bytes(d.subrange(meta as int, len + meta)), len + meta))
        }),
{
    reveal(field_model);
    if meta == 1 {
        lemma_le_step(d, 0, 0);
        assert(le_at(d, 1, 0) == 0);
    } else if meta == 2 {
        lemma_le2(d, 0);
    } else if meta == 3 {
        lemma_le3(d, 0);
    } else {
        lemma_le4(d);
    }
}

/// A DATETIME2 value without fraction digits is five bytes, most significant first: the
/// number `0x8000000000 + ((year * 13 + month) * 32 + day) * 2^17 + hour * 2^12 + minute * 64
/// + second`. From 1970-01-01 on it decodes to that date and time, and takes five bytes.
pub proof fn law_datetime2_fields(
    d: Seq<u8>,
    year: int,
    month: int,
    day: int,
    hour: int,
    minute: int,
    second: int,
)
    requires
        d.len() >= 5,
        fields_valid(year, month, day, hour, minute, second, 0),
        year >= 1970,
        0x1_0000_0000 * d[0] + 16777216 * d[1] + 65536 * d[2] + 256 * d[3] + d[4] == 0x80_0000_0000 + ((year * 13
            + month) * 32 + day) * 0x20000 + hour * 0x1000 + minute * 64 + second,
    ensures
        datetime2_model(d, 0) == Ok::<(DtModel, int), crate::error::ReplicationError>(
            (DtModel::Time(calendar_of((year, month, day, hour, minute, second, 0)), 0, None), 5),
        ),
{
    let s = d.subrange(0, 5);
    reveal_with_fuel(be_uint, 6);
    assert(s.drop_last().drop_last().drop_last().drop_last().drop_last().len() == 0);
    let ymd = (year * 13 + month) * 32 + day;
    let hms = hour * 0x1000 + minute * 64 + second;
    let ip = ymd * 0x20000 + hms;
    assert(crate::decode_helper::datetime2_int(d) == ip);
    assert(0 <= hms < 0x20000);
    assert(ip >= 107420450816) by (nonlinear_arith)
        requires
            ip == ((year * 13 + month) * 32 + day) * 0x20000 + hms,
            year >= 1970,
            month >= 1,
            day >= 1,
            hms >= 0,
    ;
    assert(ip < 0x80_0000_0000);
    assert((ip * 0x1000000) / 0x1000000 == ip) by (nonlinear_arith);
    assert(ip / 0x20000 == ymd && ip % 0x20000 == hms) by (nonlinear_arith)
        requires
            ip == ymd * 0x20000 + hms,
            0 <= hms < 0x20000,
    ;
    assert(ymd / 32 == year * 13 + month && ymd % 32 == day) by (nonlinear_arith)
        requires
            ymd == (year * 13 + month) * 32 + day,
            0 <= day < 32,
    ;
    assert((year * 13 + month) / 13 == year && (year * 13 + month) % 13 == month) by (nonlinear_arith)
        requires
            0 <= month < 13,
    ;
    assert(hms / 0x1000 == hour && (hms / 64) % 64 == minute && hms % 64 == second) by (nonlinear_arith)
        requires
            hms == hour * 0x1000 + minute * 64 + second,
            0 <= hour,
            0 <= minute < 64,
            0 <= second < 64,
    ;
    assert(crate::decode_helper::datetime2_fields(ip, 0) == (year, month, day, hour, minute, second));
}

/// A TIME(0) value is three bytes, most significant first: `0x800000 + hour * 2^12 +
/// minute * 64 + second` for a time of day not before 00:00:00. Any such time other than
/// 00:00:00 decodes to `HH:MM:SS` and takes three bytes.
pub proof fn law_time2_text(d: Seq<u8>, hour: int, minute: int, second: int)
    requires
        d.len() >= 3,
        0 <= hour < 1024,
        0 <= minute < 64,
        0 <= second < 64,
        hour * 0x1000 + minute * 64 + second != 0,
        65536 * d[0] + 256 * d[1] + d[2] == 0x80_0000 + hour * 0x1000 + minute * 64 + second,
    ensures
        time2_model(d, 0) == Ok::<(Seq<char>, int), crate::error::ReplicationError>(
            (padded(hour as nat, 2) + seq![':'] + padded(minute as nat, 2) + seq![':'] + padded(second as nat, 2), 3),
        ),
{
    let s = d.subrange(0, 3);
    reveal_with_fuel(be_uint, 4);
    assert(s.drop_last().drop_last().drop_last().len() == 0);
    let hms = hour * 0x1000 + minute * 64 + second;
    assert(be_at(d, 0, 3) - 0x800000 == hms);
    assert((hms * 0x1000000) / 0x1000000 == hms && (hms * 0x1000000) % 0x1000000 == 0) by (nonlinear_arith);
    assert((hms / 0x1000) % 0x400 == hour && (hms / 64) % 64 == minute && hms % 64 == second) by (nonlinear_arith)
        requires
            hms == hour * 0x1000 + minute * 64 + second,
            0 <= hour < 1024,
            0 <= minute < 64,
            0 <= second < 64,
    ;
}

/// An ENUM value is the index of its member: one byte for up to 255 members, else two
/// bytes least significant first.
pub proof fn law_enum_index(d: Seq<u8>, meta: u16, is_partial: bool, c: FieldContext)
    ensures
        meta % 256 == 1 && d.len() >= 1 ==> field_model(d, MYSQL_TYPE_ENUM, meta, is_partial, c) == Ok::<
            (FieldModel, int),
            crate::error::ReplicationError,
        >((FieldModel::Int(d[0] as int), 1)),
        meta % 256 == 2 && d.len() >= 2 ==> field_model(d, MYSQL_TYPE_ENUM, meta, is_partial, c) == Ok::<
            (FieldModel, int),
            crate::error::ReplicationError,
        >((FieldModel::Int(u16_lsb(d, 0)), 2)),
{
    reveal(field_model);
    if d.len() >= 2 {
        lemma_le2(d, 0);
    }
}

/// A JSON literal is one byte: 0 for null, 1 for true, 2 for false.
pub proof fn law_json_literals(d: Seq<u8>, depth: nat, use_decimal: bool, ignore: bool)
    requires
        d.len() >= 1,
    ensures
        d[0] == 0 ==> json_value(JSONB_LITERAL, d, depth, use_decimal, ignore) == Ok::<JsonModel, crate::error::ReplicationError>(JsonModel::Null),
        d[0] == 1 ==> json_value(JSONB_LITERAL, d, depth, use_decimal, ignore) == Ok::<JsonModel, crate::error::ReplicationError>(JsonModel::Bool(true)),
        d[0] == 2 ==> json_value(JSONB_LITERAL, d, depth, use_decimal, ignore) == Ok::<JsonModel, crate::error::ReplicationError>(JsonModel::Bool(false)),
{
    reveal(crate::json_binary::json_scalar);
}

/// The fixed part of a table map: the table id in `tis` (4 or 6) bytes and two bytes of
/// flags, least significant first, then the schema name after its length byte, a zero, and
/// the table name after its length byte.
pub proof fn law_table_map_names(d: Seq<u8>, tis: int)
    requires
        tis == 4 || tis == 6,
        table_map_parts(d, tis) is Ok,
    ensures
        ({
            let p = table_map_parts(d, tis)->Ok_0;
            let sl = d[tis + 2] as int;
            let tl = d[tis + 3 + sl + 1] as int;
            &&& p.table_id == (if tis == 4 {
                u32_lsb(d, 0)
            } else {
                u32_lsb(d, 0) + 0x1_0000_0000 * u16_lsb(d, 4)
            })
            &&& p.flags == u16_lsb(d, tis)
            &&& p.schema == d.subrange(tis + 3, tis + 3 + sl)
            &&& p.table == d.subrange(tis + 3 + sl + 2, tis + 3 + sl + 2 + tl)
        }),
{
    lemma_le2(d, tis);
    if tis == 4 {
        lemma_le4(d);
    } else {
        lemma_le2(d, 4);
        lemma_le4(d);
        assert(le_at(d, 6, 0) == 0);
        lemma_le_step(d, 5, 0);
        lemma_le_step(d, 4, 1);
        lemma_le_step(d, 3, 2);
        lemma_le_step(d, 2, 3);
        lemma_le_step(d, 1, 4);
        lemma_le_step(d, 0, 5);
    }
}

/// The eight bytes at `pos`, least significant first.
pub open spec fn u64_lsb_at(d: Seq<u8>, pos: int) -> int {
    u32_lsb(d, pos) + 0x1_0000_0000 * u32_lsb(d, pos + 4)
}

/// Eight bytes at `pos` read least significant first.
proof fn lemma_le8_at(d: Seq<u8>, pos: int)
    requires
        0 <= pos,
        pos + 8 <= d.len(),
    ensures
        le_at(d, pos, 8) == u64_lsb_at(d, pos),
{
    assert(le_at(d, pos + 8, 0) == 0);
    lemma_le_step(d, pos + 7, 0);
    lemma_le_step(d, pos + 6, 1);
    lemma_le_step(d, pos + 5, 2);
    lemma_le_step(d, pos + 4, 3);
    lemma_le_step(d, pos + 3, 4);
    lemma_le_step(d, pos + 2, 5);
    lemma_le_step(d, pos + 1, 6);
    lemma_le_step(d, pos, 7);
}

/// A rotate event names the position in the next file, eight bytes least significant
/// first, then the file's name.
pub proof fn law_rotate_fields(ev: RotateEvent, data: Seq<u8>, after: RotateEvent, r: Result<(), crate::error::ReplicationError>)
    requires
        ev.decode_spec(data, after, r),
        r is Ok,
    ensures
        after.position == u64_lsb_at(data, 0),
        after.next_log_name@ == data.subrange(8, data.len() as int),
{
    lemma_le8_at(data, 0);
}

/// An XID event holds the transaction id, eight bytes least significant first.
pub proof fn law_xid_fields(ev: XIDEvent, data: Seq<u8>, after: XIDEvent, r: Result<(), crate::error::ReplicationError>)
    requires
        ev.decode_spec(data, after, r),
        r is Ok,
    ensures
        after.xid == u64_lsb_at(data, 0),
{
    lemma_le8_at(data, 0);
}

/// An INTVAR event holds its type byte, then the value in eight bytes least significant
/// first.
pub proof fn law_intvar_fields(ev: IntVarEvent, data: Seq<u8>, after: IntVarEvent, r: Result<(), crate::error::ReplicationError>)
    requires
        ev.decode_spec(data, after, r),
        r is Ok,
    ensures
        after.value == u64_lsb_at(data, 1),
{
    lemma_le8_at(data, 1);
}

/// A format description starts with the binlog version in two bytes, the server version
/// in 50 bytes and the creation time in four bytes, numbers least significant first.
pub proof fn law_format_description_fields(
    ev: FormatDescriptionEvent,
    data: Seq<u8>,
    after: FormatDescriptionEvent,
    r: Result<(), crate::error::ReplicationError>,
)
    requires
        ev.decode_spec(data, after, r),
        r is Ok,
    ensures
        after.version == u16_lsb(data, 0),
        after.server_version@ == data.subrange(2, 52),
        after.create_timestamp == u32_lsb(data, 52),
{
    lemma_le2(data, 0);
    lemma_le4_at(data, 52);
}

/// The fixed part of a rows event of version 0 or 1 with a table id of `tis` (4 or 6)
/// bytes: the table id and two bytes of flags, least significant first, then the column
/// count and one columns bitmap of one bit per column, followed by a second one of the same
/// size exactly when the event has a second image.
pub proof fn law_rows_header_fields(d: Seq<u8>, tis: int, version: int, need_bitmap2: bool)
    requires
        tis == 4 || tis == 6,
        version != 2,
        rows_header(d, tis, version, need_bitmap2) is Ok,
    ensures
        ({
            let h = rows_header(d, tis, version, need_bitmap2)->Ok_0;
            let nb = (h.column_count + 7) / 8;
            &&& h.table_id == (if tis == 4 {
                u32_lsb(d, 0)
            } else {
                u32_lsb(d, 0) + 0x1_0000_0000 * u16_lsb(d, 4)
            })
            &&& h.flags == u16_lsb(d, tis)
            &&& h.extra_data.len() == 0
            &&& h.bitmap1.len() == nb
            &&& h.bitmap2.len() == (if need_bitmap2 { nb } else { 0 })
            &&& need_bitmap2 ==> h.bitmap2 == d.subrange(h.pos - nb, h.pos)
            &&& h.bitmap1 == d.subrange(h.pos - (if need_bitmap2 { 2 * nb } else { nb }), h.pos - (if need_bitmap2 { nb } else { 0 }))
        }),
{
    lemma_le2(d, tis);
    if tis == 4 {
        lemma_le4(d);
    } else {
        lemma_le4(d);
        assert(le_at(d, 6, 0) == 0);
        lemma_le_step(d, 5, 0);
        lemma_le_step(d, 4, 1);
        lemma_le_step(d, 3, 2);
        lemma_le_step(d, 2, 3);
        lemma_le_step(d, 1, 4);
        lemma_le_step(d, 0, 5);
    }
}

/// A MariaDB GTID event: the sequence number in eight bytes and the domain id in four,
/// least significant first, then the flags byte.
pub proof fn law_mariadb_gtid_fields(
    ev: MariadbGTIDEvent,
    data: Seq<u8>,
    after: MariadbGTIDEvent,
    r: Result<(), crate::error::ReplicationError>,
)
    requires
        ev.decode_spec(data, after, r),
        r is Ok,
    ensures
        after.gtid.sequence_number == u64_lsb_at(data, 0),
        after.gtid.domain_id == u32_lsb(data, 8),
        after.flags == data[12],
{
    lemma_le8_at(data, 0);
    lemma_le4_at(data, 8);
}

/// A BIT column of whole bytes holds its bits most significant byte first: BIT(8) in one
/// byte, BIT(16) in two and BIT(32) in four.
pub proof fn law_bit_whole_bytes(d: Seq<u8>, is_partial: bool, c: FieldContext)
    ensures
        d.len() >= 1 ==> field_model(d, MYSQL_TYPE_BIT, 0x100, is_partial, c) == Ok::<(FieldModel, int), crate::error::ReplicationError>(
            (FieldModel::Int(d[0] as int), 1),
        ),
        d.len() >= 2 ==> field_model(d, MYSQL_TYPE_BIT, 0x200, is_partial, c) == Ok::<(FieldModel, int), crate::error::ReplicationError>(
            (FieldModel::Int(256 * d[0] + d[1]), 2),
        ),
        d.len() >= 4 ==> field_model(d, MYSQL_TYPE_BIT, 0x400, is_partial, c) == Ok::<(FieldModel, int), crate::error::ReplicationError>(
            (FieldModel::Int(16777216 * d[0] + 65536 * d[1] + 256 * d[2] + d[3]), 4),
        ),
{
    reveal(field_model);
    if d.len() >= 2 {
        let s = d.subrange(0, 2);
        reveal_with_fuel(be_uint, 3);
        assert(s.drop_last().drop_last().len() == 0);
    }
    if d.len() >= 4 {
        lemma_be4(d);
    }
}

/// The fraction of a TIMESTAMP2 value follows its seconds, most significant byte first:
/// one byte of hundredths for one or two fraction digits, two bytes of ten-thousandths for
/// three or four, three bytes of microseconds for five or six. A time keeps that fraction
/// as nanoseconds.
pub proof fn law_timestamp2_fraction(d: Seq<u8>, dec: u16, tz: Option<chrono_tz::Tz>)
    requires
        1 <= dec <= 6,
    ensures
        ({
            let usec: int = if dec <= 2 {
                d[4] * 10000
            } else if dec <= 4 {
                (256 * d[4] + d[5]) * 100
            } else {
                65536 * d[4] + 256 * d[5] + d[6]
            };
            timestamp2_model(d, dec, tz) matches Ok((DtModel::Time(t, k, _), n)) ==> t.nanosecond == usec * 1000
                && k == dec && n == 4 + (dec + 1) / 2
        }),
{
    if d.len() >= 6 {
        let s = d.subrange(4, 6);
        reveal_with_fuel(be_uint, 3);
        assert(s.drop_last().drop_last().len() == 0);
    }
    if d.len() >= 7 {
        let s = d.subrange(4, 7);
        reveal_with_fuel(be_uint, 4);
        assert(s.drop_last().drop_last().drop_last().len() == 0);
    }
}

} // verus!
