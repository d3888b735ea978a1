use vstd::prelude::*;
use crate::bytes::{le_at, lenenc_int};
use crate::column_types::{MYSQL_TYPE_NULL, MYSQL_TYPE_LONG, MYSQL_TYPE_TINY, MYSQL_TYPE_SHORT, MYSQL_TYPE_INT24,
    MYSQL_TYPE_LONGLONG, MYSQL_TYPE_NEWDECIMAL, MYSQL_TYPE_FLOAT, MYSQL_TYPE_DOUBLE, MYSQL_TYPE_BIT,
    MYSQL_TYPE_TIMESTAMP, MYSQL_TYPE_TIMESTAMP2, MYSQL_TYPE_DATETIME, MYSQL_TYPE_DATETIME2, MYSQL_TYPE_TIME,
    MYSQL_TYPE_TIME2, MYSQL_TYPE_DATE, MYSQL_TYPE_YEAR, MYSQL_TYPE_ENUM, MYSQL_TYPE_SET, MYSQL_TYPE_BLOB,
    MYSQL_TYPE_VARCHAR, MYSQL_TYPE_VAR_STRING, MYSQL_TYPE_STRING, MYSQL_TYPE_JSON, MYSQL_TYPE_GEOMETRY};
use crate::decode_helper::{DtModel, bit_set, bit_value, bit_bytes, blob_value, string_value, decimal_layout, decimal_text,
    timestamp2_model, datetime2_model, time2_model, calendar_of, hms_text};
use crate::error::ReplicationError;
use crate::fields::{DecodeFieldData, DecodeJson, DecodeDatetime, DecimalModel, JsonModel, JsonDiffOperation,
    big_decimal_of, decimal_view, json_view, json_diff_operation_of};
use crate::json_binary::{json_value, signed_of};
use crate::text::{padded, utf8_lossy};
use crate::time::{CalendarTime, frac_time_text, fields_valid, unix_calendar};

verus! {

/// The mathematical form of a decoded column value.
pub enum FieldModel {
    Null,
    Int(int),
    F32(u32),
    F64(u64),
    Decimal(DecimalModel),
    Text(Seq<char>),
    DatetimeText(Seq<char>),
    DatetimeTime(CalendarTime, int, Option<chrono_tz::Tz>),
    Bytes(Seq<u8>),
    Json(JsonModel),
    JsonBytes(Seq<u8>),
    JsonDiff(JsonDiffOperation, Seq<char>, Option<JsonModel>),
}

/// The form of a decoded column value.
pub open spec fn field_view(f: DecodeFieldData) -> FieldModel {
    match f {
        DecodeFieldData::Null => FieldModel::Null,
        DecodeFieldData::Isize(i) => FieldModel::Int(i as int),
        DecodeFieldData::F32(b) => FieldModel::F32(b),
        DecodeFieldData::F64(b) => FieldModel::F64(b),
        DecodeFieldData::Decimal(d) => FieldModel::Decimal(decimal_view(d)),
        DecodeFieldData::Datetime(DecodeDatetime::String(s)) => FieldModel::DatetimeText(s@),
        DecodeFieldData::Datetime(DecodeDatetime::FracTime(t)) => FieldModel::DatetimeTime(
            t.f_time,
            t.dec as int,
            t.timestamp_string_location,
        ),
        DecodeFieldData::String(s) => FieldModel::Text(s@),
        DecodeFieldData::Bytes(b) => FieldModel::Bytes(b@),
        DecodeFieldData::Json(DecodeJson::Bytes(b)) => FieldModel::JsonBytes(b@),
        DecodeFieldData::Json(DecodeJson::JsonDiff(d)) => FieldModel::JsonDiff(
            d.op,
            d.path@,
            match d.value {
                Some(v) => Some(json_view(*v)),
                None => None,
            },
        ),
        DecodeFieldData::Json(j) => FieldModel::Json(json_view(j)),
    }
}

/// The form of a column decoder's result.
pub open spec fn field_result_view(r: Result<(DecodeFieldData, isize), ReplicationError>) -> Result<(FieldModel, int), ReplicationError> {
    match r {
        Ok((f, n)) => Ok((field_view(f), n as int)),
        Err(e) => Err(e),
    }
}

/// A decoded date and time as a column value: kept as a time when `parse_time` holds,
/// else as the text it prints as.
pub open spec fn dt_field(parse_time: bool, m: DtModel) -> FieldModel {
    match m {
        DtModel::Text(s) => FieldModel::DatetimeText(s),
        DtModel::Time(t, dec, tz) => if parse_time {
            FieldModel::DatetimeTime(t, dec, tz)
        } else {
            FieldModel::DatetimeText(frac_time_text(t, dec))
        },
    }
}

/// The column type a value is stored as, and the length of a STRING value: a STRING column
/// with metadata of 256 or more keeps its real type, and part of its length, in the high
/// metadata byte.
pub open spec fn real_field_type(tp: u8, meta: u16) -> (u8, int) {
    if tp == MYSQL_TYPE_STRING {
        if meta >= 256 {
            let b0 = (meta >> 8u16) as u8;
            let b1 = (meta & 0xffu16) as u8;
            if b0 & 0x30u8 != 0x30u8 {
                ((b0 | 0x30u8), ((b1 as u16) | ((((b0 & 0x30u8) ^ 0x30u8) as u16) << 4u16)) as int)
            } else {
                (b0, b1 as int)
            }
        } else {
            (tp, meta as int)
        }
    } else {
        (tp, 0)
    }
}

/// A little-endian integer of `k` bytes, signed or not, and the bytes it takes.
pub open spec fn int_field(d: Seq<u8>, k: nat, signed: bool) -> Result<(FieldModel, int), ReplicationError> {
    if d.len() < k {
        Err(ReplicationError::UnexpectedEof)
    } else if signed {
        Ok((FieldModel::Int(signed_of(le_at(d, 0, k as int), k)), k as int))
    } else {
        Ok((FieldModel::Int(le_at(d, 0, k as int) as int), k as int))
    }
}

/// A JSON document: a type byte, then the value, its containers followed as deep as
/// the value has bytes.
#[verifier::opaque]
pub open spec fn json_document(doc: Seq<u8>, use_decimal: bool, ignore: bool) -> Result<JsonModel, ReplicationError> {
    if doc.len() < 1 {
        Err(ReplicationError::JsonDataShort(doc.len() as usize, 1))
    } else {
        json_value(doc[0], doc.subrange(1, doc.len() as int), (doc.len() - 1) as nat, use_decimal, ignore)
    }
}

/// A partial JSON update: an operation byte, a length-encoded path, and, but for a
/// removal, a length-encoded JSON document.
pub open spec fn json_diff_model(doc: Seq<u8>, use_decimal: bool, ignore: bool) -> Result<
    (JsonDiffOperation, Seq<char>, Option<JsonModel>),
    ReplicationError,
> {
    if doc.len() < 1 {
        Err(ReplicationError::UnexpectedEof)
    } else if json_diff_operation_of(doc[0]) == JsonDiffOperation::Unknown {
        Err(ReplicationError::CorruptedJsonDiff)
    } else {
        let op = json_diff_operation_of(doc[0]);
        let d1 = doc.subrange(1, doc.len() as int);
        match lenenc_int(d1) {
            None => Err(ReplicationError::UnexpectedEof),
            Some((pl, _, n)) => if n + pl > d1.len() {
                Err(ReplicationError::UnexpectedEof)
            } else {
                let path = utf8_lossy(d1.subrange(n as int, n + pl));
                let d3 = d1.subrange(n + pl, d1.len() as int);
                if op == JsonDiffOperation::Remove {
                    Ok((op, path, None))
                } else {
                    match lenenc_int(d3) {
                        None => Err(ReplicationError::UnexpectedEof),
                        Some((vl, _, m)) => if m + vl > d3.len() {
                            Err(ReplicationError::UnexpectedEof)
                        } else {
                            match json_document(d3.subrange(m as int, m + vl), use_decimal, ignore) {
                                Err(e) => Err(e),
                                Ok(j) => Ok((op, path, Some(j))),
                            }
                        },
                    }
                }
            },
        }
    }
}

/// How a stored column value decodes, given the settings that shape it.
pub struct FieldContext {
    pub use_decimal: bool,
    pub parse_time: bool,
    pub tz: Option<chrono_tz::Tz>,
    pub ignore_json: bool,
}

/// The value of a column of type `tp` with metadata `meta` at the start of `d`, and the
/// bytes it takes.
#[verifier::opaque]
pub open spec fn field_model(d: Seq<u8>, tp: u8, meta: u16, is_partial: bool, c: FieldContext) -> Result<(FieldModel, int), ReplicationError> {
    let (t, length) = real_field_type(tp, meta);
    if t == MYSQL_TYPE_NULL {
        Ok((FieldModel::Null, 0))
    } else if t == MYSQL_TYPE_LONG {
        int_field(d, 4, true)
    } else if t == MYSQL_TYPE_TINY {
        int_field(d, 1, true)
    } else if t == MYSQL_TYPE_SHORT {
        int_field(d, 2, true)
    } else if t == MYSQL_TYPE_INT24 {
        int_field(d, 3, true)
    } else if t == MYSQL_TYPE_LONGLONG {
        int_field(d, 8, true)
    } else if t == MYSQL_TYPE_NEWDECIMAL {
        let prec = meta / 256;
        let scale = meta % 256;
        let n = decimal_layout(prec as int, scale as int).4;
        if scale > prec {
            Err(ReplicationError::InvalidDecimalScale(prec as isize, scale as isize))
        } else if n < 1 || n > d.len() {
            Err(ReplicationError::UnexpectedEof)
        } else if decimal_text(d, prec as int, scale as int) is None {
            Err(ReplicationError::InvalidDecimal)
        } else if c.use_decimal {
            Ok((FieldModel::Decimal(DecimalModel::Number(big_decimal_of(decimal_text(d, prec as int, scale as int).unwrap()))), n))
        } else {
            Ok((FieldModel::Decimal(DecimalModel::Text(decimal_text(d, prec as int, scale as int).unwrap())), n))
        }
    } else if t == MYSQL_TYPE_FLOAT {
        if d.len() < 4 {
            Err(ReplicationError::UnexpectedEof)
        } else {
            Ok((FieldModel::F32(le_at(d, 0, 4) as u32), 4))
        }
    } else if t == MYSQL_TYPE_DOUBLE {
        if d.len() < 8 {
            Err(ReplicationError::UnexpectedEof)
        } else {
            Ok((FieldModel::F64(le_at(d, 0, 8) as u64), 8))
        }
    } else if t == MYSQL_TYPE_BIT {
        let nbits = (meta / 256) * 8 + meta % 256;
        let n = (nbits + 7) / 8;
        match bit_value(d, nbits as int, n as int, false) {
            None => Err(ReplicationError::InvalidBitLength(n as isize)),
            Some(v) => if d.len() < bit_bytes(n as int) {
                Err(ReplicationError::UnexpectedEof)
            } else {
                Ok((FieldModel::Int(v as int), n as int))
            },
        }
    } else if t == MYSQL_TYPE_TIMESTAMP {
        if d.len() < 4 {
            Err(ReplicationError::UnexpectedEof)
        } else if le_at(d, 0, 4) == 0 {
            Ok((FieldModel::DatetimeText("0000-00-00 00:00:00"@), 4))
        } else {
            match unix_calendar(le_at(d, 0, 4) as i64, 0) {
                Some(tp) => Ok((dt_field(c.parse_time, DtModel::Time(calendar_of(tp), 0, c.tz)), 4)),
                None => Err(ReplicationError::InvalidDate),
            }
        }
    } else if t == MYSQL_TYPE_TIMESTAMP2 {
        match timestamp2_model(d, meta, c.tz) {
            Err(e) => Err(e),
            Ok((m, n)) => Ok((dt_field(c.parse_time, m), n)),
        }
    } else if t == MYSQL_TYPE_DATETIME {
        if d.len() < 8 {
            Err(ReplicationError::UnexpectedEof)
        } else if le_at(d, 0, 8) == 0 {
            Ok((FieldModel::DatetimeText("0000-00-00 00:00:00"@), 8))
        } else {
            let dd = le_at(d, 0, 8) as int / 1000001;
            let tt = le_at(d, 0, 8) as int % 1000001;
            let f: (int, int, int, int, int, int, int) = (dd / 10000, (dd % 10000) / 100, dd % 100, tt / 10000, (tt % 10000) / 100, tt % 100, 0);
            if fields_valid(f.0, f.1, f.2, f.3, f.4, f.5, 0) {
                Ok((dt_field(c.parse_time, DtModel::Time(calendar_of(f), 0, None)), 8))
            } else {
                Err(ReplicationError::InvalidDate)
            }
        }
    } else if t == MYSQL_TYPE_DATETIME2 {
        match datetime2_model(d, meta) {
            Err(e) => Err(e),
            Ok((m, n)) => Ok((dt_field(c.parse_time, m), n)),
        }
    } else if t == MYSQL_TYPE_TIME {
        if d.len() < 3 {
            Err(ReplicationError::UnexpectedEof)
        } else if le_at(d, 0, 3) == 0 {
            Ok((FieldModel::Text("00:00:00"@), 3))
        } else {
            let v = le_at(d, 0, 3) as int;
            Ok((FieldModel::Text(hms_text(v / 10000, (v % 10000) / 100, v % 100)), 3))
        }
    } else if t == MYSQL_TYPE_TIME2 {
        match time2_model(d, meta) {
            Err(e) => Err(e),
            Ok((s, n)) => Ok((FieldModel::Text(s), n)),
        }
    } else if t == MYSQL_TYPE_DATE {
        if d.len() < 3 {
            Err(ReplicationError::UnexpectedEof)
        } else if le_at(d, 0, 3) == 0 {
            Ok((FieldModel::Text("0000-00-00"@), 3))
        } else {
            let v = le_at(d, 0, 3);
            Ok((FieldModel::Text(padded(v / 512, 4) + seq!['-'] + padded((v / 32) % 16, 2) + seq!['-']
                + padded(v % 32, 2)), 3))
        }
    } else if t == MYSQL_TYPE_YEAR {
        if d.len() < 1 {
            Err(ReplicationError::UnexpectedEof)
        } else {
            Ok((FieldModel::Int(if d[0] == 0 { 0 } else { d[0] + 1900 }), 1))
        }
    } else if t == MYSQL_TYPE_ENUM {
        let l = meta % 256;
        if l == 1 {
            if d.len() < 1 {
                Err(ReplicationError::UnexpectedEof)
            } else {
                Ok((FieldModel::Int(d[0] as int), 1))
            }
        } else if l == 2 {
            int_field(d, 2, false)
        } else {
            Err(ReplicationError::UnknownEnumPackLen(l as u16))
        }
    } else if t == MYSQL_TYPE_SET {
        let n = meta % 256;
        match bit_value(d, (n * 8) as int, n as int, true) {
            None => Err(ReplicationError::InvalidBitLength(n as isize)),
            Some(v) => if d.len() < bit_bytes(n as int) {
                Err(ReplicationError::UnexpectedEof)
            } else {
                Ok((FieldModel::Int(v as int), n as int))
            },
        }
    } else if t == MYSQL_TYPE_BLOB || t == MYSQL_TYPE_GEOMETRY {
        if !(1 <= meta <= 4) {
            Err(ReplicationError::InvalidBlobPackLen(meta))
        } else {
            match blob_value(d, meta as int) {
                None => Err(ReplicationError::UnexpectedEof),
                Some((b, n)) => Ok((FieldModel::Bytes(b), n)),
            }
        }
    } else if t == MYSQL_TYPE_VARCHAR || t == MYSQL_TYPE_VAR_STRING || t == MYSQL_TYPE_STRING {
        let len = if t == MYSQL_TYPE_STRING {
            length
        } else {
            meta as int
        };
        match string_value(d, len) {
            None => Err(ReplicationError::UnexpectedEof),
            Some((s, n)) => Ok((FieldModel::Text(s), n)),
        }
    } else if t == MYSQL_TYPE_JSON {
        if meta > 8 {
            Err(ReplicationError::InvalidBlobPackLen(meta))
        } else if d.len() < meta {
            Err(ReplicationError::UnexpectedEof)
        } else {
            let length = le_at(d, 0, meta as int) as int;
            let n = length + meta;
            if length == 0 {
                Ok((FieldModel::JsonBytes(Seq::empty()), n))
            } else if n > d.len() {
                Err(ReplicationError::UnexpectedEof)
            } else if is_partial {
                match json_diff_model(d.subrange(meta as int, n), c.use_decimal, c.ignore_json) {
                    Err(e) => Err(e),
                    Ok((op, path, v)) => Ok((FieldModel::JsonDiff(op, path, v), n)),
                }
            } else {
                match json_document(d.subrange(meta as int, n), c.use_decimal, c.ignore_json) {
                    Err(e) => Err(e),
                    Ok(j) => Ok((FieldModel::Json(j), n)),
                }
            }
        }
    } else {
        Err(ReplicationError::UnsupportedValueType(t))
    }
}


/// The forms of the values of a row.
pub open spec fn row_view(r: Seq<DecodeFieldData>) -> Seq<FieldModel> {
    Seq::new(r.len(), |i: int| field_view(r[i]))
}

/// The forms of the values of each row.
pub open spec fn rows_view(rows: Seq<Vec<DecodeFieldData>>) -> Seq<Seq<FieldModel>> {
    Seq::new(rows.len(), |i: int| row_view(rows[i]@))
}

/// The skipped column indexes of each row.
pub open spec fn skips_view(s: Seq<Vec<isize>>) -> Seq<Seq<isize>> {
    Seq::new(s.len(), |i: int| s[i]@)
}

/// How many of the first `k` bits of `bitmap` are set.
pub open spec fn bits_set_count(bitmap: Seq<u8>, k: int) -> nat
    decreases k,
{
    if k <= 0 {
        0
    } else {
        bits_set_count(bitmap, k - 1) + if bit_set(bitmap, k - 1) {
            1nat
        } else {
            0nat
        }
    }
}

/// The value of a column stored whole (not as a partial update).
#[verifier::opaque]
pub open spec fn column_value(d: Seq<u8>, tp: u8, meta: u16, c: FieldContext) -> Result<(FieldModel, int), ReplicationError> {
    field_model(d, tp, meta, false, c)
}

/// The columns of a row image from column `i` on, read from `pos` on, with `nidx` null
/// bits used so far: their values (NULL for columns the image leaves out or marks NULL),
/// the indexes of the columns left out, and where the image ends.
pub open spec fn image_cols(
    d: Seq<u8>,
    bitmap: Seq<u8>,
    nulls: Seq<u8>,
    types: Seq<u8>,
    metas: Seq<u16>,
    cc: int,
    c: FieldContext,
    i: int,
    pos: int,
    nidx: int,
) -> Result<(Seq<FieldModel>, Seq<isize>, int), ReplicationError>
    decreases cc - i,
{
    if i >= cc {
        Ok((Seq::empty(), Seq::empty(), pos))
    } else if !bit_set(bitmap, i) {
        match image_cols(d, bitmap, nulls, types, metas, cc, c, i + 1, pos, nidx) {
            Err(e) => Err(e),
            Ok((row, skips, end)) => Ok((seq![FieldModel::Null] + row, seq![i as isize] + skips, end)),
        }
    } else if bit_set(nulls, nidx) {
        match image_cols(d, bitmap, nulls, types, metas, cc, c, i + 1, pos, nidx + 1) {
            Err(e) => Err(e),
            Ok((row, skips, end)) => Ok((seq![FieldModel::Null] + row, skips, end)),
        }
    } else if i >= types.len() || i >= metas.len() {
        Err(ReplicationError::ColumnCountMismatch(cc as u64, types.len() as usize))
    } else if pos > d.len() {
        Err(ReplicationError::UnexpectedEof)
    } else {
        match column_value(d.subrange(pos, d.len() as int), types[i], metas[i], c) {
            Err(e) => Err(e),
            Ok((m, n)) => match image_cols(d, bitmap, nulls, types, metas, cc, c, i + 1, pos + n, nidx + 1) {
                Err(e) => Err(e),
                Ok((row, skips, end)) => Ok((seq![m] + row, skips, end)),
            },
        }
    }
}

/// Where the null bitmap of a row image starts: after the row value options of the
/// after image of a partial update, and the partial JSON bitmap where those options
/// name partial JSON updates.
pub open spec fn image_start(d: Seq<u8>, partial_after: bool, json_columns: int) -> Result<int, ReplicationError> {
    if !partial_after {
        Ok(0)
    } else {
        match lenenc_int(d) {
            None => Err(ReplicationError::UnexpectedEof),
            Some((opts, _, n)) => if opts as u8 == 1 {
                let bc = (json_columns + 7) / 8;
                if n + bc > d.len() {
                    Err(ReplicationError::UnexpectedEof)
                } else {
                    Ok(n + bc)
                }
            } else {
                Ok(n as int)
            },
        }
    }
}

/// A row image at the start of `d`: its values, the columns it leaves out, and the
/// bytes it takes.
pub open spec fn image_model(
    d: Seq<u8>,
    bitmap: Seq<u8>,
    types: Seq<u8>,
    metas: Seq<u16>,
    cc: int,
    c: FieldContext,
    partial_after: bool,
    json_columns: int,
) -> Result<(Seq<FieldModel>, Seq<isize>, int), ReplicationError> {
    match image_start(d, partial_after, json_columns) {
        Err(e) => Err(e),
        Ok(p0) => {
            let nb = (bits_set_count(bitmap, cc) + 7) / 8;
            if p0 + nb > d.len() {
                Err(ReplicationError::UnexpectedEof)
            } else {
                image_cols(d, bitmap, d.subrange(p0, p0 + nb), types, metas, cc, c, 0, p0 + nb, 0)
            }
        },
    }
}


/// A value decoded at `pos` takes at most the bytes left and a few more: a TIME2,
/// DATETIME2 or TIMESTAMP2 value is said to take its full width whether or not it is
/// there.
#[verifier::rlimit(40)]
#[verifier::spinoff_prover]
pub proof fn lemma_field_width(d: Seq<u8>, tp: u8, meta: u16, is_partial: bool, c: FieldContext)
    ensures
        field_model(d, tp, meta, is_partial, c) matches Ok((m, n)) ==> 0 <= n <= d.len() + 0x10000,
{
    reveal(field_model);
    crate::decode_helper::lemma_widths(d, meta);
}

/// A whole column value is the value `field_model` gives.
pub proof fn lemma_column_value(d: Seq<u8>, tp: u8, meta: u16, c: FieldContext)
    ensures
        column_value(d, tp, meta, c) == field_model(d, tp, meta, false, c),
{
    reveal(column_value);
}

} // verus!
