use vstd::prelude::*;
use std::collections::HashMap;
use crate::bytes::{lenenc_int, le_at, fixed_le, copy_range, length_encoded_int, lemma_fixed_le_bound, byte_pow};
use crate::column_types::{MYSQL_TYPE_NULL, MYSQL_TYPE_LONG, MYSQL_TYPE_TINY, MYSQL_TYPE_SHORT, MYSQL_TYPE_INT24,
    MYSQL_TYPE_LONGLONG, MYSQL_TYPE_NEWDECIMAL, MYSQL_TYPE_FLOAT, MYSQL_TYPE_DOUBLE, MYSQL_TYPE_BIT,
    MYSQL_TYPE_TIMESTAMP, MYSQL_TYPE_TIMESTAMP2, MYSQL_TYPE_DATETIME, MYSQL_TYPE_DATETIME2, MYSQL_TYPE_TIME,
    MYSQL_TYPE_TIME2, MYSQL_TYPE_DATE, MYSQL_TYPE_YEAR, MYSQL_TYPE_ENUM, MYSQL_TYPE_SET, MYSQL_TYPE_BLOB,
    MYSQL_TYPE_VARCHAR, MYSQL_TYPE_VAR_STRING, MYSQL_TYPE_STRING, MYSQL_TYPE_JSON, MYSQL_TYPE_GEOMETRY};
use crate::consts::EventType;
use crate::event::Event;
use crate::decode_helper::{decode_decimal, decode_bit, little_decode_bit, decode_blob, decode_string, decode_time2,
    decode_datetime2, decode_timestamp2, dt_view, hms_text};
use crate::error::ReplicationError;
use crate::fields::{DecodeFieldData, DecodeJson, DecodeDatetime, JsonDiff, JsonDiffOperation, json_view};
use crate::json_binary::JsonBinaryDecoder;
use crate::rows_spec::{FieldContext, image_cols, image_model, image_start, bits_set_count, row_view, rows_view, skips_view, FieldModel, field_model, field_view, field_result_view, dt_field, json_document,
    json_diff_model, real_field_type};
use crate::table_map::{TableMapEvent, blank_table};
use crate::text::{push_char, push_padded, lossy_string};
use crate::time::{FracTime, make_calendar, unix_to_calendar};

verus! {

/// The flag of a rows event that ends a statement.
pub const ROWS_EVENT_STMT_END_FLAG: u8 = 0x01;

/// Which image of a row a rows event holds.
#[derive(Debug, Clone, Copy, PartialEq, Eq, Structural)]
pub enum EnumRowImageType {
    WriteAI,
    UpdateBI,
    UpdateAI,
    DeleteBI,
    Unknown,
}

impl EnumRowImageType {
    /// The name of the image type.
    pub fn to_text(&self) -> (r: String)
        ensures
            r@ == match *self {
                EnumRowImageType::WriteAI => "WriteAI"@,
                EnumRowImageType::UpdateBI => "UpdateBI"@,
                EnumRowImageType::UpdateAI => "UpdateAI"@,
                EnumRowImageType::DeleteBI => "DeleteBI"@,
                EnumRowImageType::Unknown => "Unknown"@,
            },
    {
        match *self {
            EnumRowImageType::WriteAI => crate::text::text("WriteAI"),
            EnumRowImageType::UpdateBI => crate::text::text("UpdateBI"),
            EnumRowImageType::UpdateAI => crate::text::text("UpdateAI"),
            EnumRowImageType::DeleteBI => crate::text::text("DeleteBI"),
            EnumRowImageType::Unknown => crate::text::text("Unknown"),
        }
    }
}

/// The image type that the byte `b` names.
pub open spec fn row_image_type_of(b: u8) -> EnumRowImageType {
    if b == 0 {
        EnumRowImageType::WriteAI
    } else if b == 1 {
        EnumRowImageType::UpdateBI
    } else if b == 2 {
        EnumRowImageType::UpdateAI
    } else if b == 3 {
        EnumRowImageType::DeleteBI
    } else {
        EnumRowImageType::Unknown
    }
}

impl From<u8> for EnumRowImageType {
    fn from(b: u8) -> (r: Self) {
        if b == 0 {
            EnumRowImageType::WriteAI
        } else if b == 1 {
            EnumRowImageType::UpdateBI
        } else if b == 2 {
            EnumRowImageType::UpdateAI
        } else if b == 3 {
            EnumRowImageType::DeleteBI
        } else {
            EnumRowImageType::Unknown
        }
    }
}

impl vstd::std_specs::convert::FromSpecImpl<u8> for EnumRowImageType {
    open spec fn obeys_from_spec() -> bool {
        true
    }

    open spec fn from_spec(b: u8) -> Self {
        row_image_type_of(b)
    }
}

/// The bits of the binlog_row_value_options setting.
#[derive(Debug, Clone, Copy, PartialEq, Eq, Structural)]
pub enum EnumBinlogRowValueOptions {
    Unknown,
    PartialJsonUpdates,
}

/// The option that the byte `b` names.
pub open spec fn row_value_option_of(b: u8) -> EnumBinlogRowValueOptions {
    if b == 1 {
        EnumBinlogRowValueOptions::PartialJsonUpdates
    } else {
        EnumBinlogRowValueOptions::Unknown
    }
}

impl From<u8> for EnumBinlogRowValueOptions {
    fn from(b: u8) -> (r: Self) {
        if b == 1 {
            EnumBinlogRowValueOptions::PartialJsonUpdates
        } else {
            EnumBinlogRowValueOptions::Unknown
        }
    }
}

impl vstd::std_specs::convert::FromSpecImpl<u8> for EnumBinlogRowValueOptions {
    open spec fn obeys_from_spec() -> bool {
        true
    }

    open spec fn from_spec(b: u8) -> Self {
        row_value_option_of(b)
    }
}

/// A rows event: the row images of one table that a statement wrote, updated or deleted.
#[derive(Debug)]
pub struct RowsEvent {
    /// 0, 1 or 2.
    pub version: isize,
    pub table_id_size: isize,
    /// The table maps seen so far, by table id.
    pub tables: HashMap<u64, TableMapEvent>,
    pub need_bitmap2: bool,
    /// Whether the rows are compressed (MariaDB).
    pub compressed: bool,
    pub event_type: EventType,
    /// The table map of the table the rows belong to.
    pub table: TableMapEvent,
    pub table_id: u64,
    pub flags: u16,
    /// Extra data of a version 2 event.
    pub extra_data: Vec<u8>,
    pub column_count: u64,
    /// The columns the first image holds.
    pub column_bitmap1: Vec<u8>,
    /// The columns the second image of an update holds.
    pub column_bitmap2: Vec<u8>,
    pub rows: Vec<Vec<DecodeFieldData>>,
    pub skipped_columns: Vec<Vec<isize>>,
    pub parse_time: bool,
    pub timestamp_string_location: Option<chrono_tz::Tz>,
    pub use_decimal: bool,
    pub ignore_json_decode_err: bool,
}

/// The signed value of the first `k` bytes of `data`, little-endian.
fn read_signed(data: &[u8], k: usize) -> (r: i64)
    requires
        k == 1 || k == 2 || k == 3 || k == 4 || k == 8,
        k <= data@.len(),
    ensures
        r == crate::json_binary::signed_of(le_at(data@, 0, k as int), k as nat),
{
    let v = fixed_le(data, 0, k);
    proof {
        lemma_fixed_le_bound(data@, 0, k as int);
        reveal_with_fuel(byte_pow, 9);
    }
    if k == 8 {
        if v >= 0x8000_0000_0000_0000 {
            (v - 0x8000_0000_0000_0000) as i64 - 0x7fff_ffff_ffff_ffff - 1
        } else {
            v as i64
        }
    } else {
        let half: u64 = if k == 1 {
            0x80
        } else if k == 2 {
            0x8000
        } else if k == 3 {
            0x80_0000
        } else {
            0x8000_0000
        };
        if v >= half {
            v as i64 - (2 * half) as i64
        } else {
            v as i64
        }
    }
}

impl RowsEvent {
    /// The settings that shape how column values decode.
    pub open spec fn context(&self) -> FieldContext {
        FieldContext {
            use_decimal: self.use_decimal,
            parse_time: self.parse_time,
            tz: self.timestamp_string_location,
            ignore_json: self.ignore_json_decode_err,
        }
    }

    /// A decoded date and time as a column value: kept as a time when `parse_time` holds,
    /// else turned into its text.
    fn _parse_frac_time(&self, t: DecodeDatetime) -> (r: DecodeDatetime)
        requires
            t matches DecodeDatetime::FracTime(f) ==> f.dec >= 0,
        ensures
            field_view(DecodeFieldData::Datetime(r)) == dt_field(self.parse_time, dt_view(t)),
    {
        match t {
            DecodeDatetime::String(s) => DecodeDatetime::String(s),
            DecodeDatetime::FracTime(f) => {
                if !self.parse_time {
                    DecodeDatetime::String(f.to_text())
                } else {
                    DecodeDatetime::FracTime(f)
                }
            },
        }
    }

    /// Decodes a JSON document in MySQL's binary format.
    fn _decode_json_binary(&self, data: &[u8]) -> (r: Result<DecodeJson, ReplicationError>)
        ensures
            r matches Ok(j) ==> json_document(data@, self.use_decimal, self.ignore_json_decode_err) == Ok::<
                crate::fields::JsonModel,
                ReplicationError,
            >(json_view(j)),
            r matches Err(e) ==> json_document(data@, self.use_decimal, self.ignore_json_decode_err) == Err::<
                crate::fields::JsonModel,
                _,
            >(e),
    {
        proof {
            reveal(json_document);
        }
        let mut d = JsonBinaryDecoder {
            use_decimal: self.use_decimal,
            ignore_decode_err: self.ignore_json_decode_err,
            err: Ok(()),
        };
        if d.is_data_short(data, 1) {
            return match d.err {
                Ok(_) => Ok(DecodeJson::Bytes(Vec::new())),
                Err(e) => Err(e),
            };
        }
        let v = d.decode_value(data[0], &data[1..data.len()]);
        match d.err {
            Err(e) => Err(e),
            Ok(_) => Ok(v),
        }
    }

    /// Decodes a partial JSON update: the operation, the path and, but for a removal, the
    /// new value.
    #[verifier::rlimit(40)]
    #[verifier::spinoff_prover]
    fn _decode_json_partial_binary(&self, data: &[u8]) -> (r: Result<JsonDiff, ReplicationError>)
        ensures
            r matches Ok(d) ==> json_diff_model(data@, self.use_decimal, self.ignore_json_decode_err) == Ok::<
                (JsonDiffOperation, Seq<char>, Option<crate::fields::JsonModel>),
                ReplicationError,
            >((d.op, d.path@, match d.value {
                Some(v) => Some(json_view(*v)),
                None => None,
            })),
            r matches Err(e) ==> json_diff_model(data@, self.use_decimal, self.ignore_json_decode_err) == Err::<
                (JsonDiffOperation, Seq<char>, Option<crate::fields::JsonModel>),
                _,
            >(e),
    {
        if data.len() < 1 {
            return Err(ReplicationError::UnexpectedEof);
        }
        let op = JsonDiffOperation::from_byte(data[0]);
        if op == JsonDiffOperation::Unknown {
            return Err(ReplicationError::CorruptedJsonDiff);
        }
        let ghost d1 = data@.subrange(1, data@.len() as int);
        let (pl, n) = match length_encoded_int(data, 1) {
            None => {
                return Err(ReplicationError::UnexpectedEof);
            },
            Some((pl, _, n)) => (pl, n),
        };
        assert(data@.subrange(1, data@.len() as int) =~= d1);
        if pl > (data.len() - 1 - n) as u64 {
            return Err(ReplicationError::UnexpectedEof);
        }
        let ps = 1 + n;
        let pe = ps + pl as usize;
        let path = lossy_string(&data[ps..pe]);
        assert(d1.subrange(n as int, n + pl) =~= data@.subrange(ps as int, pe as int));
        if op == JsonDiffOperation::Remove {
            return Ok(JsonDiff { op, path, value: None });
        }
        let ghost d3 = d1.subrange(n + pl, d1.len() as int);
        assert(data@.subrange(pe as int, data@.len() as int) =~= d3);
        let (vl, m) = match length_encoded_int(data, pe) {
            None => {
                return Err(ReplicationError::UnexpectedEof);
            },
            Some((vl, _, m)) => (vl, m),
        };
        if vl > (data.len() - pe - m) as u64 {
            return Err(ReplicationError::UnexpectedEof);
        }
        let vs = pe + m;
        let ve = vs + vl as usize;
        assert(d3.subrange(m as int, m + vl) =~= data@.subrange(vs as int, ve as int));
        match self._decode_json_binary(&data[vs..ve]) {
            Err(e) => Err(e),
            Ok(v) => Ok(JsonDiff { op, path, value: Some(Box::new(v)) }),
        }
    }
}


impl RowsEvent {
    /// A little-endian signed integer of `k` bytes.
    fn decode_int_field(data: &[u8], k: usize) -> (r: Result<(DecodeFieldData, isize), ReplicationError>)
        requires
            k == 1 || k == 2 || k == 3 || k == 4 || k == 8,
        ensures
            field_result_view(r) == crate::rows_spec::int_field(data@, k as nat, true),
    {
        if data.len() < k {
            return Err(ReplicationError::UnexpectedEof);
        }
        Ok((DecodeFieldData::Isize(read_signed(data, k)), k as isize))
    }

    /// A DECIMAL column value.
    fn decode_decimal_field(&self, data: &[u8], meta: u16, is_partial: bool) -> (r: Result<(DecodeFieldData, isize), ReplicationError>)
        ensures
            field_result_view(r) == field_model(data@, MYSQL_TYPE_NEWDECIMAL, meta, is_partial, self.context()),
    {
        proof {
            reveal(field_model);
        }
        let prec = meta >> 8;
        let scale = meta & 0xff;
        assert(meta >> 8 == meta / 256) by (bit_vector);
        assert(meta & 0xff == meta % 256) by (bit_vector);
        if scale > prec {
            return Err(ReplicationError::InvalidDecimalScale(prec as isize, scale as isize));
        }
        match decode_decimal(data, prec as isize, scale as isize, self.use_decimal) {
            Ok((v, n)) => Ok((DecodeFieldData::Decimal(v), n)),
            Err(e) => Err(e),
        }
    }

    /// A TIMESTAMP column value: seconds since the UNIX epoch.
    fn decode_timestamp_field(&self, data: &[u8], meta: u16, is_partial: bool) -> (r: Result<(DecodeFieldData, isize), ReplicationError>)
        ensures
            field_result_view(r) == field_model(data@, MYSQL_TYPE_TIMESTAMP, meta, is_partial, self.context()),
    {
        proof {
            reveal(field_model);
        }
        if data.len() < 4 {
            return Err(ReplicationError::UnexpectedEof);
        }
        let t = fixed_le(data, 0, 4);
        proof {
            lemma_fixed_le_bound(data@, 0, 4);
            reveal_with_fuel(byte_pow, 5);
        }
        if t == 0 {
            proof {
                reveal_strlit("0000-00-00 00:00:00");
            }
            return Ok((DecodeFieldData::Datetime(DecodeDatetime::String(crate::time::format_zero_time(0, 0))), 4));
        }
        match unix_to_calendar(t as i64, 0) {
            Some(ct) => {
                let v = self._parse_frac_time(
                    DecodeDatetime::FracTime(
                        FracTime { f_time: ct, dec: 0, timestamp_string_location: self.timestamp_string_location },
                    ),
                );
                Ok((DecodeFieldData::Datetime(v), 4))
            },
            None => Err(ReplicationError::InvalidDate),
        }
    }

    /// A DATETIME column value: the date and time as decimal digits.
    fn decode_datetime_field(&self, data: &[u8], meta: u16, is_partial: bool) -> (r: Result<(DecodeFieldData, isize), ReplicationError>)
        ensures
            field_result_view(r) == field_model(data@, MYSQL_TYPE_DATETIME, meta, is_partial, self.context()),
    {
        proof {
            reveal(field_model);
        }
        if data.len() < 8 {
            return Err(ReplicationError::UnexpectedEof);
        }
        let u = fixed_le(data, 0, 8);
        if u == 0 {
            proof {
                reveal_strlit("0000-00-00 00:00:00");
            }
            return Ok((DecodeFieldData::Datetime(DecodeDatetime::String(crate::time::format_zero_time(0, 0))), 8));
        }
        let d = u / 1000001;
        let t = u % 1000001;
        match make_calendar(
            (d / 10000) as i64,
            ((d % 10000) / 100) as i64,
            (d % 100) as i64,
            (t / 10000) as i64,
            ((t % 10000) / 100) as i64,
            (t % 100) as i64,
            0,
        ) {
            Some(ct) => {
                let v = self._parse_frac_time(
                    DecodeDatetime::FracTime(FracTime { f_time: ct, dec: 0, timestamp_string_location: None }),
                );
                Ok((DecodeFieldData::Datetime(v), 8))
            },
            None => Err(ReplicationError::InvalidDate),
        }
    }

    /// A TIMESTAMP2 or DATETIME2 column value.
    fn decode_datetime2_field(&self, data: &[u8], tp: u8, meta: u16, is_partial: bool) -> (r: Result<(DecodeFieldData, isize), ReplicationError>)
        requires
            tp == MYSQL_TYPE_TIMESTAMP2 || tp == MYSQL_TYPE_DATETIME2,
        ensures
            field_result_view(r) == field_model(data@, tp, meta, is_partial, self.context()),
    {
        proof {
            reveal(field_model);
        }
        let res = if tp == MYSQL_TYPE_TIMESTAMP2 {
            decode_timestamp2(data, meta, self.timestamp_string_location)
        } else {
            decode_datetime2(data, meta)
        };
        match res {
            Ok((v, n)) => {
                let v = self._parse_frac_time(v);
                Ok((DecodeFieldData::Datetime(v), n))
            },
            Err(e) => Err(e),
        }
    }

    /// A TIME or DATE column value, as text.
    fn decode_time_date_field(&self, data: &[u8], tp: u8, meta: u16, is_partial: bool) -> (r: Result<(DecodeFieldData, isize), ReplicationError>)
        requires
            tp == MYSQL_TYPE_TIME || tp == MYSQL_TYPE_DATE,
        ensures
            field_result_view(r) == field_model(data@, tp, meta, is_partial, self.context()),
    {
        proof {
            reveal(field_model);
        }
        if data.len() < 3 {
            return Err(ReplicationError::UnexpectedEof);
        }
        let v = fixed_le(data, 0, 3);
        proof {
            lemma_fixed_le_bound(data@, 0, 3);
            reveal_with_fuel(byte_pow, 4);
        }
        let mut s = String::new();
        if tp == MYSQL_TYPE_TIME {
            if v == 0 {
                proof {
                    reveal_strlit("00:00:00");
                }
                return Ok((DecodeFieldData::String(crate::text::text("00:00:00")), 3));
            }
            push_padded(&mut s, v / 10000, 2);
            push_char(&mut s, ':');
            push_padded(&mut s, (v % 10000) / 100, 2);
            push_char(&mut s, ':');
            push_padded(&mut s, v % 100, 2);
            assert(s@ =~= hms_text(v as int / 10000, (v as int % 10000) / 100, v as int % 100));
        } else {
            if v == 0 {
                proof {
                    reveal_strlit("0000-00-00");
                }
                return Ok((DecodeFieldData::String(crate::text::text("0000-00-00")), 3));
            }
            push_padded(&mut s, v / 512, 4);
            push_char(&mut s, '-');
            push_padded(&mut s, (v / 32) % 16, 2);
            push_char(&mut s, '-');
            push_padded(&mut s, v % 32, 2);
            assert(s@ =~= crate::text::padded((v / 512) as nat, 4) + seq!['-'] + crate::text::padded(((v / 32) % 16) as nat, 2)
                + seq!['-'] + crate::text::padded((v % 32) as nat, 2));
        }
        Ok((DecodeFieldData::String(s), 3))
    }

    /// A JSON column value: a length of `meta` bytes, then the document or, for a partial
    /// update, the change.
    fn decode_json_field(&self, data: &[u8], meta: u16, is_partial: bool) -> (r: Result<(DecodeFieldData, isize), ReplicationError>)
        requires
            data@.len() <= isize::MAX,
        ensures
            field_result_view(r) == field_model(data@, MYSQL_TYPE_JSON, meta, is_partial, self.context()),
    {
        proof {
            reveal(field_model);
        }
        if meta > 8 {
            return Err(ReplicationError::InvalidBlobPackLen(meta));
        }
        let m = meta as usize;
        if data.len() < m {
            return Err(ReplicationError::UnexpectedEof);
        }
        let length = fixed_le(data, 0, m);
        if length == 0 {
            return Ok((DecodeFieldData::Json(DecodeJson::Bytes(Vec::new())), m as isize));
        }
        if length > (data.len() - m) as u64 {
            return Err(ReplicationError::UnexpectedEof);
        }
        let n = length as usize + m;
        let doc = &data[m..n];
        if is_partial {
            match self._decode_json_partial_binary(doc) {
                Ok(d) => Ok((DecodeFieldData::Json(DecodeJson::JsonDiff(d)), n as isize)),
                Err(e) => Err(e),
            }
        } else {
            match self._decode_json_binary(doc) {
                Ok(j) => {
                    proof {
                        reveal(json_document);
                        crate::json_binary::lemma_json_value_form(doc@[0], doc@.subrange(1, doc@.len() as int), (doc@.len() - 1) as nat, self.use_decimal, self.ignore_json_decode_err);
                    }
                    Ok((DecodeFieldData::Json(j), n as isize))
                },
                Err(e) => Err(e),
            }
        }
    }
}


impl RowsEvent {
    /// A BIT, SET or ENUM column value.
    fn decode_bits_field(&self, data: &[u8], tp: u8, meta: u16, is_partial: bool) -> (r: Result<(DecodeFieldData, isize), ReplicationError>)
        requires
            tp == MYSQL_TYPE_BIT || tp == MYSQL_TYPE_SET || tp == MYSQL_TYPE_ENUM,
        ensures
            field_result_view(r) == field_model(data@, tp, meta, is_partial, self.context()),
    {
        proof {
            reveal(field_model);
        }
        let hi = meta >> 8u16;
        let lo = meta & 0xffu16;
        assert(meta >> 8u16 == meta / 256) by (bit_vector);
        assert(meta & 0xffu16 == meta % 256) by (bit_vector);
        if tp == MYSQL_TYPE_BIT {
            let nbits = hi * 8 + lo;
            let n = (nbits + 7) as isize / 8;
            match decode_bit(data, nbits as isize, n) {
                Ok(v) => Ok((DecodeFieldData::Isize(v), n)),
                Err(e) => Err(e),
            }
        } else if tp == MYSQL_TYPE_SET {
            let n = lo as isize;
            match little_decode_bit(data, n * 8, n) {
                Ok(v) => Ok((DecodeFieldData::Isize(v), n)),
                Err(e) => Err(e),
            }
        } else {
            if lo == 1 {
                if data.len() < 1 {
                    return Err(ReplicationError::UnexpectedEof);
                }
                Ok((DecodeFieldData::Isize(data[0] as i64), 1))
            } else if lo == 2 {
                if data.len() < 2 {
                    return Err(ReplicationError::UnexpectedEof);
                }
                let v = fixed_le(data, 0, 2);
                proof {
                    lemma_fixed_le_bound(data@, 0, 2);
                    reveal_with_fuel(byte_pow, 3);
                }
                Ok((DecodeFieldData::Isize(v as i64), 2))
            } else {
                Err(ReplicationError::UnknownEnumPackLen(lo))
            }
        }
    }

    /// A FLOAT, DOUBLE or YEAR column value.
    fn decode_small_field(&self, data: &[u8], tp: u8, meta: u16, is_partial: bool) -> (r: Result<(DecodeFieldData, isize), ReplicationError>)
        requires
            tp == MYSQL_TYPE_FLOAT || tp == MYSQL_TYPE_DOUBLE || tp == MYSQL_TYPE_YEAR,
        ensures
            field_result_view(r) == field_model(data@, tp, meta, is_partial, self.context()),
    {
        proof {
            reveal(field_model);
        }
        proof {
            reveal_with_fuel(byte_pow, 9);
        }
        if tp == MYSQL_TYPE_FLOAT {
            if data.len() < 4 {
                return Err(ReplicationError::UnexpectedEof);
            }
            let v = fixed_le(data, 0, 4);
            proof {
                lemma_fixed_le_bound(data@, 0, 4);
            }
            Ok((DecodeFieldData::F32(v as u32), 4))
        } else if tp == MYSQL_TYPE_DOUBLE {
            if data.len() < 8 {
                return Err(ReplicationError::UnexpectedEof);
            }
            Ok((DecodeFieldData::F64(fixed_le(data, 0, 8)), 8))
        } else {
            if data.len() < 1 {
                return Err(ReplicationError::UnexpectedEof);
            }
            let y = data[0] as i64;
            Ok((DecodeFieldData::Isize(if y == 0 { 0 } else { y + 1900 }), 1))
        }
    }

    /// A BLOB or GEOMETRY column value.
    fn decode_blob_field(&self, data: &[u8], tp: u8, meta: u16, is_partial: bool) -> (r: Result<(DecodeFieldData, isize), ReplicationError>)
        requires
            data@.len() <= isize::MAX,
            tp == MYSQL_TYPE_BLOB || tp == MYSQL_TYPE_GEOMETRY,
        ensures
            field_result_view(r) == field_model(data@, tp, meta, is_partial, self.context()),
    {
        proof {
            reveal(field_model);
        }
        match decode_blob(data, meta) {
            Ok((v, n)) => Ok((DecodeFieldData::Bytes(v), n)),
            Err(e) => Err(e),
        }
    }

    /// A TIME2 column value.
    fn decode_time2_field(&self, data: &[u8], meta: u16, is_partial: bool) -> (r: Result<(DecodeFieldData, isize), ReplicationError>)
        ensures
            field_result_view(r) == field_model(data@, MYSQL_TYPE_TIME2, meta, is_partial, self.context()),
    {
        proof {
            reveal(field_model);
        }
        match decode_time2(data, meta) {
            Ok((v, n)) => Ok((DecodeFieldData::String(v), n)),
            Err(e) => Err(e),
        }
    }

    /// A VARCHAR, VAR_STRING or STRING column value.
    fn decode_string_field(&self, data: &[u8], tp: u8, meta: u16, length: isize, is_partial: bool) -> (r: Result<(DecodeFieldData, isize), ReplicationError>)
        requires
            tp == MYSQL_TYPE_VARCHAR || tp == MYSQL_TYPE_VAR_STRING || tp == MYSQL_TYPE_STRING,
            tp == MYSQL_TYPE_STRING ==> length == real_field_type(tp, meta).1,
            tp == MYSQL_TYPE_STRING ==> real_field_type(tp, meta).0 == MYSQL_TYPE_STRING,
        ensures
            field_result_view(r) == field_model(data@, tp, meta, is_partial, self.context()),
    {
        proof {
            reveal(field_model);
        }
        let len = if tp == MYSQL_TYPE_STRING {
            length
        } else {
            meta as isize
        };
        match decode_string(data, len) {
            Ok((v, n)) => Ok((DecodeFieldData::String(v), n)),
            Err(e) => Err(e),
        }
    }

    /// Decodes the value of a column of type `tp` with metadata `meta` at the start of
    /// `data`, and the bytes it takes; `is_partial` marks a JSON value stored as a partial
    /// update.
    pub fn decode_value(&self, data: &[u8], tp: u8, meta: u16, is_partial: bool) -> (r: Result<(DecodeFieldData, isize), ReplicationError>)
        requires
            data@.len() <= isize::MAX,
        ensures
            field_result_view(r) == field_model(data@, tp, meta, is_partial, self.context()),
    {
        proof {
            reveal(field_model);
        }
        let mut t = tp;
        let mut length: isize = 0;
        if tp == MYSQL_TYPE_STRING {
            if meta >= 256 {
                let b0 = (meta >> 8u16) as u8;
                let b1 = (meta & 0xffu16) as u8;
                if b0 & 0x30u8 != 0x30u8 {
                    length = ((b1 as u16) | ((((b0 & 0x30u8) ^ 0x30u8) as u16) << 4u16)) as isize;
                    t = b0 | 0x30u8;
                } else {
                    length = b1 as isize;
                    t = b0;
                }
            } else {
                length = meta as isize;
            }
        }
        assert((t, length as int) == real_field_type(tp, meta));
        if t == MYSQL_TYPE_NULL {
            Ok((DecodeFieldData::Null, 0))
        } else if t == MYSQL_TYPE_LONG {
            Self::decode_int_field(data, 4)
        } else if t == MYSQL_TYPE_TINY {
            Self::decode_int_field(data, 1)
        } else if t == MYSQL_TYPE_SHORT {
            Self::decode_int_field(data, 2)
        } else if t == MYSQL_TYPE_INT24 {
            Self::decode_int_field(data, 3)
        } else if t == MYSQL_TYPE_LONGLONG {
            Self::decode_int_field(data, 8)
        } else if t == MYSQL_TYPE_NEWDECIMAL {
            self.decode_decimal_field(data, meta, is_partial)
        } else if t == MYSQL_TYPE_FLOAT || t == MYSQL_TYPE_DOUBLE || t == MYSQL_TYPE_YEAR {
            self.decode_small_field(data, t, meta, is_partial)
        } else if t == MYSQL_TYPE_BIT || t == MYSQL_TYPE_SET || t == MYSQL_TYPE_ENUM {
            self.decode_bits_field(data, t, meta, is_partial)
        } else if t == MYSQL_TYPE_TIMESTAMP {
            self.decode_timestamp_field(data, meta, is_partial)
        } else if t == MYSQL_TYPE_DATETIME {
            self.decode_datetime_field(data, meta, is_partial)
        } else if t == MYSQL_TYPE_TIMESTAMP2 || t == MYSQL_TYPE_DATETIME2 {
            self.decode_datetime2_field(data, t, meta, is_partial)
        } else if t == MYSQL_TYPE_TIME || t == MYSQL_TYPE_DATE {
            self.decode_time_date_field(data, t, meta, is_partial)
        } else if t == MYSQL_TYPE_BLOB || t == MYSQL_TYPE_GEOMETRY {
            self.decode_blob_field(data, t, meta, is_partial)
        } else if t == MYSQL_TYPE_TIME2 {
            self.decode_time2_field(data, meta, is_partial)
        } else if t == MYSQL_TYPE_VARCHAR || t == MYSQL_TYPE_VAR_STRING || t == MYSQL_TYPE_STRING {
            self.decode_string_field(data, t, meta, length, is_partial)
        } else if t == MYSQL_TYPE_JSON {
            self.decode_json_field(data, meta, is_partial)
        } else {
            Err(ReplicationError::UnsupportedValueType(t))
        }
    }
}


/// A row image of a rows event of type `event_type` at the start of `d`, whose columns
/// `bitmap` selects, for a table with the given column types and metadata.
#[verifier::opaque]
pub open spec fn image_of(
    types: Seq<u8>,
    metas: Seq<u16>,
    cc: int,
    c: FieldContext,
    event_type: EventType,
    d: Seq<u8>,
    bitmap: Seq<u8>,
    image: EnumRowImageType,
) -> Result<(Seq<FieldModel>, Seq<isize>, int), ReplicationError> {
    image_model(
        d,
        bitmap,
        types,
        metas,
        cc,
        c,
        event_type == EventType::PartialUpdateRowsEvent && image == EnumRowImageType::UpdateAI,
        crate::table_map::count_of(types, MYSQL_TYPE_JSON) as int,
    )
}

/// `r` with `a` put in front of the values and `b` in front of the skipped columns.
pub open spec fn join_image(
    a: Seq<FieldModel>,
    b: Seq<isize>,
    r: Result<(Seq<FieldModel>, Seq<isize>, int), ReplicationError>,
) -> Result<(Seq<FieldModel>, Seq<isize>, int), ReplicationError> {
    match r {
        Err(e) => Err(e),
        Ok((row, skips, end)) => Ok((a + row, b + skips, end)),
    }
}

impl RowsEvent {
    /// Whether the image is the after image of a partial update.
    pub open spec fn partial_after(&self, image: EnumRowImageType) -> bool {
        self.event_type == EventType::PartialUpdateRowsEvent && image == EnumRowImageType::UpdateAI
    }

    /// The row image at the start of `data`, whose columns `bitmap` selects.
    pub open spec fn image_spec(&self, data: Seq<u8>, bitmap: Seq<u8>, image: EnumRowImageType) -> Result<
        (Seq<FieldModel>, Seq<isize>, int),
        ReplicationError,
    > {
        image_of(
            self.table.column_type@,
            self.table.column_meta@,
            self.column_count as int,
            self.context(),
            self.event_type,
            data,
            bitmap,
            image,
        )
    }

    /// Decodes column `i` of a row image, reading from `pos` with `nidx` null bits used, and
    /// appends its value (and its index, where the image leaves it out).
    #[verifier::rlimit(40)]
    #[verifier::spinoff_prover]
    fn decode_column(
        &self,
        data: &[u8],
        bitmap: &[u8],
        nulls: &[u8],
        i: u64,
        pos: usize,
        nidx: u64,
        row: &mut Vec<DecodeFieldData>,
        skips: &mut Vec<isize>,
    ) -> (r: Result<(usize, u64), ReplicationError>)
        requires
            i < self.column_count,
            self.column_count <= 8 * bitmap@.len(),
            self.column_count <= isize::MAX,
            data@.len() + 0x10000 <= isize::MAX,
            nidx == bits_set_count(bitmap@, i as int),
            nulls@.len() == (bits_set_count(bitmap@, self.column_count as int) + 7) / 8,
            pos <= data@.len() + 0x10000,
        ensures
            ({
                let cols = image_cols(data@, bitmap@, nulls@, self.table.column_type@, self.table.column_meta@,
                    self.column_count as int, self.context(), i as int, pos as int, nidx as int);
                match r {
                    Err(e) => cols == Err::<(Seq<FieldModel>, Seq<isize>, int), ReplicationError>(e),
                    Ok((p2, n2)) => {
                        &&& p2 <= data@.len() + 0x10000
                        &&& n2 == bits_set_count(bitmap@, i + 1)
                        &&& join_image(row_view(old(row)@), old(skips)@, cols) == join_image(
                            row_view(final(row)@),
                            final(skips)@,
                            image_cols(data@, bitmap@, nulls@, self.table.column_type@, self.table.column_meta@,
                                self.column_count as int, self.context(), i + 1, p2 as int, n2 as int),
                        )
                    },
                }
            }),
    {
        let ghost c = self.context();
        let ghost types = self.table.column_type@;
        let ghost metas = self.table.column_meta@;
        let ghost cc = self.column_count as int;
        let len = data.len();
        proof {
            lemma_bits_count_mono(bitmap@, i as int + 1, cc);
            lemma_bits_count_le(bitmap@, i as int);
        }
        let b = bitmap[(i / 8) as usize];
        let ghost prev_row = row_view(row@);
        let ghost prev_skips = skips@;
        if (b >> ((i % 8) as u8)) & 1u8 != 1u8 {
            row.push(DecodeFieldData::Null);
            skips.push(i as isize);
            proof {
                let nxt = image_cols(data@, bitmap@, nulls@, types, metas, cc, c, i + 1, pos as int, nidx as int);
                assert(row_view(row@) =~= prev_row.push(FieldModel::Null));
                if nxt is Ok {
                    let (a, s2, e) = nxt->Ok_0;
                    assert(prev_row + (seq![FieldModel::Null] + a) =~= prev_row.push(FieldModel::Null) + a);
                    assert(prev_skips + (seq![i as isize] + s2) =~= prev_skips.push(i as isize) + s2);
                }
            }
            return Ok((pos, nidx));
        }
        let nb2 = nulls[(nidx / 8) as usize];
        if (nb2 >> ((nidx % 8) as u8)) & 1u8 == 1u8 {
            row.push(DecodeFieldData::Null);
            proof {
                let nxt = image_cols(data@, bitmap@, nulls@, types, metas, cc, c, i + 1, pos as int, nidx + 1);
                assert(row_view(row@) =~= prev_row.push(FieldModel::Null));
                if nxt is Ok {
                    let (a, s2, e) = nxt->Ok_0;
                    assert(prev_row + (seq![FieldModel::Null] + a) =~= prev_row.push(FieldModel::Null) + a);
                }
            }
            return Ok((pos, nidx + 1));
        }
        if i as usize >= self.table.column_type.len() || i as usize >= self.table.column_meta.len() {
            return Err(ReplicationError::ColumnCountMismatch(self.column_count, self.table.column_type.len()));
        }
        if pos > len {
            return Err(ReplicationError::UnexpectedEof);
        }
        let tp = self.table.column_type[i as usize];
        let meta = self.table.column_meta[i as usize];
        let (fd, n) = match self.decode_value(&data[pos..len], tp, meta, false) {
            Ok(x) => x,
            Err(e) => {
                proof {
                    crate::rows_spec::lemma_column_value(data@.subrange(pos as int, len as int), tp, meta, c);
                }
                return Err(e);
            },
        };
        proof {
            crate::rows_spec::lemma_field_width(data@.subrange(pos as int, len as int), tp, meta, false, c);
            crate::rows_spec::lemma_column_value(data@.subrange(pos as int, len as int), tp, meta, c);
        }
        let ghost fm = field_view(fd);
        row.push(fd);
        let p2 = pos + n as usize;
        proof {
            let nxt = image_cols(data@, bitmap@, nulls@, types, metas, cc, c, i + 1, p2 as int, nidx + 1);
            assert(row_view(row@) =~= prev_row.push(fm));
            if nxt is Ok {
                let (a, s2, e) = nxt->Ok_0;
                assert(prev_row + (seq![fm] + a) =~= prev_row.push(fm) + a);
            }
        }
        Ok((p2, nidx + 1))
    }

    /// Decodes one row image at the start of `data` and appends it to the rows: its
    /// values, NULL for columns it leaves out or marks NULL; returns the bytes it takes.
    pub fn decode_image(&mut self, data: &[u8], bitmap: &[u8], row_image_type: EnumRowImageType) -> (r: Result<isize, ReplicationError>)
        requires
            old(self).column_count <= 8 * bitmap@.len(),
            old(self).column_count <= isize::MAX,
            data@.len() + 0x10000 <= isize::MAX,
        ensures
            *final(self) == (RowsEvent { rows: final(self).rows, skipped_columns: final(self).skipped_columns, ..*old(self) }),
            match old(self).image_spec(data@, bitmap@, row_image_type) {
                Err(e) => r == Err::<isize, _>(e) && final(self).rows == old(self).rows && final(self).skipped_columns
                    == old(self).skipped_columns,
                Ok((row, skips, end)) => 0 <= end <= data@.len() + 0x10000 && r == Ok::<isize, ReplicationError>(end as isize) && rows_view(final(self).rows@)
                    == rows_view(old(self).rows@).push(row) && skips_view(final(self).skipped_columns@) == skips_view(
                    old(self).skipped_columns@,
                ).push(skips),
            },
    {
        proof {
            reveal(image_of);
        }
        let len = data.len();
        let mut pos: usize = 0;
        assert(data@.subrange(0, data@.len() as int) =~= data@);
        if self.event_type == EventType::PartialUpdateRowsEvent && row_image_type == EnumRowImageType::UpdateAI {
            match length_encoded_int(data, 0) {
                None => {
                    return Err(ReplicationError::UnexpectedEof);
                },
                Some((opts, _, n)) => {
                    assert(data@.subrange(0, data@.len() as int) =~= data@);
                    pos = n;
                    if opts as u8 == 1 {
                        let jc = self.table.json_column_count();
                        let bc = jc / 8 + if jc % 8 == 0 {
                            0
                        } else {
                            1
                        };
                        assert(bc == (jc + 7) / 8);
                        if bc > (len - n) as u64 {
                            return Err(ReplicationError::UnexpectedEof);
                        }
                        pos = n + bc as usize;
                    }
                },
            }
        }
        assert(image_start(data@, self.partial_after(row_image_type), crate::table_map::count_of(self.table.column_type@, MYSQL_TYPE_JSON) as int)
            == Ok::<int, ReplicationError>(pos as int));
        let cc = self.column_count;
        let mut count: u64 = 0;
        let mut k: u64 = 0;
        while k < cc
            invariant
                cc == self.column_count,
                cc <= 8 * bitmap@.len(),
                k <= cc,
                count == bits_set_count(bitmap@, k as int),
                count <= k,
            decreases cc - k,
        {
            let b = bitmap[(k / 8) as usize];
            if (b >> ((k % 8) as u8)) & 1u8 == 1u8 {
                count = count + 1;
            }
            k = k + 1;
        }
        let nb = count / 8 + if count % 8 == 0 {
            0
        } else {
            1
        };
        assert(nb == (count + 7) / 8);
        if nb > (len - pos) as u64 {
            return Err(ReplicationError::UnexpectedEof);
        }
        let nulls = &data[pos..pos + nb as usize];
        pos = pos + nb as usize;
        let ghost c = self.context();
        let ghost types = self.table.column_type@;
        let ghost metas = self.table.column_meta@;
        let ghost start = pos as int;
        assert(self.image_spec(data@, bitmap@, row_image_type) == image_cols(data@, bitmap@, nulls@, types, metas, cc as int, c, 0, start, 0));
        let mut row: Vec<DecodeFieldData> = Vec::new();
        let mut skips: Vec<isize> = Vec::new();
        let mut nidx: u64 = 0;
        let mut i: u64 = 0;
        proof {
            let r0 = image_cols(data@, bitmap@, nulls@, types, metas, cc as int, c, 0, start, 0);
            if r0 is Ok {
                let (a, b, e) = r0->Ok_0;
                assert(Seq::<FieldModel>::empty() + a =~= a);
                assert(Seq::<isize>::empty() + b =~= b);
            }
        }
        while i < cc
            invariant
                *self == *old(self),
                c == self.context(),
                types == self.table.column_type@,
                metas == self.table.column_meta@,
                cc == self.column_count,
                cc <= 8 * bitmap@.len(),
                cc <= isize::MAX,
                len == data@.len(),
                len + 0x10000 <= isize::MAX,
                i <= cc,
                nidx == bits_set_count(bitmap@, i as int),
                nulls@.len() == (bits_set_count(bitmap@, cc as int) + 7) / 8,
                pos <= len + 0x10000,
                old(self).image_spec(data@, bitmap@, row_image_type) == image_cols(data@, bitmap@, nulls@, types, metas, cc as int, c, 0, start, 0),
                image_cols(data@, bitmap@, nulls@, types, metas, cc as int, c, 0, start, 0) == join_image(
                    row_view(row@),
                    skips@,
                    image_cols(data@, bitmap@, nulls@, types, metas, cc as int, c, i as int, pos as int, nidx as int),
                ),
            decreases cc - i,
        {
            let ghost before = join_image(
                row_view(row@),
                skips@,
                image_cols(data@, bitmap@, nulls@, types, metas, cc as int, c, i as int, pos as int, nidx as int),
            );
            match self.decode_column(data, bitmap, nulls, i, pos, nidx, &mut row, &mut skips) {
                Err(e) => {
                    proof {
                        let r0 = image_cols(data@, bitmap@, nulls@, types, metas, cc as int, c, 0, start, 0);
                        assert(r0 == Err::<(Seq<FieldModel>, Seq<isize>, int), ReplicationError>(e));
                    }
                    return Err(e);
                },
                Ok((p2, n2)) => {
                    pos = p2;
                    nidx = n2;
                },
            }
            i = i + 1;
        }
        proof {
            assert(row_view(row@) + Seq::<FieldModel>::empty() =~= row_view(row@));
            assert(skips@ + Seq::<isize>::empty() =~= skips@);
        }
        let ghost rv = row_view(row@);
        let ghost sv = skips@;
        self.rows.push(row);
        self.skipped_columns.push(skips);
        assert(rows_view(self.rows@) =~= rows_view(old(self).rows@).push(rv));
        assert(skips_view(self.skipped_columns@) =~= skips_view(old(self).skipped_columns@).push(sv));
        Ok(pos as isize)
    }
}

/// Set bits are never fewer further on.
pub proof fn lemma_bits_count_mono(bitmap: Seq<u8>, a: int, b: int)
    requires
        a <= b,
    ensures
        bits_set_count(bitmap, a) <= bits_set_count(bitmap, b),
    decreases b - a,
{
    if a < b {
        lemma_bits_count_mono(bitmap, a, b - 1);
    }
}

/// At most `k` of the first `k` bits are set.
pub proof fn lemma_bits_count_le(bitmap: Seq<u8>, k: int)
    ensures
        bits_set_count(bitmap, k) <= if k < 0 { 0 } else { k },
    decreases k,
{
    if k > 0 {
        lemma_bits_count_le(bitmap, k - 1);
    }
}


/// The fixed part of a rows event.
pub struct RowsHeader {
    pub table_id: u64,
    pub flags: u16,
    pub extra_data: Seq<u8>,
    pub column_count: u64,
    pub bitmap1: Seq<u8>,
    pub bitmap2: Seq<u8>,
    pub pos: int,
}

/// The fixed part of a rows event body `d` whose table id takes `tis` bytes: the table id,
/// flags, extra data (version 2), the column count and the column bitmaps.
pub open spec fn rows_header(d: Seq<u8>, tis: int, version: int, need_bitmap2: bool) -> Result<RowsHeader, ReplicationError> {
    if tis < 0 || tis > 8 {
        Err(ReplicationError::InvalidTableIdSize(tis as isize))
    } else if d.len() < tis + 2 {
        Err(ReplicationError::UnexpectedEof)
    } else {
        let p1 = tis + 2;
        let ext = if version == 2 {
            if d.len() < p1 + 2 || le_at(d, p1, 2) < 2 || p1 + le_at(d, p1, 2) > d.len() {
                None
            } else {
                Some((d.subrange(p1 + 2, p1 + le_at(d, p1, 2)), p1 + le_at(d, p1, 2)))
            }
        } else {
            Some((Seq::empty(), p1))
        };
        match ext {
            None => Err(ReplicationError::UnexpectedEof),
            Some((extra, p2)) => match lenenc_int(d.subrange(p2, d.len() as int)) {
                None => Err(ReplicationError::UnexpectedEof),
                Some((cc, _, n)) => {
                    let p3 = p2 + n;
                    let nb = (cc + 7) / 8;
                    let need = if need_bitmap2 {
                        2 * nb
                    } else {
                        nb
                    };
                    if p3 + need > d.len() {
                        Err(ReplicationError::UnexpectedEof)
                    } else {
                        Ok(
                            RowsHeader {
                                table_id: le_at(d, 0, tis) as u64,
                                flags: le_at(d, tis, 2) as u16,
                                extra_data: extra,
                                column_count: cc,
                                bitmap1: d.subrange(p3, p3 + nb),
                                bitmap2: if need_bitmap2 {
                                    d.subrange(p3 + nb, p3 + 2 * nb)
                                } else {
                                    Seq::empty()
                                },
                                pos: p3 + need,
                            },
                        )
                    }
                },
            },
        }
    }
}

/// The fixed part of a rows event body: table id, flags, extra data, column count, the
/// column bitmaps and where the rows start.
#[verifier::rlimit(40)]
#[verifier::spinoff_prover]
fn parse_rows_header(data: &[u8], tis: isize, version: isize, need_bitmap2: bool) -> (r: Result<
    (u64, u16, Vec<u8>, u64, Vec<u8>, Vec<u8>, usize),
    ReplicationError,
>)
    ensures
        match rows_header(data@, tis as int, version as int, need_bitmap2) {
            Err(e) => r == Err::<(u64, u16, Vec<u8>, u64, Vec<u8>, Vec<u8>, usize), _>(e),
            Ok(h) => r matches Ok((id, fl, ex, cc, b1, b2, p)) && id == h.table_id && fl == h.flags && ex@
                == h.extra_data && cc == h.column_count && b1@ == h.bitmap1 && b2@ == h.bitmap2 && p == h.pos,
        },
{
    if tis < 0 || tis > 8 {
        return Err(ReplicationError::InvalidTableIdSize(tis));
    }
    let t = tis as usize;
    let len = data.len();
    if len < t + 2 {
        return Err(ReplicationError::UnexpectedEof);
    }
    let table_id = fixed_le(data, 0, t);
    let flags = fixed_le(data, t, 2);
    proof {
        lemma_fixed_le_bound(data@, t as int, 2);
        reveal_with_fuel(byte_pow, 3);
    }
    let mut pos = t + 2;
    let mut extra: Vec<u8> = Vec::new();
    if version == 2 {
        if len - pos < 2 {
            return Err(ReplicationError::UnexpectedEof);
        }
        let dl = fixed_le(data, pos, 2);
        proof {
            lemma_fixed_le_bound(data@, pos as int, 2);
        }
        if dl < 2 || dl as usize > len - pos {
            return Err(ReplicationError::UnexpectedEof);
        }
        extra = copy_range(data, pos + 2, pos + dl as usize);
        pos = pos + dl as usize;
    }
    let (cc, n) = match length_encoded_int(data, pos) {
        None => {
            return Err(ReplicationError::UnexpectedEof);
        },
        Some((cc, _, n)) => (cc, n),
    };
    pos = pos + n;
    let nb64 = cc / 8 + if cc % 8 == 0 {
        0
    } else {
        1
    };
    assert(nb64 == (cc + 7) / 8);
    let need64: u128 = if need_bitmap2 {
        2 * (nb64 as u128)
    } else {
        nb64 as u128
    };
    if need64 > (len - pos) as u128 {
        return Err(ReplicationError::UnexpectedEof);
    }
    let nb = nb64 as usize;
    let b1 = copy_range(data, pos, pos + nb);
    pos = pos + nb;
    let mut b2: Vec<u8> = Vec::new();
    if need_bitmap2 {
        b2 = copy_range(data, pos, pos + nb);
        pos = pos + nb;
    }
    Ok((table_id, flags as u16, extra, cc, b1, b2, pos))
}

impl RowsEvent {
    /// Decodes the fixed part of the body and finds the table map of the table it names;
    /// returns where the rows start.
    pub fn decode_header(&mut self, data: &[u8]) -> (r: Result<isize, ReplicationError>)
        requires
            data@.len() <= isize::MAX,
        ensures
            final(self).tables == old(self).tables,
            final(self).rows == old(self).rows,
            final(self).skipped_columns == old(self).skipped_columns,
            final(self).context() == old(self).context(),
            final(self).version == old(self).version,
            final(self).table_id_size == old(self).table_id_size,
            final(self).need_bitmap2 == old(self).need_bitmap2,
            final(self).compressed == old(self).compressed,
            final(self).event_type == old(self).event_type,
            match rows_header(data@, old(self).table_id_size as int, old(self).version as int, old(self).need_bitmap2) {
                Err(e) => r == Err::<isize, _>(e),
                Ok(h) => {
                    &&& final(self).table_id == h.table_id
                    &&& final(self).flags == h.flags
                    &&& final(self).column_count == h.column_count
                    &&& final(self).column_bitmap1@ == h.bitmap1
                    &&& old(self).need_bitmap2 ==> final(self).column_bitmap2@ == h.bitmap2
                    &&& old(self).version == 2 ==> final(self).extra_data@ == h.extra_data
                    &&& if old(self).tables@.contains_key(h.table_id) {
                        r == Ok::<isize, ReplicationError>(h.pos as isize) && final(self).table == old(self).tables@[h.table_id]
                    } else if old(self).tables@.len() > 0 {
                        r == Err::<isize, _>(ReplicationError::InvalidTableId(h.table_id))
                    } else {
                        r == Err::<isize, _>(ReplicationError::MissingTableMapEvent(h.table_id))
                    }
                },
            },
    {
        broadcast use vstd::std_specs::hash::group_hash_axioms;

        let (table_id, flags, extra, cc, b1, b2, pos) = match parse_rows_header(
            data,
            self.table_id_size,
            self.version,
            self.need_bitmap2,
        ) {
            Ok(x) => x,
            Err(e) => {
                return Err(e);
            },
        };
        self.table_id = table_id;
        self.flags = flags;
        if self.version == 2 {
            self.extra_data = extra;
        }
        self.column_count = cc;
        self.column_bitmap1 = b1;
        if self.need_bitmap2 {
            self.column_bitmap2 = b2;
        }
        let mut copy = self.tables.clone();
        match copy.remove(&table_id) {
            Some(table) => {
                self.table = table;
                Ok(pos as isize)
            },
            None => {
                if self.tables.len() > 0 {
                    Err(ReplicationError::InvalidTableId(table_id))
                } else {
                    Err(ReplicationError::MissingTableMapEvent(table_id))
                }
            },
        }
    }
}


/// The image type of the first image of each row of a rows event of type `t`.
pub open spec fn first_image_type(t: EventType) -> EnumRowImageType {
    if t == EventType::WriteRowsEventv0 || t == EventType::WriteRowsEventv1 || t == EventType::WriteRowsEventv2
        || t == EventType::MariadbWriteRowsCompressedEventV1 {
        EnumRowImageType::WriteAI
    } else if t == EventType::DeleteRowsEventv0 || t == EventType::DeleteRowsEventv1 || t
        == EventType::DeleteRowsEventv2 || t == EventType::MariadbDeleteRowsCompressedEventV1 {
        EnumRowImageType::DeleteBI
    } else {
        EnumRowImageType::UpdateBI
    }
}

/// One row of a rows event at `pos`: its first image and, for an update, its second one;
/// with the position after it.
pub open spec fn row_at(
    types: Seq<u8>,
    metas: Seq<u16>,
    cc: int,
    c: FieldContext,
    event_type: EventType,
    need_bitmap2: bool,
    bm1: Seq<u8>,
    bm2: Seq<u8>,
    d: Seq<u8>,
    pos: int,
) -> Result<(Seq<Seq<FieldModel>>, Seq<Seq<isize>>, int), ReplicationError> {
    match image_of(types, metas, cc, c, event_type, d.subrange(pos, d.len() as int), bm1, first_image_type(event_type)) {
        Err(e) => Err(e),
        Ok((r1, s1, n1)) => {
            let p2 = pos + n1;
            if need_bitmap2 {
                if p2 > d.len() {
                    Err(ReplicationError::UnexpectedEof)
                } else {
                    match image_of(types, metas, cc, c, event_type, d.subrange(p2, d.len() as int), bm2, EnumRowImageType::UpdateAI) {
                        Err(e) => Err(e),
                        Ok((r2, s2, n2)) => {
                            if p2 + n2 <= pos {
                                Err(ReplicationError::EmptyRowImage)
                            } else {
                                Ok((seq![r1, r2], seq![s1, s2], p2 + n2))
                            }
                        },
                    }
                }
            } else if p2 <= pos {
                Err(ReplicationError::EmptyRowImage)
            } else {
                Ok((seq![r1], seq![s1], p2))
            }
        },
    }
}

/// The rows and skipped columns of the images of a rows event from `pos` on, row after row
/// until the data ends.
pub open spec fn rows_of(
    types: Seq<u8>,
    metas: Seq<u16>,
    cc: int,
    c: FieldContext,
    event_type: EventType,
    need_bitmap2: bool,
    bm1: Seq<u8>,
    bm2: Seq<u8>,
    d: Seq<u8>,
    pos: int,
) -> Result<(Seq<Seq<FieldModel>>, Seq<Seq<isize>>), ReplicationError>
    decreases (if pos < d.len() {
        d.len() - pos
    } else {
        0
    }),
{
    if pos >= d.len() || pos < 0 {
        Ok((Seq::empty(), Seq::empty()))
    } else {
        match row_at(types, metas, cc, c, event_type, need_bitmap2, bm1, bm2, d, pos) {
            Err(e) => Err(e),
            Ok((rs1, ss1, np)) => match rows_of(types, metas, cc, c, event_type, need_bitmap2, bm1, bm2, d, np) {
                Err(e) => Err(e),
                Ok((rs, ss)) => Ok((rs1 + rs, ss1 + ss)),
            },
        }
    }
}

impl RowsEvent {
    /// The row at `pos`, with the position after it.
    pub open spec fn row_spec(&self, d: Seq<u8>, pos: int) -> Result<(Seq<Seq<FieldModel>>, Seq<Seq<isize>>, int), ReplicationError> {
        row_at(
            self.table.column_type@,
            self.table.column_meta@,
            self.column_count as int,
            self.context(),
            self.event_type,
            self.need_bitmap2,
            self.column_bitmap1@,
            self.column_bitmap2@,
            d,
            pos,
        )
    }

    /// The rows and skipped columns of the images from `pos` on.
    pub open spec fn rows_spec(&self, d: Seq<u8>, pos: int) -> Result<(Seq<Seq<FieldModel>>, Seq<Seq<isize>>), ReplicationError> {
        rows_of(
            self.table.column_type@,
            self.table.column_meta@,
            self.column_count as int,
            self.context(),
            self.event_type,
            self.need_bitmap2,
            self.column_bitmap1@,
            self.column_bitmap2@,
            d,
            pos,
        )
    }

    /// Whether the column bitmaps cover the column count, and positions fit.
    pub open spec fn bitmaps_fit(&self) -> bool {
        &&& self.column_count <= 8 * self.column_bitmap1@.len()
        &&& self.need_bitmap2 ==> self.column_count <= 8 * self.column_bitmap2@.len()
        &&& self.column_count <= isize::MAX
    }

    /// Decodes the row at `p` and appends its images; returns the position after it.
    #[verifier::rlimit(40)]
    #[verifier::spinoff_prover]
    fn decode_row(&mut self, data: &[u8], p: usize, first: EnumRowImageType, bm1: &[u8], bm2: &[u8]) -> (r: Result<usize, ReplicationError>)
        requires
            old(self).bitmaps_fit(),
            bm1@ == old(self).column_bitmap1@,
            bm2@ == old(self).column_bitmap2@,
            first == first_image_type(old(self).event_type),
            p < data@.len(),
            data@.len() + 0x10000 <= isize::MAX,
        ensures
            *final(self) == (RowsEvent { rows: final(self).rows, skipped_columns: final(self).skipped_columns, ..*old(self) }),
            match old(self).row_spec(data@, p as int) {
                Err(e) => r == Err::<usize, _>(e),
                Ok((rs, ss, np)) => r == Ok::<usize, ReplicationError>(np as usize) && np <= data@.len() + 0x20000
                    && rows_view(final(self).rows@) == rows_view(old(self).rows@) + rs
                    && skips_view(final(self).skipped_columns@) == skips_view(old(self).skipped_columns@) + ss,
            },
    {
        let len = data.len();
        let ghost rv = rows_view(self.rows@);
        let ghost sv = skips_view(self.skipped_columns@);
        let n1 = match self.decode_image(&data[p..len], bm1, first) {
            Ok(n) => n,
            Err(e) => {
                return Err(e);
            },
        };
        let ghost (r1, s1, e1) = old(self).image_spec(data@.subrange(p as int, len as int), bm1@, first)->Ok_0;
        let p2 = p + n1 as usize;
        if self.need_bitmap2 {
            if p2 > len {
                return Err(ReplicationError::UnexpectedEof);
            }
            let n2 = match self.decode_image(&data[p2..len], bm2, EnumRowImageType::UpdateAI) {
                Ok(n) => n,
                Err(e) => {
                    return Err(e);
                },
            };
            let ghost (r2, s2, e2) = old(self).image_spec(data@.subrange(p2 as int, len as int), bm2@, EnumRowImageType::UpdateAI)->Ok_0;
            let p3 = p2 + n2 as usize;
            if p3 <= p {
                return Err(ReplicationError::EmptyRowImage);
            }
            assert(rows_view(self.rows@) =~= rv + seq![r1, r2]);
            assert(skips_view(self.skipped_columns@) =~= sv + seq![s1, s2]);
            Ok(p3)
        } else {
            if p2 <= p {
                return Err(ReplicationError::EmptyRowImage);
            }
            assert(rows_view(self.rows@) =~= rv + seq![r1]);
            assert(skips_view(self.skipped_columns@) =~= sv + seq![s1]);
            Ok(p2)
        }
    }

    /// Decodes the rows from `pos` on, replacing the rows held before.
    #[verifier::rlimit(40)]
    #[verifier::spinoff_prover]
    pub fn decode_data(&mut self, pos: isize, data: &[u8]) -> (r: Result<(), ReplicationError>)
        requires
            old(self).bitmaps_fit(),
            data@.len() + 0x10000 <= isize::MAX,
        ensures
            *final(self) == (RowsEvent { rows: final(self).rows, skipped_columns: final(self).skipped_columns, ..*old(self) }),
            match old(self).rows_spec(data@, pos as usize as int) {
                Err(e) => r == Err::<(), _>(e),
                Ok((rs, ss)) => r is Ok && rows_view(final(self).rows@) == rs && skips_view(final(self).skipped_columns@) == ss,
            },
    {
        self.rows = Vec::new();
        self.skipped_columns = Vec::new();
        let first = if self.event_type == EventType::WriteRowsEventv0 || self.event_type == EventType::WriteRowsEventv1
            || self.event_type == EventType::WriteRowsEventv2 || self.event_type
            == EventType::MariadbWriteRowsCompressedEventV1 {
            EnumRowImageType::WriteAI
        } else if self.event_type == EventType::DeleteRowsEventv0 || self.event_type == EventType::DeleteRowsEventv1
            || self.event_type == EventType::DeleteRowsEventv2 || self.event_type
            == EventType::MariadbDeleteRowsCompressedEventV1 {
            EnumRowImageType::DeleteBI
        } else {
            EnumRowImageType::UpdateBI
        };
        let bm1 = copy_range(self.column_bitmap1.as_slice(), 0, self.column_bitmap1.len());
        let bm2 = copy_range(self.column_bitmap2.as_slice(), 0, self.column_bitmap2.len());
        assert(bm1@ =~= self.column_bitmap1@);
        assert(bm2@ =~= self.column_bitmap2@);
        let len = data.len();
        let mut p = pos as usize;
        let ghost p0 = pos as usize as int;
        let ghost me = *old(self);
        proof {
            if me.rows_spec(data@, p0) is Ok {
                let (rs, ss) = me.rows_spec(data@, p0)->Ok_0;
                assert(Seq::<Seq<FieldModel>>::empty() + rs =~= rs);
                assert(Seq::<Seq<isize>>::empty() + ss =~= ss);
            }
            assert(rows_view(self.rows@) =~= Seq::<Seq<FieldModel>>::empty());
            assert(skips_view(self.skipped_columns@) =~= Seq::<Seq<isize>>::empty());
        }
        while p < len
            invariant
                me == *old(self),
                p0 == pos as usize as int,
                *self == (RowsEvent { rows: self.rows, skipped_columns: self.skipped_columns, ..me }),
                me.bitmaps_fit(),
                bm1@ == me.column_bitmap1@,
                bm2@ == me.column_bitmap2@,
                first == first_image_type(me.event_type),
                len == data@.len(),
                len + 0x10000 <= isize::MAX,
                me.rows_spec(data@, p0) == (match me.rows_spec(data@, p as int) {
                    Err(e) => Err(e),
                    Ok((rs, ss)) => Ok((rows_view(self.rows@) + rs, skips_view(self.skipped_columns@) + ss)),
                }),
            decreases (if p < len {
                len - p
            } else {
                0
            }),
        {
            let ghost rv = rows_view(self.rows@);
            let ghost sv = skips_view(self.skipped_columns@);
            let ghost step = me.row_spec(data@, p as int);
            let np = match self.decode_row(data, p, first, bm1.as_slice(), bm2.as_slice()) {
                Ok(np) => np,
                Err(e) => {
                    assert(me.rows_spec(data@, p as int) == Err::<(Seq<Seq<FieldModel>>, Seq<Seq<isize>>), _>(e));
                    return Err(e);
                },
            };
            proof {
                let (rs1, ss1, q) = step->Ok_0;
                let nxt = me.rows_spec(data@, np as int);
                if nxt is Ok {
                    let (rs, ss) = nxt->Ok_0;
                    assert(rv + (rs1 + rs) =~= (rv + rs1) + rs);
                    assert(sv + (ss1 + ss) =~= (sv + ss1) + ss);
                }
            }
            p = np;
        }
        proof {
            assert(rows_view(self.rows@) + Seq::<Seq<FieldModel>>::empty() =~= rows_view(self.rows@));
            assert(skips_view(self.skipped_columns@) + Seq::<Seq<isize>>::empty() =~= skips_view(self.skipped_columns@));
        }
        Ok(())
    }
}

impl Default for RowsEvent {
    fn default() -> (r: RowsEvent)
        ensures
            r.version == 0 && r.table_id_size == 0 && r.tables@ == Map::<u64, TableMapEvent>::empty(),
            !r.need_bitmap2 && !r.compressed && r.event_type == EventType::UnknownEvent,
            r.table_id == 0 && r.flags == 0 && r.column_count == 0,
            blank_table(r.table) && r.table.flavor@.len() == 0 && r.table.table_id_size == 0,
            r.extra_data@.len() == 0 && r.column_bitmap1@.len() == 0 && r.column_bitmap2@.len() == 0,
            r.rows@.len() == 0 && r.skipped_columns@.len() == 0,
            !r.parse_time && r.timestamp_string_location is None && !r.use_decimal && !r.ignore_json_decode_err,
    {
        RowsEvent {
            version: 0,
            table_id_size: 0,
            tables: HashMap::new(),
            need_bitmap2: false,
            compressed: false,
            event_type: EventType::UnknownEvent,
            table: TableMapEvent::default(),
            table_id: 0,
            flags: 0,
            extra_data: Vec::new(),
            column_count: 0,
            column_bitmap1: Vec::new(),
            column_bitmap2: Vec::new(),
            rows: Vec::new(),
            skipped_columns: Vec::new(),
            parse_time: false,
            timestamp_string_location: None,
            use_decimal: false,
            ignore_json_decode_err: false,
        }
    }
}

/// What decoding `data` into the rows event `a` gives: the event `b` and the result `r`.
pub open spec fn rows_decoded(a: RowsEvent, data: Seq<u8>, b: RowsEvent, r: Result<(), ReplicationError>) -> bool {
    a.decode_spec(data, b, r)
}

impl Event for RowsEvent {
    open spec fn decode_spec(&self, data: Seq<u8>, after: Self, r: Result<(), ReplicationError>) -> bool {
        &&& (after.tables == self.tables)
        &&& (after.context() == self.context())
        &&& (after.event_type == self.event_type)
        &&& (after.need_bitmap2 == self.need_bitmap2)
        &&& (data.len() > isize::MAX ==> r == Err::<(), _>(ReplicationError::DataTooLarge(data.len() as usize)))
        &&& (data.len() <= isize::MAX ==> match rows_header(
            data,
            self.table_id_size as int,
            self.version as int,
            self.need_bitmap2,
        ) {
            Err(e) => r == Err::<(), _>(e),
            Ok(h) => {
                &&& after.table_id == h.table_id
                &&& after.flags == h.flags
                &&& after.column_count == h.column_count
                &&& after.column_bitmap1@ == h.bitmap1
                &&& self.need_bitmap2 ==> after.column_bitmap2@ == h.bitmap2
                &&& self.version == 2 ==> after.extra_data@ == h.extra_data
                &&& if !self.tables@.contains_key(h.table_id) {
                    if self.tables@.len() > 0 {
                        r == Err::<(), _>(ReplicationError::InvalidTableId(h.table_id))
                    } else {
                        r == Err::<(), _>(ReplicationError::MissingTableMapEvent(h.table_id))
                    }
                } else if self.compressed {
                    r == Err::<(), _>(ReplicationError::CompressedEventUnsupported)
                } else if data.len() + 0x10000 > isize::MAX || h.column_count > isize::MAX {
                    r == Err::<(), _>(ReplicationError::DataTooLarge(data.len() as usize))
                } else {
                    &&& after.table == self.tables@[h.table_id]
                    &&& match after.rows_spec(data, h.pos) {
                        Err(e) => r == Err::<(), _>(e),
                        Ok((rs, ss)) => r is Ok && rows_view(after.rows@) == rs && skips_view(
                            after.skipped_columns@,
                        ) == ss,
                    }
                }
            },
        })
    }

    /// Decodes a rows event body: the fixed part, then the rows.
    fn decode(&mut self, data: &[u8]) -> (r: Result<(), ReplicationError>)
    {
        if data.len() > isize::MAX as usize {
            return Err(ReplicationError::DataTooLarge(data.len()));
        }
        let pos = match self.decode_header(data) {
            Ok(p) => p,
            Err(e) => {
                return Err(e);
            },
        };
        // MariaDB compressed rows are stored in MariaDB's own compressed form, which this
        // library does not decode: the event is refused, not decoded by a guess.
        if self.compressed {
            return Err(ReplicationError::CompressedEventUnsupported);
        }
        if data.len() > (isize::MAX as usize) - 0x10000 || self.column_count > isize::MAX as u64 {
            return Err(ReplicationError::DataTooLarge(data.len()));
        }
        self.decode_data(pos, data)
    }
}

} // verus!
