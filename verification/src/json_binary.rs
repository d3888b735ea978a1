use vstd::prelude::*;
use crate::bytes::{le_at, fixed_le, copy_range, lemma_fixed_le_bound, byte_pow};
use crate::column_types::{MYSQL_TYPE_NEWDECIMAL, MYSQL_TYPE_TIME, MYSQL_TYPE_DATE, MYSQL_TYPE_DATETIME, MYSQL_TYPE_TIMESTAMP};
use crate::decode_helper::{decode_decimal, decimal_layout, decimal_text, abs_int, hms_text};
use crate::error::ReplicationError;
use crate::fields::{DecodeJson, DecodeDecimal, DecodeDatetime, JsonModel, DecimalModel, big_decimal_of, json_view, json_view_list, json_view_members};
use crate::text::{utf8_lossy, lossy_string, padded, push_char, push_padded, dec_digits};

verus! {

broadcast use vstd::std_specs::vec::axiom_vec_index_decreases;

pub const JSONB_SMALL_OBJECT: u8 = 0;
pub const JSONB_LARGE_OBJECT: u8 = 1;
pub const JSONB_SMALL_ARRAY: u8 = 2;
pub const JSONB_LARGE_ARRAY: u8 = 3;
pub const JSONB_LITERAL: u8 = 4;
pub const JSONB_INT16: u8 = 5;
pub const JSONB_UINT16: u8 = 6;
pub const JSONB_INT32: u8 = 7;
pub const JSONB_UINT32: u8 = 8;
pub const JSONB_INT64: u8 = 9;
pub const JSONB_UINT64: u8 = 10;
pub const JSONB_DOUBLE: u8 = 11;
pub const JSONB_STRING: u8 = 12;
pub const JSONB_OPAQUE: u8 = 0x0f;

pub const JSONB_NULL_LITERAL: u8 = 0x00;
pub const JSONB_TRUE_LITERAL: u8 = 0x01;
pub const JSONB_FALSE_LITERAL: u8 = 0x02;

/// `128^p`.
pub open spec fn pow128(p: nat) -> int
    decreases p,
{
    if p == 0 {
        1
    } else {
        128 * pow128((p - 1) as nat)
    }
}

/// A variable-length number read from byte `pos` on, seven bits per byte, low bits first,
/// with `acc` the value of the bytes before: the number and the bytes it takes.
pub open spec fn var_len_from(d: Seq<u8>, pos: nat, acc: int) -> Result<(int, int), ReplicationError>
    decreases 5 - pos,
{
    if pos >= 5 || pos >= d.len() {
        Err(ReplicationError::JsonVariableLengthUnterminated)
    } else {
        let acc2 = acc + (d[pos as int] % 128) * pow128(pos);
        if d[pos as int] < 128 {
            if acc2 > 0xffff_ffff {
                Err(ReplicationError::JsonVariableLengthTooLarge(acc2 as u64))
            } else {
                Ok((acc2, pos + 1int))
            }
        } else {
            var_len_from(d, pos + 1, acc2)
        }
    }
}

/// The variable-length number at the start of `d`, ending within five bytes.
pub open spec fn var_len(d: Seq<u8>) -> Result<(int, int), ReplicationError> {
    var_len_from(d, 0, 0)
}

/// Whether `len` bytes are fewer than `expected`; a negative expectation is never met.
pub open spec fn too_short(len: int, expected: int) -> bool {
    expected < 0 || len < expected
}

/// `Err` when `d` holds fewer than `expected` bytes.
pub open spec fn need(d: Seq<u8>, expected: int) -> Result<(), ReplicationError> {
    if too_short(d.len() as int, expected) {
        Err(ReplicationError::JsonDataShort(d.len() as usize, expected as isize))
    } else {
        Ok(())
    }
}

/// The signed value of `n` bytes read as two's complement.
pub open spec fn signed_of(v: nat, n: nat) -> int {
    if v >= byte_pow(n) / 2 {
        v - byte_pow(n)
    } else {
        v as int
    }
}

/// A little-endian integer of `n` bytes at the start of `d`, signed or not.
pub open spec fn json_int(d: Seq<u8>, n: nat, signed: bool) -> Result<int, ReplicationError> {
    if too_short(d.len() as int, n as int) {
        Err(ReplicationError::JsonDataShort(d.len() as usize, n as isize))
    } else if signed {
        Ok(signed_of(le_at(d, 0, n as int), n))
    } else {
        Ok(le_at(d, 0, n as int) as int)
    }
}

/// A literal: null, true or false.
pub open spec fn json_literal(d: Seq<u8>) -> Result<JsonModel, ReplicationError> {
    if d.len() < 1 {
        Err(ReplicationError::JsonDataShort(d.len() as usize, 1))
    } else if d[0] == JSONB_NULL_LITERAL {
        Ok(JsonModel::Null)
    } else if d[0] == JSONB_TRUE_LITERAL {
        Ok(JsonModel::Bool(true))
    } else if d[0] == JSONB_FALSE_LITERAL {
        Ok(JsonModel::Bool(false))
    } else {
        Err(ReplicationError::InvalidJsonLiteral(d[0]))
    }
}

/// A string: its variable-length byte count, then the bytes.
pub open spec fn json_string(d: Seq<u8>) -> Result<Seq<char>, ReplicationError> {
    match var_len(d) {
        Err(e) => Err(e),
        Ok((l, n)) => if too_short(d.len() as int, l + n) {
            Err(ReplicationError::JsonDataShort(d.len() as usize, (l + n) as isize))
        } else {
            Ok(utf8_lossy(d.subrange(n, n + l)))
        },
    }
}

/// A DECIMAL inside an opaque value: precision, scale, then the packed digits.
pub open spec fn json_decimal(body: Seq<u8>, use_decimal: bool) -> Result<JsonModel, ReplicationError> {
    if body.len() < 2 {
        Err(ReplicationError::JsonDataShort(body.len() as usize, 2))
    } else if body[1] > body[0] {
        Err(ReplicationError::InvalidDecimalScale(body[0] as isize, body[1] as isize))
    } else {
        let rest = body.subrange(2, body.len() as int);
        let p = body[0] as int;
        let s = body[1] as int;
        let n = decimal_layout(p, s).4;
        if n < 1 || n > rest.len() {
            Err(ReplicationError::UnexpectedEof)
        } else if decimal_text(rest, p, s) is None {
            Err(ReplicationError::InvalidDecimal)
        } else if use_decimal {
            Ok(JsonModel::Decimal(DecimalModel::Number(big_decimal_of(decimal_text(rest, p, s).unwrap()))))
        } else {
            Ok(JsonModel::Decimal(DecimalModel::Text(decimal_text(rest, p, s).unwrap())))
        }
    }
}

/// A TIME inside an opaque value, as the decoder prints it: a sign, a `%`, the hours,
/// minutes and seconds and six digits of fraction.
pub open spec fn json_time(body: Seq<u8>) -> Result<JsonModel, ReplicationError> {
    match json_int(body, 8, true) {
        Err(e) => Err(e),
        Ok(v) => if v == 0 {
            Ok(JsonModel::TimeText("00:00:00"@))
        } else if v == i64::MIN {
            Err(ReplicationError::InvalidDate)
        } else {
            let a = abs_int(v);
            let ip = a / 0x1000000;
            let sign = if v < 0 {
                seq!['-']
            } else {
                Seq::empty()
            };
            Ok(
                JsonModel::TimeText(
                    sign + seq!['%'] + hms_text((ip / 0x1000) % 0x400, (ip / 0x40) % 0x40, ip % 0x40)
                        + seq!['.'] + padded((a % 0x1000000) as nat, 6),
                ),
            )
        },
    }
}

/// A DATE, DATETIME or TIMESTAMP inside an opaque value, as the decoder prints it.
pub open spec fn json_datetime(body: Seq<u8>) -> Result<JsonModel, ReplicationError> {
    match json_int(body, 8, true) {
        Err(e) => Err(e),
        Ok(v) => if v == 0 {
            Ok(JsonModel::TimeText("0000-00-00 00:00:00"@))
        } else if v == i64::MIN {
            Err(ReplicationError::InvalidDate)
        } else {
            let a = abs_int(v);
            let ip = a / 0x1000000;
            let ymd = ip / 0x20000;
            let ym = ymd / 0x20;
            let hms = ip % 0x20000;
            Ok(
                JsonModel::TimeText(
                    padded((ym / 13) as nat, 4) + seq!['-'] + padded((ym % 13) as nat, 2) + seq!['-']
                        + padded((ymd % 0x20) as nat, 2) + seq![' '] + hms_text(
                        hms / 0x1000,
                        (hms / 0x40) % 0x40,
                        hms % 0x40,
                    ) + seq!['.'] + padded((a % 0x1000000) as nat, 6),
                ),
            )
        },
    }
}

/// An opaque value: a MySQL column type, a variable-length byte count, and the bytes.
/// DECIMAL, TIME and date types are decoded; other types give null.
pub open spec fn json_opaque(d: Seq<u8>, use_decimal: bool) -> Result<JsonModel, ReplicationError> {
    if d.len() < 1 {
        Err(ReplicationError::JsonDataShort(d.len() as usize, 1))
    } else {
        let tp = d[0];
        let d1 = d.subrange(1, d.len() as int);
        match var_len(d1) {
            Err(e) => Err(e),
            Ok((l, n)) => if too_short(d1.len() as int, l + n) {
                Err(ReplicationError::JsonDataShort(d1.len() as usize, (l + n) as isize))
            } else {
                let body = d1.subrange(n, n + l);
                if tp == MYSQL_TYPE_NEWDECIMAL {
                    json_decimal(body, use_decimal)
                } else if tp == MYSQL_TYPE_TIME {
                    json_time(body)
                } else if tp == MYSQL_TYPE_DATE || tp == MYSQL_TYPE_DATETIME || tp
                    == MYSQL_TYPE_TIMESTAMP {
                    json_datetime(body)
                } else {
                    Ok(JsonModel::Null)
                }
            },
        }
    }
}

/// Bytes of an offset or count in a small (2) or large (4) container.
pub open spec fn offset_size(small: bool) -> int {
    if small {
        2
    } else {
        4
    }
}

/// Bytes of a key entry: a key offset and a two-byte key length.
pub open spec fn key_entry_size(small: bool) -> int {
    offset_size(small) + 2
}

/// Bytes of a value entry: a type byte and an offset or inline value.
pub open spec fn value_entry_size(small: bool) -> int {
    offset_size(small) + 1
}

/// Whether a value of type `tp` is stored in its entry rather than at an offset.
pub open spec fn inline_value(tp: u8, small: bool) -> bool {
    tp == JSONB_INT16 || tp == JSONB_UINT16 || tp == JSONB_LITERAL || (!small && (tp
        == JSONB_INT32 || tp == JSONB_UINT32))
}

/// The size of a container's header: element count, byte size and the entries.
pub open spec fn header_size(small: bool, object: bool, count: int) -> int {
    if small {
        4 + 3 * count + if object {
            4 * count
        } else {
            0
        }
    } else {
        8 + 5 * count + if object {
            6 * count
        } else {
            0
        }
    }
}

/// Where key entry `i` of an object starts.
pub open spec fn key_entry_at(small: bool, i: int) -> int {
    if small {
        4 + 4 * i
    } else {
        8 + 6 * i
    }
}

/// Key `i` of an object with `count` members and a header of `header` bytes.
pub open spec fn json_key_at(d: Seq<u8>, small: bool, header: int, i: int) -> Result<Seq<char>, ReplicationError> {
    let eo = key_entry_at(small, i);
    let ko = le_at(d, eo, offset_size(small)) as int;
    let kl = le_at(d, eo + offset_size(small), 2) as int;
    if ko < header {
        Err(ReplicationError::InvalidJsonKeyOffset(ko as isize, header as isize))
    } else if too_short(d.len() as int, ko + kl) {
        Err(ReplicationError::JsonDataShort(d.len() as usize, (ko + kl) as isize))
    } else {
        Ok(utf8_lossy(d.subrange(ko, ko + kl)))
    }
}

/// The first `k` keys of an object, or the first key that fails.
pub open spec fn json_keys(d: Seq<u8>, small: bool, header: int, k: int) -> Result<Seq<Seq<char>>, ReplicationError>
    decreases k,
{
    if k <= 0 {
        Ok(Seq::empty())
    } else {
        match json_keys(d, small, header, k - 1) {
            Err(e) => Err(e),
            Ok(ks) => match json_key_at(d, small, header, k - 1) {
                Err(e) => Err(e),
                Ok(key) => Ok(ks.push(key)),
            },
        }
    }
}

/// Where value entry `i` of a container with `count` elements starts.
pub open spec fn value_entry_at(small: bool, object: bool, count: int, i: int) -> int {
    if small {
        4 + 3 * i + if object {
            4 * count
        } else {
            0
        }
    } else {
        8 + 5 * i + if object {
            6 * count
        } else {
            0
        }
    }
}

/// Whether `tp` names an object or an array.
pub open spec fn is_container(tp: u8) -> bool {
    tp == JSONB_SMALL_OBJECT || tp == JSONB_LARGE_OBJECT || tp == JSONB_SMALL_ARRAY || tp
        == JSONB_LARGE_ARRAY
}

/// A JSON value of type `tp` other than an object or array.
#[verifier::opaque]
pub open spec fn json_scalar(tp: u8, d: Seq<u8>, use_decimal: bool) -> Result<JsonModel, ReplicationError> {
    if tp == JSONB_LITERAL {
        json_literal(d)
    } else if tp == JSONB_INT16 || tp == JSONB_INT32 || tp == JSONB_INT64 {
        let n: nat = if tp == JSONB_INT16 {
            2
        } else if tp == JSONB_INT32 {
            4
        } else {
            8
        };
        match json_int(d, n, true) {
            Err(e) => Err(e),
            Ok(v) => Ok(JsonModel::Int(v)),
        }
    } else if tp == JSONB_UINT16 || tp == JSONB_UINT32 || tp == JSONB_UINT64 {
        let n: nat = if tp == JSONB_UINT16 {
            2
        } else if tp == JSONB_UINT32 {
            4
        } else {
            8
        };
        match json_int(d, n, false) {
            Err(e) => Err(e),
            Ok(v) => Ok(JsonModel::UInt(v)),
        }
    } else if tp == JSONB_DOUBLE {
        match json_int(d, 8, false) {
            Err(e) => Err(e),
            Ok(v) => Ok(JsonModel::Double(v as u64)),
        }
    } else if tp == JSONB_STRING {
        match json_string(d) {
            Err(e) => Err(e),
            Ok(s) => Ok(JsonModel::Text(s)),
        }
    } else if tp == JSONB_OPAQUE {
        json_opaque(d, use_decimal)
    } else {
        Err(ReplicationError::InvalidJsonType(tp))
    }
}

/// A JSON value of type `tp` stored in `d`, with containers followed `depth` levels deep.
pub open spec fn json_value(
    tp: u8,
    d: Seq<u8>,
    depth: nat,
    use_decimal: bool,
    ignore: bool,
) -> Result<JsonModel, ReplicationError>
    decreases depth, 2nat, 0int,
{
    if is_container(tp) {
        json_container(
            d,
            tp == JSONB_SMALL_OBJECT || tp == JSONB_SMALL_ARRAY,
            tp == JSONB_SMALL_OBJECT || tp == JSONB_LARGE_OBJECT,
            depth,
            use_decimal,
            ignore,
        )
    } else {
        json_scalar(tp, d, use_decimal)
    }
}

/// An object or array: element count, byte size, key entries (objects), value entries,
/// then keys and values. A byte size beyond the data gives null where `ignore` holds.
pub open spec fn json_container(
    d: Seq<u8>,
    small: bool,
    object: bool,
    depth: nat,
    use_decimal: bool,
    ignore: bool,
) -> Result<JsonModel, ReplicationError>
    decreases depth, 1nat, 0int,
{
    let os = offset_size(small);
    if d.len() < 2 * os {
        Err(ReplicationError::JsonDataShort(d.len() as usize, (2 * os) as isize))
    } else {
        let count = le_at(d, 0, os) as int;
        let size = le_at(d, os, os) as int;
        let header = header_size(small, object, count);
        if d.len() < size {
            if ignore {
                Ok(JsonModel::Null)
            } else {
                Err(ReplicationError::JsonDataShort(d.len() as usize, size as isize))
            }
        } else if header > size {
            Err(ReplicationError::JsonHeaderTooLarge(header as isize, size as isize))
        } else if depth == 0 {
            Err(ReplicationError::JsonTooDeep)
        } else {
            let keys = if object {
                json_keys(d, small, header, count)
            } else {
                Ok(Seq::empty())
            };
            match keys {
                Err(e) => Err(e),
                Ok(ks) => match json_values(d, small, object, count, depth, use_decimal, ignore, count) {
                    Err(e) => Err(e),
                    Ok(vs) => if object {
                        Ok(JsonModel::Object(Seq::new(count as nat, |i: int| (ks[i], vs[i]))))
                    } else {
                        Ok(JsonModel::Array(vs))
                    },
                },
            }
        }
    }
}

/// The first `k` values of a container, or the first that fails; each is decoded one
/// level deeper.
pub open spec fn json_values(
    d: Seq<u8>,
    small: bool,
    object: bool,
    count: int,
    depth: nat,
    use_decimal: bool,
    ignore: bool,
    k: int,
) -> Result<Seq<JsonModel>, ReplicationError>
    decreases depth, 0nat, k,
{
    if k <= 0 {
        Ok(Seq::empty())
    } else if depth == 0 {
        Err(ReplicationError::JsonTooDeep)
    } else {
        match json_values(d, small, object, count, depth, use_decimal, ignore, k - 1) {
            Err(e) => Err(e),
            Ok(vs) => match json_value_at(d, small, object, count, k - 1, (depth - 1) as nat, use_decimal, ignore) {
                Err(e) => Err(e),
                Ok(v) => Ok(vs.push(v)),
            },
        }
    }
}

/// Value `i` of a container: in its entry, or at the offset the entry holds.
pub open spec fn json_value_at(
    d: Seq<u8>,
    small: bool,
    object: bool,
    count: int,
    i: int,
    depth: nat,
    use_decimal: bool,
    ignore: bool,
) -> Result<JsonModel, ReplicationError>
    decreases depth, 3nat, 0int,
{
    let eo = value_entry_at(small, object, count, i);
    let tp = d[eo];
    if inline_value(tp, small) {
        json_value(tp, d.subrange(eo + 1, eo + value_entry_size(small)), depth, use_decimal, ignore)
    } else {
        let vo = le_at(d, eo + 1, offset_size(small)) as int;
        if d.len() < vo {
            Err(ReplicationError::JsonDataShort(d.len() as usize, vo as isize))
        } else {
            json_value(tp, d.subrange(vo, d.len() as int), depth, use_decimal, ignore)
        }
    }
}


/// Once the first `k` keys fail, all keys fail the same way.
proof fn lemma_keys_err_stays(d: Seq<u8>, small: bool, header: int, k: int, k2: int)
    requires
        0 <= k <= k2,
        json_keys(d, small, header, k) is Err,
    ensures
        json_keys(d, small, header, k2) == json_keys(d, small, header, k),
    decreases k2 - k,
{
    if k < k2 {
        lemma_keys_err_stays(d, small, header, k, k2 - 1);
    }
}

/// Once the first `k` values fail, all values fail the same way.
proof fn lemma_values_err_stays(
    d: Seq<u8>,
    small: bool,
    object: bool,
    count: int,
    depth: nat,
    use_decimal: bool,
    ignore: bool,
    k: int,
    k2: int,
)
    requires
        0 <= k <= k2,
        json_values(d, small, object, count, depth, use_decimal, ignore, k) is Err,
    ensures
        json_values(d, small, object, count, depth, use_decimal, ignore, k2) == json_values(
            d,
            small,
            object,
            count,
            depth,
            use_decimal,
            ignore,
            k,
        ),
    decreases k2 - k,
{
    if k < k2 {
        lemma_values_err_stays(d, small, object, count, depth, use_decimal, ignore, k, k2 - 1);
    }
}

/// One more value after the first `i`.
proof fn lemma_values_step(
    d: Seq<u8>,
    small: bool,
    object: bool,
    count: int,
    depth: nat,
    use_decimal: bool,
    ignore: bool,
    i: int,
    vs: Seq<JsonModel>,
    m: JsonModel,
)
    requires
        depth >= 1,
        0 <= i,
        json_values(d, small, object, count, depth, use_decimal, ignore, i) == Ok::<Seq<JsonModel>, ReplicationError>(vs),
        json_value_at(d, small, object, count, i, (depth - 1) as nat, use_decimal, ignore) == Ok::<JsonModel, ReplicationError>(m),
    ensures
        json_values(d, small, object, count, depth, use_decimal, ignore, i + 1) == Ok::<Seq<JsonModel>, ReplicationError>(vs.push(m)),
{
}

/// The forms of a vector's first `k` values, when each is known.
proof fn lemma_view_list(v: Vec<DecodeJson>, ms: Seq<JsonModel>, k: int)
    requires
        0 <= k <= v.len(),
        k <= ms.len(),
        forall|j: int| 0 <= j < k ==> json_view(#[trigger] v@[j]) == ms[j],
    ensures
        json_view_list(v, k) == ms.take(k),
    decreases k,
{
    if k > 0 {
        lemma_view_list(v, ms, k - 1);
        assert(ms.take(k - 1).push(ms[k - 1]) =~= ms.take(k));
    } else {
        assert(ms.take(0) =~= Seq::<JsonModel>::empty());
    }
}

/// The keys and value forms of a vector's first `k` members, when each is known.
proof fn lemma_view_members(v: Vec<(String, DecodeJson)>, ks: Seq<Seq<char>>, ms: Seq<JsonModel>, k: int)
    requires
        0 <= k <= v.len(),
        k <= ms.len(),
        k <= ks.len(),
        forall|j: int| 0 <= j < k ==> (#[trigger] v@[j]).0@ == ks[j] && json_view(v@[j].1) == ms[j],
    ensures
        json_view_members(v, k) == Seq::new(k as nat, |i: int| (ks[i], ms[i])),
    decreases k,
{
    if k > 0 {
        lemma_view_members(v, ks, ms, k - 1);
        assert(Seq::new((k - 1) as nat, |i: int| (ks[i], ms[i])).push((ks[k - 1], ms[k - 1]))
            =~= Seq::new(k as nat, |i: int| (ks[i], ms[i])));
    } else {
        assert(Seq::new(0, |i: int| (ks[i], ms[i])) =~= Seq::<(Seq<char>, JsonModel)>::empty());
    }
}

fn _jsonb_get_offset_size(is_small: bool) -> (r: isize)
    ensures
        r == offset_size(is_small),
{
    if is_small {
        2
    } else {
        4
    }
}

fn _jsonb_get_key_entry_size(is_small: bool) -> (r: isize)
    ensures
        r == key_entry_size(is_small),
{
    if is_small {
        4
    } else {
        6
    }
}

fn _jsonb_get_value_entry_size(is_small: bool) -> (r: isize)
    ensures
        r == value_entry_size(is_small),
{
    if is_small {
        3
    } else {
        5
    }
}

fn _is_inline_value(tp: u8, is_small: bool) -> (r: bool)
    ensures
        r == inline_value(tp, is_small),
{
    if tp == JSONB_INT16 || tp == JSONB_UINT16 || tp == JSONB_LITERAL {
        true
    } else if tp == JSONB_INT32 || tp == JSONB_UINT32 {
        !is_small
    } else {
        false
    }
}

/// A decoder of MySQL's binary JSON format. `err` holds the first failure; once it is
/// set, nothing more is decoded.
pub struct JsonBinaryDecoder {
    pub use_decimal: bool,
    pub ignore_decode_err: bool,
    pub err: Result<(), ReplicationError>,
}

impl JsonBinaryDecoder {
    /// Whether `data` holds fewer than `expected` bytes, or an earlier failure is recorded;
    /// a new shortfall is recorded.
    pub fn is_data_short(&mut self, data: &[u8], expected: isize) -> (r: bool)
        ensures
            final(self).use_decimal == old(self).use_decimal,
            final(self).ignore_decode_err == old(self).ignore_decode_err,
            old(self).err is Err ==> r && final(self).err == old(self).err,
            old(self).err is Ok ==> r == too_short(data@.len() as int, expected as int),
            old(self).err is Ok && r ==> final(self).err == Err::<(), ReplicationError>(
                ReplicationError::JsonDataShort(data@.len() as usize, expected),
            ),
            old(self).err is Ok && !r ==> final(self).err is Ok,
    {
        if self.err.is_err() {
            return true;
        }
        let short = if expected < 0 {
            true
        } else {
            (data.len() as u64) < (expected as u64)
        };
        if short {
            self.err = Err(ReplicationError::JsonDataShort(data.len(), expected));
        }
        short
    }

    fn _decode_uint(&self, data: &[u8], n: usize) -> (r: Result<u64, ReplicationError>)
        requires
            n == 2 || n == 4 || n == 8,
        ensures
            r matches Ok(v) ==> json_int(data@, n as nat, false) == Ok::<int, ReplicationError>(v as int),
            r matches Err(e) ==> json_int(data@, n as nat, false) == Err::<int, _>(e),
    {
        if data.len() < n {
            return Err(ReplicationError::JsonDataShort(data.len(), n as isize));
        }
        Ok(fixed_le(data, 0, n))
    }

    fn _decode_int(&self, data: &[u8], n: usize) -> (r: Result<i64, ReplicationError>)
        requires
            n == 2 || n == 4 || n == 8,
        ensures
            r matches Ok(v) ==> json_int(data@, n as nat, true) == Ok::<int, ReplicationError>(v as int),
            r matches Err(e) ==> json_int(data@, n as nat, true) == Err::<int, _>(e),
    {
        if data.len() < n {
            return Err(ReplicationError::JsonDataShort(data.len(), n as isize));
        }
        let v = fixed_le(data, 0, n);
        proof {
            lemma_fixed_le_bound(data@, 0, n as int);
            reveal_with_fuel(byte_pow, 9);
        }
        if n == 2 {
            if v >= 0x8000 {
                Ok(v as i64 - 0x10000)
            } else {
                Ok(v as i64)
            }
        } else if n == 4 {
            if v >= 0x8000_0000 {
                Ok(v as i64 - 0x1_0000_0000)
            } else {
                Ok(v as i64)
            }
        } else {
            if v >= 0x8000_0000_0000_0000 {
                Ok((v - 0x8000_0000_0000_0000) as i64 - 0x7fff_ffff_ffff_ffff - 1)
            } else {
                Ok(v as i64)
            }
        }
    }

    fn _decode_int16(&self, data: &[u8]) -> (r: Result<i64, ReplicationError>)
        ensures
            r matches Ok(v) ==> json_int(data@, 2, true) == Ok::<int, ReplicationError>(v as int),
            r matches Err(e) ==> json_int(data@, 2, true) == Err::<int, _>(e),
    {
        self._decode_int(data, 2)
    }

    fn _decode_uint16(&self, data: &[u8]) -> (r: Result<u64, ReplicationError>)
        ensures
            r matches Ok(v) ==> json_int(data@, 2, false) == Ok::<int, ReplicationError>(v as int),
            r matches Err(e) ==> json_int(data@, 2, false) == Err::<int, _>(e),
    {
        self._decode_uint(data, 2)
    }

    fn _decode_int32(&self, data: &[u8]) -> (r: Result<i64, ReplicationError>)
        ensures
            r matches Ok(v) ==> json_int(data@, 4, true) == Ok::<int, ReplicationError>(v as int),
            r matches Err(e) ==> json_int(data@, 4, true) == Err::<int, _>(e),
    {
        self._decode_int(data, 4)
    }

    fn _decode_uint32(&self, data: &[u8]) -> (r: Result<u64, ReplicationError>)
        ensures
            r matches Ok(v) ==> json_int(data@, 4, false) == Ok::<int, ReplicationError>(v as int),
            r matches Err(e) ==> json_int(data@, 4, false) == Err::<int, _>(e),
    {
        self._decode_uint(data, 4)
    }

    fn _decode_int64(&self, data: &[u8]) -> (r: Result<i64, ReplicationError>)
        ensures
            r matches Ok(v) ==> json_int(data@, 8, true) == Ok::<int, ReplicationError>(v as int),
            r matches Err(e) ==> json_int(data@, 8, true) == Err::<int, _>(e),
    {
        self._decode_int(data, 8)
    }

    fn _decode_uint64(&self, data: &[u8]) -> (r: Result<u64, ReplicationError>)
        ensures
            r matches Ok(v) ==> json_int(data@, 8, false) == Ok::<int, ReplicationError>(v as int),
            r matches Err(e) ==> json_int(data@, 8, false) == Err::<int, _>(e),
    {
        self._decode_uint(data, 8)
    }

    /// The bits of a little-endian double.
    fn _decode_double(&self, data: &[u8]) -> (r: Result<u64, ReplicationError>)
        ensures
            r matches Ok(v) ==> json_int(data@, 8, false) == Ok::<int, ReplicationError>(v as int),
            r matches Err(e) ==> json_int(data@, 8, false) == Err::<int, _>(e),
    {
        self._decode_uint(data, 8)
    }

    fn _decode_variable_length(&self, data: &[u8]) -> (r: Result<(usize, usize), ReplicationError>)
        ensures
            r matches Ok((l, n)) ==> var_len(data@) == Ok::<(int, int), ReplicationError>(
                (l as int, n as int),
            ),
            r matches Err(e) ==> var_len(data@) == Err::<(int, int), _>(e),
            r matches Ok((l, n)) ==> l <= 0xffff_ffff && 1 <= n <= 5 && n <= data@.len(),
    {
        let max: usize = if data.len() < 5 {
            data.len()
        } else {
            5
        };
        let mut pos: usize = 0;
        let mut acc: u64 = 0;
        let mut mult: u64 = 1;
        proof {
            reveal_with_fuel(pow128, 6);
        }
        while pos < max
            invariant
                max <= 5,
                max == data@.len() || max == 5,
                max <= data@.len(),
                pos <= max,
                mult == pow128(pos as nat),
                pow128(5) == 0x8_0000_0000,
                pos < 5 ==> mult <= 0x1000_0000,
                acc < mult,
                var_len(data@) == var_len_from(data@, pos as nat, acc as int),
            decreases max - pos,
        {
            let v = data[pos];
            assert((v % 128) as u64 * mult <= 127 * mult) by (nonlinear_arith)
                requires
                    v % 128 <= 127,
            ;
            acc = acc + (v % 128) as u64 * mult;
            if v < 128 {
                if acc > 0xffff_ffff {
                    return Err(ReplicationError::JsonVariableLengthTooLarge(acc));
                }
                return Ok((acc as usize, pos + 1));
            }
            proof {
                reveal_with_fuel(pow128, 6);
            }
            pos = pos + 1;
            mult = mult * 128;
        }
        Err(ReplicationError::JsonVariableLengthUnterminated)
    }

    fn _decode_literal(&self, data: &[u8]) -> (r: Result<DecodeJson, ReplicationError>)
        ensures
            r matches Ok(v) ==> json_literal(data@) == Ok::<JsonModel, ReplicationError>(json_view(v)),
            r matches Err(e) ==> json_literal(data@) == Err::<JsonModel, _>(e),
    {
        if data.len() < 1 {
            return Err(ReplicationError::JsonDataShort(data.len(), 1));
        }
        let tp = data[0];
        if tp == JSONB_NULL_LITERAL {
            Ok(DecodeJson::Null)
        } else if tp == JSONB_TRUE_LITERAL {
            Ok(DecodeJson::Bool(true))
        } else if tp == JSONB_FALSE_LITERAL {
            Ok(DecodeJson::Bool(false))
        } else {
            Err(ReplicationError::InvalidJsonLiteral(tp))
        }
    }

    fn _decode_string(&self, data: &[u8]) -> (r: Result<String, ReplicationError>)
        ensures
            r matches Ok(v) ==> json_string(data@) == Ok::<Seq<char>, ReplicationError>(v@),
            r matches Err(e) ==> json_string(data@) == Err::<Seq<char>, _>(e),
    {
        let (l, n) = match self._decode_variable_length(data) {
            Ok(p) => p,
            Err(e) => {
                return Err(e);
            },
        };
        let end: u64 = l as u64 + n as u64;
        if (data.len() as u64) < end {
            return Err(ReplicationError::JsonDataShort(data.len(), end as isize));
        }
        Ok(lossy_string(&data[n..n + l]))
    }

    fn _decode_decimal(&self, data: &[u8]) -> (r: Result<DecodeJson, ReplicationError>)
        ensures
            r matches Ok(v) ==> json_decimal(data@, self.use_decimal) == Ok::<JsonModel, ReplicationError>(
                json_view(v),
            ),
            r matches Err(e) ==> json_decimal(data@, self.use_decimal) == Err::<JsonModel, _>(e),
    {
        if data.len() < 2 {
            return Err(ReplicationError::JsonDataShort(data.len(), 2));
        }
        let precision = data[0];
        let scale = data[1];
        if scale > precision {
            return Err(ReplicationError::InvalidDecimalScale(precision as isize, scale as isize));
        }
        let rest = &data[2..data.len()];
        match decode_decimal(rest, precision as isize, scale as isize, self.use_decimal) {
            Ok((v, _)) => Ok(DecodeJson::Decimal(v)),
            Err(e) => Err(e),
        }
    }

    /// Appends `HH:MM:SS` for the packed hour, minute and second fields of `ip`.
    fn push_hms(s: &mut String, hour: i64, minute: i64, second: i64)
        requires
            0 <= hour,
            0 <= minute,
            0 <= second,
        ensures
            final(s)@ == old(s)@ + hms_text(hour as int, minute as int, second as int),
    {
        push_padded(s, hour as u64, 2);
        push_char(s, ':');
        push_padded(s, minute as u64, 2);
        push_char(s, ':');
        push_padded(s, second as u64, 2);
        assert(s@ =~= old(s)@ + hms_text(hour as int, minute as int, second as int));
    }

    fn _decode_time(&self, data: &[u8]) -> (r: Result<DecodeJson, ReplicationError>)
        ensures
            r matches Ok(v) ==> json_time(data@) == Ok::<JsonModel, ReplicationError>(json_view(v)),
            r matches Err(e) ==> json_time(data@) == Err::<JsonModel, _>(e),
    {
        let v = match self._decode_int64(data) {
            Ok(v) => v,
            Err(e) => {
                return Err(e);
            },
        };
        if v == 0 {
            proof {
                reveal_strlit("00:00:00");
            }
            return Ok(DecodeJson::Datetime(DecodeDatetime::String(crate::text::text("00:00:00"))));
        }
        if v == i64::MIN {
            return Err(ReplicationError::InvalidDate);
        }
        let a: i64 = if v < 0 {
            -v
        } else {
            v
        };
        let ip = a / 0x1000000;
        let mut s = String::new();
        if v < 0 {
            push_char(&mut s, '-');
        }
        push_char(&mut s, '%');
        Self::push_hms(&mut s, (ip / 0x1000) % 0x400, (ip / 0x40) % 0x40, ip % 0x40);
        push_char(&mut s, '.');
        push_padded(&mut s, (a % 0x1000000) as u64, 6);
        proof {
            let sign = if v < 0 {
                seq!['-']
            } else {
                Seq::empty()
            };
            assert(s@ =~= sign + seq!['%'] + hms_text(
                (ip / 0x1000) % 0x400,
                (ip / 0x40) % 0x40,
                (ip % 0x40) as int,
            ) + seq!['.'] + padded((a % 0x1000000) as nat, 6));
        }
        Ok(DecodeJson::Datetime(DecodeDatetime::String(s)))
    }

    fn _decode_datetime(&self, data: &[u8]) -> (r: Result<DecodeJson, ReplicationError>)
        ensures
            r matches Ok(v) ==> json_datetime(data@) == Ok::<JsonModel, ReplicationError>(json_view(v)),
            r matches Err(e) ==> json_datetime(data@) == Err::<JsonModel, _>(e),
    {
        let v = match self._decode_int64(data) {
            Ok(v) => v,
            Err(e) => {
                return Err(e);
            },
        };
        if v == 0 {
            proof {
                reveal_strlit("0000-00-00 00:00:00");
            }
            return Ok(
                DecodeJson::Datetime(DecodeDatetime::String(crate::text::text("0000-00-00 00:00:00"))),
            );
        }
        if v == i64::MIN {
            return Err(ReplicationError::InvalidDate);
        }
        let a: i64 = if v < 0 {
            -v
        } else {
            v
        };
        let ip = a / 0x1000000;
        let ymd = ip / 0x20000;
        let ym = ymd / 0x20;
        let hms = ip % 0x20000;
        let mut s = String::new();
        push_padded(&mut s, (ym / 13) as u64, 4);
        push_char(&mut s, '-');
        push_padded(&mut s, (ym % 13) as u64, 2);
        push_char(&mut s, '-');
        push_padded(&mut s, (ymd % 0x20) as u64, 2);
        push_char(&mut s, ' ');
        Self::push_hms(&mut s, hms / 0x1000, (hms / 0x40) % 0x40, hms % 0x40);
        push_char(&mut s, '.');
        push_padded(&mut s, (a % 0x1000000) as u64, 6);
        assert(s@ =~= padded((ym / 13) as nat, 4) + seq!['-'] + padded((ym % 13) as nat, 2)
            + seq!['-'] + padded((ymd % 0x20) as nat, 2) + seq![' '] + hms_text(
            hms / 0x1000,
            (hms / 0x40) % 0x40,
            (hms % 0x40) as int,
        ) + seq!['.'] + padded((a % 0x1000000) as nat, 6));
        Ok(DecodeJson::Datetime(DecodeDatetime::String(s)))
    }

    fn _decode_opaque(&self, data: &[u8]) -> (r: Result<DecodeJson, ReplicationError>)
        ensures
            r matches Ok(v) ==> json_opaque(data@, self.use_decimal) == Ok::<JsonModel, ReplicationError>(
                json_view(v),
            ),
            r matches Err(e) ==> json_opaque(data@, self.use_decimal) == Err::<JsonModel, _>(e),
    {
        if data.len() < 1 {
            return Err(ReplicationError::JsonDataShort(data.len(), 1));
        }
        let tp = data[0];
        let d1 = &data[1..data.len()];
        let (l, n) = match self._decode_variable_length(d1) {
            Ok(p) => p,
            Err(e) => {
                return Err(e);
            },
        };
        let end: u64 = l as u64 + n as u64;
        if (d1.len() as u64) < end {
            return Err(ReplicationError::JsonDataShort(d1.len(), end as isize));
        }
        let body = &d1[n..n + l];
        if tp == MYSQL_TYPE_NEWDECIMAL {
            self._decode_decimal(body)
        } else if tp == MYSQL_TYPE_TIME {
            self._decode_time(body)
        } else if tp == MYSQL_TYPE_DATE || tp == MYSQL_TYPE_DATETIME || tp == MYSQL_TYPE_TIMESTAMP {
            self._decode_datetime(body)
        } else {
            Ok(DecodeJson::Null)
        }
    }

    /// A value of type `tp`, other than an object or array, in `data`.
    fn _decode_scalar(&self, tp: u8, data: &[u8]) -> (r: Result<DecodeJson, ReplicationError>)
        ensures
            r matches Ok(v) ==> json_scalar(tp, data@, self.use_decimal) == Ok::<JsonModel, ReplicationError>(
                json_view(v),
            ),
            r matches Err(e) ==> json_scalar(tp, data@, self.use_decimal) == Err::<JsonModel, _>(e),
    {
        proof {
            reveal(json_scalar);
        }
        if tp == JSONB_LITERAL {
            self._decode_literal(data)
        } else if tp == JSONB_INT16 || tp == JSONB_INT32 || tp == JSONB_INT64 {
            let r = if tp == JSONB_INT16 {
                self._decode_int16(data)
            } else if tp == JSONB_INT32 {
                self._decode_int32(data)
            } else {
                self._decode_int64(data)
            };
            match r {
                Ok(v) => Ok(DecodeJson::Isize(v)),
                Err(e) => Err(e),
            }
        } else if tp == JSONB_UINT16 || tp == JSONB_UINT32 || tp == JSONB_UINT64 {
            let r = if tp == JSONB_UINT16 {
                self._decode_uint16(data)
            } else if tp == JSONB_UINT32 {
                self._decode_uint32(data)
            } else {
                self._decode_uint64(data)
            };
            match r {
                Ok(v) => Ok(DecodeJson::Usize(v)),
                Err(e) => Err(e),
            }
        } else if tp == JSONB_DOUBLE {
            match self._decode_double(data) {
                Ok(v) => Ok(DecodeJson::F64(v)),
                Err(e) => Err(e),
            }
        } else if tp == JSONB_STRING {
            match self._decode_string(data) {
                Ok(v) => Ok(DecodeJson::String(v)),
                Err(e) => Err(e),
            }
        } else if tp == JSONB_OPAQUE {
            self._decode_opaque(data)
        } else {
            Err(ReplicationError::InvalidJsonType(tp))
        }
    }

    /// The value of type `tp` in `data`, with containers followed `depth` levels deep.
    fn value_at(&self, tp: u8, data: &[u8], depth: usize) -> (r: Result<DecodeJson, ReplicationError>)
        ensures
            r matches Ok(v) ==> json_value(tp, data@, depth as nat, self.use_decimal, self.ignore_decode_err)
                == Ok::<JsonModel, ReplicationError>(json_view(v)),
            r matches Err(e) ==> json_value(tp, data@, depth as nat, self.use_decimal, self.ignore_decode_err)
                == Err::<JsonModel, _>(e),
        decreases depth, 2nat, 0int,
    {
        if tp == JSONB_SMALL_OBJECT || tp == JSONB_LARGE_OBJECT || tp == JSONB_SMALL_ARRAY || tp
            == JSONB_LARGE_ARRAY {
            let small = tp == JSONB_SMALL_OBJECT || tp == JSONB_SMALL_ARRAY;
            let object = tp == JSONB_SMALL_OBJECT || tp == JSONB_LARGE_OBJECT;
            self._decode_object_or_array(data, small, object, depth)
        } else {
            self._decode_scalar(tp, data)
        }
    }

    /// Key `i` of an object whose header, of `header` bytes, the data holds.
    fn _decode_key(&self, data: &[u8], is_small: bool, header: u64, i: usize) -> (r: Result<String, ReplicationError>)
        requires
            header <= data.len(),
            key_entry_at(is_small, i as int) + key_entry_size(is_small) <= header,
        ensures
            r matches Ok(k) ==> json_key_at(data@, is_small, header as int, i as int) == Ok::<Seq<char>, ReplicationError>(k@),
            r matches Err(e) ==> json_key_at(data@, is_small, header as int, i as int) == Err::<Seq<char>, _>(e),
    {
        let os: usize = if is_small {
            2
        } else {
            4
        };
        let eo: usize = if is_small {
            4 + 4 * i
        } else {
            8 + 6 * i
        };
        let ko = fixed_le(data, eo, os);
        let kl = fixed_le(data, eo + os, 2);
        proof {
            lemma_fixed_le_bound(data@, eo as int, os as int);
            lemma_fixed_le_bound(data@, eo + os, 2);
            reveal_with_fuel(byte_pow, 5);
        }
        if ko < header {
            return Err(ReplicationError::InvalidJsonKeyOffset(ko as isize, header as isize));
        }
        if (data.len() as u64) < ko + kl {
            return Err(ReplicationError::JsonDataShort(data.len(), (ko + kl) as isize));
        }
        Ok(lossy_string(&data[ko as usize..(ko + kl) as usize]))
    }

    /// The `count` keys of an object whose header, of `header` bytes, the data holds.
    fn _decode_keys(&self, data: &[u8], is_small: bool, header: u64, count: usize) -> (r: Result<Vec<String>, ReplicationError>)
        requires
            header <= data@.len(),
            header == header_size(is_small, true, count as int),
        ensures
            r matches Err(e) ==> json_keys(data@, is_small, header as int, count as int) == Err::<Seq<Seq<char>>, _>(e),
            r matches Ok(keys) ==> json_keys(data@, is_small, header as int, count as int) is Ok && keys@.len() == count
                && json_keys(data@, is_small, header as int, count as int)->Ok_0.len() == count
                && forall|j: int| 0 <= j < count ==> (#[trigger] keys@[j])@ == json_keys(data@, is_small, header as int, count as int)->Ok_0[j],
    {
        let ghost d = data@;
        let ghost mut ks: Seq<Seq<char>> = Seq::empty();
        let mut keys: Vec<String> = Vec::new();
        let mut i: usize = 0;
        while i < count
            invariant
                d == data@,
                header <= data@.len(),
                header == header_size(is_small, true, count as int),
                i <= count,
                json_keys(d, is_small, header as int, i as int) == Ok::<Seq<Seq<char>>, ReplicationError>(ks),
                ks.len() == i,
                keys@.len() == i,
                forall|j: int| 0 <= j < i ==> (#[trigger] keys@[j])@ == ks[j],
            decreases count - i,
        {
            let key = match self._decode_key(data, is_small, header, i) {
                Ok(k) => k,
                Err(e) => {
                    proof {
                        lemma_keys_err_stays(d, is_small, header as int, i + 1, count as int);
                    }
                    return Err(e);
                },
            };
            proof {
                ks = ks.push(key@);
            }
            keys.push(key);
            i = i + 1;
        }
        Ok(keys)
    }

    /// Value `i` of a container with `count` elements whose header the data holds.
    fn _decode_entry(
        &self,
        data: &[u8],
        is_small: bool,
        is_object: bool,
        count: usize,
        i: usize,
        depth: usize,
    ) -> (r: Result<DecodeJson, ReplicationError>)
        requires
            value_entry_at(is_small, is_object, count as int, i as int) + value_entry_size(is_small) <= data.len(),
        ensures
            r matches Ok(v) ==> json_value_at(data@, is_small, is_object, count as int, i as int, depth as nat, self.use_decimal, self.ignore_decode_err)
                == Ok::<JsonModel, ReplicationError>(json_view(v)),
            r matches Err(e) ==> json_value_at(data@, is_small, is_object, count as int, i as int, depth as nat, self.use_decimal, self.ignore_decode_err)
                == Err::<JsonModel, _>(e),
        decreases depth, 3nat, 0int,
    {
        let os: usize = if is_small {
            2
        } else {
            4
        };
        let ves = os + 1;
        let eo: usize = if is_small {
            4 + 3 * i + if is_object {
                4 * count
            } else {
                0
            }
        } else {
            8 + 5 * i + if is_object {
                6 * count
            } else {
                0
            }
        };
        let tp = data[eo];
        if _is_inline_value(tp, is_small) {
            self.value_at(tp, &data[eo + 1..eo + ves], depth)
        } else {
            let vo = fixed_le(data, eo + 1, os);
            if (data.len() as u64) < vo {
                Err(ReplicationError::JsonDataShort(data.len(), vo as isize))
            } else {
                self.value_at(tp, &data[vo as usize..data.len()], depth)
            }
        }
    }

    /// The `count` values of an array, each followed `depth - 1` levels deeper.
    fn _decode_array_values(&self, data: &[u8], is_small: bool, count: usize, depth: usize) -> (r: Result<DecodeJson, ReplicationError>)
        requires
            depth >= 1,
            header_size(is_small, false, count as int) <= data@.len(),
        ensures
            r matches Err(e) ==> json_values(data@, is_small, false, count as int, depth as nat, self.use_decimal, self.ignore_decode_err, count as int)
                == Err::<Seq<JsonModel>, _>(e),
            r matches Ok(v) ==> json_values(data@, is_small, false, count as int, depth as nat, self.use_decimal, self.ignore_decode_err, count as int) is Ok
                && json_view(v) == JsonModel::Array(
                    json_values(data@, is_small, false, count as int, depth as nat, self.use_decimal, self.ignore_decode_err, count as int)->Ok_0),
        decreases depth, 0nat, 0int,
    {
        let ghost d = data@;
        let ghost ud = self.use_decimal;
        let ghost ig = self.ignore_decode_err;
        let mut items: Vec<DecodeJson> = Vec::new();
        let ghost mut vs: Seq<JsonModel> = Seq::empty();
        let mut i: usize = 0;
        while i < count
            invariant
                d == data@,
                ud == self.use_decimal,
                ig == self.ignore_decode_err,
                depth >= 1,
                header_size(is_small, false, count as int) <= data@.len(),
                i <= count,
                json_values(d, is_small, false, count as int, depth as nat, ud, ig, i as int) == Ok::<
                    Seq<JsonModel>,
                    ReplicationError,
                >(vs),
                vs.len() == i,
                items@.len() == i,
                forall|j: int| 0 <= j < i ==> json_view(#[trigger] items@[j]) == vs[j],
            decreases count - i,
        {
            let v = match self._decode_entry(data, is_small, false, count, i, depth - 1) {
                Ok(v) => v,
                Err(e) => {
                    proof {
                        lemma_values_err_stays(d, is_small, false, count as int, depth as nat, ud, ig, i + 1, count as int);
                    }
                    return Err(e);
                },
            };
            proof {
                lemma_values_step(d, is_small, false, count as int, depth as nat, ud, ig, i as int, vs, json_view(v));
                vs = vs.push(json_view(v));
            }
            items.push(v);
            i = i + 1;
        }
        proof {
            lemma_view_list(items, vs, count as int);
            assert(vs.take(count as int) =~= vs);
        }
        Ok(DecodeJson::Vec(items))
    }

    /// The `count` values of an object, each followed `depth - 1` levels deeper, with their
    /// `keys`.
    fn _decode_object_values(
        &self,
        data: &[u8],
        is_small: bool,
        count: usize,
        depth: usize,
        keys: &Vec<String>,
        ks: Ghost<Seq<Seq<char>>>,
    ) -> (r: Result<DecodeJson, ReplicationError>)
        requires
            depth >= 1,
            header_size(is_small, true, count as int) <= data@.len(),
            keys@.len() == count && ks@.len() == count,
            forall|j: int| 0 <= j < count ==> (#[trigger] keys@[j])@ == ks@[j],
        ensures
            r matches Err(e) ==> json_values(data@, is_small, true, count as int, depth as nat, self.use_decimal, self.ignore_decode_err, count as int)
                == Err::<Seq<JsonModel>, _>(e),
            r matches Ok(v) ==> json_values(data@, is_small, true, count as int, depth as nat, self.use_decimal, self.ignore_decode_err, count as int) is Ok
                && json_view(v) == JsonModel::Object(Seq::new(count as nat, |i: int| (ks@[i],
                    json_values(data@, is_small, true, count as int, depth as nat, self.use_decimal, self.ignore_decode_err, count as int)->Ok_0[i]))),
        decreases depth, 0nat, 0int,
    {
        let ghost d = data@;
        let ghost ud = self.use_decimal;
        let ghost ig = self.ignore_decode_err;
        let mut members: Vec<(String, DecodeJson)> = Vec::new();
        let ghost mut vs: Seq<JsonModel> = Seq::empty();
        let mut i: usize = 0;
        while i < count
            invariant
                d == data@,
                ud == self.use_decimal,
                ig == self.ignore_decode_err,
                depth >= 1,
                header_size(is_small, true, count as int) <= data@.len(),
                i <= count,
                keys@.len() == count && ks@.len() == count,
                forall|j: int| 0 <= j < count ==> (#[trigger] keys@[j])@ == ks@[j],
                json_values(d, is_small, true, count as int, depth as nat, ud, ig, i as int) == Ok::<
                    Seq<JsonModel>,
                    ReplicationError,
                >(vs),
                vs.len() == i,
                members@.len() == i,
                forall|j: int|
                    0 <= j < i ==> (#[trigger] members@[j]).0@ == ks@[j] && json_view(members@[j].1) == vs[j],
            decreases count - i,
        {
            let v = match self._decode_entry(data, is_small, true, count, i, depth - 1) {
                Ok(v) => v,
                Err(e) => {
                    proof {
                        lemma_values_err_stays(d, is_small, true, count as int, depth as nat, ud, ig, i + 1, count as int);
                    }
                    return Err(e);
                },
            };
            proof {
                lemma_values_step(d, is_small, true, count as int, depth as nat, ud, ig, i as int, vs, json_view(v));
                vs = vs.push(json_view(v));
            }
            let key = keys[i].clone();
            members.push((key, v));
            i = i + 1;
        }
        proof {
            lemma_view_members(members, ks@, vs, count as int);
        }
        Ok(DecodeJson::Object(members))
    }

    /// An object or array in `data`, its values followed `depth - 1` levels deeper.
    fn _decode_object_or_array(&self, data: &[u8], is_small: bool, is_object: bool, depth: usize) -> (r:
        Result<DecodeJson, ReplicationError>)
        ensures
            r matches Ok(v) ==> json_container(data@, is_small, is_object, depth as nat, self.use_decimal, self.ignore_decode_err)
                == Ok::<JsonModel, ReplicationError>(json_view(v)),
            r matches Err(e) ==> json_container(data@, is_small, is_object, depth as nat, self.use_decimal, self.ignore_decode_err)
                == Err::<JsonModel, _>(e),
        decreases depth, 1nat, 0int,
    {
        let len = data.len();
        let os = _jsonb_get_offset_size(is_small) as usize;
        if len < 2 * os {
            return Err(ReplicationError::JsonDataShort(len, (2 * os) as isize));
        }
        let count64 = fixed_le(data, 0, os);
        let size = fixed_le(data, os, os);
        proof {
            lemma_fixed_le_bound(data@, 0, os as int);
            lemma_fixed_le_bound(data@, os as int, os as int);
            reveal_with_fuel(byte_pow, 5);
        }
        if (len as u64) < size {
            if self.ignore_decode_err {
                return Ok(DecodeJson::Null);
            }
            return Err(ReplicationError::JsonDataShort(len, size as isize));
        }
        let key_entries: u64 = if is_object {
            _jsonb_get_key_entry_size(is_small) as u64 * count64
        } else {
            0
        };
        let header: u64 = 2 * os as u64 + _jsonb_get_value_entry_size(is_small) as u64 * count64 + key_entries;
        if header > size {
            return Err(ReplicationError::JsonHeaderTooLarge(header as isize, size as isize));
        }
        if depth == 0 {
            return Err(ReplicationError::JsonTooDeep);
        }
        let count = count64 as usize;
        if is_object {
            let keys = match self._decode_keys(data, is_small, header, count) {
                Ok(k) => k,
                Err(e) => {
                    return Err(e);
                },
            };
            let ghost ks = json_keys(data@, is_small, header as int, count as int)->Ok_0;
            self._decode_object_values(data, is_small, count, depth, &keys, Ghost(ks))
        } else {
            self._decode_array_values(data, is_small, count, depth)
        }
    }

    /// Decodes the value of type `tp` in `data`. Where a failure is already recorded it
    /// gives null and records nothing; a new failure is recorded in `err`, and null given.
    /// Containers are followed as deep as the data has bytes: each nested container lies
    /// past the start of its parent, so only a value that points back at its own container
    /// goes deeper, and that is refused as `JsonTooDeep`.
    pub fn decode_value(&mut self, tp: u8, data: &[u8]) -> (r: DecodeJson)
        ensures
            final(self).use_decimal == old(self).use_decimal,
            final(self).ignore_decode_err == old(self).ignore_decode_err,
            old(self).err is Err ==> final(self).err == old(self).err && r is Null,
            old(self).err is Ok ==> match json_value(
                tp,
                data@,
                data@.len(),
                old(self).use_decimal,
                old(self).ignore_decode_err,
            ) {
                Ok(m) => final(self).err is Ok && json_view(r) == m,
                Err(e) => final(self).err == Err::<(), ReplicationError>(e) && r is Null,
            },
    {
        if self.err.is_err() {
            return DecodeJson::Null;
        }
        match self.value_at(tp, data, data.len()) {
            Ok(v) => v,
            Err(e) => {
                self.err = Err(e);
                DecodeJson::Null
            },
        }
    }
}

/// A decoded value is never of the forms the binary format does not give.
pub proof fn lemma_json_value_form(tp: u8, d: Seq<u8>, depth: nat, use_decimal: bool, ignore: bool)
    ensures
        json_value(tp, d, depth, use_decimal, ignore) matches Ok(m) ==> m !is Other,
{
    reveal(json_scalar);
}

} // verus!
