use vstd::prelude::*;
use crate::time::FracTime;

verus! {

broadcast use vstd::std_specs::vec::axiom_vec_index_decreases;

#[verifier::external_type_specification]
#[verifier::external_body]
pub struct ExBigDecimal(bigdecimal::BigDecimal);

/// `BigDecimal::clone`, which `derive` writes: it copies the digits and the scale.
pub assume_specification[ <bigdecimal::BigDecimal as Clone>::clone ](
    b: &bigdecimal::BigDecimal,
) -> (r: bigdecimal::BigDecimal)
    ensures
        r == *b,
;

/// The decimal number that `bigdecimal` parses from the text `s`.
pub uninterp spec fn big_decimal_of(s: Seq<char>) -> bigdecimal::BigDecimal;

/// Whether `s[a..b]` is all ASCII digits.
pub open spec fn digits_between(s: Seq<char>, a: int, b: int) -> bool {
    forall|i: int| a <= i < b ==> '0' <= #[trigger] s[i] <= '9'
}

/// Whether `body` is one or more ASCII digits ending at `k`, then either nothing or a `.`
/// with one or more ASCII digits after it.
pub open spec fn decimal_split_at(body: Seq<char>, k: int) -> bool {
    &&& 1 <= k <= body.len()
    &&& digits_between(body, 0, k)
    &&& (k == body.len() || (body[k] == '.' && k + 1 < body.len() && digits_between(
        body,
        k + 1,
        body.len() as int,
    )))
}

/// The text after an optional leading `-`.
pub open spec fn unsigned_part(s: Seq<char>) -> Seq<char> {
    if s.len() > 0 && s[0] == '-' {
        s.drop_first()
    } else {
        s
    }
}

/// Whether `s` is an optional `-`, one or more ASCII digits, and optionally a `.` with one
/// or more ASCII digits after it.
#[verifier::opaque]
pub open spec fn plain_decimal_text(s: Seq<char>) -> bool {
    exists|k: int| #[trigger] decimal_split_at(unsigned_part(s), k)
}

/// `BigDecimal::from_str`. Its source splits an optional exponent, a `.` and a signed digit
/// string; a plain decimal text, with no exponent, always parses. The number it gives is
/// named, not stated.
#[verifier::external_body]
pub(crate) fn parse_big_decimal(s: &String) -> (r: Option<bigdecimal::BigDecimal>)
    ensures
        r matches Some(d) ==> d == big_decimal_of(s@),
        plain_decimal_text(s@) ==> r is Some,
{
    <bigdecimal::BigDecimal as std::str::FromStr>::from_str(s).ok()
}

/// A decoded DECIMAL value: as a number when asked for, else as its text.
#[derive(Debug, Clone, PartialEq)]
pub enum DecodeDecimal {
    Decimal(bigdecimal::BigDecimal),
    String(String),
    Unknown,
}

/// A decoded date and time: a time the calendar has, or the text MySQL shows for one it
/// does not (such as the zero date).
#[derive(Debug, Clone, PartialEq)]
pub enum DecodeDatetime {
    FracTime(FracTime),
    String(String),
}

/// The kind of change a partial JSON update makes at its path.
#[derive(Debug, Clone, Copy, PartialEq, Eq, Structural)]
pub enum JsonDiffOperation {
    Replace,
    Insert,
    Remove,
    Unknown,
}

/// The operation that the byte `b` of a partial JSON update names.
pub open spec fn json_diff_operation_of(b: u8) -> JsonDiffOperation {
    if b == 0 {
        JsonDiffOperation::Replace
    } else if b == 1 {
        JsonDiffOperation::Insert
    } else if b == 2 {
        JsonDiffOperation::Remove
    } else {
        JsonDiffOperation::Unknown
    }
}

impl JsonDiffOperation {
    /// The operation that the byte `b` names.
    pub fn from_byte(b: u8) -> (r: Self)
        ensures
            r == json_diff_operation_of(b),
    {
        if b == 0 {
            JsonDiffOperation::Replace
        } else if b == 1 {
            JsonDiffOperation::Insert
        } else if b == 2 {
            JsonDiffOperation::Remove
        } else {
            JsonDiffOperation::Unknown
        }
    }
}

/// One change of a partial JSON update: what it does, at which path, and the new value
/// (`None` for a removal, or where the value is an empty document).
#[derive(Debug, PartialEq)]
pub struct JsonDiff {
    pub op: JsonDiffOperation,
    pub path: String,
    pub value: Option<Box<DecodeJson>>,
}

/// A decoded JSON value. An object keeps its members in the order they are stored; where
/// a key occurs twice, the later member is the one that counts.
#[derive(Debug, PartialEq)]
pub enum DecodeJson {
    Null,
    Bool(bool),
    Isize(i64),
    Usize(u64),
    /// A double, by the bits of its IEEE 754 encoding.
    F64(u64),
    String(String),
    Decimal(DecodeDecimal),
    Datetime(DecodeDatetime),
    Vec(Vec<DecodeJson>),
    Object(Vec<(String, DecodeJson)>),
    Bytes(Vec<u8>),
    JsonDiff(JsonDiff),
}

/// A DECIMAL inside a JSON document, as a number or as its text.
pub enum DecimalModel {
    Number(bigdecimal::BigDecimal),
    Text(Seq<char>),
    Unknown,
}

/// The mathematical form of a JSON value that the binary decoder gives.
pub enum JsonModel {
    Null,
    Bool(bool),
    Int(int),
    UInt(int),
    Double(u64),
    Text(Seq<char>),
    Decimal(DecimalModel),
    TimeText(Seq<char>),
    Array(Seq<JsonModel>),
    Object(Seq<(Seq<char>, JsonModel)>),
    /// A value the binary decoder does not give: bytes, a partial update, or a time kept as
    /// a date and time rather than as text.
    Other,
}

/// The form of a decimal value.
pub open spec fn decimal_view(d: DecodeDecimal) -> DecimalModel {
    match d {
        DecodeDecimal::Decimal(b) => DecimalModel::Number(b),
        DecodeDecimal::String(s) => DecimalModel::Text(s@),
        DecodeDecimal::Unknown => DecimalModel::Unknown,
    }
}

/// The form of a JSON value.
pub open spec fn json_view(j: DecodeJson) -> JsonModel
    decreases j, 0nat,
{
    match j {
        DecodeJson::Null => JsonModel::Null,
        DecodeJson::Bool(b) => JsonModel::Bool(b),
        DecodeJson::Isize(i) => JsonModel::Int(i as int),
        DecodeJson::Usize(u) => JsonModel::UInt(u as int),
        DecodeJson::F64(bits) => JsonModel::Double(bits),
        DecodeJson::String(s) => JsonModel::Text(s@),
        DecodeJson::Decimal(d) => JsonModel::Decimal(decimal_view(d)),
        DecodeJson::Datetime(DecodeDatetime::String(s)) => JsonModel::TimeText(s@),
        DecodeJson::Vec(v) => JsonModel::Array(json_view_list(v, v.len() as int)),
        DecodeJson::Object(v) => JsonModel::Object(json_view_members(v, v.len() as int)),
        _ => JsonModel::Other,
    }
}

/// The forms of the first `k` values of `v`.
pub open spec fn json_view_list(v: Vec<DecodeJson>, k: int) -> Seq<JsonModel>
    decreases v, k,
{
    if k <= 0 || k > v.len() {
        Seq::empty()
    } else {
        json_view_list(v, k - 1).push(json_view(v[k - 1]))
    }
}

/// The keys and value forms of the first `k` members of `v`.
pub open spec fn json_view_members(v: Vec<(String, DecodeJson)>, k: int) -> Seq<(Seq<char>, JsonModel)>
    decreases v, k,
{
    if k <= 0 || k > v.len() {
        Seq::empty()
    } else {
        json_view_members(v, k - 1).push((v[k - 1].0@, json_view(v[k - 1].1)))
    }
}

/// A decoded column value of a row.
#[derive(Debug, PartialEq)]
pub enum DecodeFieldData {
    Null,
    Isize(i64),
    /// A FLOAT, by the bits of its IEEE 754 encoding.
    F32(u32),
    /// A DOUBLE, by the bits of its IEEE 754 encoding.
    F64(u64),
    Decimal(DecodeDecimal),
    Datetime(DecodeDatetime),
    String(String),
    Bytes(Vec<u8>),
    Json(DecodeJson),
}

} // verus!
