use vstd::prelude::*;
use crate::event::EventHeader;

verus! {

/// Why decoding failed.
#[derive(Debug)]
pub enum ReplicationError {
    /// The data ended before a value that was being read.
    UnexpectedEof,
    /// An event header was given fewer than 19 bytes.
    HeaderTooShort(usize),
    /// An event header names an event size below 19.
    InvalidEventSize(u32),
    /// A format description names an event header length other than 19.
    InvalidEventHeaderLength(u8),
    /// A BIT or SET column value has a byte length the decoder does not know.
    InvalidBitLength(isize),
    /// A BLOB column names a length prefix other than 1 to 4 bytes.
    InvalidBlobPackLen(u16),
    /// A table map names a column type that cannot stand in a binlog.
    UnsupportedColumnType(u8),
    /// A row holds a value of a column type the decoder does not know.
    UnsupportedValueType(u8),
    /// An ENUM column names a value size other than 1 or 2 bytes.
    UnknownEnumPackLen(u16),
    /// A table id is said to take a number of bytes outside 0 to 8.
    InvalidTableIdSize(isize),
    /// A default charset list holds an even number of items.
    InvalidDefaultCharset(usize),
    /// A table map names a number of columns other than its column count.
    InvalidColumnNameCount(u64, usize),
    /// A rows event holds a value of a column that its table map does not describe.
    ColumnCountMismatch(u64, usize),
    /// A rows event holds a row image that takes no bytes, so its rows never end.
    EmptyRowImage,
    /// An event is too large for the positions within it to be counted.
    DataTooLarge(usize),
    /// A rows event names a table that the table maps seen so far do not hold.
    InvalidTableId(u64),
    /// A rows event came before any table map.
    MissingTableMapEvent(u64),
    /// A date or time value names a day or time the calendar does not have.
    InvalidDate,
    /// A JSON value names a type byte the decoder does not know.
    InvalidJsonType(u8),
    /// A JSON object or array header is larger than the value.
    JsonHeaderTooLarge(isize, isize),
    /// A JSON object key starts inside the header.
    InvalidJsonKeyOffset(isize, isize),
    /// A JSON value needs more bytes than it has.
    JsonDataShort(usize, isize),
    /// A JSON literal byte is not null, true or false.
    InvalidJsonLiteral(u8),
    /// A JSON variable-length number is larger than `u32::MAX`.
    JsonVariableLengthTooLarge(u64),
    /// A JSON variable-length number does not end within five bytes.
    JsonVariableLengthUnterminated,
    /// A JSON value nests containers deeper than the decoder follows.
    JsonTooDeep,
    /// A partial JSON update names an operation the decoder does not know.
    CorruptedJsonDiff,
    /// An event's CRC32 checksum does not match its bytes.
    ChecksumMismatch,
    /// A transaction payload header names a field the decoder does not know.
    UnknownPayloadField(u64),
    /// A transaction payload uses a compression other than ZSTD.
    UnsupportedPayloadCompression(u64),
    /// A transaction payload could not be decompressed.
    PayloadDecompress,
    /// An event inside a transaction payload is longer than the payload.
    PayloadEventTooLong(usize, usize, usize),
    /// The data given for an event does not match the size its header names.
    InvalidDataSize(usize, isize),
    /// A DECIMAL value holds a nine-digit group above 999999999.
    InvalidDecimal,
    /// A date or time column names more than six fraction digits.
    InvalidFractionDigits(u16),
    /// A DECIMAL column names more fraction digits than digits.
    InvalidDecimalScale(isize, isize),
    /// A decimal text could not be turned into a decimal number.
    DecimalParse,
    /// A MariaDB compressed query or rows event: its compressed form is not decoded here.
    CompressedEventUnsupported,
    /// A field of a transaction payload header holds more than eight bytes.
    PayloadFieldTooLong(usize),
    /// Transaction payloads are nested deeper than this library follows.
    PayloadNestingTooDeep,
    /// An event needs the format description, and none came before it.
    MissingFormatDescription,
    /// The format description gives no post-header length for this event type.
    MissingPostHeaderLength(u8),
    /// A GTID interval whose bounds overflow when it is written as text.
    GtidIntervalOverflow,
    /// 0 is no server id a replica may use.
    InvalidServerId,
    /// An event body failed to decode.
    EventError(EventError),
}

/// The header and body of an event that failed to decode, and why.
#[derive(Debug)]
pub struct EventError {
    pub header: EventHeader,
    pub err: Box<ReplicationError>,
    pub data: Vec<u8>,
}

} // verus!
