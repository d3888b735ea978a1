use vstd::prelude::*;
use crate::bytes::{le_at, fixed_le};
use crate::error::ReplicationError;
use crate::event::{Event, EventHeader, FormatDescriptionEvent, RotateEvent, PreviousGTIDsEvent, XIDEvent, QueryEvent,
    GTIDEvent, BeginLoadQueryEvent, ExecuteLoadQueryEvent, MariadbAnnotateRowsEvent, MariadbBinlogCheckPointEvent,
    MariadbGTIDEvent, MariadbGTIDListEvent, IntVarEvent, RowsQueryEvent, GenericEvent, header_fields};
use crate::rows_event::RowsEvent;
use crate::table_map::TableMapEvent;

verus! {

/// The end of the fields of a transaction payload header.
pub const OTW_PAYLOAD_HEADER_END_MARK: u64 = 0;
/// The field that holds the size of the payload.
pub const OTW_PAYLOAD_SIZE_FIELD: u64 = 1;
/// The field that holds how the payload is compressed.
pub const OTW_PAYLOAD_COMPRESSION_TYPE_FIELD: u64 = 2;
/// The field that holds the size of the payload once decompressed.
pub const OTW_PAYLOAD_UNCOMPRESSED_SIZE_FIELD: u64 = 3;
/// The payload is compressed with zstd.
pub const ZSTD: u64 = 0;
/// The payload is not compressed.
pub const NONE: u64 = 255;

/// A decoded event of any kind.
#[derive(Debug)]
pub enum EventEnum {
    TableMapEvent(TableMapEvent),
    RowsEvent(RowsEvent),
    RowsQueryEvent(RowsQueryEvent),
    EventHeader(EventHeader),
    FormatDescriptionEvent(FormatDescriptionEvent),
    RotateEvent(RotateEvent),
    PreviousGTIDsEvent(PreviousGTIDsEvent),
    XIDEvent(XIDEvent),
    QueryEvent(QueryEvent),
    GTIDEvent(GTIDEvent),
    BeginLoadQueryEvent(BeginLoadQueryEvent),
    ExecuteLoadQueryEvent(ExecuteLoadQueryEvent),
    MariadbAnnotateRowsEvent(MariadbAnnotateRowsEvent),
    MariadbBinlogCheckPointEvent(MariadbBinlogCheckPointEvent),
    MariadbGTIDEvent(MariadbGTIDEvent),
    MariadbGTIDListEvent(MariadbGTIDListEvent),
    IntVarEvent(IntVarEvent),
    TransactionPayloadEvent(TransactionPayloadEvent),
    GenericEvent(GenericEvent),
}

/// A whole event: its bytes (header, body and checksum, where there is one), its header
/// and its decoded body.
#[derive(Debug)]
pub struct BinlogEvent {
    pub raw_data: Vec<u8>,
    pub header: Option<EventHeader>,
    pub event: Option<EventEnum>,
}

impl Default for BinlogEvent {
    fn default() -> (r: BinlogEvent)
        ensures
            r.raw_data@ == Seq::<u8>::empty() && r.header is None && r.event is None,
    {
        BinlogEvent { raw_data: Vec::new(), header: None, event: None }
    }
}

/// A transaction whose events come compressed in one payload (MySQL 8.0.20 and later).
#[derive(Debug)]
pub struct TransactionPayloadEvent {
    /// The format description of the binlog the payload is in.
    pub format: Option<FormatDescriptionEvent>,
    pub size: u64,
    pub uncompressed_size: u64,
    pub compression_type: u64,
    pub payload: Vec<u8>,
    /// The events of the payload, decoded.
    pub events: Vec<BinlogEvent>,
}

impl Default for TransactionPayloadEvent {
    fn default() -> (r: TransactionPayloadEvent)
        ensures
            r.format is None && r.size == 0 && r.uncompressed_size == 0 && r.compression_type == 0,
            r.payload@ == Seq::<u8>::empty() && r.events@ == Seq::<BinlogEvent>::empty(),
    {
        TransactionPayloadEvent {
            format: None,
            size: 0,
            uncompressed_size: 0,
            compression_type: 0,
            payload: Vec::new(),
            events: Vec::new(),
        }
    }
}

/// The header fields of a transaction payload.
pub struct PayloadFields {
    pub size: u64,
    pub compression_type: u64,
    pub uncompressed_size: u64,
    /// Where the payload starts.
    pub start: int,
}

/// The header fields of a transaction payload body `d` from `off` on, each field a type
/// byte, a length byte and that many bytes of little-endian value, up to the end mark;
/// the values start as given.
pub open spec fn payload_fields(d: Seq<u8>, off: int, size: u64, ct: u64, us: u64) -> Result<
    PayloadFields,
    ReplicationError,
>
    decreases d.len() - off,
{
    if off < 0 || off >= d.len() {
        Err(ReplicationError::UnexpectedEof)
    } else if d[off] as u64 == OTW_PAYLOAD_HEADER_END_MARK {
        Ok(PayloadFields { size, compression_type: ct, uncompressed_size: us, start: off + 1 })
    } else if off + 1 >= d.len() {
        Err(ReplicationError::UnexpectedEof)
    } else if d[off] as u64 > OTW_PAYLOAD_UNCOMPRESSED_SIZE_FIELD {
        Err(ReplicationError::UnknownPayloadField(d[off] as u64))
    } else if off + 2 + d[off + 1] > d.len() {
        Err(ReplicationError::UnexpectedEof)
    } else if d[off + 1] > 8 {
        Err(ReplicationError::PayloadFieldTooLong(d[off + 1] as usize))
    } else {
        let v = le_at(d, off + 2, d[off + 1] as int) as u64;
        let next = off + 2 + d[off + 1];
        if d[off] as u64 == OTW_PAYLOAD_SIZE_FIELD {
            payload_fields(d, next, v, ct, us)
        } else if d[off] as u64 == OTW_PAYLOAD_COMPRESSION_TYPE_FIELD {
            payload_fields(d, next, size, v, us)
        } else {
            payload_fields(d, next, size, ct, v)
        }
    }
}

/// What zstd gives for `data`: the decompressed bytes, or nothing where `data` is no valid
/// zstd frame sequence.
pub uninterp spec fn zstd_decoded(data: Seq<u8>) -> Option<Seq<u8>>;

/// `zstd::stream::read::Decoder::new` over `data`, read to its end with `read_to_end`:
/// the decompressed bytes, or nothing where zstd reports an error. What they are is named,
/// not stated; they depend on `data` alone.
#[verifier::external_body]
pub(crate) fn zstd_decompress(data: &[u8]) -> (r: Option<Vec<u8>>)
    ensures
        match r {
            Some(v) => zstd_decoded(data@) == Some(v@),
            None => zstd_decoded(data@) is None,
        },
{
    let mut out: Vec<u8> = Vec::new();
    match zstd::stream::read::Decoder::new(data) {
        Ok(mut dec) => match std::io::Read::read_to_end(&mut dec, &mut out) {
            Ok(_) => Some(out),
            Err(_) => None,
        },
        Err(_) => None,
    }
}

impl TransactionPayloadEvent {
    /// The name of the compression: "ZSTD", "NONE" or "Unknown".
    pub fn compression_type(&self) -> (r: String)
        ensures
            self.compression_type == ZSTD ==> r@ == "ZSTD"@,
            self.compression_type == NONE ==> r@ == "NONE"@,
            self.compression_type != ZSTD && self.compression_type != NONE ==> r@ == "Unknown"@,
    {
        if self.compression_type == ZSTD {
            String::from_str("ZSTD")
        } else if self.compression_type == NONE {
            String::from_str("NONE")
        } else {
            String::from_str("Unknown")
        }
    }

    /// Decodes the header fields of a payload body and keeps the payload that follows them.
    pub fn decode_fields(&mut self, data: &[u8]) -> (r: Result<(), ReplicationError>)
        ensures
            final(self).format == old(self).format,
            final(self).events == old(self).events,
            match payload_fields(data@, 0, old(self).size, old(self).compression_type, old(self).uncompressed_size) {
                Err(e) => r == Err::<(), _>(e),
                Ok(f) => {
                    &&& r is Ok
                    &&& final(self).size == f.size
                    &&& final(self).compression_type == f.compression_type
                    &&& final(self).uncompressed_size == f.uncompressed_size
                    &&& final(self).payload@ == data@.subrange(f.start, data@.len() as int)
                },
            },
    {
        let len = data.len();
        let mut offset: usize = 0;
        let ghost start = payload_fields(data@, 0, self.size, self.compression_type, self.uncompressed_size);
        loop
            invariant
                offset <= len,
                len == data@.len(),
                self.format == old(self).format,
                self.events == old(self).events,
                start == payload_fields(data@, offset as int, self.size, self.compression_type, self.uncompressed_size),
                start == payload_fields(data@, 0, old(self).size, old(self).compression_type, old(self).uncompressed_size),
            decreases len - offset,
        {
            if offset >= len {
                return Err(ReplicationError::UnexpectedEof);
            }
            let field_type = data[offset];
            if field_type as u64 == OTW_PAYLOAD_HEADER_END_MARK {
                self.payload = vstd::slice::slice_to_vec(&data[offset + 1..len]);
                return Ok(());
            }
            if offset + 1 >= len {
                return Err(ReplicationError::UnexpectedEof);
            }
            if field_type as u64 > OTW_PAYLOAD_UNCOMPRESSED_SIZE_FIELD {
                return Err(ReplicationError::UnknownPayloadField(field_type as u64));
            }
            let field_length = data[offset + 1] as usize;
            if field_length > len - offset - 2 {
                return Err(ReplicationError::UnexpectedEof);
            }
            if field_length > 8 {
                return Err(ReplicationError::PayloadFieldTooLong(field_length));
            }
            let v = fixed_le(data, offset + 2, field_length);
            if field_type as u64 == OTW_PAYLOAD_SIZE_FIELD {
                self.size = v;
            } else if field_type as u64 == OTW_PAYLOAD_COMPRESSION_TYPE_FIELD {
                self.compression_type = v;
            } else {
                self.uncompressed_size = v;
            }
            offset = offset + 2 + field_length;
        }
    }
}

} // verus!
