use vstd::prelude::*;
use std::collections::HashMap;
use crate::bytes::{le_at, le_u32};
use crate::consts::{EventType, BINLOG_CHECKSUM_ALG_CRC32, BINLOG_CHECKSUM_ALG_OFF, event_type_code};
use crate::error::{ReplicationError, EventError};
use crate::event::{Event, EventHeader, FormatDescriptionEvent, RotateEvent, PreviousGTIDsEvent, XIDEvent, QueryEvent,
    GTIDEvent, BeginLoadQueryEvent, ExecuteLoadQueryEvent, MariadbAnnotateRowsEvent, MariadbBinlogCheckPointEvent,
    MariadbGTIDEvent, MariadbGTIDListEvent, IntVarEvent, RowsQueryEvent, GenericEvent, header_fields,
    EVENT_HEADER_SIZE, BINLOG_CHECKSUM_LENGTH};
use crate::event_enum::{EventEnum, BinlogEvent, TransactionPayloadEvent, payload_fields, zstd_decoded,
    zstd_decompress, ZSTD};
use crate::gtid::MariadbGTID;
use crate::rows_event::{RowsEvent, ROWS_EVENT_STMT_END_FLAG};
use crate::table_map::{TableMapEvent, blank_table};

verus! {

/// How many transaction payloads deep the events of a payload are decoded.
pub const MAX_PAYLOAD_DEPTH: u64 = 8;

/// One step of the reflected CRC-32 register: shift right, and fold in the polynomial
/// 0xedb88320 where a set bit falls out.
pub open spec fn crc32_shift(c: u32) -> u32 {
    if c & 1u32 == 1u32 {
        (c >> 1u32) ^ 0xedb8_8320u32
    } else {
        c >> 1u32
    }
}

/// The register after `k` shifts.
pub open spec fn crc32_shifts(c: u32, k: nat) -> u32
    decreases k,
{
    if k == 0 {
        c
    } else {
        crc32_shifts(crc32_shift(c), (k - 1) as nat)
    }
}

/// The register after the bytes of `data`, each xored into its low byte and shifted eight
/// times.
pub open spec fn crc32_update(c: u32, data: Seq<u8>) -> u32
    decreases data.len(),
{
    if data.len() == 0 {
        c
    } else {
        crc32_update(crc32_shifts(c ^ (data[0] as u32), 8), data.drop_first())
    }
}

/// The CRC-32 (IEEE, as zlib computes it) of `data`: the register starts with all bits
/// set, and its bits are inverted at the end.
pub open spec fn crc32_of(data: Seq<u8>) -> u32 {
    !crc32_update(0xffff_ffffu32, data)
}

/// `crc32fast::hash`: the CRC-32 (IEEE) checksum of `data`, which the crate computes by
/// tables and, where the CPU has them, by carry-less multiplication, to the same value.
#[verifier::external_body]
fn crc32_hash(data: &[u8]) -> (r: u32)
    ensures
        r == crc32_of(data@),
{
    crc32fast::hash(data)
}

/// Decodes a stream of binlog events: it keeps the format description and the table
/// maps that later events need.
pub struct BinlogParse {
    /// "mysql" or "mariadb"; "mysql" where empty.
    pub flavor: String,
    pub format: Option<FormatDescriptionEvent>,
    /// The table maps seen since the last statement end, by table id.
    pub tables: HashMap<u64, TableMapEvent>,
    /// Decodes only format descriptions and rotations; other bodies are kept as bytes.
    pub raw_mode: bool,
    pub parse_time: bool,
    pub timestamp_string_location: Option<chrono_tz::Tz>,
    /// 1 while the reading of a stream is to stop.
    pub stop_processing: u32,
    pub use_decimal: bool,
    pub ignore_json_decode_err: bool,
    pub verify_checksum: bool,
}

/// The header at the start of `d`, or why it cannot be read.
pub open spec fn header_result(d: Seq<u8>) -> Result<EventHeader, ReplicationError> {
    if d.len() < 19 {
        Err(ReplicationError::HeaderTooShort(d.len() as usize))
    } else if header_fields(d).event_size < 19 {
        Err(ReplicationError::InvalidEventSize(header_fields(d).event_size))
    } else {
        Ok(header_fields(d))
    }
}

/// Whether events of type `t` hold rows.
pub open spec fn is_rows_type(t: EventType) -> bool {
    ||| t == EventType::WriteRowsEventv0
    ||| t == EventType::UpdateRowsEventv0
    ||| t == EventType::DeleteRowsEventv0
    ||| t == EventType::WriteRowsEventv1
    ||| t == EventType::UpdateRowsEventv1
    ||| t == EventType::DeleteRowsEventv1
    ||| t == EventType::WriteRowsEventv2
    ||| t == EventType::UpdateRowsEventv2
    ||| t == EventType::DeleteRowsEventv2
    ||| t == EventType::MariadbWriteRowsCompressedEventV1
    ||| t == EventType::MariadbUpdateRowsCompressedEventV1
    ||| t == EventType::MariadbDeleteRowsCompressedEventV1
    ||| t == EventType::PartialUpdateRowsEvent
}

/// The version of the rows event format of type `t`.
pub open spec fn rows_version(t: EventType) -> isize {
    if t == EventType::WriteRowsEventv0 || t == EventType::UpdateRowsEventv0 || t == EventType::DeleteRowsEventv0 {
        0
    } else if t == EventType::WriteRowsEventv2 || t == EventType::UpdateRowsEventv2 || t
        == EventType::DeleteRowsEventv2 || t == EventType::PartialUpdateRowsEvent {
        2
    } else {
        1
    }
}

/// Whether the rows of an event of type `t` have a second image.
pub open spec fn rows_need_bitmap2(t: EventType) -> bool {
    t == EventType::UpdateRowsEventv1 || t == EventType::UpdateRowsEventv2 || t
        == EventType::MariadbUpdateRowsCompressedEventV1 || t == EventType::PartialUpdateRowsEvent
}

/// Whether the rows of an event of type `t` are compressed.
pub open spec fn rows_compressed(t: EventType) -> bool {
    t == EventType::MariadbWriteRowsCompressedEventV1 || t == EventType::MariadbUpdateRowsCompressedEventV1 || t
        == EventType::MariadbDeleteRowsCompressedEventV1
}

/// The size of the table id in events of type `t`: 4 bytes where the format gives their
/// post-header 6 bytes, else 6.
pub open spec fn table_id_size_for(f: FormatDescriptionEvent, t: EventType) -> Result<isize, ReplicationError> {
    let code = event_type_code(t);
    if code == 0 || code - 1 >= f.event_type_header_lengths@.len() {
        Err(ReplicationError::MissingPostHeaderLength(code))
    } else if f.event_type_header_lengths@[code - 1] == 6 {
        Ok(4)
    } else {
        Ok(6)
    }
}

impl BinlogParse {
    /// The error, if any, that choosing the event for header `h` meets: table maps and rows
    /// need the format description and its post-header length for their type.
    pub open spec fn new_event_error(&self, h: EventHeader) -> Option<ReplicationError> {
        let t = h.event_type;
        if t == EventType::FormatDescriptionEvent || t == EventType::RotateEvent || self.raw_mode {
            None
        } else if t == EventType::TableMapEvent || is_rows_type(t) {
            match self.format {
                None => Some(ReplicationError::MissingFormatDescription),
                Some(f) => match table_id_size_for(f, t) {
                    Err(e) => Some(e),
                    Ok(_) => None,
                },
            }
        } else {
            None
        }
    }

    /// Whether `e` is the empty event that a body with header `h` is decoded into.
    pub open spec fn fresh_event(&self, h: EventHeader, e: EventEnum) -> bool {
        let t = h.event_type;
        if t == EventType::FormatDescriptionEvent {
            e matches EventEnum::FormatDescriptionEvent(f) && f.version == 0 && f.server_version@.len() == 0
                && f.create_timestamp == 0 && f.event_header_length == 0 && f.event_type_header_lengths@.len() == 0
                && f.check_sum_algorithm == 0
        } else if t == EventType::RotateEvent {
            e matches EventEnum::RotateEvent(x) && x.position == 0 && x.next_log_name@.len() == 0
        } else if self.raw_mode {
            e matches EventEnum::GenericEvent(g) && g.data@.len() == 0
        } else if t == EventType::QueryEvent || t == EventType::MariadbQueryCompressedEvent {
            e matches EventEnum::QueryEvent(q) && q.slave_proxy_id == 0 && q.execution_time == 0 && q.error_code == 0
                && q.status_vars@.len() == 0 && q.schema@.len() == 0 && q.query@.len() == 0 && q.gset is None
                && q.compressed == (t == EventType::MariadbQueryCompressedEvent)
        } else if t == EventType::XidEvent {
            e matches EventEnum::XIDEvent(x) && x.xid == 0 && x.gset is None
        } else if t == EventType::TableMapEvent {
            e matches EventEnum::TableMapEvent(tm) && tm.flavor@ == self.flavor@ && blank_table(tm) && (self.format
                matches Some(f) && table_id_size_for(f, t) == Ok::<isize, ReplicationError>(tm.table_id_size))
        } else if is_rows_type(t) {
            e matches EventEnum::RowsEvent(re) && (self.format matches Some(f) && table_id_size_for(f, t) == Ok::<
                isize,
                ReplicationError,
            >(re.table_id_size)) && re.version == rows_version(t) && re.need_bitmap2 == rows_need_bitmap2(t)
                && re.compressed == rows_compressed(t) && re.tables@ == self.tables@ && re.event_type == t
                && re.parse_time == self.parse_time && re.timestamp_string_location == self.timestamp_string_location
                && re.use_decimal == self.use_decimal && re.ignore_json_decode_err == self.ignore_json_decode_err
                && re.table_id == 0 && re.flags == 0 && re.column_count == 0 && re.extra_data@.len() == 0
                && re.column_bitmap1@.len() == 0 && re.column_bitmap2@.len() == 0 && re.rows@.len() == 0
                && re.skipped_columns@.len() == 0 && blank_table(re.table) && re.table.flavor@.len() == 0
                && re.table.table_id_size == 0
        } else if t == EventType::RowsQueryEvent {
            e matches EventEnum::RowsQueryEvent(x) && x.query@.len() == 0
        } else if t == EventType::GtidEvent || t == EventType::AnonymousGtidEvent {
            e matches EventEnum::GTIDEvent(g) && g.commit_flag == 0 && g.sid@.len() == 0 && g.gno == 0
                && g.last_committed == 0 && g.sequence_number == 0 && g.immediate_commit_timestamp == 0
                && g.original_commit_timestamp == 0 && g.transaction_length == 0 && g.immediate_server_version == 0
                && g.original_server_version == 0
        } else if t == EventType::BeginLoadQueryEvent {
            e matches EventEnum::BeginLoadQueryEvent(x) && x.filed_id == 0 && x.block_data@.len() == 0
        } else if t == EventType::ExecuteLoadQueryEvent {
            e == EventEnum::ExecuteLoadQueryEvent(
                ExecuteLoadQueryEvent {
                    slave_proxy_id: 0,
                    execution_time: 0,
                    schema_length: 0,
                    error_code: 0,
                    status_vars: 0,
                    file_id: 0,
                    start_pos: 0,
                    end_pos: 0,
                    dup_handling_flags: 0,
                },
            )
        } else if t == EventType::MariadbAnnotateRowsEvent {
            e matches EventEnum::MariadbAnnotateRowsEvent(x) && x.query@.len() == 0
        } else if t == EventType::MariadbBinlogCheckpointEvent {
            e matches EventEnum::MariadbBinlogCheckPointEvent(x) && x.info@.len() == 0
        } else if t == EventType::MariadbGtidListEvent {
            e matches EventEnum::MariadbGTIDListEvent(x) && x.gtids@.len() == 0
        } else if t == EventType::MariadbGtidEvent {
            e == EventEnum::MariadbGTIDEvent(
                MariadbGTIDEvent {
                    gtid: MariadbGTID { domain_id: 0, server_id: h.server_id, sequence_number: 0 },
                    flags: 0,
                    commit_id: 0,
                },
            )
        } else if t == EventType::PreviousGtidsEvent {
            e matches EventEnum::PreviousGTIDsEvent(x) && x.gtid_sets@.len() == 0
        } else if t == EventType::IntvarEvent {
            e == EventEnum::IntVarEvent(IntVarEvent { type_i: crate::consts::IntVarEventType::Invalid, value: 0 })
        } else if t == EventType::TransactionPayloadEvent {
            e matches EventEnum::TransactionPayloadEvent(p) && p.size == 0 && p.uncompressed_size == 0
                && p.compression_type == 0 && p.payload@.len() == 0 && p.events@.len() == 0 && (match self.format {
                None => p.format is None,
                Some(f) => (p.format matches Some(g) && g.same_view(&f)),
            })
        } else {
            e matches EventEnum::GenericEvent(g) && g.data@.len() == 0
        }
    }
}

impl BinlogParse {
    /// The body that is decoded: without its checksum, once a format description says
    /// that events carry one; or why it cannot be had.
    pub open spec fn body_for(&self, h: EventHeader, d: Seq<u8>, raw: Seq<u8>) -> Result<Seq<u8>, ReplicationError> {
        if h.event_type == EventType::FormatDescriptionEvent {
            Ok(d)
        } else if self.format matches Some(f) && f.check_sum_algorithm == BINLOG_CHECKSUM_ALG_CRC32 {
            if self.verify_checksum && crc32_of(raw.subrange(0, raw.len() - 4)) != le_at(raw, raw.len() - 4, 4) {
                Err(ReplicationError::ChecksumMismatch)
            } else if d.len() < 4 {
                Err(ReplicationError::UnexpectedEof)
            } else {
                Ok(d.subrange(0, d.len() - 4))
            }
        } else {
            Ok(d)
        }
    }

    /// The body that is decoded for header `h`, or why decoding does not start.
    pub open spec fn prepare(&self, h: EventHeader, d: Seq<u8>, raw: Seq<u8>) -> Result<Seq<u8>, ReplicationError> {
        match self.body_for(h, d, raw) {
            Err(e) => Err(e),
            Ok(b) => match self.new_event_error(h) {
                Some(e) => Err(e),
                None => Ok(b),
            },
        }
    }

    /// The parser `after` and the result `r` once the body `b` of an event with header `h`
    /// has been decoded into `e` with result `rr`: a format description is kept, even one
    /// that failed; a failure is wrapped with the header and body; a table map is kept by
    /// its id; the end of a statement forgets the table maps.
    pub open spec fn settled(
        &self,
        after: BinlogParse,
        h: EventHeader,
        b: Seq<u8>,
        e: EventEnum,
        rr: Result<(), ReplicationError>,
        r: Result<EventEnum, ReplicationError>,
    ) -> bool {
        &&& after == (BinlogParse { format: after.format, tables: after.tables, ..*self })
        &&& match e {
            EventEnum::FormatDescriptionEvent(f) => (after.format matches Some(g) && g.same_view(&f)),
            _ => after.format == self.format,
        }
        &&& match rr {
            Err(err) => {
                &&& r matches Err(ReplicationError::EventError(ee)) && ee.header == h && *ee.err == err && ee.data@ == b
                &&& after.tables == self.tables
            },
            Ok(_) => {
                &&& r == Ok::<EventEnum, ReplicationError>(e)
                &&& match e {
                    EventEnum::TableMapEvent(t) => after.tables@ == self.tables@.insert(
                        t.table_id,
                        after.tables@[t.table_id],
                    ) && after.tables@[t.table_id].same_view(&t),
                    EventEnum::RowsEvent(re) => if re.flags & 1u16 != 0 {
                        after.tables@ == Map::<u64, TableMapEvent>::empty()
                    } else {
                        after.tables == self.tables
                    },
                    _ => after.tables == self.tables,
                }
            },
        }
    }

    /// What decoding the body `d` of the event `raw` with header `h` gives: the parser
    /// `after` and the result `r`, with nested payloads followed `MAX_PAYLOAD_DEPTH` deep.
    pub open spec fn parsed(
        &self,
        after: BinlogParse,
        h: EventHeader,
        d: Seq<u8>,
        raw: Seq<u8>,
        r: Result<EventEnum, ReplicationError>,
    ) -> bool {
        self.parsed_at(after, h, d, raw, r, MAX_PAYLOAD_DEPTH as nat)
    }

    /// What decoding the body `d` of the event `raw` with header `h` gives, with nested
    /// payloads followed `depth` levels deep: the parser `after` and the result `r`.
    pub open spec fn parsed_at(
        &self,
        after: BinlogParse,
        h: EventHeader,
        d: Seq<u8>,
        raw: Seq<u8>,
        r: Result<EventEnum, ReplicationError>,
        depth: nat,
    ) -> bool
        decreases depth, 4nat, 0int,
    {
        match self.prepare(h, d, raw) {
            Err(e) => r == Err::<EventEnum, _>(e) && after == *self,
            Ok(b) => exists|e0: EventEnum, e1: EventEnum, rr: Result<(), ReplicationError>|
                #![trigger self.fresh_event(h, e0), self.settled(after, h, b, e1, rr, r)]
                self.fresh_event(h, e0) && event_decoded_at(e0, b, e1, rr, depth) && self.settled(after, h, b, e1, rr, r),
        }
    }

    /// What decoding the whole event `data` gives, with nested payloads followed `depth`
    /// levels deep: the parser `after` and the result `r`.
    pub open spec fn parse_post_at(
        &self,
        after: BinlogParse,
        data: Seq<u8>,
        r: Result<BinlogEvent, ReplicationError>,
        depth: nat,
    ) -> bool
        decreases depth, 5nat, 0int,
    {
        &&& match header_result(data) {
            Err(e) => r == Err::<BinlogEvent, _>(e) && after == *self,
            Ok(h) => if data.len() != h.event_size as int {
                r == Err::<BinlogEvent, _>(
                    ReplicationError::InvalidDataSize((data.len() - 19) as usize, (h.event_size - 19) as isize),
                ) && after == *self
            } else {
                self.parsed_at(after, h, data.subrange(19, data.len() as int), data, event_of(r), depth)
            },
        }
        &&& r matches Ok(be) ==> data.len() >= 19 && be.raw_data@ == data && be.header == Some(header_fields(data))
            && be.event is Some
    }

    /// What `parse` promises of the parser `after` and the result `r` for the event `data`.
    pub open spec fn parse_post(&self, after: BinlogParse, data: Seq<u8>, r: Result<BinlogEvent, ReplicationError>) -> bool {
        self.parse_post_at(after, data, r, MAX_PAYLOAD_DEPTH as nat)
    }
}

/// What decoding `data` into the event `e0` gives, with nested payloads followed `depth`
/// levels deep: the event `e1`, of the same kind, and the result `r`, as the event's own
/// kind decodes.
pub open spec fn event_decoded_at(
    e0: EventEnum,
    data: Seq<u8>,
    e1: EventEnum,
    r: Result<(), ReplicationError>,
    depth: nat,
) -> bool
    decreases depth, 3nat, 0int,
{
    match (e0, e1) {
        (EventEnum::TableMapEvent(a), EventEnum::TableMapEvent(b)) => a.decode_spec(data, b, r),
        (EventEnum::RowsEvent(a), EventEnum::RowsEvent(b)) => crate::rows_event::rows_decoded(a, data, b, r),
        (EventEnum::RowsQueryEvent(a), EventEnum::RowsQueryEvent(b)) => a.decode_spec(data, b, r),
        (EventEnum::EventHeader(a), EventEnum::EventHeader(b)) => a.decode_spec(data, b, r),
        (EventEnum::FormatDescriptionEvent(a), EventEnum::FormatDescriptionEvent(b)) => a.decode_spec(data, b, r),
        (EventEnum::RotateEvent(a), EventEnum::RotateEvent(b)) => a.decode_spec(data, b, r),
        (EventEnum::PreviousGTIDsEvent(a), EventEnum::PreviousGTIDsEvent(b)) => a.decode_spec(data, b, r),
        (EventEnum::XIDEvent(a), EventEnum::XIDEvent(b)) => a.decode_spec(data, b, r),
        (EventEnum::QueryEvent(a), EventEnum::QueryEvent(b)) => a.decode_spec(data, b, r),
        (EventEnum::GTIDEvent(a), EventEnum::GTIDEvent(b)) => a.decode_spec(data, b, r),
        (EventEnum::BeginLoadQueryEvent(a), EventEnum::BeginLoadQueryEvent(b)) => a.decode_spec(data, b, r),
        (EventEnum::ExecuteLoadQueryEvent(a), EventEnum::ExecuteLoadQueryEvent(b)) => a.decode_spec(data, b, r),
        (EventEnum::MariadbAnnotateRowsEvent(a), EventEnum::MariadbAnnotateRowsEvent(b)) => a.decode_spec(data, b, r),
        (EventEnum::MariadbBinlogCheckPointEvent(a), EventEnum::MariadbBinlogCheckPointEvent(b)) => a.decode_spec(
            data,
            b,
            r,
        ),
        (EventEnum::MariadbGTIDEvent(a), EventEnum::MariadbGTIDEvent(b)) => a.decode_spec(data, b, r),
        (EventEnum::MariadbGTIDListEvent(a), EventEnum::MariadbGTIDListEvent(b)) => a.decode_spec(data, b, r),
        (EventEnum::IntVarEvent(a), EventEnum::IntVarEvent(b)) => a.decode_spec(data, b, r),
        (EventEnum::TransactionPayloadEvent(a), EventEnum::TransactionPayloadEvent(b)) => payload_event_decoded_at(
            a,
            data,
            b,
            r,
            depth,
        ),
        (EventEnum::GenericEvent(a), EventEnum::GenericEvent(b)) => a.decode_spec(data, b, r),
        _ => false,
    }
}

/// What decoding the body `data` of a payload event `a` gives, with nested payloads followed
/// `depth` levels deep: the event `b` and the result `r`. The header fields come first;
/// then the payload's events.
pub open spec fn payload_event_decoded_at(
    a: TransactionPayloadEvent,
    data: Seq<u8>,
    b: TransactionPayloadEvent,
    r: Result<(), ReplicationError>,
    depth: nat,
) -> bool
    decreases depth, 2nat, 0int,
{
    &&& b.format == a.format
    &&& match payload_fields(data, 0, a.size, a.compression_type, a.uncompressed_size) {
        Err(e) => r == Err::<(), _>(e) && b.events == a.events,
        Ok(f) => {
            &&& b.size == f.size
            &&& b.compression_type == f.compression_type
            &&& b.uncompressed_size == f.uncompressed_size
            &&& b.payload@ == data.subrange(f.start, data.len() as int)
            &&& payload_outcome(b.payload@, f.compression_type, a.format, a.events@, b.events@, r, depth)
        },
    }
}

/// Whether `p` is the parser that the events of a payload are decoded with: a new parser
/// holding the payload event's format description `f` with checksums off.
pub open spec fn payload_parser(p: BinlogParse, f: FormatDescriptionEvent) -> bool {
    &&& p.flavor@ == Seq::<char>::empty()
    &&& (p.format matches Some(g) && g.same_view(&FormatDescriptionEvent { check_sum_algorithm: BINLOG_CHECKSUM_ALG_OFF, ..f }))
    &&& p.tables@ == Map::<u64, TableMapEvent>::empty()
    &&& !p.raw_mode && !p.parse_time && p.timestamp_string_location is None
    &&& p.stop_processing == 0
    &&& !p.use_decimal && !p.ignore_json_decode_err && !p.verify_checksum
}

/// What decoding the payload `payload`, compressed as `ct`, gives for a payload event that
/// holds `format` and the events `before`, with nested payloads followed `depth` levels
/// deep: the events `after` and the result `r`. The events of the decompressed payload are
/// parsed one after the other by one parser, and each is appended; the first that fails
/// ends the decoding with its error.
pub open spec fn payload_outcome(
    payload: Seq<u8>,
    ct: u64,
    format: Option<FormatDescriptionEvent>,
    before: Seq<BinlogEvent>,
    after: Seq<BinlogEvent>,
    r: Result<(), ReplicationError>,
    depth: nat,
) -> bool
    decreases depth, 1nat, 0int,
{
    if ct != ZSTD {
        r == Err::<(), _>(ReplicationError::UnsupportedPayloadCompression(ct)) && after == before
    } else {
        match zstd_decoded(payload) {
            None => r == Err::<(), _>(ReplicationError::PayloadDecompress) && after == before,
            Some(u) => match format {
                None => r == Err::<(), _>(ReplicationError::MissingFormatDescription) && after == before,
                Some(f) => {
                    &&& before.len() <= after.len()
                    &&& after.subrange(0, before.len() as int) == before
                    &&& exists|p0: BinlogParse|
                        #![trigger p0.format]
                        payload_parser(p0, f) && payload_run(
                            p0,
                            u,
                            0,
                            depth,
                            after.subrange(before.len() as int, after.len() as int),
                            r,
                        )
                },
            },
        }
    }
}

/// What parsing the events of the decompressed payload `u` from `off` on with the parser
/// `p` gives, with nested payloads followed `depth` levels deep: the events `evs` and the
/// result `r`. An event starts with a header whose bytes 9 to 13 give its length; the
/// events end where fewer than 13 bytes are left.
pub open spec fn payload_run(
    p: BinlogParse,
    u: Seq<u8>,
    off: int,
    depth: nat,
    evs: Seq<BinlogEvent>,
    r: Result<(), ReplicationError>,
) -> bool
    decreases depth, 0nat, u.len() - off,
{
    if off < 0 || off + 13 > u.len() {
        evs.len() == 0 && r is Ok
    } else {
        let el = le_at(u, off + 9, 4);
        if off + el > u.len() {
            evs.len() == 0 && r == Err::<(), _>(
                ReplicationError::PayloadEventTooLong(el as usize, off as usize, u.len() as usize),
            )
        } else if depth == 0 {
            evs.len() == 0 && r == Err::<(), _>(ReplicationError::PayloadNestingTooDeep)
        } else {
            exists|p2: BinlogParse, pr: Result<BinlogEvent, ReplicationError>|
                #![trigger p2.format, event_of(pr)]
                p.parse_post_at(p2, u.subrange(off, off + el), pr, (depth - 1) as nat) && match pr {
                    Err(e) => evs.len() == 0 && r == Err::<(), _>(e),
                    Ok(be) => el >= 19 && evs.len() >= 1 && evs[0] == be && payload_run(
                        p2,
                        u,
                        off + el,
                        depth,
                        evs.drop_first(),
                        r,
                    ),
                }
        }
    }
}

/// The decoded event that a parse result holds, or its error.
pub open spec fn event_of(r: Result<BinlogEvent, ReplicationError>) -> Result<EventEnum, ReplicationError> {
    match r {
        Err(e) => Err(e),
        Ok(be) => match be.event {
            Some(e) => Ok(e),
            None => Err(ReplicationError::UnexpectedEof),
        },
    }
}

impl Event for TransactionPayloadEvent {
    open spec fn decode_spec(&self, data: Seq<u8>, after: Self, r: Result<(), ReplicationError>) -> bool {
        payload_event_decoded_at(*self, data, after, r, MAX_PAYLOAD_DEPTH as nat)
    }

    /// Decodes the payload header fields, then the events of the payload.
    fn decode(&mut self, data: &[u8]) -> (r: Result<(), ReplicationError>) {
        self.decode_at(data, MAX_PAYLOAD_DEPTH)
    }
}

impl TransactionPayloadEvent {
    /// Decodes the events of the payload and appends them.
    pub fn decode_payload(&mut self) -> (r: Result<(), ReplicationError>)
        ensures
            final(self).format == old(self).format,
            final(self).size == old(self).size,
            final(self).compression_type == old(self).compression_type,
            final(self).uncompressed_size == old(self).uncompressed_size,
            final(self).payload == old(self).payload,
            payload_outcome(
                old(self).payload@,
                old(self).compression_type,
                old(self).format,
                old(self).events@,
                final(self).events@,
                r,
                MAX_PAYLOAD_DEPTH as nat,
            ),
    {
        self.decode_payload_at(MAX_PAYLOAD_DEPTH)
    }

    /// Decodes a payload event body, following nested payloads `depth` levels deep.
    fn decode_at(&mut self, data: &[u8], depth: u64) -> (r: Result<(), ReplicationError>)
        ensures
            payload_event_decoded_at(*old(self), data@, *final(self), r, depth as nat),
        decreases depth, 1int,
    {
        match self.decode_fields(data) {
            Err(e) => {
                return Err(e);
            },
            Ok(()) => {},
        }
        self.decode_payload_at(depth)
    }

    /// Decodes the events of the payload, following nested payloads `depth` levels deep.
    fn decode_payload_at(&mut self, depth: u64) -> (r: Result<(), ReplicationError>)
        ensures
            final(self).format == old(self).format,
            final(self).size == old(self).size,
            final(self).compression_type == old(self).compression_type,
            final(self).uncompressed_size == old(self).uncompressed_size,
            final(self).payload == old(self).payload,
            payload_outcome(
                old(self).payload@,
                old(self).compression_type,
                old(self).format,
                old(self).events@,
                final(self).events@,
                r,
                depth as nat,
            ),
        decreases depth, 0int,
    {
        if self.compression_type != ZSTD {
            return Err(ReplicationError::UnsupportedPayloadCompression(self.compression_type));
        }
        let u = match zstd_decompress(self.payload.as_slice()) {
            None => {
                return Err(ReplicationError::PayloadDecompress);
            },
            Some(u) => u,
        };
        let mut f = match &self.format {
            None => {
                return Err(ReplicationError::MissingFormatDescription);
            },
            Some(f) => f.duplicate(),
        };
        f.check_sum_algorithm = BINLOG_CHECKSUM_ALG_OFF;
        let mut parser = BinlogParse::new();
        parser.format = Some(f);
        let ghost p0 = parser;
        let ghost fmt = self.format->Some_0;
        let ghost depth_n = depth as nat;
        assert(payload_parser(p0, fmt));
        let ulen = u.len();
        let mut offset: usize = 0;
        let ghost before = self.events@;
        let ghost mut done: Seq<BinlogEvent> = Seq::empty();
        assert(before + done =~= before);
        assert(self.events@.subrange(0, before.len() as int) =~= before);
        assert(self.events@.subrange(before.len() as int, self.events@.len() as int) =~= done);
        while ulen - offset >= 13
            invariant
                offset <= ulen,
                ulen == u@.len(),
                self.format == old(self).format,
                self.size == old(self).size,
                self.compression_type == old(self).compression_type,
                self.uncompressed_size == old(self).uncompressed_size,
                self.payload == old(self).payload,
                before == old(self).events@,
                zstd_decoded_is(old(self).payload@, u@),
                self.compression_type == ZSTD,
                old(self).format == Some(fmt),
                payload_parser(p0, fmt),
                depth_n == depth as nat,
                self.events@ == before + done,
                self.events@.subrange(0, before.len() as int) == before,
                self.events@.subrange(before.len() as int, self.events@.len() as int) == done,
                forall|evs: Seq<BinlogEvent>, rr: Result<(), ReplicationError>|
                    #[trigger] payload_run(parser, u@, offset as int, depth_n, evs, rr) ==> payload_run(
                        p0,
                        u@,
                        0,
                        depth_n,
                        done + evs,
                        rr,
                    ),
            decreases ulen - offset,
        {
            let el = le_u32(u.as_slice(), offset + 9) as usize;
            if el > ulen - offset {
                let ghost e = ReplicationError::PayloadEventTooLong(el, offset, ulen);
                assert(payload_run(parser, u@, offset as int, depth_n, Seq::empty(), Err::<(), _>(e)));
                assert(done + Seq::<BinlogEvent>::empty() =~= done);
                assert(payload_run(p0, u@, 0, depth_n, done, Err::<(), _>(e)));
                return Err(ReplicationError::PayloadEventTooLong(el, offset, ulen));
            }
            if depth == 0 {
                assert(payload_run(parser, u@, offset as int, depth_n, Seq::empty(), Err::<(), _>(ReplicationError::PayloadNestingTooDeep)));
                assert(done + Seq::<BinlogEvent>::empty() =~= done);
                return Err(ReplicationError::PayloadNestingTooDeep);
            }
            let frame = vstd::slice::slice_to_vec(&u.as_slice()[offset..offset + el]);
            assert(frame@ =~= u@.subrange(offset as int, offset + el));
            let ghost p_before = parser;
            let pr = parser.parse_at(frame.as_slice(), depth - 1);
            let ghost p_after = parser;
            let ghost pr_g = pr;
            assert(p_before.parse_post_at(p_after, u@.subrange(offset as int, offset + el), pr_g, (depth_n - 1) as nat));
            assert(p_after.format == p_after.format && event_of(pr_g) == event_of(pr_g));
            let pe = match pr {
                Err(e) => {
                    assert(payload_run(p_before, u@, offset as int, depth_n, Seq::empty(), Err::<(), _>(e)));
                    assert(done + Seq::<BinlogEvent>::empty() =~= done);
                    assert(payload_run(p0, u@, 0, depth_n, done, Err::<(), _>(e)));
                    return Err(e);
                },
                Ok(pe) => pe,
            };
            proof {
                assert forall|evs: Seq<BinlogEvent>, rr: Result<(), ReplicationError>|
                    #[trigger] payload_run(p_after, u@, offset + el, depth_n, evs, rr) implies payload_run(
                        p0,
                        u@,
                        0,
                        depth_n,
                        done.push(pe) + evs,
                        rr,
                    ) by {
                    let evs1 = seq![pe] + evs;
                    assert(evs1.drop_first() =~= evs);
                    assert(payload_run(p_before, u@, offset as int, depth_n, evs1, rr));
                    assert(done + evs1 =~= done.push(pe) + evs);
                }
            }
            self.events.push(pe);
            proof {
                done = done.push(pe);
                assert(self.events@ =~= before + done);
                assert(self.events@.subrange(0, before.len() as int) =~= before);
                assert(self.events@.subrange(before.len() as int, self.events@.len() as int) =~= done);
            }
            offset = offset + el;
        }
        assert(payload_run(parser, u@, offset as int, depth_n, Seq::empty(), Ok::<(), ReplicationError>(())));
        assert(done + Seq::<BinlogEvent>::empty() =~= done);
        Ok(())
    }
}

/// The decompressed bytes of `payload` are `u`.
pub open spec fn zstd_decoded_is(payload: Seq<u8>, u: Seq<u8>) -> bool {
    crate::event_enum::zstd_decoded(payload) == Some(u)
}

impl EventEnum {
    /// Decodes the body `data` into the event, as its own kind decodes.
    pub fn decode(&mut self, data: &[u8]) -> (r: Result<(), ReplicationError>)
        ensures
            old(self).decode_spec(data@, *final(self), r),
    {
        self.decode_at(data, MAX_PAYLOAD_DEPTH)
    }

    /// What decoding `data` into the event gives, as the event's own kind decodes: the event
    /// `after`, of the same kind, and the result `r`, with nested payloads followed
    /// `MAX_PAYLOAD_DEPTH` levels deep.
    pub open spec fn decode_spec(&self, data: Seq<u8>, after: EventEnum, r: Result<(), ReplicationError>) -> bool {
        event_decoded_at(*self, data, after, r, MAX_PAYLOAD_DEPTH as nat)
    }

    /// Decodes the body `data` into the event, following nested payloads `depth` levels deep.
    fn decode_at(&mut self, data: &[u8], depth: u64) -> (r: Result<(), ReplicationError>)
        ensures
            event_decoded_at(*old(self), data@, *final(self), r, depth as nat),
        decreases depth, 2int,
    {
        match self {
            EventEnum::TableMapEvent(x) => x.decode(data),
            EventEnum::RowsEvent(x) => x.decode(data),
            EventEnum::RowsQueryEvent(x) => x.decode(data),
            EventEnum::EventHeader(x) => x.decode(data),
            EventEnum::FormatDescriptionEvent(x) => x.decode(data),
            EventEnum::RotateEvent(x) => x.decode(data),
            EventEnum::PreviousGTIDsEvent(x) => x.decode(data),
            EventEnum::XIDEvent(x) => x.decode(data),
            EventEnum::QueryEvent(x) => x.decode(data),
            EventEnum::GTIDEvent(x) => x.decode(data),
            EventEnum::BeginLoadQueryEvent(x) => x.decode(data),
            EventEnum::ExecuteLoadQueryEvent(x) => x.decode(data),
            EventEnum::MariadbAnnotateRowsEvent(x) => x.decode(data),
            EventEnum::MariadbBinlogCheckPointEvent(x) => x.decode(data),
            EventEnum::MariadbGTIDEvent(x) => x.decode(data),
            EventEnum::MariadbGTIDListEvent(x) => x.decode(data),
            EventEnum::IntVarEvent(x) => x.decode(data),
            EventEnum::TransactionPayloadEvent(x) => x.decode_at(data, depth),
            EventEnum::GenericEvent(x) => x.decode(data),
        }
    }
}

impl BinlogParse {
    /// A parser with no format description and no table maps, that decodes every event.
    pub fn new() -> (r: BinlogParse)
        ensures
            r.flavor@ == Seq::<char>::empty(),
            r.format is None,
            r.tables@ == Map::<u64, TableMapEvent>::empty(),
            !r.raw_mode && !r.parse_time && r.timestamp_string_location is None,
            r.stop_processing == 0,
            !r.use_decimal && !r.ignore_json_decode_err && !r.verify_checksum,
    {
        BinlogParse {
            flavor: String::new(),
            format: None,
            tables: HashMap::new(),
            raw_mode: false,
            parse_time: false,
            timestamp_string_location: None,
            stop_processing: 0,
            use_decimal: false,
            ignore_json_decode_err: false,
            verify_checksum: false,
        }
    }

    /// Asks the reading of a stream to stop before its next event.
    pub fn stop(&mut self)
        ensures
            *final(self) == (BinlogParse { stop_processing: 1, ..*old(self) }),
    {
        self.stop_processing = 1;
    }

    /// Lets the reading of a stream go on.
    pub fn resume(&mut self)
        ensures
            *final(self) == (BinlogParse { stop_processing: 0, ..*old(self) }),
    {
        self.stop_processing = 0;
    }

    /// Forgets the format description.
    pub fn reset(&mut self)
        ensures
            *final(self) == (BinlogParse { format: None, ..*old(self) }),
    {
        self.format = None;
    }

    pub fn set_raw_mode(&mut self, mode: bool)
        ensures
            *final(self) == (BinlogParse { raw_mode: mode, ..*old(self) }),
    {
        self.raw_mode = mode;
    }

    pub fn set_parse_time(&mut self, parse_time: bool)
        ensures
            *final(self) == (BinlogParse { parse_time, ..*old(self) }),
    {
        self.parse_time = parse_time;
    }

    pub fn set_timestamp_string_location(&mut self, timestamp_string_location: Option<chrono_tz::Tz>)
        ensures
            *final(self) == (BinlogParse { timestamp_string_location, ..*old(self) }),
    {
        self.timestamp_string_location = timestamp_string_location;
    }

    pub fn set_use_decimal(&mut self, use_decimal: bool)
        ensures
            *final(self) == (BinlogParse { use_decimal, ..*old(self) }),
    {
        self.use_decimal = use_decimal;
    }

    pub fn set_ignore_json_decode_error(&mut self, ignore_json_decode_err: bool)
        ensures
            *final(self) == (BinlogParse { ignore_json_decode_err, ..*old(self) }),
    {
        self.ignore_json_decode_err = ignore_json_decode_err;
    }

    pub fn set_verify_checksum(&mut self, verify: bool)
        ensures
            *final(self) == (BinlogParse { verify_checksum: verify, ..*old(self) }),
    {
        self.verify_checksum = verify;
    }

    pub fn set_flavor(&mut self, flavor: String)
        ensures
            *final(self) == (BinlogParse { flavor, ..*old(self) }),
    {
        self.flavor = flavor;
    }

    /// Reads an event header.
    fn _parse_header(&self, data: &[u8]) -> (r: Result<EventHeader, ReplicationError>)
        ensures
            r == header_result(data@),
    {
        let mut h = EventHeader::default();
        match h.decode(data) {
            Err(e) => Err(e),
            Ok(()) => Ok(h),
        }
    }

    /// Checks the CRC-32 checksum in the last four bytes of the event `raw_data`, where the
    /// parser is asked to.
    fn _verify_crc32_checksum(&self, raw_data: &[u8]) -> (r: Result<(), ReplicationError>)
        requires
            raw_data@.len() >= 4,
        ensures
            r is Ok <==> !(self.verify_checksum && crc32_of(raw_data@.subrange(0, raw_data@.len() - 4)) != le_at(
                raw_data@,
                raw_data@.len() - 4,
                4,
            )),
            r is Err ==> r == Err::<(), _>(ReplicationError::ChecksumMismatch),
    {
        if !self.verify_checksum {
            return Ok(());
        }
        let stop = raw_data.len() - BINLOG_CHECKSUM_LENGTH;
        let checksum = crc32_hash(&raw_data[0..stop]);
        let expected = le_u32(raw_data, stop);
        assert(raw_data@.subrange(0, stop as int) =~= raw_data@.subrange(0, raw_data@.len() - 4));
        if expected != checksum {
            return Err(ReplicationError::ChecksumMismatch);
        }
        Ok(())
    }

    /// The size of the table id in events of type `t`, by the format description.
    fn table_id_size(&self, t: EventType) -> (r: Result<isize, ReplicationError>)
        ensures
            match self.format {
                None => r == Err::<isize, _>(ReplicationError::MissingFormatDescription),
                Some(f) => r == table_id_size_for(f, t),
            },
    {
        match &self.format {
            None => Err(ReplicationError::MissingFormatDescription),
            Some(f) => {
                let code = t.code();
                if code == 0 || (code - 1) as usize >= f.event_type_header_lengths.len() {
                    Err(ReplicationError::MissingPostHeaderLength(code))
                } else if f.event_type_header_lengths[(code - 1) as usize] == 6 {
                    Ok(4)
                } else {
                    Ok(6)
                }
            },
        }
    }

    /// An empty rows event for header `h`, set up from the parser.
    fn _new_rows_event(&self, h: &EventHeader, table_id_size: isize) -> (e: RowsEvent)
        requires
            is_rows_type(h.event_type),
        ensures
            e.table_id_size == table_id_size && e.version == rows_version(h.event_type) && e.need_bitmap2
                == rows_need_bitmap2(h.event_type) && e.compressed == rows_compressed(h.event_type)
                && e.tables@ == self.tables@ && e.event_type == h.event_type && e.parse_time == self.parse_time
                && e.timestamp_string_location == self.timestamp_string_location && e.use_decimal
                == self.use_decimal && e.ignore_json_decode_err == self.ignore_json_decode_err,
            e.table_id == 0 && e.flags == 0 && e.column_count == 0 && e.extra_data@.len() == 0,
            e.column_bitmap1@.len() == 0 && e.column_bitmap2@.len() == 0 && e.rows@.len() == 0
                && e.skipped_columns@.len() == 0,
            blank_table(e.table) && e.table.flavor@.len() == 0 && e.table.table_id_size == 0,
    {
        let mut e = RowsEvent::default();
        e.table_id_size = table_id_size;
        e.need_bitmap2 = false;
        e.tables = self.tables.clone();
        e.event_type = h.event_type;
        e.parse_time = self.parse_time;
        e.timestamp_string_location = self.timestamp_string_location;
        e.use_decimal = self.use_decimal;
        e.ignore_json_decode_err = self.ignore_json_decode_err;
        match h.event_type {
            EventType::WriteRowsEventv0 | EventType::UpdateRowsEventv0 | EventType::DeleteRowsEventv0 => {
                e.version = 0;
            },
            EventType::WriteRowsEventv1 | EventType::DeleteRowsEventv1 => {
                e.version = 1;
            },
            EventType::UpdateRowsEventv1 => {
                e.version = 1;
                e.need_bitmap2 = true;
            },
            EventType::WriteRowsEventv2 | EventType::DeleteRowsEventv2 => {
                e.version = 2;
            },
            EventType::UpdateRowsEventv2 | EventType::PartialUpdateRowsEvent => {
                e.version = 2;
                e.need_bitmap2 = true;
            },
            EventType::MariadbWriteRowsCompressedEventV1 | EventType::MariadbDeleteRowsCompressedEventV1 => {
                e.version = 1;
                e.compressed = true;
            },
            EventType::MariadbUpdateRowsCompressedEventV1 => {
                e.version = 1;
                e.compressed = true;
                e.need_bitmap2 = true;
            },
            _ => {},
        }
        e
    }

    /// An empty transaction payload event, holding a copy of the format description.
    pub fn _new_transaction_payload_event(&self) -> (e: TransactionPayloadEvent)
        ensures
            e.size == 0 && e.uncompressed_size == 0 && e.compression_type == 0 && e.payload@.len() == 0
                && e.events@.len() == 0,
            match self.format {
                None => e.format is None,
                Some(f) => (e.format matches Some(g) && g.same_view(&f)),
            },
    {
        let mut e = TransactionPayloadEvent::default();
        e.format = match &self.format {
            None => None,
            Some(f) => Some(f.duplicate()),
        };
        e
    }

    /// The empty event that the body of an event with header `h` is decoded into.
    fn _new_event(&self, h: &EventHeader) -> (r: Result<EventEnum, ReplicationError>)
        ensures
            match self.new_event_error(*h) {
                Some(e) => r == Err::<EventEnum, _>(e),
                None => (r matches Ok(e) && self.fresh_event(*h, e)),
            },
    {
        let t = h.event_type;
        if t == EventType::FormatDescriptionEvent {
            return Ok(EventEnum::FormatDescriptionEvent(FormatDescriptionEvent::default()));
        }
        if t == EventType::RotateEvent {
            return Ok(EventEnum::RotateEvent(RotateEvent::default()));
        }
        if self.raw_mode {
            return Ok(EventEnum::GenericEvent(GenericEvent::default()));
        }
        match t {
            EventType::QueryEvent => Ok(EventEnum::QueryEvent(QueryEvent::default())),
            EventType::MariadbQueryCompressedEvent => {
                let mut ev = QueryEvent::default();
                ev.compressed = true;
                Ok(EventEnum::QueryEvent(ev))
            },
            EventType::XidEvent => Ok(EventEnum::XIDEvent(XIDEvent::default())),
            EventType::TableMapEvent => {
                let tis = match self.table_id_size(t) {
                    Err(e) => {
                        return Err(e);
                    },
                    Ok(n) => n,
                };
                let mut ev = TableMapEvent::default();
                ev.flavor = self.flavor.clone();
                ev.table_id_size = tis;
                assert(self.fresh_event(*h, EventEnum::TableMapEvent(ev)));
                Ok(EventEnum::TableMapEvent(ev))
            },
            EventType::WriteRowsEventv0 | EventType::UpdateRowsEventv0 | EventType::DeleteRowsEventv0
            | EventType::WriteRowsEventv1 | EventType::UpdateRowsEventv1 | EventType::DeleteRowsEventv1
            | EventType::WriteRowsEventv2 | EventType::UpdateRowsEventv2 | EventType::DeleteRowsEventv2
            | EventType::MariadbWriteRowsCompressedEventV1 | EventType::MariadbUpdateRowsCompressedEventV1
            | EventType::MariadbDeleteRowsCompressedEventV1 | EventType::PartialUpdateRowsEvent => {
                let tis = match self.table_id_size(t) {
                    Err(e) => {
                        return Err(e);
                    },
                    Ok(n) => n,
                };
                let re = self._new_rows_event(h, tis);
                assert(self.fresh_event(*h, EventEnum::RowsEvent(re)));
                Ok(EventEnum::RowsEvent(re))
            },
            EventType::RowsQueryEvent => Ok(EventEnum::RowsQueryEvent(RowsQueryEvent::default())),
            EventType::GtidEvent | EventType::AnonymousGtidEvent => Ok(EventEnum::GTIDEvent(GTIDEvent::default())),
            EventType::BeginLoadQueryEvent => Ok(EventEnum::BeginLoadQueryEvent(BeginLoadQueryEvent::default())),
            EventType::ExecuteLoadQueryEvent => Ok(EventEnum::ExecuteLoadQueryEvent(ExecuteLoadQueryEvent::default())),
            EventType::MariadbAnnotateRowsEvent => Ok(
                EventEnum::MariadbAnnotateRowsEvent(MariadbAnnotateRowsEvent::default()),
            ),
            EventType::MariadbBinlogCheckpointEvent => Ok(
                EventEnum::MariadbBinlogCheckPointEvent(MariadbBinlogCheckPointEvent::default()),
            ),
            EventType::MariadbGtidListEvent => Ok(EventEnum::MariadbGTIDListEvent(MariadbGTIDListEvent::default())),
            EventType::MariadbGtidEvent => {
                let mut ev = MariadbGTIDEvent::default();
                ev.gtid.server_id = h.server_id;
                assert(self.fresh_event(*h, EventEnum::MariadbGTIDEvent(ev)));
                Ok(EventEnum::MariadbGTIDEvent(ev))
            },
            EventType::PreviousGtidsEvent => Ok(EventEnum::PreviousGTIDsEvent(PreviousGTIDsEvent::default())),
            EventType::IntvarEvent => Ok(EventEnum::IntVarEvent(IntVarEvent::default())),
            EventType::TransactionPayloadEvent => Ok(
                EventEnum::TransactionPayloadEvent(self._new_transaction_payload_event()),
            ),
            _ => {
                let g = GenericEvent::default();
                assert(self.fresh_event(*h, EventEnum::GenericEvent(g)));
                Ok(EventEnum::GenericEvent(g))
            },
        }
    }
}

impl BinlogParse {
    /// Decodes the body `data` of the event `raw_data` with header `h`, following nested
    /// payloads `depth` levels deep, and keeps what later events need.
    fn _parse_event(&mut self, h: &EventHeader, data: &[u8], raw_data: &[u8], depth: u64) -> (r: Result<
        EventEnum,
        ReplicationError,
    >)
        requires
            raw_data@.len() >= 4,
        ensures
            old(self).parsed_at(*final(self), *h, data@, raw_data@, r, depth as nat),
        decreases depth, 3int,
    {
        broadcast use vstd::std_specs::hash::group_hash_axioms;

        let body_vec = match self.event_body(h, data, raw_data) {
            Err(e) => {
                return Err(e);
            },
            Ok(v) => v,
        };
        let body = body_vec.as_slice();
        let ghost b = body@;
        let mut e = match self._new_event(h) {
            Err(err) => {
                return Err(err);
            },
            Ok(e) => e,
        };
        let ghost e0 = e;
        let rr = e.decode_at(body, depth);
        let ghost e1 = e;
        let ghost me = *self;
        if let EventEnum::FormatDescriptionEvent(fde) = &e {
            self.format = Some(fde.duplicate());
        }
        match rr {
            Err(err) => {
                let hc = EventHeader {
                    timestamp: h.timestamp,
                    event_type: h.event_type,
                    server_id: h.server_id,
                    event_size: h.event_size,
                    log_pos: h.log_pos,
                    flags: h.flags,
                };
                let ee = EventError { header: hc, err: Box::new(err), data: vstd::slice::slice_to_vec(body) };
                proof {
                    assert(old(self).fresh_event(*h, e0) && event_decoded_at(e0, b, e1, rr, depth as nat) && old(self).settled(
                        *self,
                        *h,
                        b,
                        e1,
                        rr,
                        Err::<EventEnum, _>(ReplicationError::EventError(ee)),
                    ));
                }
                return Err(ReplicationError::EventError(ee));
            },
            Ok(()) => {},
        }
        if let EventEnum::TableMapEvent(te) = &e {
            let copy = te.duplicate();
            self.tables.insert(te.table_id, copy);
        }
        if let EventEnum::RowsEvent(re) = &e {
            if re.flags & (ROWS_EVENT_STMT_END_FLAG as u16) > 0 {
                self.tables = HashMap::new();
            }
        }
        proof {
            assert(old(self).fresh_event(*h, e0) && event_decoded_at(e0, b, e1, rr, depth as nat) && old(self).settled(
                *self,
                *h,
                b,
                e1,
                rr,
                Ok::<EventEnum, ReplicationError>(e),
            ));
        }
        Ok(e)
    }

    /// Decodes one whole event, following nested payloads `depth` levels deep.
    fn parse_at(&mut self, data: &[u8], depth: u64) -> (r: Result<BinlogEvent, ReplicationError>)
        ensures
            old(self).parse_post_at(*final(self), data@, r, depth as nat),
        decreases depth, 4int,
    {
        let h = match self._parse_header(data) {
            Err(e) => {
                return Err(e);
            },
            Ok(h) => h,
        };
        let len = data.len();
        if len != h.event_size as usize {
            return Err(ReplicationError::InvalidDataSize(len - EVENT_HEADER_SIZE, (h.event_size - 19) as isize));
        }
        let body = &data[EVENT_HEADER_SIZE..len];
        assert(body@ =~= data@.subrange(19, data@.len() as int));
        let e = match self._parse_event(&h, body, data, depth) {
            Err(e) => {
                return Err(e);
            },
            Ok(e) => e,
        };
        Ok(BinlogEvent { raw_data: vstd::slice::slice_to_vec(data), header: Some(h), event: Some(e) })
    }

    /// Decodes one whole event: header, then body. Except for a format description, a
    /// format description must have been parsed before; a new one replaces it.
    pub fn parse(&mut self, data: &[u8]) -> (r: Result<BinlogEvent, ReplicationError>)
        ensures
            old(self).parse_post(*final(self), data@, r),
    {
        self.parse_at(data, MAX_PAYLOAD_DEPTH)
    }

    /// Decodes one whole event as `parse` does, but gives `None` in place of the error of a
    /// rows event whose table map was never seen, so that a reader can pass over it.
    pub fn parse_or_skip(&mut self, data: &[u8]) -> (r: Result<Option<BinlogEvent>, ReplicationError>)
        ensures
            exists|pr: Result<BinlogEvent, ReplicationError>|
                #![trigger old(self).parse_post(*final(self), data@, pr)]
                old(self).parse_post(*final(self), data@, pr) && match pr {
                    Ok(be) => r == Ok::<Option<BinlogEvent>, ReplicationError>(Some(be)),
                    Err(e) => if missing_table_map(e) {
                        r == Ok::<Option<BinlogEvent>, ReplicationError>(None)
                    } else {
                        r == Err::<Option<BinlogEvent>, ReplicationError>(e)
                    },
                },
    {
        let ghost before = *self;
        let pr = self.parse(data);
        let ghost after = *self;
        let ghost pr_ghost = pr;
        let r = match pr {
            Ok(be) => Ok(Some(be)),
            Err(e) => if is_missing_table_map(&e) {
                Ok(None)
            } else {
                Err(e)
            },
        };
        assert(before.parse_post(after, data@, pr_ghost));
        r
    }

}

/// Whether `e` is the error of a rows event whose table map was never seen.
pub open spec fn missing_table_map(e: ReplicationError) -> bool {
    e matches ReplicationError::EventError(ee) && *ee.err matches ReplicationError::MissingTableMapEvent(_)
}

/// Whether `e` is the error of a rows event whose table map was never seen.
pub fn is_missing_table_map(e: &ReplicationError) -> (r: bool)
    ensures
        r == missing_table_map(*e),
{
    match e {
        ReplicationError::EventError(ee) => match &*ee.err {
            ReplicationError::MissingTableMapEvent(_) => true,
            _ => false,
        },
        _ => false,
    }
}

impl BinlogParse {
    /// Reads the header at the start of `data`.
    pub fn read_header(&self, data: &[u8]) -> (r: Result<EventHeader, ReplicationError>)
        ensures
            r == header_result(data@),
    {
        self._parse_header(data)
    }

    /// The body of the event `raw_data` with header `h` and body `data` as it is decoded:
    /// its checksum checked and cut off where the format description says events carry one.
    pub fn event_body(&self, h: &EventHeader, data: &[u8], raw_data: &[u8]) -> (r: Result<Vec<u8>, ReplicationError>)
        requires
            raw_data@.len() >= 4,
        ensures
            match self.body_for(*h, data@, raw_data@) {
                Err(e) => r == Err::<Vec<u8>, _>(e),
                Ok(b) => (r matches Ok(v) && v@ == b),
            },
    {
        let mut body_end = data.len();
        if h.event_type != EventType::FormatDescriptionEvent {
            let crc = match &self.format {
                Some(f) => f.check_sum_algorithm == BINLOG_CHECKSUM_ALG_CRC32,
                None => false,
            };
            if crc {
                match self._verify_crc32_checksum(raw_data) {
                    Err(e) => {
                        return Err(e);
                    },
                    Ok(()) => {},
                }
                if data.len() < BINLOG_CHECKSUM_LENGTH {
                    return Err(ReplicationError::UnexpectedEof);
                }
                body_end = data.len() - BINLOG_CHECKSUM_LENGTH;
            }
        }
        let v = vstd::slice::slice_to_vec(&data[0..body_end]);
        proof {
            if body_end == data.len() {
                assert(v@ =~= data@);
            }
        }
        Ok(v)
    }

    /// The empty rows event that the body of a rows event with header `h` is decoded into.
    pub fn new_rows_event(&self, h: &EventHeader) -> (r: Result<RowsEvent, ReplicationError>)
        requires
            is_rows_type(h.event_type),
            !self.raw_mode,
        ensures
            match self.new_event_error(*h) {
                Some(e) => r == Err::<RowsEvent, _>(e),
                None => (r matches Ok(re) && self.fresh_event(*h, EventEnum::RowsEvent(re))),
            },
    {
        let tis = match self.table_id_size(h.event_type) {
            Err(e) => {
                return Err(e);
            },
            Ok(n) => n,
        };
        let re = self._new_rows_event(h, tis);
        assert(self.fresh_event(*h, EventEnum::RowsEvent(re)));
        Ok(re)
    }

    /// Keeps what a decoded rows event changes: at the end of a statement the table maps
    /// are forgotten.
    pub fn rows_event_decoded(&mut self, re: &RowsEvent)
        ensures
            re.flags & 1u16 != 0 ==> *final(self) == (BinlogParse { tables: final(self).tables, ..*old(self) })
                && final(self).tables@ == Map::<u64, TableMapEvent>::empty(),
            re.flags & 1u16 == 0 ==> *final(self) == *old(self),
    {
        if re.flags & (ROWS_EVENT_STMT_END_FLAG as u16) > 0 {
            self.tables = HashMap::new();
        }
    }
}

/// A parser set up for a replica with server id `server_id`, or `InvalidServerId` for 0.
pub fn new_syncer_parser(
    server_id: u32,
    flavor: String,
    raw_mode: bool,
    parse_time: bool,
    timestamp_string_location: Option<chrono_tz::Tz>,
    use_decimal: bool,
    verify_checksum: bool,
) -> (r: Result<BinlogParse, ReplicationError>)
    ensures
        server_id == 0 <==> r is Err,
        r is Err ==> r == Err::<BinlogParse, _>(ReplicationError::InvalidServerId),
        r matches Ok(p) ==> p.flavor == flavor && p.raw_mode == raw_mode && p.parse_time == parse_time
            && p.timestamp_string_location == timestamp_string_location && p.use_decimal == use_decimal
            && p.verify_checksum == verify_checksum && p.format is None && p.tables@ == Map::<
            u64,
            TableMapEvent,
        >::empty() && p.stop_processing == 0 && !p.ignore_json_decode_err,
{
    if server_id == 0 {
        return Err(ReplicationError::InvalidServerId);
    }
    let mut p = BinlogParse::new();
    p.set_flavor(flavor);
    p.set_raw_mode(raw_mode);
    p.set_parse_time(parse_time);
    p.set_timestamp_string_location(timestamp_string_location);
    p.set_use_decimal(use_decimal);
    p.set_verify_checksum(verify_checksum);
    Ok(p)
}

} // verus!
