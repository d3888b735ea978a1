use vstd::prelude::*;
use crate::bytes::{copy_range, copy_vec, le_at, le_u16, le_u32, le_u64, fixed_le, lemma_fixed_le_bound, byte_pow};
use crate::consts::{event_type_of, EventType, IntVarEventType, int_var_of, BINLOG_MARIADB_FL_DDL,
    BINLOG_MARIADB_FL_GROUP_COMMIT_ID, BINLOG_MARIADB_FL_STANDALONE};
use crate::error::ReplicationError;
use crate::gtid::MariadbGTID;
use crate::bytes::{lenenc_int, length_encoded_int};
use crate::consts::BINLOG_CHECKSUM_ALG_UNDEF;
use crate::text::{utf8_lossy, contains_seq, lossy_string, string_chars, text, contains_chars, push_char, push_uint, append};
use crate::version::{version_product, calc_version_product};
use crate::time::{CalendarTime, micro_sec_time, micro_sec_timestamp_to_time, valid_calendar};

verus! {

pub const EVENT_HEADER_SIZE: usize = 19;
pub const SID_LENGTH: usize = 16;
pub const LOGICAL_TIMESTAMP_TYPE_CODE: usize = 2;
pub const PART_LOGICAL_TIMESTAMP_LENGTH: usize = 8;
pub const BINLOG_CHECKSUM_LENGTH: usize = 4;
/// The server version a GTID event names when it names none.
pub const UNDE_FINED_SERVER_VER: usize = 999999;

/// An event body that can be decoded from its bytes.
pub trait Event: Sized {
    /// What decoding `data` into `self` gives: the value `after` it and the result `r`.
    spec fn decode_spec(&self, data: Seq<u8>, after: Self, r: Result<(), ReplicationError>) -> bool;

    /// Decodes the event body `data` into `self`.
    fn decode(&mut self, data: &[u8]) -> (r: Result<(), ReplicationError>)
        ensures
            old(self).decode_spec(data@, *final(self), r),
    ;
}

/// The 19-byte header that starts every event.
#[derive(Debug, Clone, PartialEq)]
pub struct EventHeader {
    pub timestamp: u32,
    pub event_type: EventType,
    pub server_id: u32,
    pub event_size: u32,
    pub log_pos: u32,
    pub flags: u16,
}

impl Default for EventHeader {
    fn default() -> (r: EventHeader)
        ensures
            r == (EventHeader {
                timestamp: 0,
                event_type: EventType::UnknownEvent,
                server_id: 0,
                event_size: 0,
                log_pos: 0,
                flags: 0,
            }),
    {
        EventHeader {
            timestamp: 0,
            event_type: EventType::UnknownEvent,
            server_id: 0,
            event_size: 0,
            log_pos: 0,
            flags: 0,
        }
    }
}

/// The header fields that the first 19 bytes of `d` hold.
pub open spec fn header_fields(d: Seq<u8>) -> EventHeader {
    EventHeader {
        timestamp: le_at(d, 0, 4) as u32,
        event_type: event_type_of(d[4]),
        server_id: le_at(d, 5, 4) as u32,
        event_size: le_at(d, 9, 4) as u32,
        log_pos: le_at(d, 13, 4) as u32,
        flags: le_at(d, 17, 2) as u16,
    }
}

impl Event for EventHeader {
    open spec fn decode_spec(&self, data: Seq<u8>, after: Self, r: Result<(), ReplicationError>) -> bool {
        &&& (data.len() < 19 ==> r == Err::<(), _>(ReplicationError::HeaderTooShort(data.len() as usize))
            && after == *self)
        &&& (data.len() >= 19 ==> after == header_fields(data))
        &&& (data.len() >= 19 ==> (r is Ok <==> after.event_size >= 19))
        &&& (data.len() >= 19 && r is Err ==> r == Err::<(), _>(
            ReplicationError::InvalidEventSize(after.event_size),
        ))
    }

    fn decode(&mut self, data: &[u8]) -> (r: Result<(), ReplicationError>)
    {
        if data.len() < EVENT_HEADER_SIZE {
            return Err(ReplicationError::HeaderTooShort(data.len()));
        }
        self.timestamp = le_u32(data, 0);
        self.event_type = EventType::from(data[4]);
        self.server_id = le_u32(data, 5);
        self.event_size = le_u32(data, 9);
        self.log_pos = le_u32(data, 13);
        self.flags = le_u16(data, 17);
        if self.event_size < EVENT_HEADER_SIZE as u32 {
            return Err(ReplicationError::InvalidEventSize(self.event_size));
        }
        Ok(())
    }
}

/// A ROTATE event: the position and name of the next binlog.
#[derive(Debug, Clone, PartialEq)]
pub struct RotateEvent {
    pub position: u64,
    pub next_log_name: Vec<u8>,
}

impl Default for RotateEvent {
    fn default() -> (r: RotateEvent)
        ensures
            r.position == 0 && r.next_log_name@ == Seq::<u8>::empty(),
    {
        RotateEvent { position: 0, next_log_name: Vec::new() }
    }
}

impl Event for RotateEvent {
    open spec fn decode_spec(&self, data: Seq<u8>, after: Self, r: Result<(), ReplicationError>) -> bool {
        &&& ((r is Ok) == (data.len() >= 8))
        &&& (r is Err ==> r == Err::<(), _>(ReplicationError::UnexpectedEof) && after == *self)
        &&& (r is Ok ==> after.position == le_at(data, 0, 8) && after.next_log_name@
            == data.subrange(8, data.len() as int))
    }

    fn decode(&mut self, data: &[u8]) -> (r: Result<(), ReplicationError>)
    {
        if data.len() < 8 {
            return Err(ReplicationError::UnexpectedEof);
        }
        self.position = le_u64(data, 0);
        self.next_log_name = copy_range(data, 8, data.len());
        Ok(())
    }
}

/// An XID event: the id of a committed transaction.
#[derive(Debug, Clone, PartialEq)]
pub struct XIDEvent {
    pub xid: u64,
    /// The GTID set after this transaction, when the reader tracks one.
    pub gset: Option<String>,
}

impl Default for XIDEvent {
    fn default() -> (r: XIDEvent)
        ensures
            r.xid == 0 && r.gset is None,
    {
        XIDEvent { xid: 0, gset: None }
    }
}

impl Event for XIDEvent {
    open spec fn decode_spec(&self, data: Seq<u8>, after: Self, r: Result<(), ReplicationError>) -> bool {
        &&& ((r is Ok) == (data.len() >= 8))
        &&& (r is Err ==> r == Err::<(), _>(ReplicationError::UnexpectedEof) && after == *self)
        &&& (r is Ok ==> after.xid == le_at(data, 0, 8) && after.gset == self.gset)
    }

    fn decode(&mut self, data: &[u8]) -> (r: Result<(), ReplicationError>)
    {
        if data.len() < 8 {
            return Err(ReplicationError::UnexpectedEof);
        }
        self.xid = le_u64(data, 0);
        Ok(())
    }
}

/// A BEGIN_LOAD_QUERY event: a file id and the first block of the file.
#[derive(Debug, Clone, PartialEq)]
pub struct BeginLoadQueryEvent {
    pub filed_id: u32,
    pub block_data: Vec<u8>,
}

impl Default for BeginLoadQueryEvent {
    fn default() -> (r: BeginLoadQueryEvent)
        ensures
            r.filed_id == 0 && r.block_data@ == Seq::<u8>::empty(),
    {
        BeginLoadQueryEvent { filed_id: 0, block_data: Vec::new() }
    }
}

impl Event for BeginLoadQueryEvent {
    open spec fn decode_spec(&self, data: Seq<u8>, after: Self, r: Result<(), ReplicationError>) -> bool {
        &&& ((r is Ok) == (data.len() >= 4))
        &&& (r is Err ==> r == Err::<(), _>(ReplicationError::UnexpectedEof) && after == *self)
        &&& (r is Ok ==> after.filed_id == le_at(data, 0, 4) && after.block_data@
            == data.subrange(4, data.len() as int))
    }

    fn decode(&mut self, data: &[u8]) -> (r: Result<(), ReplicationError>)
    {
        if data.len() < 4 {
            return Err(ReplicationError::UnexpectedEof);
        }
        self.filed_id = le_u32(data, 0);
        self.block_data = copy_range(data, 4, data.len());
        Ok(())
    }
}

/// An EXECUTE_LOAD_QUERY event's fixed fields.
#[derive(Debug, Clone, PartialEq)]
pub struct ExecuteLoadQueryEvent {
    pub slave_proxy_id: u32,
    pub execution_time: u32,
    pub schema_length: u8,
    pub error_code: u16,
    pub status_vars: u16,
    pub file_id: u32,
    pub start_pos: u32,
    pub end_pos: u32,
    pub dup_handling_flags: u8,
}

impl Default for ExecuteLoadQueryEvent {
    fn default() -> (r: ExecuteLoadQueryEvent)
        ensures
            r == (ExecuteLoadQueryEvent {
                slave_proxy_id: 0,
                execution_time: 0,
                schema_length: 0,
                error_code: 0,
                status_vars: 0,
                file_id: 0,
                start_pos: 0,
                end_pos: 0,
                dup_handling_flags: 0,
            }),
    {
        ExecuteLoadQueryEvent {
            slave_proxy_id: 0,
            execution_time: 0,
            schema_length: 0,
            error_code: 0,
            status_vars: 0,
            file_id: 0,
            start_pos: 0,
            end_pos: 0,
            dup_handling_flags: 0,
        }
    }
}

/// The fields of an EXECUTE_LOAD_QUERY event body `d` of at least 26 bytes.
pub open spec fn execute_load_query_fields(d: Seq<u8>) -> ExecuteLoadQueryEvent {
    ExecuteLoadQueryEvent {
        slave_proxy_id: le_at(d, 0, 4) as u32,
        execution_time: le_at(d, 4, 4) as u32,
        schema_length: d[8],
        error_code: le_at(d, 9, 2) as u16,
        status_vars: le_at(d, 11, 2) as u16,
        file_id: le_at(d, 13, 4) as u32,
        start_pos: le_at(d, 17, 4) as u32,
        end_pos: le_at(d, 21, 4) as u32,
        dup_handling_flags: d[25],
    }
}

impl Event for ExecuteLoadQueryEvent {
    open spec fn decode_spec(&self, data: Seq<u8>, after: Self, r: Result<(), ReplicationError>) -> bool {
        &&& ((r is Ok) == (data.len() >= 26))
        &&& (r is Err ==> r == Err::<(), _>(ReplicationError::UnexpectedEof))
        &&& (r is Ok ==> after == execute_load_query_fields(data))
    }

    fn decode(&mut self, data: &[u8]) -> (r: Result<(), ReplicationError>)
    {
        if data.len() < 26 {
            return Err(ReplicationError::UnexpectedEof);
        }
        self.slave_proxy_id = le_u32(data, 0);
        self.execution_time = le_u32(data, 4);
        self.schema_length = data[8];
        self.error_code = le_u16(data, 9);
        self.status_vars = le_u16(data, 11);
        self.file_id = le_u32(data, 13);
        self.start_pos = le_u32(data, 17);
        self.end_pos = le_u32(data, 21);
        self.dup_handling_flags = data[25];
        Ok(())
    }
}

/// A MariaDB ANNOTATE_ROWS event: the statement behind the rows that follow.
#[derive(Debug, Clone, PartialEq)]
pub struct MariadbAnnotateRowsEvent {
    pub query: Vec<u8>,
}

impl Default for MariadbAnnotateRowsEvent {
    fn default() -> (r: MariadbAnnotateRowsEvent)
        ensures
            r.query@ == Seq::<u8>::empty(),
    {
        MariadbAnnotateRowsEvent { query: Vec::new() }
    }
}

impl Event for MariadbAnnotateRowsEvent {
    open spec fn decode_spec(&self, data: Seq<u8>, after: Self, r: Result<(), ReplicationError>) -> bool {
        &&& (r is Ok)
        &&& (after.query@ == data)
    }

    fn decode(&mut self, data: &[u8]) -> (r: Result<(), ReplicationError>)
    {
        self.query = vstd::slice::slice_to_vec(data);
        Ok(())
    }
}

/// A MariaDB BINLOG_CHECKPOINT event.
#[derive(Debug, Clone, PartialEq)]
pub struct MariadbBinlogCheckPointEvent {
    pub info: Vec<u8>,
}

impl Default for MariadbBinlogCheckPointEvent {
    fn default() -> (r: MariadbBinlogCheckPointEvent)
        ensures
            r.info@ == Seq::<u8>::empty(),
    {
        MariadbBinlogCheckPointEvent { info: Vec::new() }
    }
}

impl Event for MariadbBinlogCheckPointEvent {
    open spec fn decode_spec(&self, data: Seq<u8>, after: Self, r: Result<(), ReplicationError>) -> bool {
        &&& (r is Ok)
        &&& (after.info@ == data)
    }

    fn decode(&mut self, data: &[u8]) -> (r: Result<(), ReplicationError>)
    {
        self.info = vstd::slice::slice_to_vec(data);
        Ok(())
    }
}

/// A ROWS_QUERY event: the statement behind the rows that follow.
#[derive(Debug, Clone, PartialEq)]
pub struct RowsQueryEvent {
    pub query: Vec<u8>,
}

impl Default for RowsQueryEvent {
    fn default() -> (r: RowsQueryEvent)
        ensures
            r.query@ == Seq::<u8>::empty(),
    {
        RowsQueryEvent { query: Vec::new() }
    }
}

impl Event for RowsQueryEvent {
    open spec fn decode_spec(&self, data: Seq<u8>, after: Self, r: Result<(), ReplicationError>) -> bool {
        &&& ((r is Ok) == (data.len() >= 1))
        &&& (r is Err ==> r == Err::<(), _>(ReplicationError::UnexpectedEof) && after == *self)
        &&& (r is Ok ==> after.query@ == data.subrange(1, data.len() as int))
    }

    fn decode(&mut self, data: &[u8]) -> (r: Result<(), ReplicationError>)
    {
        if data.len() < 1 {
            return Err(ReplicationError::UnexpectedEof);
        }
        self.query = copy_range(data, 1, data.len());
        Ok(())
    }
}

/// An event this library keeps as raw bytes.
#[derive(Debug, Clone, PartialEq)]
pub struct GenericEvent {
    pub data: Vec<u8>,
}

impl Default for GenericEvent {
    fn default() -> (r: GenericEvent)
        ensures
            r.data@ == Seq::<u8>::empty(),
    {
        GenericEvent { data: Vec::new() }
    }
}

impl Event for GenericEvent {
    open spec fn decode_spec(&self, data: Seq<u8>, after: Self, r: Result<(), ReplicationError>) -> bool {
        &&& (r is Ok)
        &&& (after.data@ == data)
    }

    fn decode(&mut self, data: &[u8]) -> (r: Result<(), ReplicationError>)
    {
        self.data = vstd::slice::slice_to_vec(data);
        Ok(())
    }
}

/// An INTVAR event: the kind and value of an auto-increment variable.
#[derive(Debug, Clone, PartialEq)]
pub struct IntVarEvent {
    pub type_i: IntVarEventType,
    pub value: u64,
}

impl Default for IntVarEvent {
    fn default() -> (r: IntVarEvent)
        ensures
            r == (IntVarEvent { type_i: IntVarEventType::Invalid, value: 0 }),
    {
        IntVarEvent { type_i: IntVarEventType::Invalid, value: 0 }
    }
}

impl Event for IntVarEvent {
    open spec fn decode_spec(&self, data: Seq<u8>, after: Self, r: Result<(), ReplicationError>) -> bool {
        &&& ((r is Ok) == (data.len() >= 9))
        &&& (data.len() >= 1 ==> after.type_i == int_var_of(data[0]))
        &&& (data.len() < 1 ==> after == *self)
        &&& (r is Err ==> r == Err::<(), _>(ReplicationError::UnexpectedEof) && after.value
            == self.value)
        &&& (r is Ok ==> after.value == le_at(data, 1, 8))
    }

    fn decode(&mut self, data: &[u8]) -> (r: Result<(), ReplicationError>)
    {
        if data.len() < 1 {
            return Err(ReplicationError::UnexpectedEof);
        }
        self.type_i = IntVarEventType::from(data[0]);
        if data.len() < 9 {
            return Err(ReplicationError::UnexpectedEof);
        }
        self.value = le_u64(data, 1);
        Ok(())
    }
}

/// A MariaDB GTID event: the GTID and flags of the event group that follows.
#[derive(Debug, Clone, PartialEq)]
pub struct MariadbGTIDEvent {
    pub gtid: MariadbGTID,
    pub flags: u8,
    pub commit_id: u64,
}

impl Default for MariadbGTIDEvent {
    fn default() -> (r: MariadbGTIDEvent)
        ensures
            r == (MariadbGTIDEvent {
                gtid: MariadbGTID { domain_id: 0, server_id: 0, sequence_number: 0 },
                flags: 0,
                commit_id: 0,
            }),
    {
        MariadbGTIDEvent {
            gtid: MariadbGTID { domain_id: 0, server_id: 0, sequence_number: 0 },
            flags: 0,
            commit_id: 0,
        }
    }
}

/// Whether bit `bit` (a power of two below 256) is set in `flags`.
pub open spec fn flag_set(flags: u8, bit: int) -> bool {
    (flags as int / bit) % 2 == 1
}

impl MariadbGTIDEvent {
    pub fn is_ddl(&self) -> (r: bool)
        ensures
            r == flag_set(self.flags, 32),
    {
        let r = (self.flags as i64 & BINLOG_MARIADB_FL_DDL) != 0;
        let f = self.flags;
        assert(((f as i64 & 32i64) != 0) == ((f as int / 32) % 2 == 1)) by (bit_vector);
        r
    }

    pub fn is_standalone(&self) -> (r: bool)
        ensures
            r == flag_set(self.flags, 1),
    {
        let r = (self.flags as i64 & BINLOG_MARIADB_FL_STANDALONE) != 0;
        let f = self.flags;
        assert(((f as i64 & 1i64) != 0) == ((f as int / 1) % 2 == 1)) by (bit_vector);
        r
    }

    pub fn is_group_commit(&self) -> (r: bool)
        ensures
            r == flag_set(self.flags, 2),
    {
        let r = (self.flags as i64 & BINLOG_MARIADB_FL_GROUP_COMMIT_ID) != 0;
        let f = self.flags;
        assert(((f as i64 & 2i64) != 0) == ((f as int / 2) % 2 == 1)) by (bit_vector);
        r
    }
}

impl Event for MariadbGTIDEvent {
    open spec fn decode_spec(&self, data: Seq<u8>, after: Self, r: Result<(), ReplicationError>) -> bool {
        &&& ((r is Ok) == (data.len() >= 13 && (flag_set(data[12], 2) ==> data.len() >= 21)))
        &&& (r is Err ==> r == Err::<(), _>(ReplicationError::UnexpectedEof))
        &&& (r is Ok ==> after.gtid.sequence_number == le_at(data, 0, 8) && after.gtid.domain_id == le_at(data, 8, 4) && after.gtid.server_id
            == self.gtid.server_id && after.flags == data[12] && after.commit_id == if flag_set(data[12], 2) {
            le_at(data, 13, 8)
        } else {
            self.commit_id as nat
        })
    }

    fn decode(&mut self, data: &[u8]) -> (r: Result<(), ReplicationError>)
    {
        if data.len() < 13 {
            if data.len() >= 8 {
                self.gtid.sequence_number = le_u64(data, 0);
            }
            if data.len() >= 12 {
                self.gtid.domain_id = le_u32(data, 8);
            }
            return Err(ReplicationError::UnexpectedEof);
        }
        self.gtid.sequence_number = le_u64(data, 0);
        self.gtid.domain_id = le_u32(data, 8);
        self.flags = data[12];
        let f = self.flags;
        let group = (f as i64 & BINLOG_MARIADB_FL_GROUP_COMMIT_ID) > 0;
        assert(((f as i64 & 2i64) > 0) == ((f as int / 2) % 2 == 1)) by (bit_vector);
        if group {
            if data.len() < 21 {
                return Err(ReplicationError::UnexpectedEof);
            }
            self.commit_id = le_u64(data, 13);
        }
        Ok(())
    }
}

/// A MariaDB GTID_LIST event: the GTIDs that the binlog had reached.
#[derive(Debug, Clone, PartialEq)]
pub struct MariadbGTIDListEvent {
    pub gtids: Vec<MariadbGTID>,
}

impl Default for MariadbGTIDListEvent {
    fn default() -> (r: MariadbGTIDListEvent)
        ensures
            r.gtids@ == Seq::<MariadbGTID>::empty(),
    {
        MariadbGTIDListEvent { gtids: Vec::new() }
    }
}

/// The number of GTIDs a GTID_LIST body names: the low 28 bits of its first word.
pub open spec fn gtid_list_count(d: Seq<u8>) -> nat {
    le_at(d, 0, 4) % 0x1000_0000
}

/// The `i`-th GTID of a GTID_LIST body.
pub open spec fn gtid_list_item(d: Seq<u8>, i: int) -> MariadbGTID {
    MariadbGTID {
        domain_id: le_at(d, 4 + 16 * i, 4) as u32,
        server_id: le_at(d, 8 + 16 * i, 4) as u32,
        sequence_number: le_at(d, 12 + 16 * i, 8) as u64,
    }
}

impl Event for MariadbGTIDListEvent {
    open spec fn decode_spec(&self, data: Seq<u8>, after: Self, r: Result<(), ReplicationError>) -> bool {
        &&& ((r is Ok) == (data.len() >= 4 && data.len() >= 4 + 16 * gtid_list_count(data)))
        &&& (r is Err ==> r == Err::<(), _>(ReplicationError::UnexpectedEof))
        &&& (r is Ok ==> after.gtids@ == self.gtids@ + Seq::new(
            gtid_list_count(data),
            |i: int| gtid_list_item(data, i),
        ))
    }

    fn decode(&mut self, data: &[u8]) -> (r: Result<(), ReplicationError>)
    {
        if data.len() < 4 {
            return Err(ReplicationError::UnexpectedEof);
        }
        let v = le_u32(data, 0);
        let count = v & 0x0fff_ffffu32;
        assert(v & 0x0fff_ffffu32 == v % 0x1000_0000u32) by (bit_vector);
        let ghost start = self.gtids@;
        let mut i: u32 = 0;
        let mut pos: usize = 4;
        while i < count
            invariant
                i <= count,
                count == gtid_list_count(data@),
                pos == 4 + 16 * i,
                pos <= data@.len(),
                self.gtids@ == start + Seq::new(i as nat, |k: int| gtid_list_item(data@, k)),
            decreases count - i,
        {
            if data.len() < pos + 16 {
                return Err(ReplicationError::UnexpectedEof);
            }
            let g = MariadbGTID {
                domain_id: le_u32(data, pos),
                server_id: le_u32(data, pos + 4),
                sequence_number: le_u64(data, pos + 8),
            };
            self.gtids.push(g);
            i = i + 1;
            pos = pos + 16;
            assert(self.gtids@ =~= start + Seq::new(i as nat, |k: int| gtid_list_item(data@, k)));
        }
        Ok(())
    }
}

/// `(5 * 256 + 6) * 256 + 1`: MySQL 5.6.1, the first MySQL with event checksums.
pub const CHECKSUM_VERSION_PRODUCT_MYSQL: i128 = 329217;

/// `(5 * 256 + 3) * 256 + 0`: MariaDB 5.3.0, the first MariaDB with event checksums.
pub const CHECKSUM_VERSION_PRODUCT_MARIA_DB: i128 = 328448;

/// A FORMAT_DESCRIPTION event: the binlog version, server and per-type header lengths.
#[derive(Debug, Clone, PartialEq)]
pub struct FormatDescriptionEvent {
    pub version: u16,
    /// The server version text, 50 bytes padded with zeros.
    pub server_version: Vec<u8>,
    pub create_timestamp: u32,
    pub event_header_length: u8,
    pub event_type_header_lengths: Vec<u8>,
    /// 0 is off, 1 is CRC32 and 255 is undefined.
    pub check_sum_algorithm: u8,
}

impl FormatDescriptionEvent {
    /// Whether the two descriptions hold the same values.
    pub open spec fn same_view(&self, other: &FormatDescriptionEvent) -> bool {
        &&& self.version == other.version
        &&& self.server_version@ == other.server_version@
        &&& self.create_timestamp == other.create_timestamp
        &&& self.event_header_length == other.event_header_length
        &&& self.event_type_header_lengths@ == other.event_type_header_lengths@
        &&& self.check_sum_algorithm == other.check_sum_algorithm
    }

    /// A copy of the description.
    pub fn duplicate(&self) -> (r: FormatDescriptionEvent)
        ensures
            r.same_view(self),
    {
        FormatDescriptionEvent {
            version: self.version,
            server_version: copy_vec(&self.server_version),
            create_timestamp: self.create_timestamp,
            event_header_length: self.event_header_length,
            event_type_header_lengths: copy_vec(&self.event_type_header_lengths),
            check_sum_algorithm: self.check_sum_algorithm,
        }
    }
}

impl Default for FormatDescriptionEvent {
    fn default() -> (r: FormatDescriptionEvent)
        ensures
            r.version == 0 && r.server_version@ == Seq::<u8>::empty() && r.create_timestamp == 0
                && r.event_header_length == 0 && r.event_type_header_lengths@ == Seq::<u8>::empty()
                && r.check_sum_algorithm == 0,
    {
        FormatDescriptionEvent {
            version: 0,
            server_version: Vec::new(),
            create_timestamp: 0,
            event_header_length: 0,
            event_type_header_lengths: Vec::new(),
            check_sum_algorithm: 0,
        }
    }
}

/// Whether a server with the version text `sv` writes checksums after each event.
pub open spec fn server_has_checksum(sv: Seq<u8>) -> bool {
    let server = utf8_lossy(sv);
    version_product(server) >= if contains_seq(server, "mariadb"@) {
        CHECKSUM_VERSION_PRODUCT_MARIA_DB
    } else {
        CHECKSUM_VERSION_PRODUCT_MYSQL
    }
}

impl Event for FormatDescriptionEvent {
    open spec fn decode_spec(&self, data: Seq<u8>, after: Self, r: Result<(), ReplicationError>) -> bool {
        &&& ((r is Ok) == (data.len() >= 57 && data[56] == 19 && (server_has_checksum(
            data.subrange(2, 52),
        ) ==> data.len() >= 62)))
        &&& (data.len() < 57 ==> r == Err::<(), _>(ReplicationError::UnexpectedEof))
        &&& (data.len() >= 57 && data[56] != 19 ==> r == Err::<(), _>(
            ReplicationError::InvalidEventHeaderLength(data[56]),
        ))
        &&& (data.len() >= 57 && data[56] == 19 && r is Err ==> r == Err::<(), _>(
            ReplicationError::UnexpectedEof,
        ))
        &&& (r is Ok ==> after.version == le_at(data, 0, 2) && after.server_version@
            == data.subrange(2, 52) && after.create_timestamp == le_at(data, 52, 4)
            && after.event_header_length == 19)
        &&& (r is Ok && server_has_checksum(data.subrange(2, 52)) ==> after.check_sum_algorithm
            == data[data.len() - 5] && after.event_type_header_lengths@ == data.subrange(
            57,
            data.len() - 5,
        ))
        &&& (r is Ok && !server_has_checksum(data.subrange(2, 52)) ==> after.check_sum_algorithm
            == 255 && after.event_type_header_lengths@ == data.subrange(
            57,
            data.len() as int,
        ))
    }

    fn decode(&mut self, data: &[u8]) -> (r: Result<(), ReplicationError>)
    {
        if data.len() < 2 {
            return Err(ReplicationError::UnexpectedEof);
        }
        self.version = le_u16(data, 0);
        if data.len() < 52 {
            return Err(ReplicationError::UnexpectedEof);
        }
        self.server_version = copy_range(data, 2, 52);
        if data.len() < 57 {
            return Err(ReplicationError::UnexpectedEof);
        }
        self.create_timestamp = le_u32(data, 52);
        self.event_header_length = data[56];
        if self.event_header_length != EVENT_HEADER_SIZE as u8 {
            return Err(ReplicationError::InvalidEventHeaderLength(self.event_header_length));
        }
        let server = lossy_string(self.server_version.as_slice());
        let server_chars = string_chars(&server);
        let needle = string_chars(&text("mariadb"));
        let mut checksum_product = CHECKSUM_VERSION_PRODUCT_MYSQL;
        if contains_chars(&server_chars, &needle) {
            checksum_product = CHECKSUM_VERSION_PRODUCT_MARIA_DB;
        }
        if calc_version_product(&server_chars) >= checksum_product {
            if data.len() < 62 {
                return Err(ReplicationError::UnexpectedEof);
            }
            self.check_sum_algorithm = data[data.len() - 5];
            self.event_type_header_lengths = copy_range(data, 57, data.len() - 5);
        } else {
            self.check_sum_algorithm = BINLOG_CHECKSUM_ALG_UNDEF;
            self.event_type_header_lengths = copy_range(data, 57, data.len());
        }
        Ok(())
    }
}

/// A QUERY event: a statement and the session state it ran in.
#[derive(Debug, Clone, PartialEq)]
pub struct QueryEvent {
    pub slave_proxy_id: u32,
    pub execution_time: u32,
    pub error_code: u16,
    pub status_vars: Vec<u8>,
    pub schema: Vec<u8>,
    pub query: Vec<u8>,
    /// Set for MariaDB's QUERY_COMPRESSED_EVENT.
    pub compressed: bool,
    /// The GTID set after this statement, when the reader tracks one.
    pub gset: Option<String>,
}

impl Default for QueryEvent {
    fn default() -> (r: QueryEvent)
        ensures
            r.slave_proxy_id == 0 && r.execution_time == 0 && r.error_code == 0 && r.status_vars@
                == Seq::<u8>::empty() && r.schema@ == Seq::<u8>::empty() && r.query@ == Seq::<
                u8,
            >::empty() && !r.compressed && r.gset is None,
    {
        QueryEvent {
            slave_proxy_id: 0,
            execution_time: 0,
            error_code: 0,
            status_vars: Vec::new(),
            schema: Vec::new(),
            query: Vec::new(),
            compressed: false,
            gset: None,
        }
    }
}

/// The length of the status variables of a QUERY body.
pub open spec fn query_status_len(d: Seq<u8>) -> int {
    le_at(d, 11, 2) as int
}

/// Where the statement starts in a QUERY body: after the status variables, the schema
/// and its terminating zero.
pub open spec fn query_start(d: Seq<u8>) -> int {
    13 + query_status_len(d) + d[8] + 1
}

impl Event for QueryEvent {
    open spec fn decode_spec(&self, data: Seq<u8>, after: Self, r: Result<(), ReplicationError>) -> bool {
        &&& ((r is Ok) == (data.len() >= 13 && query_start(data) <= data.len() && !self.compressed))
        &&& (r is Err && !(data.len() >= 13 && query_start(data) <= data.len()) ==> r == Err::<(), _>(
            ReplicationError::UnexpectedEof,
        ))
        &&& (r is Err && data.len() >= 13 && query_start(data) <= data.len() ==> r == Err::<(), _>(
            ReplicationError::CompressedEventUnsupported,
        ))
        &&& (r is Ok ==> after.slave_proxy_id == le_at(data, 0, 4) && after.execution_time == le_at(data, 4, 4)
            && after.error_code == le_at(data, 9, 2) && after.status_vars@ == data.subrange(
            13,
            13 + query_status_len(data),
        ) && after.schema@ == data.subrange(13 + query_status_len(data), 13 + query_status_len(data) + data[8])
            && after.query@ == data.subrange(query_start(data), data.len() as int) && after.compressed
            == self.compressed && after.gset == self.gset)
    }

    fn decode(&mut self, data: &[u8]) -> (r: Result<(), ReplicationError>)
    {
        if data.len() < 13 {
            if data.len() >= 4 {
                self.slave_proxy_id = le_u32(data, 0);
            }
            if data.len() >= 8 {
                self.execution_time = le_u32(data, 4);
            }
            return Err(ReplicationError::UnexpectedEof);
        }
        self.slave_proxy_id = le_u32(data, 0);
        self.execution_time = le_u32(data, 4);
        let schema_length = data[8] as usize;
        self.error_code = le_u16(data, 9);
        let status_vars_length = le_u16(data, 11) as usize;
        let status_vars_start: usize = 13;
        if data.len() - status_vars_start < status_vars_length {
            return Err(ReplicationError::UnexpectedEof);
        }
        let status_vars_stop = status_vars_start + status_vars_length;
        self.status_vars = copy_range(data, status_vars_start, status_vars_stop);
        if data.len() - status_vars_stop < schema_length {
            return Err(ReplicationError::UnexpectedEof);
        }
        let schema_stop = status_vars_stop + schema_length;
        self.schema = copy_range(data, status_vars_stop, schema_stop);
        // skip the zero after the schema name
        if data.len() - schema_stop < 1 {
            return Err(ReplicationError::UnexpectedEof);
        }
        let start = schema_stop + 1;
        // A MariaDB compressed query holds its text in MariaDB's own compressed form, which
        // this library does not decode: the event is refused, not decoded by a guess.
        if self.compressed {
            return Err(ReplicationError::CompressedEventUnsupported);
        }
        self.query = copy_range(data, start, data.len());
        Ok(())
    }
}

/// A GTID (or ANONYMOUS_GTID) event of MySQL: the GTID and commit metadata of the
/// transaction that follows.
#[derive(Debug, Clone, PartialEq)]
pub struct GTIDEvent {
    pub commit_flag: u8,
    pub sid: Vec<u8>,
    pub gno: i64,
    pub last_committed: i64,
    pub sequence_number: i64,
    pub immediate_commit_timestamp: u64,
    pub original_commit_timestamp: u64,
    pub transaction_length: u64,
    pub immediate_server_version: u32,
    pub original_server_version: u32,
}

impl GTIDEvent {
    /// The commit time of the transaction on the server it came from last: the UTC time
    /// `immediate_commit_timestamp` microseconds after the epoch, the epoch itself where none
    /// is known.
    pub fn immediate_commit_time(&self) -> (r: CalendarTime)
        requires
            self.immediate_commit_timestamp < 8_210_266_876_800_000_000,
        ensures
            valid_calendar(r),
            micro_sec_time(self.immediate_commit_timestamp as int, r),
            self.immediate_commit_timestamp == 0 ==> r == (CalendarTime {
                year: 1970,
                month: 1,
                day: 1,
                hour: 0,
                minute: 0,
                second: 0,
                nanosecond: 0,
            }),
    {
        micro_sec_timestamp_to_time(self.immediate_commit_timestamp)
    }

    /// The commit time of the transaction on the server where it began, as
    /// `immediate_commit_time` reads its own timestamp.
    pub fn original_commit_time(&self) -> (r: CalendarTime)
        requires
            self.original_commit_timestamp < 8_210_266_876_800_000_000,
        ensures
            valid_calendar(r),
            micro_sec_time(self.original_commit_timestamp as int, r),
            self.original_commit_timestamp == 0 ==> r == (CalendarTime {
                year: 1970,
                month: 1,
                day: 1,
                hour: 0,
                minute: 0,
                second: 0,
                nanosecond: 0,
            }),
    {
        micro_sec_timestamp_to_time(self.original_commit_timestamp)
    }
}

impl Default for GTIDEvent {
    fn default() -> (r: GTIDEvent)
        ensures
            r.commit_flag == 0 && r.sid@ == Seq::<u8>::empty() && r.gno == 0 && r.last_committed == 0
                && r.sequence_number == 0 && r.immediate_commit_timestamp == 0
                && r.original_commit_timestamp == 0 && r.transaction_length == 0
                && r.immediate_server_version == 0 && r.original_server_version == 0,
    {
        GTIDEvent {
            commit_flag: 0,
            sid: Vec::new(),
            gno: 0,
            last_committed: 0,
            sequence_number: 0,
            immediate_commit_timestamp: 0,
            original_commit_timestamp: 0,
            transaction_length: 0,
            immediate_server_version: 0,
            original_server_version: 0,
        }
    }
}

/// `2^55`: the flag bit of a 7-byte commit timestamp.
pub open spec fn bit55() -> nat {
    0x80_0000_0000_0000
}

/// `2^31`: the flag bit of a server version.
pub open spec fn bit31() -> nat {
    0x8000_0000
}

/// Whether the body carries logical timestamps.
pub open spec fn gtid_logical(d: Seq<u8>) -> bool {
    d.len() >= 42 && d[25] == 2
}

/// Whether the body carries an immediate commit timestamp.
pub open spec fn gtid_has_ict(d: Seq<u8>) -> bool {
    gtid_logical(d) && d.len() >= 49
}

/// Whether the body carries a separate original commit timestamp.
pub open spec fn gtid_has_oct(d: Seq<u8>) -> bool {
    gtid_has_ict(d) && le_at(d, 42, 7) >= bit55()
}

/// Where the transaction length starts.
pub open spec fn gtid_p1(d: Seq<u8>) -> int {
    if gtid_has_oct(d) {
        56
    } else {
        49
    }
}

/// Whether the body carries a transaction length.
pub open spec fn gtid_has_tl(d: Seq<u8>) -> bool {
    gtid_has_ict(d) && gtid_p1(d) <= d.len() && d.len() >= gtid_p1(d) + 1
}

/// The length-encoded transaction length.
pub open spec fn gtid_tl(d: Seq<u8>) -> Option<(u64, bool, nat)> {
    lenenc_int(d.subrange(gtid_p1(d), d.len() as int))
}

/// Where the server versions start.
pub open spec fn gtid_p2(d: Seq<u8>) -> int {
    gtid_p1(d) + gtid_tl(d).unwrap().2
}

/// Whether the body carries an immediate server version.
pub open spec fn gtid_has_sv(d: Seq<u8>) -> bool {
    gtid_has_tl(d) && gtid_tl(d) is Some && d.len() >= gtid_p2(d) + 4
}

/// Whether the body carries a separate original server version.
pub open spec fn gtid_has_osv(d: Seq<u8>) -> bool {
    gtid_has_sv(d) && le_at(d, gtid_p2(d), 4) >= bit31()
}

/// Whether a GTID body holds every field it announces.
pub open spec fn gtid_complete(d: Seq<u8>) -> bool {
    &&& d.len() >= 25
    &&& gtid_has_oct(d) ==> d.len() >= 56
    &&& gtid_has_tl(d) ==> gtid_tl(d) is Some
    &&& gtid_has_osv(d) ==> d.len() >= gtid_p2(d) + 8
}

impl Event for GTIDEvent {
    open spec fn decode_spec(&self, data: Seq<u8>, after: Self, r: Result<(), ReplicationError>) -> bool {
        &&& ((r is Ok) == gtid_complete(data))
        &&& (r is Err ==> r == Err::<(), _>(ReplicationError::UnexpectedEof))
        &&& (r is Ok ==> {
            let d = data;
            &&& after.commit_flag == d[0]
            &&& after.sid@ == d.subrange(1, 17)
            &&& after.gno == le_at(d, 17, 8) as i64
            &&& after.last_committed == if gtid_logical(d) {
                le_at(d, 26, 8) as i64
            } else {
                self.last_committed
            }
            &&& after.sequence_number == if gtid_logical(d) {
                le_at(d, 34, 8) as i64
            } else {
                self.sequence_number
            }
            &&& after.immediate_commit_timestamp == if gtid_has_ict(d) {
                (le_at(d, 42, 7) % bit55()) as u64
            } else {
                self.immediate_commit_timestamp
            }
            &&& after.original_commit_timestamp == if gtid_has_oct(d) {
                le_at(d, 49, 7) as u64
            } else if gtid_has_ict(d) {
                le_at(d, 42, 7) as u64
            } else {
                self.original_commit_timestamp
            }
            &&& after.transaction_length == if gtid_has_tl(d) {
                gtid_tl(d).unwrap().0
            } else {
                self.transaction_length
            }
            &&& after.immediate_server_version == if gtid_has_sv(d) {
                (le_at(d, gtid_p2(d), 4) % bit31()) as u32
            } else if gtid_has_tl(d) {
                999999u32
            } else {
                self.immediate_server_version
            }
            &&& after.original_server_version == if gtid_has_osv(d) {
                le_at(d, gtid_p2(d) + 4, 4) as u32
            } else if gtid_has_sv(d) {
                le_at(d, gtid_p2(d), 4) as u32
            } else if gtid_has_tl(d) {
                999999u32
            } else {
                self.original_server_version
            }
        })
    }

    fn decode(&mut self, data: &[u8]) -> (r: Result<(), ReplicationError>)
    {
        if data.len() < 25 {
            return Err(ReplicationError::UnexpectedEof);
        }
        self.commit_flag = data[0];
        self.sid = copy_range(data, 1, 1 + SID_LENGTH);
        self.gno = le_u64(data, 17) as i64;
        if data.len() >= 42 && data[25] == LOGICAL_TIMESTAMP_TYPE_CODE as u8 {
            self.last_committed = le_u64(data, 26) as i64;
            self.sequence_number = le_u64(data, 34) as i64;
            let mut pos: usize = 42;
            // the immediate commit timestamp takes 7 bytes
            if data.len() - pos < 7 {
                return Ok(());
            }
            let raw = fixed_le(data, pos, 7);
            proof {
                lemma_fixed_le_bound(data@, 42, 7);
                reveal_with_fuel(byte_pow, 8);
            }
            pos = pos + 7;
            assert(gtid_has_ict(data@));
            assert(gtid_has_oct(data@) == (raw >= 0x80_0000_0000_0000u64));
            if raw >= 0x80_0000_0000_0000u64 {
                self.immediate_commit_timestamp = raw - 0x80_0000_0000_0000u64;
                if data.len() - pos < 7 {
                    return Err(ReplicationError::UnexpectedEof);
                }
                self.original_commit_timestamp = fixed_le(data, pos, 7);
                pos = pos + 7;
            } else {
                self.immediate_commit_timestamp = raw;
                self.original_commit_timestamp = raw;
            }
            // the transaction length takes at least one byte
            if data.len() - pos < 1 {
                return Ok(());
            }
            let ghost p1 = pos;
            assert(data@.subrange(p1 as int, data@.len() as int) == data@.subrange(
                gtid_p1(data@),
                data@.len() as int,
            ));
            assert(gtid_has_tl(data@));
            let (transaction_length, _, n) = match length_encoded_int(data, pos) {
                Some(v) => v,
                None => {
                    return Err(ReplicationError::UnexpectedEof);
                },
            };
            self.transaction_length = transaction_length;
            pos = pos + n;
            assert(pos == gtid_p2(data@));
            // the immediate server version takes 4 bytes
            self.immediate_server_version = UNDE_FINED_SERVER_VER as u32;
            self.original_server_version = UNDE_FINED_SERVER_VER as u32;
            if data.len() - pos < 4 {
                return Ok(());
            }
            let isv = le_u32(data, pos);
            pos = pos + 4;
            if isv >= 0x8000_0000u32 {
                self.immediate_server_version = isv - 0x8000_0000u32;
                if data.len() - pos < 4 {
                    return Err(ReplicationError::UnexpectedEof);
                }
                self.original_server_version = le_u32(data, pos);
            } else {
                self.immediate_server_version = isv;
                self.original_server_version = isv;
            }
        }
        Ok(())
    }
}

/// A PREVIOUS_GTIDS event: the GTID sets the binlog had reached.
#[derive(Debug, Clone, PartialEq)]
pub struct PreviousGTIDsEvent {
    pub gtid_sets: String,
}

impl Default for PreviousGTIDsEvent {
    fn default() -> (r: PreviousGTIDsEvent)
        ensures
            r.gtid_sets@ == Seq::<char>::empty(),
    {
        PreviousGTIDsEvent { gtid_sets: String::new() }
    }
}

/// Whether the `count` GTID intervals from `pos` on can be written as text: each start
/// is below the largest `u64`, and each end is the start plus one or above 0.
pub open spec fn intervals_ok(d: Seq<u8>, pos: int, count: nat) -> bool
    decreases count,
{
    if count == 0 {
        true
    } else {
        let start = le_at(d, pos, 8);
        let stop = le_at(d, pos + 8, 8);
        &&& start < 0xffff_ffff_ffff_ffff
        &&& (stop == start + 1 || stop > 0)
        &&& intervals_ok(d, pos + 16, (count - 1) as nat)
    }
}

/// What checking the `remaining` SID entries from `pos` on gives: each a 16-byte SID, a
/// 2-byte interval count and 6 bytes of padding, then 16 bytes per interval, a start and
/// an end.
pub open spec fn previous_gtids_check(d: Seq<u8>, pos: int, remaining: nat) -> Result<(), ReplicationError>
    decreases remaining,
{
    if remaining == 0 {
        Ok(())
    } else {
        let count = le_at(d, pos + 16, 2);
        if pos < 0 || pos + 18 > d.len() || (count > 0 && pos + 24 + 16 * count > d.len()) {
            Err(ReplicationError::UnexpectedEof)
        } else if !intervals_ok(d, pos + 24, count) {
            Err(ReplicationError::GtidIntervalOverflow)
        } else {
            previous_gtids_check(d, pos + 24 + 16 * count, (remaining - 1) as nat)
        }
    }
}

impl Event for PreviousGTIDsEvent {
    open spec fn decode_spec(&self, data: Seq<u8>, after: Self, r: Result<(), ReplicationError>) -> bool {
        &&& (data.len() < 2 ==> r == Err::<(), _>(ReplicationError::UnexpectedEof))
        &&& (data.len() >= 2 ==> r == previous_gtids_check(data, 8, le_at(data, 0, 2)))
        &&& (after.gtid_sets@ == self.gtid_sets@)
    }

    /// Checks the SID entries and their intervals; the set text itself is left as it was.
    fn decode(&mut self, data: &[u8]) -> (r: Result<(), ReplicationError>)
    {
        if data.len() < 2 {
            return Err(ReplicationError::UnexpectedEof);
        }
        let uuid_count = le_u16(data, 0);
        let mut pos: u128 = 8;
        let mut i: u16 = 0;
        while i < uuid_count
            invariant
                data@.len() >= 2,
                uuid_count == le_at(data@, 0, 2),
                i <= uuid_count,
                pos <= data.len() as u128 + 24,
                previous_gtids_check(data@, 8, le_at(data@, 0, 2)) == previous_gtids_check(
                    data@,
                    pos as int,
                    (uuid_count - i) as nat,
                ),
            decreases uuid_count - i,
        {
            if pos + 18 > data.len() as u128 {
                return Err(ReplicationError::UnexpectedEof);
            }
            let slice_count = le_u16(data, (pos + 16) as usize) as u128;
            if slice_count > 0 && pos + 24 + 16 * slice_count > data.len() as u128 {
                return Err(ReplicationError::UnexpectedEof);
            }
            let base: u128 = pos + 24;
            let mut k: u128 = 0;
            while k < slice_count
                invariant
                    k <= slice_count,
                    slice_count < 0x10000,
                    base == pos + 24,
                    pos + 18 <= data.len(),
                    slice_count == le_at(data@, pos + 16, 2),
                    slice_count > 0 ==> base + 16 * slice_count <= data.len(),
                    i < uuid_count,
                    uuid_count == le_at(data@, 0, 2),
                    data@.len() >= 2,
                    previous_gtids_check(data@, 8, le_at(data@, 0, 2)) == previous_gtids_check(
                        data@,
                        pos as int,
                        (uuid_count - i) as nat,
                    ),
                    intervals_ok(data@, pos + 24, slice_count as nat) == intervals_ok(
                        data@,
                        base + 16 * k,
                        (slice_count - k) as nat,
                    ),
                decreases slice_count - k,
            {
                assert(base + 16 * k + 16 <= base + 16 * slice_count);
                let at = (base + 16 * k) as usize;
                let start = le_u64(data, at);
                let stop = le_u64(data, at + 8);
                if start == 0xffff_ffff_ffff_ffff || (stop != start + 1 && stop == 0) {
                    return Err(ReplicationError::GtidIntervalOverflow);
                }
                k = k + 1;
            }
            pos = pos + 24 + 16 * slice_count;
            i = i + 1;
        }
        Ok(())
    }
}

} // verus!
