use vstd::prelude::*;
use vstd::std_specs::convert::FromSpecImpl;

verus! {

/// Lowest binlog version that the decoder supports.
pub const MIN_BINLOG_VERSION: u8 = 4;

/// The four bytes that open a binlog file: `fe 'b' 'i' 'n'`.
pub const BINLOG_FILE_HEADER: [u8; 4] = [0xfe, 0x62, 0x69, 0x6e];

pub const SEMI_SYNC_INDICATOR: u8 = 0xef;

pub const LOG_EVENT_BINLOG_IN_USE_F: u16 = 0x0001;
pub const LOG_EVENT_FORCED_ROTATE_F: u16 = 0x0002;
pub const LOG_EVENT_THREAD_SPECIFIC_F: u16 = 0x0004;
pub const LOG_EVENT_SUPPRESS_USE_F: u16 = 0x0008;
pub const LOG_EVENT_UPDATE_TABLE_MAP_VERSION_F: u16 = 0x0010;
pub const LOG_EVENT_ARTIFICIAL_F: u16 = 0x0020;
pub const LOG_EVENT_RELAY_LOG_F: u16 = 0x0040;
pub const LOG_EVENT_IGNORABLE_F: u16 = 0x0080;
pub const LOG_EVENT_NO_FILTER_F: u16 = 0x0100;
pub const LOG_EVENT_MTS_ISOLATE_F: u16 = 0x0200;

pub const BINLOG_DUMP_NEVER_STOP: u16 = 0x00;
pub const BINLOG_DUMP_NON_BLOCK: u16 = 0x01;
pub const BINLOG_SEND_ANNOTATE_ROWS_EVENT: u16 = 0x02;
pub const BINLOG_THROUGH_POSITION: u16 = 0x02;
pub const BINLOG_THROUGH_GTID: u16 = 0x04;

pub const BINLOG_MARIADB_FL_STANDALONE: i64 = 1;
pub const BINLOG_MARIADB_FL_GROUP_COMMIT_ID: i64 = 2;
pub const BINLOG_MARIADB_FL_TRANSACTIONAL: i64 = 4;
pub const BINLOG_MARIADB_FL_ALLOW_PARALLEL: i64 = 8;
pub const BINLOG_MARIADB_FL_WAITED: i64 = 16;
pub const BINLOG_MARIADB_FL_DDL: i64 = 32;

pub const BINLOG_CHECKSUM_ALG_OFF: u8 = 0;
pub const BINLOG_CHECKSUM_ALG_CRC32: u8 = 1;
pub const BINLOG_CHECKSUM_ALG_UNDEF: u8 = 255;

pub const TABLE_MAP_OPT_META_SIGNEDNESS: u8 = 1;
pub const TABLE_MAP_OPT_META_DEFAULT_CHARSET: u8 = 2;
pub const TABLE_MAP_OPT_META_COLUMN_CHARSET: u8 = 3;
pub const TABLE_MAP_OPT_META_COLUMN_NAME: u8 = 4;
pub const TABLE_MAP_OPT_META_SET_STR_VALUE: u8 = 5;
pub const TABLE_MAP_OPT_META_ENUM_STR_VALUE: u8 = 6;
pub const TABLE_MAP_OPT_META_GEOMETRY_TYPE: u8 = 7;
pub const TABLE_MAP_OPT_META_SIMPLE_PRIMARY_KEY: u8 = 8;
pub const TABLE_MAP_OPT_META_PRIMARY_KEY_WITH_PREFIX: u8 = 9;
pub const TABLE_MAP_OPT_META_ENUM_AND_SET_DEFAULT_CHARSET: u8 = 10;
pub const TABLE_MAP_OPT_META_ENUM_AND_SET_COLUMN_CHARSET: u8 = 11;

/// The kind of a binlog event, as its header's type byte names it.
#[derive(Debug, Clone, Copy, PartialEq, Eq, Structural)]
pub enum EventType {
    UnknownEvent,
    StartEventV3,
    QueryEvent,
    StopEvent,
    RotateEvent,
    IntvarEvent,
    LoadEvent,
    SlaveEvent,
    CreateFileEvent,
    AppendBlockEvent,
    ExecLoadEvent,
    DeleteFileEvent,
    NewLoadEvent,
    RandEvent,
    UserVarEvent,
    FormatDescriptionEvent,
    XidEvent,
    BeginLoadQueryEvent,
    ExecuteLoadQueryEvent,
    TableMapEvent,
    WriteRowsEventv0,
    UpdateRowsEventv0,
    DeleteRowsEventv0,
    WriteRowsEventv1,
    UpdateRowsEventv1,
    DeleteRowsEventv1,
    IncidentEvent,
    HeartbeatEvent,
    IgnorableEvent,
    RowsQueryEvent,
    WriteRowsEventv2,
    UpdateRowsEventv2,
    DeleteRowsEventv2,
    GtidEvent,
    AnonymousGtidEvent,
    PreviousGtidsEvent,
    TransactionContextEvent,
    ViewChangeEvent,
    XaPrepareLogEvent,
    PartialUpdateRowsEvent,
    TransactionPayloadEvent,
    HeartbeatLogEventV2,
    MariadbAnnotateRowsEvent,
    MariadbBinlogCheckpointEvent,
    MariadbGtidEvent,
    MariadbGtidListEvent,
    MariadbStartEncryptionEvent,
    MariadbQueryCompressedEvent,
    MariadbWriteRowsCompressedEventV1,
    MariadbUpdateRowsCompressedEventV1,
    MariadbDeleteRowsCompressedEventV1,
}

/// The type byte that stands for `t`.
pub open spec fn event_type_code(t: EventType) -> u8 {
    match t {
        EventType::UnknownEvent => 0u8,
        EventType::StartEventV3 => 1u8,
        EventType::QueryEvent => 2u8,
        EventType::StopEvent => 3u8,
        EventType::RotateEvent => 4u8,
        EventType::IntvarEvent => 5u8,
        EventType::LoadEvent => 6u8,
        EventType::SlaveEvent => 7u8,
        EventType::CreateFileEvent => 8u8,
        EventType::AppendBlockEvent => 9u8,
        EventType::ExecLoadEvent => 10u8,
        EventType::DeleteFileEvent => 11u8,
        EventType::NewLoadEvent => 12u8,
        EventType::RandEvent => 13u8,
        EventType::UserVarEvent => 14u8,
        EventType::FormatDescriptionEvent => 15u8,
        EventType::XidEvent => 16u8,
        EventType::BeginLoadQueryEvent => 17u8,
        EventType::ExecuteLoadQueryEvent => 18u8,
        EventType::TableMapEvent => 19u8,
        EventType::WriteRowsEventv0 => 20u8,
        EventType::UpdateRowsEventv0 => 21u8,
        EventType::DeleteRowsEventv0 => 22u8,
        EventType::WriteRowsEventv1 => 23u8,
        EventType::UpdateRowsEventv1 => 24u8,
        EventType::DeleteRowsEventv1 => 25u8,
        EventType::IncidentEvent => 26u8,
        EventType::HeartbeatEvent => 27u8,
        EventType::IgnorableEvent => 28u8,
        EventType::RowsQueryEvent => 29u8,
        EventType::WriteRowsEventv2 => 30u8,
        EventType::UpdateRowsEventv2 => 31u8,
        EventType::DeleteRowsEventv2 => 32u8,
        EventType::GtidEvent => 33u8,
        EventType::AnonymousGtidEvent => 34u8,
        EventType::PreviousGtidsEvent => 35u8,
        EventType::TransactionContextEvent => 36u8,
        EventType::ViewChangeEvent => 37u8,
        EventType::XaPrepareLogEvent => 38u8,
        EventType::PartialUpdateRowsEvent => 39u8,
        EventType::TransactionPayloadEvent => 40u8,
        EventType::HeartbeatLogEventV2 => 41u8,
        EventType::MariadbAnnotateRowsEvent => 160u8,
        EventType::MariadbBinlogCheckpointEvent => 161u8,
        EventType::MariadbGtidEvent => 162u8,
        EventType::MariadbGtidListEvent => 163u8,
        EventType::MariadbStartEncryptionEvent => 164u8,
        EventType::MariadbQueryCompressedEvent => 165u8,
        EventType::MariadbWriteRowsCompressedEventV1 => 166u8,
        EventType::MariadbUpdateRowsCompressedEventV1 => 167u8,
        EventType::MariadbDeleteRowsCompressedEventV1 => 168u8,
    }
}

/// Whether `code` is the type byte of one of the named event types.
pub open spec fn is_known_event_code(code: u8) -> bool {
    code <= 41 || (160 <= code && code <= 168)
}

/// The event type that the type byte `code` names; unknown bytes name `UnknownEvent`.
pub open spec fn event_type_of(code: u8) -> EventType {
    choose|t: EventType| event_type_matches(code, t)
}

/// Whether `t` is the type that the byte `code` names.
pub open spec fn event_type_matches(code: u8, t: EventType) -> bool {
    if is_known_event_code(code) {
        event_type_code(t) == code
    } else {
        t == EventType::UnknownEvent
    }
}

/// Distinct event types have distinct type bytes.
pub proof fn lemma_event_type_code_injective(a: EventType, b: EventType)
    ensures
        event_type_code(a) == event_type_code(b) ==> a == b,
{
}

/// `event_type_of` picks the one type that `from_code` gives.
pub proof fn lemma_event_type_of(code: u8, r: EventType)
    requires
        is_known_event_code(code) ==> event_type_code(r) == code,
        !is_known_event_code(code) ==> r == EventType::UnknownEvent,
    ensures
        event_type_of(code) == r,
{
    assert(event_type_matches(code, r));
    let t = event_type_of(code);
    assert(event_type_matches(code, t));
    lemma_event_type_code_injective(t, r);
}

/// Every event type's byte is a known code.
pub proof fn lemma_event_type_code_known(t: EventType)
    ensures
        is_known_event_code(event_type_code(t)),
{
}

/// The name that the event type is printed under.
pub open spec fn event_type_name(t: EventType) -> Seq<char> {
    match t {
        EventType::UnknownEvent => "UnknownEvent"@,
        EventType::StartEventV3 => "StartEventV3"@,
        EventType::QueryEvent => "QueryEvent"@,
        EventType::StopEvent => "StopEvent"@,
        EventType::RotateEvent => "RotateEvent"@,
        EventType::IntvarEvent => "IntvarEvent"@,
        EventType::LoadEvent => "LoadEvent"@,
        EventType::SlaveEvent => "SlaveEvent"@,
        EventType::CreateFileEvent => "CreateFileEvent"@,
        EventType::AppendBlockEvent => "AppendBlockEvent"@,
        EventType::ExecLoadEvent => "ExecLoadEvent"@,
        EventType::DeleteFileEvent => "DeleteFileEvent"@,
        EventType::NewLoadEvent => "NewLoadEvent"@,
        EventType::RandEvent => "RandEvent"@,
        EventType::UserVarEvent => "UserVarEvent"@,
        EventType::FormatDescriptionEvent => "FormatDescriptionEvent"@,
        EventType::XidEvent => "XidEvent"@,
        EventType::BeginLoadQueryEvent => "BeginLoadQueryEvent"@,
        EventType::ExecuteLoadQueryEvent => "ExecuteLoadQueryEvent"@,
        EventType::TableMapEvent => "TableMapEvent"@,
        EventType::WriteRowsEventv0 => "WriteRowsEventv0"@,
        EventType::UpdateRowsEventv0 => "UpdateRowsEventv0"@,
        EventType::DeleteRowsEventv0 => "DeleteRowsEventv0"@,
        EventType::WriteRowsEventv1 => "WriteRowsEventv1"@,
        EventType::UpdateRowsEventv1 => "UpdateRowsEventv1"@,
        EventType::DeleteRowsEventv1 => "DeleteRowsEventv1"@,
        EventType::IncidentEvent => "IncidentEvent"@,
        EventType::HeartbeatEvent => "HeartbeatEvent"@,
        EventType::IgnorableEvent => "IgnorableEvent"@,
        EventType::RowsQueryEvent => "RowsQueryEvent"@,
        EventType::WriteRowsEventv2 => "WriteRowsEventv2"@,
        EventType::UpdateRowsEventv2 => "UpdateRowsEventv2"@,
        EventType::DeleteRowsEventv2 => "DeleteRowsEventv2"@,
        EventType::GtidEvent => "GtidEvent"@,
        EventType::AnonymousGtidEvent => "AnonymousGtidEvent"@,
        EventType::PreviousGtidsEvent => "PreviousGtidsEvent"@,
        EventType::TransactionContextEvent => "TransactionContextEvent"@,
        EventType::ViewChangeEvent => "ViewChangeEvent"@,
        EventType::XaPrepareLogEvent => "XaPrepareLogEvent"@,
        EventType::PartialUpdateRowsEvent => "PartialUpdateRowsEvent"@,
        EventType::TransactionPayloadEvent => "TransactionPayloadEvent"@,
        EventType::HeartbeatLogEventV2 => "HeartbeatLogEventV2"@,
        EventType::MariadbAnnotateRowsEvent => "MariadbAnnotateRowsEvent"@,
        EventType::MariadbBinlogCheckpointEvent => "MariadbBinlogCheckpointEvent"@,
        EventType::MariadbGtidEvent => "MariadbGtidEvent"@,
        EventType::MariadbGtidListEvent => "MariadbGtidListEvent"@,
        EventType::MariadbStartEncryptionEvent => "MariadbStartEncryptionEvent"@,
        EventType::MariadbQueryCompressedEvent => "MariadbQueryCompressedEvent"@,
        EventType::MariadbWriteRowsCompressedEventV1 => "MariadbWriteRowsCompressedEventV1"@,
        EventType::MariadbUpdateRowsCompressedEventV1 => "MariadbUpdateRowsCompressedEventV1"@,
        EventType::MariadbDeleteRowsCompressedEventV1 => "MariadbDeleteRowsCompressedEventV1"@,
    }
}

impl EventType {
    /// The event type named by the header's type byte `code`.
    pub fn from_code(code: u8) -> (r: EventType)
        ensures
            is_known_event_code(code) ==> event_type_code(r) == code,
            !is_known_event_code(code) ==> r == EventType::UnknownEvent,
    {
        match code {
            0 => EventType::UnknownEvent,
            1 => EventType::StartEventV3,
            2 => EventType::QueryEvent,
            3 => EventType::StopEvent,
            4 => EventType::RotateEvent,
            5 => EventType::IntvarEvent,
            6 => EventType::LoadEvent,
            7 => EventType::SlaveEvent,
            8 => EventType::CreateFileEvent,
            9 => EventType::AppendBlockEvent,
            10 => EventType::ExecLoadEvent,
            11 => EventType::DeleteFileEvent,
            12 => EventType::NewLoadEvent,
            13 => EventType::RandEvent,
            14 => EventType::UserVarEvent,
            15 => EventType::FormatDescriptionEvent,
            16 => EventType::XidEvent,
            17 => EventType::BeginLoadQueryEvent,
            18 => EventType::ExecuteLoadQueryEvent,
            19 => EventType::TableMapEvent,
            20 => EventType::WriteRowsEventv0,
            21 => EventType::UpdateRowsEventv0,
            22 => EventType::DeleteRowsEventv0,
            23 => EventType::WriteRowsEventv1,
            24 => EventType::UpdateRowsEventv1,
            25 => EventType::DeleteRowsEventv1,
            26 => EventType::IncidentEvent,
            27 => EventType::HeartbeatEvent,
            28 => EventType::IgnorableEvent,
            29 => EventType::RowsQueryEvent,
            30 => EventType::WriteRowsEventv2,
            31 => EventType::UpdateRowsEventv2,
            32 => EventType::DeleteRowsEventv2,
            33 => EventType::GtidEvent,
            34 => EventType::AnonymousGtidEvent,
            35 => EventType::PreviousGtidsEvent,
            36 => EventType::TransactionContextEvent,
            37 => EventType::ViewChangeEvent,
            38 => EventType::XaPrepareLogEvent,
            39 => EventType::PartialUpdateRowsEvent,
            40 => EventType::TransactionPayloadEvent,
            41 => EventType::HeartbeatLogEventV2,
            160 => EventType::MariadbAnnotateRowsEvent,
            161 => EventType::MariadbBinlogCheckpointEvent,
            162 => EventType::MariadbGtidEvent,
            163 => EventType::MariadbGtidListEvent,
            164 => EventType::MariadbStartEncryptionEvent,
            165 => EventType::MariadbQueryCompressedEvent,
            166 => EventType::MariadbWriteRowsCompressedEventV1,
            167 => EventType::MariadbUpdateRowsCompressedEventV1,
            168 => EventType::MariadbDeleteRowsCompressedEventV1,
            _ => EventType::UnknownEvent,
        }
    }

    /// The header type byte of this event type.
    pub fn code(&self) -> (r: u8)
        ensures
            r == event_type_code(*self),
    {
        match self {
            EventType::UnknownEvent => 0,
            EventType::StartEventV3 => 1,
            EventType::QueryEvent => 2,
            EventType::StopEvent => 3,
            EventType::RotateEvent => 4,
            EventType::IntvarEvent => 5,
            EventType::LoadEvent => 6,
            EventType::SlaveEvent => 7,
            EventType::CreateFileEvent => 8,
            EventType::AppendBlockEvent => 9,
            EventType::ExecLoadEvent => 10,
            EventType::DeleteFileEvent => 11,
            EventType::NewLoadEvent => 12,
            EventType::RandEvent => 13,
            EventType::UserVarEvent => 14,
            EventType::FormatDescriptionEvent => 15,
            EventType::XidEvent => 16,
            EventType::BeginLoadQueryEvent => 17,
            EventType::ExecuteLoadQueryEvent => 18,
            EventType::TableMapEvent => 19,
            EventType::WriteRowsEventv0 => 20,
            EventType::UpdateRowsEventv0 => 21,
            EventType::DeleteRowsEventv0 => 22,
            EventType::WriteRowsEventv1 => 23,
            EventType::UpdateRowsEventv1 => 24,
            EventType::DeleteRowsEventv1 => 25,
            EventType::IncidentEvent => 26,
            EventType::HeartbeatEvent => 27,
            EventType::IgnorableEvent => 28,
            EventType::RowsQueryEvent => 29,
            EventType::WriteRowsEventv2 => 30,
            EventType::UpdateRowsEventv2 => 31,
            EventType::DeleteRowsEventv2 => 32,
            EventType::GtidEvent => 33,
            EventType::AnonymousGtidEvent => 34,
            EventType::PreviousGtidsEvent => 35,
            EventType::TransactionContextEvent => 36,
            EventType::ViewChangeEvent => 37,
            EventType::XaPrepareLogEvent => 38,
            EventType::PartialUpdateRowsEvent => 39,
            EventType::TransactionPayloadEvent => 40,
            EventType::HeartbeatLogEventV2 => 41,
            EventType::MariadbAnnotateRowsEvent => 160,
            EventType::MariadbBinlogCheckpointEvent => 161,
            EventType::MariadbGtidEvent => 162,
            EventType::MariadbGtidListEvent => 163,
            EventType::MariadbStartEncryptionEvent => 164,
            EventType::MariadbQueryCompressedEvent => 165,
            EventType::MariadbWriteRowsCompressedEventV1 => 166,
            EventType::MariadbUpdateRowsCompressedEventV1 => 167,
            EventType::MariadbDeleteRowsCompressedEventV1 => 168,
        }
    }

    /// The name of this event type.
    pub fn name(&self) -> (r: &'static str)
        ensures
            r@ == event_type_name(*self),
    {
        match self {
            EventType::UnknownEvent => { proof { reveal_strlit("UnknownEvent"); } "UnknownEvent" },
            EventType::StartEventV3 => { proof { reveal_strlit("StartEventV3"); } "StartEventV3" },
            EventType::QueryEvent => { proof { reveal_strlit("QueryEvent"); } "QueryEvent" },
            EventType::StopEvent => { proof { reveal_strlit("StopEvent"); } "StopEvent" },
            EventType::RotateEvent => { proof { reveal_strlit("RotateEvent"); } "RotateEvent" },
            EventType::IntvarEvent => { proof { reveal_strlit("IntvarEvent"); } "IntvarEvent" },
            EventType::LoadEvent => { proof { reveal_strlit("LoadEvent"); } "LoadEvent" },
            EventType::SlaveEvent => { proof { reveal_strlit("SlaveEvent"); } "SlaveEvent" },
            EventType::CreateFileEvent => { proof { reveal_strlit("CreateFileEvent"); } "CreateFileEvent" },
            EventType::AppendBlockEvent => { proof { reveal_strlit("AppendBlockEvent"); } "AppendBlockEvent" },
            EventType::ExecLoadEvent => { proof { reveal_strlit("ExecLoadEvent"); } "ExecLoadEvent" },
            EventType::DeleteFileEvent => { proof { reveal_strlit("DeleteFileEvent"); } "DeleteFileEvent" },
            EventType::NewLoadEvent => { proof { reveal_strlit("NewLoadEvent"); } "NewLoadEvent" },
            EventType::RandEvent => { proof { reveal_strlit("RandEvent"); } "RandEvent" },
            EventType::UserVarEvent => { proof { reveal_strlit("UserVarEvent"); } "UserVarEvent" },
            EventType::FormatDescriptionEvent => { proof { reveal_strlit("FormatDescriptionEvent"); } "FormatDescriptionEvent" },
            EventType::XidEvent => { proof { reveal_strlit("XidEvent"); } "XidEvent" },
            EventType::BeginLoadQueryEvent => { proof { reveal_strlit("BeginLoadQueryEvent"); } "BeginLoadQueryEvent" },
            EventType::ExecuteLoadQueryEvent => { proof { reveal_strlit("ExecuteLoadQueryEvent"); } "ExecuteLoadQueryEvent" },
            EventType::TableMapEvent => { proof { reveal_strlit("TableMapEvent"); } "TableMapEvent" },
            EventType::WriteRowsEventv0 => { proof { reveal_strlit("WriteRowsEventv0"); } "WriteRowsEventv0" },
            EventType::UpdateRowsEventv0 => { proof { reveal_strlit("UpdateRowsEventv0"); } "UpdateRowsEventv0" },
            EventType::DeleteRowsEventv0 => { proof { reveal_strlit("DeleteRowsEventv0"); } "DeleteRowsEventv0" },
            EventType::WriteRowsEventv1 => { proof { reveal_strlit("WriteRowsEventv1"); } "WriteRowsEventv1" },
            EventType::UpdateRowsEventv1 => { proof { reveal_strlit("UpdateRowsEventv1"); } "UpdateRowsEventv1" },
            EventType::DeleteRowsEventv1 => { proof { reveal_strlit("DeleteRowsEventv1"); } "DeleteRowsEventv1" },
            EventType::IncidentEvent => { proof { reveal_strlit("IncidentEvent"); } "IncidentEvent" },
            EventType::HeartbeatEvent => { proof { reveal_strlit("HeartbeatEvent"); } "HeartbeatEvent" },
            EventType::IgnorableEvent => { proof { reveal_strlit("IgnorableEvent"); } "IgnorableEvent" },
            EventType::RowsQueryEvent => { proof { reveal_strlit("RowsQueryEvent"); } "RowsQueryEvent" },
            EventType::WriteRowsEventv2 => { proof { reveal_strlit("WriteRowsEventv2"); } "WriteRowsEventv2" },
            EventType::UpdateRowsEventv2 => { proof { reveal_strlit("UpdateRowsEventv2"); } "UpdateRowsEventv2" },
            EventType::DeleteRowsEventv2 => { proof { reveal_strlit("DeleteRowsEventv2"); } "DeleteRowsEventv2" },
            EventType::GtidEvent => { proof { reveal_strlit("GtidEvent"); } "GtidEvent" },
            EventType::AnonymousGtidEvent => { proof { reveal_strlit("AnonymousGtidEvent"); } "AnonymousGtidEvent" },
            EventType::PreviousGtidsEvent => { proof { reveal_strlit("PreviousGtidsEvent"); } "PreviousGtidsEvent" },
            EventType::TransactionContextEvent => { proof { reveal_strlit("TransactionContextEvent"); } "TransactionContextEvent" },
            EventType::ViewChangeEvent => { proof { reveal_strlit("ViewChangeEvent"); } "ViewChangeEvent" },
            EventType::XaPrepareLogEvent => { proof { reveal_strlit("XaPrepareLogEvent"); } "XaPrepareLogEvent" },
            EventType::PartialUpdateRowsEvent => { proof { reveal_strlit("PartialUpdateRowsEvent"); } "PartialUpdateRowsEvent" },
            EventType::TransactionPayloadEvent => { proof { reveal_strlit("TransactionPayloadEvent"); } "TransactionPayloadEvent" },
            EventType::HeartbeatLogEventV2 => { proof { reveal_strlit("HeartbeatLogEventV2"); } "HeartbeatLogEventV2" },
            EventType::MariadbAnnotateRowsEvent => { proof { reveal_strlit("MariadbAnnotateRowsEvent"); } "MariadbAnnotateRowsEvent" },
            EventType::MariadbBinlogCheckpointEvent => { proof { reveal_strlit("MariadbBinlogCheckpointEvent"); } "MariadbBinlogCheckpointEvent" },
            EventType::MariadbGtidEvent => { proof { reveal_strlit("MariadbGtidEvent"); } "MariadbGtidEvent" },
            EventType::MariadbGtidListEvent => { proof { reveal_strlit("MariadbGtidListEvent"); } "MariadbGtidListEvent" },
            EventType::MariadbStartEncryptionEvent => { proof { reveal_strlit("MariadbStartEncryptionEvent"); } "MariadbStartEncryptionEvent" },
            EventType::MariadbQueryCompressedEvent => { proof { reveal_strlit("MariadbQueryCompressedEvent"); } "MariadbQueryCompressedEvent" },
            EventType::MariadbWriteRowsCompressedEventV1 => { proof { reveal_strlit("MariadbWriteRowsCompressedEventV1"); } "MariadbWriteRowsCompressedEventV1" },
            EventType::MariadbUpdateRowsCompressedEventV1 => { proof { reveal_strlit("MariadbUpdateRowsCompressedEventV1"); } "MariadbUpdateRowsCompressedEventV1" },
            EventType::MariadbDeleteRowsCompressedEventV1 => { proof { reveal_strlit("MariadbDeleteRowsCompressedEventV1"); } "MariadbDeleteRowsCompressedEventV1" },
        }
    }
}

impl Default for EventType {
    fn default() -> (r: EventType)
        ensures
            r == EventType::UnknownEvent,
    {
        EventType::UnknownEvent
    }
}

impl From<u8> for EventType {
    fn from(data: u8) -> (r: EventType) {
        let r = EventType::from_code(data);
        proof {
            lemma_event_type_of(data, r);
        }
        r
    }
}

impl FromSpecImpl<u8> for EventType {
    open spec fn obeys_from_spec() -> bool {
        true
    }

    open spec fn from_spec(data: u8) -> EventType {
        event_type_of(data)
    }
}

/// The kind of value that an INTVAR event sets.
#[derive(Debug, Clone, Copy, PartialEq, Eq, Structural)]
pub enum IntVarEventType {
    Invalid,
    LastInsertId,
    InsertId,
}

/// The number that stands for `t`.
pub open spec fn int_var_code(t: IntVarEventType) -> int {
    match t {
        IntVarEventType::Invalid => 0,
        IntVarEventType::LastInsertId => 1,
        IntVarEventType::InsertId => 2,
    }
}

/// The INTVAR kind that byte `t` names; bytes other than 1 and 2 name `Invalid`.
pub open spec fn int_var_of(t: u8) -> IntVarEventType {
    if t == 1 {
        IntVarEventType::LastInsertId
    } else if t == 2 {
        IntVarEventType::InsertId
    } else {
        IntVarEventType::Invalid
    }
}

impl IntVarEventType {
    pub fn new(t: u8) -> (r: IntVarEventType)
        ensures
            r == int_var_of(t),
    {
        match t {
            0 => IntVarEventType::Invalid,
            1 => IntVarEventType::LastInsertId,
            2 => IntVarEventType::InsertId,
            _ => IntVarEventType::Invalid,
        }
    }

    pub fn get_int(&self) -> (r: isize)
        ensures
            r == int_var_code(*self),
    {
        match self {
            IntVarEventType::Invalid => 0,
            IntVarEventType::LastInsertId => 1,
            IntVarEventType::InsertId => 2,
        }
    }

    /// The name of this kind.
    pub fn name(&self) -> (r: &'static str)
        ensures
            r@ == (match *self {
                IntVarEventType::Invalid => "Invalid"@,
                IntVarEventType::LastInsertId => "LastInsertId"@,
                IntVarEventType::InsertId => "InsertId"@,
            }),
    {
        match self {
            IntVarEventType::Invalid => {
                proof {
                    reveal_strlit("Invalid");
                }
                "Invalid"
            },
            IntVarEventType::LastInsertId => {
                proof {
                    reveal_strlit("LastInsertId");
                }
                "LastInsertId"
            },
            IntVarEventType::InsertId => {
                proof {
                    reveal_strlit("InsertId");
                }
                "InsertId"
            },
        }
    }
}

/// Reading a kind's number back gives the kind.
pub proof fn lemma_int_var_roundtrip(t: IntVarEventType)
    ensures
        int_var_of(int_var_code(t) as u8) == t,
{
}

impl Default for IntVarEventType {
    fn default() -> (r: IntVarEventType)
        ensures
            r == IntVarEventType::Invalid,
    {
        IntVarEventType::Invalid
    }
}

impl From<u8> for IntVarEventType {
    fn from(value: u8) -> (r: IntVarEventType) {
        IntVarEventType::new(value)
    }
}

impl FromSpecImpl<u8> for IntVarEventType {
    open spec fn obeys_from_spec() -> bool {
        true
    }

    open spec fn from_spec(value: u8) -> IntVarEventType {
        int_var_of(value)
    }
}

} // verus!
