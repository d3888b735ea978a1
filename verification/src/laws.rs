use vstd::prelude::*;
use crate::consts::{EventType, event_type_name, event_type_code, event_type_of, lemma_event_type_of, lemma_event_type_code_known};
use crate::decode_helper::bit_set;
use crate::error::ReplicationError;
use crate::event::{EventHeader, FormatDescriptionEvent};
use crate::event_enum::EventEnum;
use crate::parser::{BinlogParse, crc32_of, event_decoded_at, event_of, header_result, MAX_PAYLOAD_DEPTH};
use crate::event_enum::BinlogEvent;
use crate::event::header_fields;
use crate::rows_event::{RowsEvent, rows_of, row_at, image_of, first_image_type, EnumRowImageType};
use crate::rows_spec::{FieldContext, FieldModel, image_cols, image_model};
use crate::table_map::TableMapEvent;
use crate::bytes::le_at;
use crate::consts::BINLOG_CHECKSUM_ALG_CRC32;

verus! {

/// The event type that a type's byte names is that type.
pub proof fn law_event_type_roundtrip(t: EventType)
    ensures
        event_type_of(event_type_code(t)) == t,
{
    lemma_event_type_code_known(t);
    lemma_event_type_of(event_type_code(t), t);
}

/// The columns from `i` to `cc` that a columns bitmap leaves out, in order.
pub open spec fn left_out(bitmap: Seq<u8>, i: int, cc: int) -> Seq<isize>
    decreases cc - i,
{
    if i >= cc {
        Seq::empty()
    } else if !bit_set(bitmap, i) {
        seq![i as isize] + left_out(bitmap, i + 1, cc)
    } else {
        left_out(bitmap, i + 1, cc)
    }
}

proof fn lemma_image_cols_shape(
    d: Seq<u8>,
    bitmap: Seq<u8>,
    nulls: Seq<u8>,
    types: Seq<u8>,
    metas: Seq<u16>,
    cc: int,
    c: FieldContext,
    i: int,
    pos: int,
    nidx: int,
)
    requires
        0 <= i <= cc,
        image_cols(d, bitmap, nulls, types, metas, cc, c, i, pos, nidx) is Ok,
    ensures
        ({
            let (row, skips, end) = image_cols(d, bitmap, nulls, types, metas, cc, c, i, pos, nidx)->Ok_0;
            &&& row.len() == cc - i
            &&& forall|k: int| i <= k < cc && !bit_set(bitmap, k) ==> row[k - i] == FieldModel::Null
            &&& skips == left_out(bitmap, i, cc)
        }),
    decreases cc - i,
{
    if i < cc {
        if !bit_set(bitmap, i) {
            lemma_image_cols_shape(d, bitmap, nulls, types, metas, cc, c, i + 1, pos, nidx);
        } else if bit_set(nulls, nidx) {
            lemma_image_cols_shape(d, bitmap, nulls, types, metas, cc, c, i + 1, pos, nidx + 1);
        } else {
            let (m, n) = crate::rows_spec::column_value(d.subrange(pos, d.len() as int), types[i], metas[i], c)->Ok_0;
            lemma_image_cols_shape(d, bitmap, nulls, types, metas, cc, c, i + 1, pos + n, nidx + 1);
        }
    }
}

/// A row image holds one value for each of the table's columns: NULL for each column its
/// columns bitmap leaves out, and those columns, in order, are the ones it reports as
/// skipped.
pub proof fn law_image_shape(
    d: Seq<u8>,
    bitmap: Seq<u8>,
    types: Seq<u8>,
    metas: Seq<u16>,
    cc: int,
    c: FieldContext,
    partial_after: bool,
    json_columns: int,
)
    requires
        cc >= 0,
        image_model(d, bitmap, types, metas, cc, c, partial_after, json_columns) is Ok,
    ensures
        ({
            let (row, skips, end) = image_model(d, bitmap, types, metas, cc, c, partial_after, json_columns)->Ok_0;
            &&& row.len() == cc
            &&& forall|k: int| 0 <= k < cc && !bit_set(bitmap, k) ==> row[k] == FieldModel::Null
            &&& skips == left_out(bitmap, 0, cc)
        }),
{
    let p0 = crate::rows_spec::image_start(d, partial_after, json_columns)->Ok_0;
    let nb = (crate::rows_spec::bits_set_count(bitmap, cc) + 7) / 8;
    lemma_image_cols_shape(d, bitmap, d.subrange(p0, p0 + nb), types, metas, cc, c, 0, p0 + nb, 0);
}

/// Every row image of a decoded rows event holds one value per column, and so does its
/// list of skipped columns per image; an update holds a before and an after image for
/// each row.
pub proof fn law_rows_shape(
    types: Seq<u8>,
    metas: Seq<u16>,
    cc: int,
    c: FieldContext,
    event_type: EventType,
    need_bitmap2: bool,
    bm1: Seq<u8>,
    bm2: Seq<u8>,
    d: Seq<u8>,
    pos: int,
)
    requires
        cc >= 0,
        rows_of(types, metas, cc, c, event_type, need_bitmap2, bm1, bm2, d, pos) is Ok,
    ensures
        ({
            let (rs, ss) = rows_of(types, metas, cc, c, event_type, need_bitmap2, bm1, bm2, d, pos)->Ok_0;
            &&& rs.len() == ss.len()
            &&& forall|j: int| 0 <= j < rs.len() ==> #[trigger] rs[j].len() == cc
            &&& need_bitmap2 ==> rs.len() % 2 == 0
        }),
    decreases (if pos < d.len() {
        d.len() - pos
    } else {
        0
    }),
{
    if !(pos >= d.len() || pos < 0) {
        let (rs1, ss1, np) = row_at(types, metas, cc, c, event_type, need_bitmap2, bm1, bm2, d, pos)->Ok_0;
        let (rs, ss) = rows_of(types, metas, cc, c, event_type, need_bitmap2, bm1, bm2, d, np)->Ok_0;
        law_rows_shape(types, metas, cc, c, event_type, need_bitmap2, bm1, bm2, d, np);
        reveal(image_of);
        let first = first_image_type(event_type);
        let pa1 = event_type == EventType::PartialUpdateRowsEvent && first == EnumRowImageType::UpdateAI;
        let jc = crate::table_map::count_of(types, crate::column_types::MYSQL_TYPE_JSON) as int;
        law_image_shape(d.subrange(pos, d.len() as int), bm1, types, metas, cc, c, pa1, jc);
        if need_bitmap2 {
            let (r1, s1, n1) = image_of(types, metas, cc, c, event_type, d.subrange(pos, d.len() as int), bm1, first)->Ok_0;
            let p2 = pos + n1;
            let pa2 = event_type == EventType::PartialUpdateRowsEvent;
            law_image_shape(d.subrange(p2, d.len() as int), bm2, types, metas, cc, c, pa2, jc);
        }
        let (full_rs, full_ss) = rows_of(types, metas, cc, c, event_type, need_bitmap2, bm1, bm2, d, pos)->Ok_0;
        assert(full_rs == rs1 + rs);
        assert forall|j: int| 0 <= j < full_rs.len() implies #[trigger] full_rs[j].len() == cc by {
            if j < rs1.len() {
                assert(full_rs[j] == rs1[j]);
            } else {
                assert(full_rs[j] == rs[j - rs1.len()]);
            }
        }
    }
}

/// Once a table map is parsed, the parser holds it under its table id.
pub proof fn law_table_map_kept(
    p: BinlogParse,
    after: BinlogParse,
    h: EventHeader,
    d: Seq<u8>,
    raw: Seq<u8>,
    t: TableMapEvent,
)
    requires
        p.parsed(after, h, d, raw, Ok::<EventEnum, ReplicationError>(EventEnum::TableMapEvent(t))),
    ensures
        after.tables@.contains_key(t.table_id),
        after.tables@[t.table_id].same_view(&t),
        forall|k: u64| k != t.table_id ==> (#[trigger] after.tables@.contains_key(k)) == p.tables@.contains_key(k),
        forall|k: u64| k != t.table_id && p.tables@.contains_key(k) ==> #[trigger] after.tables@[k] == p.tables@[k],
{
    let b = p.prepare(h, d, raw)->Ok_0;
    let (e0, e1, rr) = choose|e0: EventEnum, e1: EventEnum, rr: Result<(), ReplicationError>|
        #![trigger p.fresh_event(h, e0), p.settled(after, h, b, e1, rr, Ok::<EventEnum, ReplicationError>(EventEnum::TableMapEvent(t)))]
        p.fresh_event(h, e0) && event_decoded_at(e0, b, e1, rr, MAX_PAYLOAD_DEPTH as nat) && p.settled(after, h, b, e1, rr, Ok::<EventEnum, ReplicationError>(EventEnum::TableMapEvent(t)));
    assert(rr is Ok);
    assert(e1 == EventEnum::TableMapEvent(t));
}

/// A rows event that the parser sets up after it parsed a table map sees that table map
/// under its id: what a rows event reads of a table is what its table map wrote.
pub proof fn law_rows_event_sees_table_map(
    p: BinlogParse,
    mid: BinlogParse,
    h1: EventHeader,
    d1: Seq<u8>,
    raw1: Seq<u8>,
    t: TableMapEvent,
    h2: EventHeader,
    re: RowsEvent,
)
    requires
        p.parsed(mid, h1, d1, raw1, Ok::<EventEnum, ReplicationError>(EventEnum::TableMapEvent(t))),
        mid.fresh_event(h2, EventEnum::RowsEvent(re)),
        crate::parser::is_rows_type(h2.event_type),
        !mid.raw_mode,
        h2.event_type != EventType::TableMapEvent,
    ensures
        re.tables@.contains_key(t.table_id),
        re.tables@[t.table_id].same_view(&t),
{
    law_table_map_kept(p, mid, h1, d1, raw1, t);
    law_event_type_roundtrip(h2.event_type);
}

/// A rows event that ends a statement makes the parser forget the table maps.
pub proof fn law_statement_end_forgets_tables(
    p: BinlogParse,
    after: BinlogParse,
    h: EventHeader,
    d: Seq<u8>,
    raw: Seq<u8>,
    re: RowsEvent,
)
    requires
        p.parsed(after, h, d, raw, Ok::<EventEnum, ReplicationError>(EventEnum::RowsEvent(re))),
        re.flags & 1u16 != 0,
    ensures
        after.tables@ == Map::<u64, TableMapEvent>::empty(),
{
    let b = p.prepare(h, d, raw)->Ok_0;
    let (e0, e1, rr) = choose|e0: EventEnum, e1: EventEnum, rr: Result<(), ReplicationError>|
        #![trigger p.fresh_event(h, e0), p.settled(after, h, b, e1, rr, Ok::<EventEnum, ReplicationError>(EventEnum::RowsEvent(re)))]
        p.fresh_event(h, e0) && event_decoded_at(e0, b, e1, rr, MAX_PAYLOAD_DEPTH as nat) && p.settled(after, h, b, e1, rr, Ok::<EventEnum, ReplicationError>(EventEnum::RowsEvent(re)));
    assert(rr is Ok);
}

/// A format description that is parsed becomes the parser's, and nothing else changes
/// but the table maps.
pub proof fn law_format_description_kept(
    p: BinlogParse,
    after: BinlogParse,
    h: EventHeader,
    d: Seq<u8>,
    raw: Seq<u8>,
    f: FormatDescriptionEvent,
)
    requires
        p.parsed(after, h, d, raw, Ok::<EventEnum, ReplicationError>(EventEnum::FormatDescriptionEvent(f))),
    ensures
        after.format matches Some(g) && g.same_view(&f),
        after.tables == p.tables,
        after == (BinlogParse { format: after.format, ..p }),
{
    let b = p.prepare(h, d, raw)->Ok_0;
    let (e0, e1, rr) = choose|e0: EventEnum, e1: EventEnum, rr: Result<(), ReplicationError>|
        #![trigger p.fresh_event(h, e0), p.settled(after, h, b, e1, rr, Ok::<EventEnum, ReplicationError>(EventEnum::FormatDescriptionEvent(f)))]
        p.fresh_event(h, e0) && event_decoded_at(e0, b, e1, rr, MAX_PAYLOAD_DEPTH as nat) && p.settled(
            after,
            h,
            b,
            e1,
            rr,
            Ok::<EventEnum, ReplicationError>(EventEnum::FormatDescriptionEvent(f)),
        );
    assert(rr is Ok);
}

/// An event whose body fails to decode leaves the table maps as they were.
pub proof fn law_failed_event_keeps_tables(
    p: BinlogParse,
    after: BinlogParse,
    h: EventHeader,
    d: Seq<u8>,
    raw: Seq<u8>,
    r: Result<EventEnum, ReplicationError>,
)
    requires
        p.parsed(after, h, d, raw, r),
        r is Err,
    ensures
        after.tables == p.tables,
{
    match p.prepare(h, d, raw) {
        Err(e) => {},
        Ok(b) => {
            let (e0, e1, rr) = choose|e0: EventEnum, e1: EventEnum, rr: Result<(), ReplicationError>|
                #![trigger p.fresh_event(h, e0), p.settled(after, h, b, e1, rr, r)]
                p.fresh_event(h, e0) && event_decoded_at(e0, b, e1, rr, MAX_PAYLOAD_DEPTH as nat) && p.settled(after, h, b, e1, rr, r);
        },
    }
}

/// Where events carry a CRC-32 checksum and the parser checks it, an event whose checksum
/// does not match is refused and changes nothing.
pub proof fn law_checksum_mismatch_refused(
    p: BinlogParse,
    after: BinlogParse,
    h: EventHeader,
    d: Seq<u8>,
    raw: Seq<u8>,
    r: Result<EventEnum, ReplicationError>,
    f: FormatDescriptionEvent,
)
    requires
        p.format == Some(f),
        f.check_sum_algorithm == BINLOG_CHECKSUM_ALG_CRC32,
        p.verify_checksum,
        h.event_type != EventType::FormatDescriptionEvent,
        crc32_of(raw.subrange(0, raw.len() - 4)) != le_at(raw, raw.len() - 4, 4),
        p.parsed(after, h, d, raw, r),
    ensures
        r == Err::<EventEnum, _>(ReplicationError::ChecksumMismatch),
        after == p,
{
}

} // verus!

verus! {

/// In raw mode only format descriptions and rotate events are decoded: every other event
/// comes back as a generic event that holds its body as it is.
pub proof fn law_raw_mode_keeps_bodies(
    p: BinlogParse,
    after: BinlogParse,
    h: EventHeader,
    d: Seq<u8>,
    raw: Seq<u8>,
    e: EventEnum,
)
    requires
        p.raw_mode,
        h.event_type != EventType::FormatDescriptionEvent,
        h.event_type != EventType::RotateEvent,
        p.parsed(after, h, d, raw, Ok::<EventEnum, ReplicationError>(e)),
    ensures
        e matches EventEnum::GenericEvent(g) && g.data@ == p.prepare(h, d, raw)->Ok_0,
        after == p,
{
    let b = p.prepare(h, d, raw)->Ok_0;
    let (e0, e1, rr) = choose|e0: EventEnum, e1: EventEnum, rr: Result<(), ReplicationError>|
        #![trigger p.fresh_event(h, e0), p.settled(after, h, b, e1, rr, Ok::<EventEnum, ReplicationError>(e))]
        p.fresh_event(h, e0) && event_decoded_at(e0, b, e1, rr, MAX_PAYLOAD_DEPTH as nat) && p.settled(after, h, b, e1, rr, Ok::<EventEnum, ReplicationError>(e));
    assert(rr is Ok);
}

} // verus!

verus! {

/// Distinct event types have distinct names, so a name tells the type it was given for.
pub proof fn law_event_type_names_distinct(a: EventType, b: EventType)
    ensures
        (event_type_name(a) == event_type_name(b)) == (a == b),
{
    reveal_strlit("UnknownEvent");
    reveal_strlit("StartEventV3");
    reveal_strlit("QueryEvent");
    reveal_strlit("StopEvent");
    reveal_strlit("RotateEvent");
    reveal_strlit("IntvarEvent");
    reveal_strlit("LoadEvent");
    reveal_strlit("SlaveEvent");
    reveal_strlit("CreateFileEvent");
    reveal_strlit("AppendBlockEvent");
    reveal_strlit("ExecLoadEvent");
    reveal_strlit("DeleteFileEvent");
    reveal_strlit("NewLoadEvent");
    reveal_strlit("RandEvent");
    reveal_strlit("UserVarEvent");
    reveal_strlit("FormatDescriptionEvent");
    reveal_strlit("XidEvent");
    reveal_strlit("BeginLoadQueryEvent");
    reveal_strlit("ExecuteLoadQueryEvent");
    reveal_strlit("TableMapEvent");
    reveal_strlit("WriteRowsEventv0");
    reveal_strlit("UpdateRowsEventv0");
    reveal_strlit("DeleteRowsEventv0");
    reveal_strlit("WriteRowsEventv1");
    reveal_strlit("UpdateRowsEventv1");
    reveal_strlit("DeleteRowsEventv1");
    reveal_strlit("IncidentEvent");
    reveal_strlit("HeartbeatEvent");
    reveal_strlit("IgnorableEvent");
    reveal_strlit("RowsQueryEvent");
    reveal_strlit("WriteRowsEventv2");
    reveal_strlit("UpdateRowsEventv2");
    reveal_strlit("DeleteRowsEventv2");
    reveal_strlit("GtidEvent");
    reveal_strlit("AnonymousGtidEvent");
    reveal_strlit("PreviousGtidsEvent");
    reveal_strlit("TransactionContextEvent");
    reveal_strlit("ViewChangeEvent");
    reveal_strlit("XaPrepareLogEvent");
    reveal_strlit("PartialUpdateRowsEvent");
    reveal_strlit("TransactionPayloadEvent");
    reveal_strlit("HeartbeatLogEventV2");
    reveal_strlit("MariadbAnnotateRowsEvent");
    reveal_strlit("MariadbBinlogCheckpointEvent");
    reveal_strlit("MariadbGtidEvent");
    reveal_strlit("MariadbGtidListEvent");
    reveal_strlit("MariadbStartEncryptionEvent");
    reveal_strlit("MariadbQueryCompressedEvent");
    reveal_strlit("MariadbWriteRowsCompressedEventV1");
    reveal_strlit("MariadbUpdateRowsCompressedEventV1");
    reveal_strlit("MariadbDeleteRowsCompressedEventV1");
    if event_type_name(a) == event_type_name(b) {
        // the length and the characters at 0, 1, 7, 15 and 16 tell every two names apart
        assert(event_type_name(a).len() == event_type_name(b).len());
        assert(event_type_name(a)[0] == event_type_name(b)[0]);
        assert(event_type_name(a)[1] == event_type_name(b)[1]);
        assert(event_type_name(a)[7] == event_type_name(b)[7]);
        assert(event_type_name(a)[15] == event_type_name(b)[15]);
        assert(event_type_name(a)[16] == event_type_name(b)[16]);
    }
}

} // verus!

verus! {

/// What `parse` does with a whole event is what the laws above speak of: a decoded event is
/// `parsed` from its header and body, and a refused one leaves the table maps as they were.
pub proof fn law_parse_steps(p: BinlogParse, after: BinlogParse, data: Seq<u8>, r: Result<BinlogEvent, ReplicationError>)
    requires
        p.parse_post(after, data, r),
    ensures
        r is Ok ==> p.parsed(after, header_fields(data), data.subrange(19, data.len() as int), data, event_of(r)),
        r is Err ==> after.tables == p.tables,
{
    if r is Err {
        match header_result(data) {
            Err(e) => {},
            Ok(h) => {
                if data.len() == h.event_size as int {
                    law_failed_event_keeps_tables(p, after, h, data.subrange(19, data.len() as int), data, event_of(r));
                }
            },
        }
    }
}

} // verus!

verus! {

/// The rows event set up for a rows event header: the update types (UPDATE_ROWS v1 and
/// v2, MariaDB's compressed update, and the partial update) read a second columns bitmap,
/// so each of their rows has a before and an after image, and no other type does; the
/// version is 0 for the v0 types, 2 for the v2 types and the partial update, and 1
/// otherwise; MariaDB's three compressed types are marked compressed.
pub proof fn law_rows_event_setup(p: BinlogParse, h: EventHeader, re: RowsEvent)
    requires
        p.fresh_event(h, EventEnum::RowsEvent(re)),
    ensures
        ({
            let t = h.event_type;
            &&& re.event_type == t
            &&& re.need_bitmap2 == (t == EventType::UpdateRowsEventv1 || t == EventType::UpdateRowsEventv2
                || t == EventType::MariadbUpdateRowsCompressedEventV1 || t == EventType::PartialUpdateRowsEvent)
            &&& re.version == (if t == EventType::WriteRowsEventv0 || t == EventType::UpdateRowsEventv0 || t
                == EventType::DeleteRowsEventv0 {
                0isize
            } else if t == EventType::WriteRowsEventv2 || t == EventType::UpdateRowsEventv2 || t
                == EventType::DeleteRowsEventv2 || t == EventType::PartialUpdateRowsEvent {
                2isize
            } else {
                1isize
            })
            &&& re.compressed == (t == EventType::MariadbWriteRowsCompressedEventV1 || t
                == EventType::MariadbUpdateRowsCompressedEventV1 || t == EventType::MariadbDeleteRowsCompressedEventV1)
        }),
{
}

} // verus!
