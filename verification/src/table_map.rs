use vstd::prelude::*;
use std::collections::HashMap;
use crate::bytes::{le_at, fixed_le, copy_range, copy_vec, copy_bytes_list, lenenc_int, lenenc_str, length_encoded_int, length_encoded_string, lemma_fixed_le_bound, byte_pow};
use crate::column_types::{MYSQL_TYPE_STRING, MYSQL_TYPE_ENUM, MYSQL_TYPE_SET, MYSQL_TYPE_DATE, MYSQL_TYPE_NEWDATE,
    MYSQL_TYPE_TINY, MYSQL_TYPE_SHORT, MYSQL_TYPE_INT24, MYSQL_TYPE_LONG, MYSQL_TYPE_LONGLONG, MYSQL_TYPE_NEWDECIMAL,
    MYSQL_TYPE_FLOAT, MYSQL_TYPE_DOUBLE, MYSQL_TYPE_VAR_STRING, MYSQL_TYPE_VARCHAR, MYSQL_TYPE_BLOB, MYSQL_TYPE_GEOMETRY,
    MYSQL_TYPE_JSON, MYSQL_TYPE_BIT, MYSQL_TYPE_TIME2, MYSQL_TYPE_DATETIME2, MYSQL_TYPE_TIMESTAMP2, MYSQL_TYPE_TINY_BLOB,
    MYSQL_TYPE_MEDIUM_BLOB, MYSQL_TYPE_LONG_BLOB};
use crate::consts::{TABLE_MAP_OPT_META_SIGNEDNESS, TABLE_MAP_OPT_META_DEFAULT_CHARSET, TABLE_MAP_OPT_META_COLUMN_CHARSET,
    TABLE_MAP_OPT_META_COLUMN_NAME, TABLE_MAP_OPT_META_SET_STR_VALUE, TABLE_MAP_OPT_META_ENUM_STR_VALUE,
    TABLE_MAP_OPT_META_GEOMETRY_TYPE, TABLE_MAP_OPT_META_SIMPLE_PRIMARY_KEY, TABLE_MAP_OPT_META_PRIMARY_KEY_WITH_PREFIX,
    TABLE_MAP_OPT_META_ENUM_AND_SET_DEFAULT_CHARSET, TABLE_MAP_OPT_META_ENUM_AND_SET_COLUMN_CHARSET};
use crate::error::ReplicationError;
use crate::event::Event;
use crate::text::{utf8_lossy, lossy_string};

verus! {

/// The bytes a bitmap of `column_count` bits takes.
pub open spec fn bitmap_bytes(column_count: int) -> int {
    (column_count + 7) / 8
}

/// The bytes a bitmap of `column_count` bits takes.
pub fn bitmap_byte_size(column_count: isize) -> (r: isize)
    requires
        column_count <= isize::MAX - 7,
    ensures
        r == (if column_count + 7 >= 0 {
            bitmap_bytes(column_count as int)
        } else {
            -((-(column_count + 7)) / 8)
        }),
{
    (column_count + 7) / 8
}


/// The type a column really has: a STRING column may stand for an ENUM or SET, whose type
/// its metadata's high byte names, and DATE is reported as NEWDATE.
pub open spec fn real_type_of(types: Seq<u8>, metas: Seq<u16>, i: int) -> u8 {
    let t = types[i];
    if t == MYSQL_TYPE_STRING {
        let r = (metas[i] / 256) as u8;
        if r == MYSQL_TYPE_ENUM || r == MYSQL_TYPE_SET {
            r
        } else {
            t
        }
    } else if t == MYSQL_TYPE_DATE {
        MYSQL_TYPE_NEWDATE
    } else {
        t
    }
}

/// How many times `t` occurs in `s`.
pub open spec fn count_of(s: Seq<u8>, t: u8) -> nat
    decreases s.len(),
{
    if s.len() == 0 {
        0
    } else {
        count_of(s.drop_last(), t) + if s.last() == t {
            1nat
        } else {
            0nat
        }
    }
}

/// Whether a column of real type `t` is numeric.
pub open spec fn numeric_type(t: u8) -> bool {
    t == MYSQL_TYPE_TINY || t == MYSQL_TYPE_SHORT || t == MYSQL_TYPE_INT24 || t == MYSQL_TYPE_LONG
        || t == MYSQL_TYPE_LONGLONG || t == MYSQL_TYPE_NEWDECIMAL || t == MYSQL_TYPE_FLOAT || t
        == MYSQL_TYPE_DOUBLE
}

/// Whether a column of real type `t` holds characters; GEOMETRY does on MariaDB.
pub open spec fn character_type(t: u8, mariadb: bool) -> bool {
    t == MYSQL_TYPE_STRING || t == MYSQL_TYPE_VAR_STRING || t == MYSQL_TYPE_VARCHAR || t
        == MYSQL_TYPE_BLOB || (t == MYSQL_TYPE_GEOMETRY && mariadb)
}

/// Bit `p` of `bitmap`, the high bit of each byte first.
pub open spec fn msb_bit_set(bitmap: Seq<u8>, p: int) -> bool {
    (bitmap[p / 8] >> ((7 - p % 8) as u8)) & 1u8 == 1u8
}

/// The exceptions to the default collation in the first `k` pairs of `dc` (after its
/// first item): character column rank to collation, a later pair winning.
pub open spec fn charset_pairs(dc: Seq<u64>, k: nat) -> Map<isize, u64>
    decreases k,
{
    if k == 0 {
        Map::empty()
    } else {
        charset_pairs(dc, (k - 1) as nat).insert(dc[2 * k - 1] as isize, dc[2 * k as int])
    }
}

/// The collation of the column of rank `p`: its exception, else `default`.
pub open spec fn default_collation_of(pm: Map<isize, u64>, default: u64, p: nat) -> u64 {
    if pm.contains_key(p as isize) {
        pm[p as isize]
    } else {
        default
    }
}

/// The collation map of the columns of `kind`, given a default charset list and a column
/// charset list.
pub open spec fn collation_result(t: &TableMapEvent, kind: ColumnKind, dc: Seq<u64>, cs: Seq<u64>) -> Map<isize, u64> {
    if dc.len() > 0 {
        let pm = charset_pairs(dc, ((dc.len() - 1) / 2) as nat);
        t.kind_map(kind, |i: isize| default_collation_of(pm, dc[0], t.kind_rank(kind, i as int)))
    } else if cs.len() > 0 {
        t.kind_map(kind, |i: isize| cs[t.kind_rank(kind, i as int) as int])
    } else {
        Map::empty()
    }
}

/// The kinds of column that the column maps select.
#[derive(Debug, Clone, Copy, PartialEq, Eq, Structural)]
pub enum ColumnKind {
    Numeric,
    Character,
    EnumColumn,
    SetColumn,
    EnumOrSet,
    Geometry,
}

/// A table map event: the table's identity and the types and metadata of its columns.
#[derive(Debug, Clone)]
pub struct TableMapEvent {
    pub flavor: String,
    pub table_id_size: isize,
    pub table_id: u64,
    pub flags: u16,
    pub schema: Vec<u8>,
    pub table: Vec<u8>,
    pub column_count: u64,
    pub column_type: Vec<u8>,
    pub column_meta: Vec<u16>,
    /// One bit per column, set where the column may be NULL.
    pub null_bitmap: Vec<u8>,
    /// One bit per numeric column, high bit first, set where the column is unsigned.
    pub signedness_bitmap: Vec<u8>,
    /// The default collation, then pairs of character column index and collation.
    pub default_charset: Vec<u64>,
    /// The collation of each character column.
    pub column_charset: Vec<u64>,
    pub set_str_value: Vec<Vec<Vec<u8>>>,
    pub _set_str_value_string: Vec<Vec<String>>,
    pub enum_str_value: Vec<Vec<Vec<u8>>>,
    pub _enum_str_value_string: Vec<Vec<String>>,
    pub column_name: Vec<Vec<u8>>,
    pub _column_name_string: Vec<String>,
    pub geometry_type: Vec<u64>,
    /// The column indexes of the primary key.
    pub primary_key: Vec<u64>,
    /// The prefix length of each primary key column, 0 for the whole column.
    pub primary_key_prefix: Vec<u64>,
    pub enum_set_default_charset: Vec<u64>,
    pub enum_set_column_charset: Vec<u64>,
}

/// A table map as it is before any body is decoded into it.
pub open spec fn blank_table(t: TableMapEvent) -> bool {
    &&& t.table_id == 0 && t.flags == 0 && t.column_count == 0
    &&& t.schema@.len() == 0 && t.table@.len() == 0 && t.column_type@.len() == 0
    &&& t.column_meta@.len() == 0 && t.null_bitmap@.len() == 0 && t.signedness_bitmap@.len() == 0
    &&& t.default_charset@.len() == 0 && t.column_charset@.len() == 0
    &&& t.set_str_value@.len() == 0 && t.enum_str_value@.len() == 0 && t.column_name@.len() == 0
    &&& t.geometry_type@.len() == 0 && t.primary_key@.len() == 0 && t.primary_key_prefix@.len() == 0
    &&& t.enum_set_default_charset@.len() == 0 && t.enum_set_column_charset@.len() == 0
    &&& t.set_str_cache().len() == 0 && t.enum_str_cache().len() == 0 && t.column_name_cache().len() == 0
}

impl Default for TableMapEvent {
    fn default() -> (r: TableMapEvent)
        ensures
            r.flavor@ == Seq::<char>::empty(),
            r.table_id_size == 0 && r.table_id == 0 && r.flags == 0 && r.column_count == 0,
            r.schema@.len() == 0 && r.table@.len() == 0 && r.column_type@.len() == 0,
            r.column_meta@.len() == 0 && r.null_bitmap@.len() == 0 && r.signedness_bitmap@.len() == 0,
            r.default_charset@.len() == 0 && r.column_charset@.len() == 0,
            r.set_str_value@.len() == 0 && r.enum_str_value@.len() == 0 && r.column_name@.len() == 0,
            r.geometry_type@.len() == 0 && r.primary_key@.len() == 0 && r.primary_key_prefix@.len() == 0,
            r.enum_set_default_charset@.len() == 0 && r.enum_set_column_charset@.len() == 0,
            r.set_str_cache().len() == 0 && r.enum_str_cache().len() == 0 && r.column_name_cache().len() == 0,
    {
        TableMapEvent {
            flavor: String::new(),
            table_id_size: 0,
            table_id: 0,
            flags: 0,
            schema: Vec::new(),
            table: Vec::new(),
            column_count: 0,
            column_type: Vec::new(),
            column_meta: Vec::new(),
            null_bitmap: Vec::new(),
            signedness_bitmap: Vec::new(),
            default_charset: Vec::new(),
            column_charset: Vec::new(),
            set_str_value: Vec::new(),
            _set_str_value_string: Vec::new(),
            enum_str_value: Vec::new(),
            _enum_str_value_string: Vec::new(),
            column_name: Vec::new(),
            _column_name_string: Vec::new(),
            geometry_type: Vec::new(),
            primary_key: Vec::new(),
            primary_key_prefix: Vec::new(),
            enum_set_default_charset: Vec::new(),
            enum_set_column_charset: Vec::new(),
        }
    }
}

/// The texts of a list of byte strings.
pub open spec fn lossy_list(v: Seq<Seq<u8>>) -> Seq<Seq<char>> {
    Seq::new(v.len(), |i: int| utf8_lossy(v[i]))
}

/// The texts of a list of lists of byte strings.
pub open spec fn lossy_lists(v: Seq<Seq<Seq<u8>>>) -> Seq<Seq<Seq<char>>> {
    Seq::new(v.len(), |i: int| lossy_list(v[i]))
}

/// The bytes of each of a list of byte vectors.
pub open spec fn bytes_view(v: Seq<Vec<u8>>) -> Seq<Seq<u8>> {
    Seq::new(v.len(), |i: int| v[i]@)
}

/// The bytes of each of a list of lists of byte vectors.
pub open spec fn bytes_lists_view(v: Seq<Vec<Vec<u8>>>) -> Seq<Seq<Seq<u8>>> {
    Seq::new(v.len(), |i: int| bytes_view(v[i]@))
}

/// The text of each of a list of strings.
pub open spec fn strings_view(v: Seq<String>) -> Seq<Seq<char>> {
    Seq::new(v.len(), |i: int| v[i]@)
}

/// The text of each of a list of lists of strings.
pub open spec fn strings_lists_view(v: Seq<Vec<String>>) -> Seq<Seq<Seq<char>>> {
    Seq::new(v.len(), |i: int| strings_view(v[i]@))
}

/// A copy of a list of lists of byte vectors.
fn copy_bytes_lists(v: &Vec<Vec<Vec<u8>>>) -> (r: Vec<Vec<Vec<u8>>>)
    ensures
        bytes_lists_view(r@) == bytes_lists_view(v@),
{
    let mut r: Vec<Vec<Vec<u8>>> = Vec::new();
    let mut i: usize = 0;
    while i < v.len()
        invariant
            i <= v@.len(),
            r@.len() == i,
            forall|j: int| 0 <= j < i ==> bytes_view((#[trigger] r@[j])@) == bytes_view(v@[j]@),
        decreases v.len() - i,
    {
        let c = copy_bytes_list(&v[i]);
        assert(bytes_view(c@) =~= bytes_view(v@[i as int]@));
        r.push(c);
        i = i + 1;
    }
    assert(bytes_lists_view(r@) =~= bytes_lists_view(v@));
    r
}

/// Copies a list of strings.
fn copy_strings(v: &Vec<String>) -> (r: Vec<String>)
    ensures
        strings_view(r@) == strings_view(v@),
{
    let mut r: Vec<String> = Vec::new();
    let mut i: usize = 0;
    while i < v.len()
        invariant
            i <= v@.len(),
            r@.len() == i,
            forall|j: int| 0 <= j < i ==> (#[trigger] r@[j])@ == v@[j]@,
        decreases v.len() - i,
    {
        r.push(v[i].clone());
        i = i + 1;
    }
    assert(strings_view(r@) =~= strings_view(v@));
    r
}

/// Copies a list of lists of strings.
fn copy_string_lists(v: &Vec<Vec<String>>) -> (r: Vec<Vec<String>>)
    ensures
        strings_lists_view(r@) == strings_lists_view(v@),
{
    let mut r: Vec<Vec<String>> = Vec::new();
    let mut i: usize = 0;
    while i < v.len()
        invariant
            i <= v@.len(),
            r@.len() == i,
            forall|j: int| 0 <= j < i ==> strings_view((#[trigger] r@[j])@) == strings_view(v@[j]@),
        decreases v.len() - i,
    {
        r.push(copy_strings(&v[i]));
        i = i + 1;
    }
    assert(strings_lists_view(r@) =~= strings_lists_view(v@));
    r
}

impl TableMapEvent {
    /// The cached texts of the SET values.
    pub open spec fn set_str_cache(&self) -> Seq<Seq<Seq<char>>> {
        strings_lists_view(self._set_str_value_string@)
    }

    /// The cached texts of the ENUM values.
    pub open spec fn enum_str_cache(&self) -> Seq<Seq<Seq<char>>> {
        strings_lists_view(self._enum_str_value_string@)
    }

    /// The cached texts of the column names.
    pub open spec fn column_name_cache(&self) -> Seq<Seq<char>> {
        strings_view(self._column_name_string@)
    }

    /// Whether column `i` has a type, and a metadata entry where its type needs one.
    pub open spec fn has_column(&self, i: int) -> bool {
        &&& 0 <= i < self.column_type@.len()
        &&& self.column_type@[i] == MYSQL_TYPE_STRING ==> i < self.column_meta@.len()
    }

    /// The real type of column `i`.
    pub open spec fn real_type_spec(&self, i: int) -> u8 {
        real_type_of(self.column_type@, self.column_meta@, i)
    }

    /// Whether the table map comes from MariaDB.
    pub open spec fn is_mariadb(&self) -> bool {
        self.flavor@ == "mariadb"@
    }

    /// The real type of column `i`: for a STRING column, the type its metadata names.
    pub fn real_type(&self, i: usize) -> (r: u8)
        requires
            self.has_column(i as int),
        ensures
            r == self.real_type_spec(i as int),
    {
        let typ = self.column_type[i];
        if typ == MYSQL_TYPE_STRING {
            let m = self.column_meta[i];
            let rtyp = (m >> 8) as u8;
            assert(m >> 8 == m / 256) by (bit_vector);
            if rtyp == MYSQL_TYPE_ENUM || rtyp == MYSQL_TYPE_SET {
                return rtyp;
            }
            typ
        } else if typ == MYSQL_TYPE_DATE {
            MYSQL_TYPE_NEWDATE
        } else {
            typ
        }
    }

    /// Whether column `i` is numeric.
    pub fn is_numeric_column(&self, i: usize) -> (r: bool)
        requires
            self.has_column(i as int),
        ensures
            r == numeric_type(self.real_type_spec(i as int)),
    {
        let t = self.real_type(i);
        t == MYSQL_TYPE_TINY || t == MYSQL_TYPE_SHORT || t == MYSQL_TYPE_INT24 || t == MYSQL_TYPE_LONG
            || t == MYSQL_TYPE_LONGLONG || t == MYSQL_TYPE_NEWDECIMAL || t == MYSQL_TYPE_FLOAT || t
            == MYSQL_TYPE_DOUBLE
    }

    /// Whether column `i` holds characters; JSON and GEOMETRY are such on MariaDB.
    pub fn is_character_column(&self, i: usize) -> (r: bool)
        requires
            self.has_column(i as int),
        ensures
            r == character_type(self.real_type_spec(i as int), self.is_mariadb()),
    {
        let t = self.real_type(i);
        if t == MYSQL_TYPE_STRING || t == MYSQL_TYPE_VAR_STRING || t == MYSQL_TYPE_VARCHAR || t
            == MYSQL_TYPE_BLOB {
            true
        } else if t == MYSQL_TYPE_GEOMETRY {
            let m = crate::text::text("mariadb");
            self.flavor == m
        } else {
            false
        }
    }

    /// Whether column `i` is an ENUM.
    pub fn is_enum_column(&self, i: usize) -> (r: bool)
        requires
            self.has_column(i as int),
        ensures
            r == (self.real_type_spec(i as int) == MYSQL_TYPE_ENUM),
    {
        self.real_type(i) == MYSQL_TYPE_ENUM
    }

    /// Whether column `i` is a SET.
    pub fn is_set_column(&self, i: usize) -> (r: bool)
        requires
            self.has_column(i as int),
        ensures
            r == (self.real_type_spec(i as int) == MYSQL_TYPE_SET),
    {
        self.real_type(i) == MYSQL_TYPE_SET
    }

    /// Whether column `i` is a GEOMETRY.
    pub fn is_geometry_column(&self, i: usize) -> (r: bool)
        requires
            self.has_column(i as int),
        ensures
            r == (self.real_type_spec(i as int) == MYSQL_TYPE_GEOMETRY),
    {
        self.real_type(i) == MYSQL_TYPE_GEOMETRY
    }

    /// Whether column `i` is an ENUM or a SET.
    pub fn is_enum_or_set_column(&self, i: usize) -> (r: bool)
        requires
            self.has_column(i as int),
        ensures
            r == (self.real_type_spec(i as int) == MYSQL_TYPE_ENUM || self.real_type_spec(i as int)
                == MYSQL_TYPE_SET),
    {
        let rtyp = self.real_type(i);
        rtyp == MYSQL_TYPE_ENUM || rtyp == MYSQL_TYPE_SET
    }

    /// The number of JSON columns.
    pub fn json_column_count(&self) -> (r: u64)
        ensures
            r == count_of(self.column_type@, MYSQL_TYPE_JSON),
    {
        let mut count: u64 = 0;
        let mut i: usize = 0;
        while i < self.column_type.len()
            invariant
                i <= self.column_type@.len(),
                count == count_of(self.column_type@.subrange(0, i as int), MYSQL_TYPE_JSON),
                count <= i,
            decreases self.column_type.len() - i,
        {
            proof {
                let s = self.column_type@.subrange(0, i + 1);
                assert(s.drop_last() =~= self.column_type@.subrange(0, i as int));
            }
            if self.column_type[i] == MYSQL_TYPE_JSON {
                count = count + 1;
            }
            i = i + 1;
        }
        assert(self.column_type@.subrange(0, i as int) =~= self.column_type@);
        count
    }

    /// Whether column `i` may be NULL: `(false, false)` where the table map has no null
    /// bits.
    pub fn nullable(&self, i: usize) -> (r: (bool, bool))
        requires
            self.null_bitmap@.len() == 0 || i / 8 < self.null_bitmap@.len(),
        ensures
            self.null_bitmap@.len() == 0 ==> r == (false, false),
            self.null_bitmap@.len() > 0 ==> r == (true, crate::decode_helper::bit_set(self.null_bitmap@, i as int)),
    {
        if self.null_bitmap.len() == 0 {
            return (false, false);
        }
        let b = self.null_bitmap[i / 8];
        (true, (b >> ((i % 8) as u8)) & 1u8 == 1u8)
    }

    /// Whether column `i` is of the given kind.
    pub open spec fn kind_matches(&self, kind: ColumnKind, i: int) -> bool {
        let t = self.real_type_spec(i);
        match kind {
            ColumnKind::Numeric => numeric_type(t),
            ColumnKind::Character => character_type(t, self.is_mariadb()),
            ColumnKind::EnumColumn => t == MYSQL_TYPE_ENUM,
            ColumnKind::SetColumn => t == MYSQL_TYPE_SET,
            ColumnKind::EnumOrSet => t == MYSQL_TYPE_ENUM || t == MYSQL_TYPE_SET,
            ColumnKind::Geometry => t == MYSQL_TYPE_GEOMETRY,
        }
    }

    /// How many of the columns before `i` are of the given kind.
    pub open spec fn kind_rank(&self, kind: ColumnKind, i: int) -> nat
        decreases i,
    {
        if i <= 0 {
            0
        } else {
            self.kind_rank(kind, i - 1) + if self.kind_matches(kind, i - 1) {
                1nat
            } else {
                0nat
            }
        }
    }

    /// Whether every one of the `column_count` columns has a type and the metadata it needs.
    pub open spec fn columns_known(&self) -> bool {
        &&& self.column_count <= self.column_type@.len()
        &&& self.column_count < isize::MAX
        &&& forall|i: int| 0 <= i < self.column_count ==> #[trigger] self.has_column(i)
    }

    /// The columns of the given kind, each mapped by `f` of its index.
    pub open spec fn kind_map<V>(&self, kind: ColumnKind, f: spec_fn(isize) -> V) -> Map<isize, V> {
        Map::new(|i: isize| 0 <= i < self.column_count && self.kind_matches(kind, i as int), f)
    }

    fn column_is(&self, kind: ColumnKind, i: usize) -> (r: bool)
        requires
            self.has_column(i as int),
        ensures
            r == self.kind_matches(kind, i as int),
    {
        match kind {
            ColumnKind::Numeric => self.is_numeric_column(i),
            ColumnKind::Character => self.is_character_column(i),
            ColumnKind::EnumColumn => self.is_enum_column(i),
            ColumnKind::SetColumn => self.is_set_column(i),
            ColumnKind::EnumOrSet => self.is_enum_or_set_column(i),
            ColumnKind::Geometry => self.is_geometry_column(i),
        }
    }

    /// Ranks do not fall as the column index grows.
    pub proof fn lemma_rank_mono(&self, kind: ColumnKind, a: int, b: int)
        requires
            a <= b,
        ensures
            self.kind_rank(kind, a) <= self.kind_rank(kind, b),
        decreases b - a,
    {
        if a < b {
            self.lemma_rank_mono(kind, a, b - 1);
        }
    }

    /// Column index to whether the column is unsigned, for the numeric columns; empty
    /// where the table map has no signedness bits.
    pub fn unsigned_map(&self) -> (r: HashMap<isize, bool>)
        requires
            self.columns_known(),
            self.signedness_bitmap@.len() > 0 ==> self.kind_rank(ColumnKind::Numeric, self.column_count as int)
                <= 8 * self.signedness_bitmap@.len(),
        ensures
            self.signedness_bitmap@.len() == 0 ==> r@ == Map::<isize, bool>::empty(),
            self.signedness_bitmap@.len() > 0 ==> r@ == self.kind_map(
                ColumnKind::Numeric,
                |i: isize| msb_bit_set(self.signedness_bitmap@, self.kind_rank(ColumnKind::Numeric, i as int) as int),
            ),
    {
        broadcast use vstd::std_specs::hash::group_hash_axioms;

        let mut ret: HashMap<isize, bool> = HashMap::new();
        if self.signedness_bitmap.len() == 0 {
            return ret;
        }
        let ghost bm = self.signedness_bitmap@;
        let mut p: usize = 0;
        let mut i: usize = 0;
        let cc = self.column_count as usize;
        while i < cc
            invariant
                self.columns_known(),
                cc == self.column_count,
                bm == self.signedness_bitmap@,
                bm.len() > 0,
                self.kind_rank(ColumnKind::Numeric, cc as int) <= 8 * bm.len(),
                i <= cc,
                p == self.kind_rank(ColumnKind::Numeric, i as int),
                p <= i,
                ret@ == Map::new(
                    |k: isize| 0 <= k < i && self.kind_matches(ColumnKind::Numeric, k as int),
                    |k: isize| msb_bit_set(bm, self.kind_rank(ColumnKind::Numeric, k as int) as int),
                ),
            decreases cc - i,
        {
            assert(self.has_column(i as int));
            proof {
                self.lemma_rank_mono(ColumnKind::Numeric, i as int + 1, cc as int);
            }
            if self.is_numeric_column(i) {
                let b = self.signedness_bitmap[p / 8];
                let v = (b >> (7 - (p % 8) as u8)) & 1u8 == 1u8;
                ret.insert(i as isize, v);
                p = p + 1;
            }
            i = i + 1;
            assert(ret@ =~= Map::new(
                |k: isize| 0 <= k < i && self.kind_matches(ColumnKind::Numeric, k as int),
                |k: isize| msb_bit_set(bm, self.kind_rank(ColumnKind::Numeric, k as int) as int),
            ));
        }
        assert(ret@ =~= self.kind_map(
            ColumnKind::Numeric,
            |i: isize| msb_bit_set(bm, self.kind_rank(ColumnKind::Numeric, i as int) as int),
        ));
        ret
    }

    /// Whether the two table maps hold the same values, field by field.
    pub open spec fn same_view(&self, other: &TableMapEvent) -> bool {
        &&& self.flavor@ == other.flavor@
        &&& self.table_id_size == other.table_id_size
        &&& self.table_id == other.table_id
        &&& self.flags == other.flags
        &&& self.schema@ == other.schema@
        &&& self.table@ == other.table@
        &&& self.column_count == other.column_count
        &&& self.column_type@ == other.column_type@
        &&& self.column_meta@ == other.column_meta@
        &&& self.null_bitmap@ == other.null_bitmap@
        &&& self.signedness_bitmap@ == other.signedness_bitmap@
        &&& self.default_charset@ == other.default_charset@
        &&& self.column_charset@ == other.column_charset@
        &&& bytes_lists_view(self.set_str_value@) == bytes_lists_view(other.set_str_value@)
        &&& bytes_lists_view(self.enum_str_value@) == bytes_lists_view(other.enum_str_value@)
        &&& bytes_view(self.column_name@) == bytes_view(other.column_name@)
        &&& self.geometry_type@ == other.geometry_type@
        &&& self.primary_key@ == other.primary_key@
        &&& self.primary_key_prefix@ == other.primary_key_prefix@
        &&& self.enum_set_default_charset@ == other.enum_set_default_charset@
        &&& self.enum_set_column_charset@ == other.enum_set_column_charset@
        &&& self.set_str_cache() == other.set_str_cache()
        &&& self.enum_str_cache() == other.enum_str_cache()
        &&& self.column_name_cache() == other.column_name_cache()
    }

    /// A copy of the table map.
    pub fn duplicate(&self) -> (r: TableMapEvent)
        ensures
            r.same_view(self),
    {
        let cn = copy_bytes_list(&self.column_name);
        assert(bytes_view(cn@) =~= bytes_view(self.column_name@));
        TableMapEvent {
            flavor: self.flavor.clone(),
            table_id_size: self.table_id_size,
            table_id: self.table_id,
            flags: self.flags,
            schema: copy_vec(&self.schema),
            table: copy_vec(&self.table),
            column_count: self.column_count,
            column_type: copy_vec(&self.column_type),
            column_meta: copy_vec(&self.column_meta),
            null_bitmap: copy_vec(&self.null_bitmap),
            signedness_bitmap: copy_vec(&self.signedness_bitmap),
            default_charset: copy_vec(&self.default_charset),
            column_charset: copy_vec(&self.column_charset),
            set_str_value: copy_bytes_lists(&self.set_str_value),
            _set_str_value_string: copy_string_lists(&self._set_str_value_string),
            enum_str_value: copy_bytes_lists(&self.enum_str_value),
            _enum_str_value_string: copy_string_lists(&self._enum_str_value_string),
            column_name: cn,
            _column_name_string: copy_strings(&self._column_name_string),
            geometry_type: copy_vec(&self.geometry_type),
            primary_key: copy_vec(&self.primary_key),
            primary_key_prefix: copy_vec(&self.primary_key_prefix),
            enum_set_default_charset: copy_vec(&self.enum_set_default_charset),
            enum_set_column_charset: copy_vec(&self.enum_set_column_charset),
        }
    }

    /// Whether the two table maps agree on everything but the cached texts.
    pub open spec fn same_data(&self, other: &TableMapEvent) -> bool {
        &&& self.flavor == other.flavor
        &&& self.table_id_size == other.table_id_size
        &&& self.table_id == other.table_id
        &&& self.flags == other.flags
        &&& self.schema == other.schema
        &&& self.table == other.table
        &&& self.column_count == other.column_count
        &&& self.column_type == other.column_type
        &&& self.column_meta == other.column_meta
        &&& self.null_bitmap == other.null_bitmap
        &&& self.signedness_bitmap == other.signedness_bitmap
        &&& self.default_charset == other.default_charset
        &&& self.column_charset == other.column_charset
        &&& self.set_str_value == other.set_str_value
        &&& self.enum_str_value == other.enum_str_value
        &&& self.column_name == other.column_name
        &&& self.geometry_type == other.geometry_type
        &&& self.primary_key == other.primary_key
        &&& self.primary_key_prefix == other.primary_key_prefix
        &&& self.enum_set_default_charset == other.enum_set_default_charset
        &&& self.enum_set_column_charset == other.enum_set_column_charset
    }

    /// The texts of a list of byte strings.
    fn bytes_slice_2_str_slice(&self, src: &Vec<Vec<u8>>) -> (r: Vec<String>)
        ensures
            strings_view(r@) == lossy_list(bytes_view(src@)),
    {
        let mut ret: Vec<String> = Vec::new();
        let mut i: usize = 0;
        while i < src.len()
            invariant
                i <= src@.len(),
                ret@.len() == i,
                forall|j: int| 0 <= j < i ==> (#[trigger] ret@[j])@ == utf8_lossy(src@[j]@),
            decreases src.len() - i,
        {
            ret.push(lossy_string(src[i].as_slice()));
            i = i + 1;
        }
        assert(strings_view(ret@) =~= lossy_list(bytes_view(src@)));
        ret
    }

    /// The texts of the SET columns' values; they are computed once and then kept.
    pub fn set_str_value_string(&mut self) -> (r: Vec<Vec<String>>)
        ensures
            final(self).same_data(old(self)),
            final(self).enum_str_cache() == old(self).enum_str_cache(),
            final(self).column_name_cache() == old(self).column_name_cache(),
            old(self).set_str_cache().len() > 0 ==> final(self).set_str_cache() == old(self).set_str_cache(),
            old(self).set_str_cache().len() == 0 ==> final(self).set_str_cache() == lossy_lists(
                bytes_lists_view(old(self).set_str_value@),
            ),
            strings_lists_view(r@) == final(self).set_str_cache(),
    {
        if self._set_str_value_string.len() == 0 {
            if self.set_str_value.len() == 0 {
                assert(lossy_lists(bytes_lists_view(self.set_str_value@)) =~= Seq::empty());
                return Vec::new();
            }
            let mut i: usize = 0;
            while i < self.set_str_value.len()
                invariant
                    i <= self.set_str_value@.len(),
                    self._set_str_value_string@.len() == i,
                    forall|j: int| 0 <= j < i ==> strings_view((#[trigger] self._set_str_value_string@[j])@)
                        == lossy_list(bytes_view(self.set_str_value@[j]@)),
                    self.same_data(old(self)),
                    self.enum_str_cache() == old(self).enum_str_cache(),
                    self.column_name_cache() == old(self).column_name_cache(),
                decreases self.set_str_value.len() - i,
            {
                let v = self.bytes_slice_2_str_slice(&self.set_str_value[i]);
                self._set_str_value_string.push(v);
                i = i + 1;
            }
            assert(self.set_str_cache() =~= lossy_lists(bytes_lists_view(old(self).set_str_value@)));
        }
        copy_string_lists(&self._set_str_value_string)
    }

    /// The texts of the ENUM columns' values; they are computed once and then kept.
    pub fn enum_str_value_string(&mut self) -> (r: Vec<Vec<String>>)
        ensures
            final(self).same_data(old(self)),
            final(self).set_str_cache() == old(self).set_str_cache(),
            final(self).column_name_cache() == old(self).column_name_cache(),
            old(self).enum_str_cache().len() > 0 ==> final(self).enum_str_cache() == old(self).enum_str_cache(),
            old(self).enum_str_cache().len() == 0 ==> final(self).enum_str_cache() == lossy_lists(
                bytes_lists_view(old(self).enum_str_value@),
            ),
            strings_lists_view(r@) == final(self).enum_str_cache(),
    {
        if self._enum_str_value_string.len() == 0 {
            if self.enum_str_value.len() == 0 {
                assert(lossy_lists(bytes_lists_view(self.enum_str_value@)) =~= Seq::empty());
                return Vec::new();
            }
            let mut i: usize = 0;
            while i < self.enum_str_value.len()
                invariant
                    i <= self.enum_str_value@.len(),
                    self._enum_str_value_string@.len() == i,
                    forall|j: int| 0 <= j < i ==> strings_view((#[trigger] self._enum_str_value_string@[j])@)
                        == lossy_list(bytes_view(self.enum_str_value@[j]@)),
                    self.same_data(old(self)),
                    self.set_str_cache() == old(self).set_str_cache(),
                    self.column_name_cache() == old(self).column_name_cache(),
                decreases self.enum_str_value.len() - i,
            {
                let v = self.bytes_slice_2_str_slice(&self.enum_str_value[i]);
                self._enum_str_value_string.push(v);
                i = i + 1;
            }
            assert(self.enum_str_cache() =~= lossy_lists(bytes_lists_view(old(self).enum_str_value@)));
        }
        copy_string_lists(&self._enum_str_value_string)
    }

    /// The texts of the column names; they are computed once and then kept.
    pub fn column_name_string(&mut self) -> (r: Vec<String>)
        ensures
            final(self).same_data(old(self)),
            final(self).set_str_cache() == old(self).set_str_cache(),
            final(self).enum_str_cache() == old(self).enum_str_cache(),
            old(self).column_name_cache().len() > 0 ==> final(self).column_name_cache() == old(self).column_name_cache(),
            old(self).column_name_cache().len() == 0 ==> final(self).column_name_cache() == lossy_list(
                bytes_view(old(self).column_name@),
            ),
            strings_view(r@) == final(self).column_name_cache(),
    {
        if self._column_name_string.len() == 0 {
            self._column_name_string = self.bytes_slice_2_str_slice(&self.column_name);
        }
        copy_strings(&self._column_name_string)
    }

    /// Column index to collation, for the columns of `kind`: from the default collation
    /// and its exceptions where there are any, else from one collation per column.
    fn _collation_map(&self, kind: ColumnKind, default_charset: &Vec<u64>, column_charset: &Vec<u64>) -> (r: HashMap<isize, u64>)
        requires
            self.columns_known(),
            default_charset@.len() > 0 ==> default_charset@.len() % 2 == 1,
            default_charset@.len() == 0 && column_charset@.len() > 0 ==> self.kind_rank(kind, self.column_count as int)
                <= column_charset@.len(),
        ensures
            r@ == collation_result(self, kind, default_charset@, column_charset@),
    {
        broadcast use vstd::std_specs::hash::group_hash_axioms;

        let cc = self.column_count as usize;
        if default_charset.len() != 0 {
            let ghost dc = default_charset@;
            let default_collation = default_charset[0];
            let mut collations: HashMap<isize, u64> = HashMap::new();
            let mut i: usize = 1;
            while i < default_charset.len()
                invariant
                    dc == default_charset@,
                    dc.len() % 2 == 1,
                    i % 2 == 1,
                    1 <= i <= dc.len(),
                    collations@ == charset_pairs(dc, ((i - 1) / 2) as nat),
                decreases default_charset.len() - i,
            {
                collations.insert(default_charset[i] as isize, default_charset[i + 1]);
                i = i + 2;
            }
            let ghost pm = charset_pairs(dc, ((dc.len() - 1) / 2) as nat);
            assert(collations@ == pm);
            let mut p: usize = 0;
            let mut ret: HashMap<isize, u64> = HashMap::new();
            let mut j: usize = 0;
            while j < cc
                invariant
                    self.columns_known(),
                    cc == self.column_count,
                    dc == default_charset@,
                    dc.len() > 0,
                    default_collation == dc[0],
                    collations@ == pm,
                    j <= cc,
                    p == self.kind_rank(kind, j as int),
                    p <= j,
                    ret@ == Map::new(
                        |k: isize| 0 <= k < j && self.kind_matches(kind, k as int),
                        |k: isize| default_collation_of(pm, dc[0], self.kind_rank(kind, k as int)),
                    ),
                decreases cc - j,
            {
                assert(self.has_column(j as int));
                if self.column_is(kind, j) {
                    let c = match collations.get(&(p as isize)) {
                        Some(v) => *v,
                        None => default_collation,
                    };
                    ret.insert(j as isize, c);
                    p = p + 1;
                }
                j = j + 1;
                assert(ret@ =~= Map::new(
                    |k: isize| 0 <= k < j && self.kind_matches(kind, k as int),
                    |k: isize| default_collation_of(pm, dc[0], self.kind_rank(kind, k as int)),
                ));
            }
            assert(ret@ =~= collation_result(self, kind, default_charset@, column_charset@));
            return ret;
        }
        if column_charset.len() != 0 {
            let ghost cs = column_charset@;
            let mut p: usize = 0;
            let mut ret: HashMap<isize, u64> = HashMap::new();
            let mut j: usize = 0;
            while j < cc
                invariant
                    self.columns_known(),
                    cc == self.column_count,
                    cs == column_charset@,
                    self.kind_rank(kind, cc as int) <= cs.len(),
                    j <= cc,
                    p == self.kind_rank(kind, j as int),
                    p <= j,
                    ret@ == Map::new(
                        |k: isize| 0 <= k < j && self.kind_matches(kind, k as int),
                        |k: isize| cs[self.kind_rank(kind, k as int) as int],
                    ),
                decreases cc - j,
            {
                assert(self.has_column(j as int));
                proof {
                    self.lemma_rank_mono(kind, j as int + 1, cc as int);
                }
                if self.column_is(kind, j) {
                    ret.insert(j as isize, column_charset[p]);
                    p = p + 1;
                }
                j = j + 1;
                assert(ret@ =~= Map::new(
                    |k: isize| 0 <= k < j && self.kind_matches(kind, k as int),
                    |k: isize| cs[self.kind_rank(kind, k as int) as int],
                ));
            }
            assert(ret@ =~= collation_result(self, kind, default_charset@, column_charset@));
            return ret;
        }
        HashMap::new()
    }

    /// Column index to collation id, for the character columns; empty where the table
    /// map has no charset information.
    pub fn collation_map(&self) -> (r: HashMap<isize, u64>)
        requires
            self.columns_known(),
            self.default_charset@.len() > 0 ==> self.default_charset@.len() % 2 == 1,
            self.default_charset@.len() == 0 && self.column_charset@.len() > 0 ==> self.kind_rank(
                ColumnKind::Character,
                self.column_count as int,
            ) <= self.column_charset@.len(),
        ensures
            r@ == collation_result(self, ColumnKind::Character, self.default_charset@, self.column_charset@),
    {
        self._collation_map(ColumnKind::Character, &self.default_charset, &self.column_charset)
    }

    /// Column index to collation id, for the ENUM and SET columns; empty where the table
    /// map has no charset information for them.
    pub fn enum_set_collation_map(&self) -> (r: HashMap<isize, u64>)
        requires
            self.columns_known(),
            self.enum_set_default_charset@.len() > 0 ==> self.enum_set_default_charset@.len() % 2 == 1,
            self.enum_set_default_charset@.len() == 0 && self.enum_set_column_charset@.len() > 0 ==> self.kind_rank(
                ColumnKind::EnumOrSet,
                self.column_count as int,
            ) <= self.enum_set_column_charset@.len(),
        ensures
            r@ == collation_result(self, ColumnKind::EnumOrSet, self.enum_set_default_charset@, self.enum_set_column_charset@),
    {
        self._collation_map(ColumnKind::EnumOrSet, &self.enum_set_default_charset, &self.enum_set_column_charset)
    }

    /// Column index to the value texts, for the columns of `kind`; empty where there are no
    /// value texts.
    fn str_value_map(&self, kind: ColumnKind, str_value: &Vec<Vec<String>>) -> (r: HashMap<isize, Vec<String>>)
        requires
            self.columns_known(),
            str_value@.len() > 0 ==> self.kind_rank(kind, self.column_count as int) <= str_value@.len(),
        ensures
            str_value@.len() == 0 ==> r@ == Map::<isize, Vec<String>>::empty(),
            str_value@.len() > 0 ==> r@.dom() == self.kind_map(kind, |i: isize| 0int).dom(),
            str_value@.len() > 0 ==> forall|k: isize|
                #[trigger] r@.contains_key(k) ==> strings_view(r@[k]@) == strings_view(
                    str_value@[self.kind_rank(kind, k as int) as int]@,
                ),
    {
        broadcast use vstd::std_specs::hash::group_hash_axioms;

        let mut ret: HashMap<isize, Vec<String>> = HashMap::new();
        if str_value.len() == 0 {
            return ret;
        }
        let cc = self.column_count as usize;
        let mut p: usize = 0;
        let mut j: usize = 0;
        while j < cc
            invariant
                self.columns_known(),
                cc == self.column_count,
                str_value@.len() > 0,
                self.kind_rank(kind, cc as int) <= str_value@.len(),
                j <= cc,
                p == self.kind_rank(kind, j as int),
                p <= j,
                ret@.dom() == Set::new(|k: isize| 0 <= k < j && self.kind_matches(kind, k as int)),
                forall|k: isize|
                    #[trigger] ret@.contains_key(k) ==> strings_view(ret@[k]@) == strings_view(
                        str_value@[self.kind_rank(kind, k as int) as int]@,
                    ),
            decreases cc - j,
        {
            assert(self.has_column(j as int));
            proof {
                self.lemma_rank_mono(kind, j as int + 1, cc as int);
            }
            if self.column_is(kind, j) {
                ret.insert(j as isize, copy_strings(&str_value[p]));
                p = p + 1;
            }
            j = j + 1;
            assert(ret@.dom() =~= Set::new(|k: isize| 0 <= k < j && self.kind_matches(kind, k as int)));
        }
        assert(ret@.dom() =~= self.kind_map(kind, |i: isize| 0int).dom());
        ret
    }

    /// Column index to value texts, for the ENUM columns; empty where there are none.
    pub fn enum_str_value_map(&mut self) -> (r: HashMap<isize, Vec<String>>)
        requires
            old(self).columns_known(),
            old(self).enum_str_cache().len() > 0 ==> old(self).kind_rank(ColumnKind::EnumColumn, old(self).column_count as int)
                <= old(self).enum_str_cache().len(),
            old(self).enum_str_cache().len() == 0 && old(self).enum_str_value@.len() > 0 ==> old(self).kind_rank(
                ColumnKind::EnumColumn,
                old(self).column_count as int,
            ) <= old(self).enum_str_value@.len(),
        ensures
            final(self).same_data(old(self)),
            final(self).set_str_cache() == old(self).set_str_cache(),
            final(self).column_name_cache() == old(self).column_name_cache(),
            old(self).enum_str_cache().len() == 0 ==> final(self).enum_str_cache() == lossy_lists(
                bytes_lists_view(old(self).enum_str_value@),
            ),
            old(self).enum_str_cache().len() > 0 ==> final(self).enum_str_cache() == old(self).enum_str_cache(),
            final(self).enum_str_cache().len() == 0 ==> r@ == Map::<isize, Vec<String>>::empty(),
            final(self).enum_str_cache().len() > 0 ==> r@.dom() == final(self).kind_map(ColumnKind::EnumColumn, |i: isize| 0int).dom(),
            forall|k: isize|
                #[trigger] r@.contains_key(k) ==> strings_view(r@[k]@) == final(self).enum_str_cache()[
                    final(self).kind_rank(ColumnKind::EnumColumn, k as int) as int],
    {
        let str_value = self.enum_str_value_string();
        proof {
            self.lemma_same_data_ranks(old(self), ColumnKind::EnumColumn, self.column_count as int);
            assert(str_value@.len() == self.enum_str_cache().len());
        }
        let r = self.str_value_map(ColumnKind::EnumColumn, &str_value);
        proof {
            assert forall|k: isize| #[trigger] r@.contains_key(k) implies strings_view(r@[k]@) == self.enum_str_cache()[
                self.kind_rank(ColumnKind::EnumColumn, k as int) as int] by {
                self.lemma_rank_mono(ColumnKind::EnumColumn, k as int + 1, self.column_count as int);
            }
        }
        r
    }

    /// Column index to value texts, for the SET columns; empty where there are none.
    pub fn set_str_value_map(&mut self) -> (r: HashMap<isize, Vec<String>>)
        requires
            old(self).columns_known(),
            old(self).set_str_cache().len() > 0 ==> old(self).kind_rank(ColumnKind::SetColumn, old(self).column_count as int)
                <= old(self).set_str_cache().len(),
            old(self).set_str_cache().len() == 0 && old(self).set_str_value@.len() > 0 ==> old(self).kind_rank(
                ColumnKind::SetColumn,
                old(self).column_count as int,
            ) <= old(self).set_str_value@.len(),
        ensures
            final(self).same_data(old(self)),
            final(self).enum_str_cache() == old(self).enum_str_cache(),
            final(self).column_name_cache() == old(self).column_name_cache(),
            old(self).set_str_cache().len() == 0 ==> final(self).set_str_cache() == lossy_lists(
                bytes_lists_view(old(self).set_str_value@),
            ),
            old(self).set_str_cache().len() > 0 ==> final(self).set_str_cache() == old(self).set_str_cache(),
            final(self).set_str_cache().len() == 0 ==> r@ == Map::<isize, Vec<String>>::empty(),
            final(self).set_str_cache().len() > 0 ==> r@.dom() == final(self).kind_map(ColumnKind::SetColumn, |i: isize| 0int).dom(),
            forall|k: isize|
                #[trigger] r@.contains_key(k) ==> strings_view(r@[k]@) == final(self).set_str_cache()[
                    final(self).kind_rank(ColumnKind::SetColumn, k as int) as int],
    {
        let str_value = self.set_str_value_string();
        proof {
            self.lemma_same_data_ranks(old(self), ColumnKind::SetColumn, self.column_count as int);
            assert(str_value@.len() == self.set_str_cache().len());
        }
        let r = self.str_value_map(ColumnKind::SetColumn, &str_value);
        proof {
            assert forall|k: isize| #[trigger] r@.contains_key(k) implies strings_view(r@[k]@) == self.set_str_cache()[
                self.kind_rank(ColumnKind::SetColumn, k as int) as int] by {
                self.lemma_rank_mono(ColumnKind::SetColumn, k as int + 1, self.column_count as int);
            }
        }
        r
    }

    /// Column index to geometry type, for the GEOMETRY columns; empty where the table map
    /// has no geometry types.
    pub fn geometry_type_map(&self) -> (r: HashMap<isize, u64>)
        requires
            self.columns_known(),
            self.geometry_type@.len() > 0 ==> self.kind_rank(ColumnKind::Geometry, self.column_count as int)
                <= self.geometry_type@.len(),
        ensures
            self.geometry_type@.len() == 0 ==> r@ == Map::<isize, u64>::empty(),
            self.geometry_type@.len() > 0 ==> r@ == self.kind_map(
                ColumnKind::Geometry,
                |i: isize| self.geometry_type@[self.kind_rank(ColumnKind::Geometry, i as int) as int],
            ),
    {
        let empty: Vec<u64> = Vec::new();
        let r = self._collation_map(ColumnKind::Geometry, &empty, &self.geometry_type);
        proof {
            if self.geometry_type@.len() > 0 {
                assert(r@ =~= self.kind_map(
                    ColumnKind::Geometry,
                    |i: isize| self.geometry_type@[self.kind_rank(ColumnKind::Geometry, i as int) as int],
                ));
            }
        }
        r
    }

    /// Table maps that agree on their data rank their columns alike.
    pub proof fn lemma_same_data_ranks(&self, other: &TableMapEvent, kind: ColumnKind, i: int)
        requires
            self.same_data(other),
        ensures
            self.kind_rank(kind, i) == other.kind_rank(kind, i),
            self.columns_known() == other.columns_known(),
        decreases i,
    {
        assert forall|j: int| self.has_column(j) == other.has_column(j) by {}
        if i > 0 {
            self.lemma_same_data_ranks(other, kind, i - 1);
        }
    }
}
} // verus!
