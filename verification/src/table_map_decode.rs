use vstd::prelude::*;
use crate::bytes::{le_at, fixed_le, fixed_be, be_at, copy_range, lenenc_int, lenenc_str, length_encoded_int, length_encoded_string, lemma_fixed_le_bound, byte_pow};
use crate::column_types::{MYSQL_TYPE_STRING, MYSQL_TYPE_ENUM, MYSQL_TYPE_SET, MYSQL_TYPE_NEWDATE, MYSQL_TYPE_NEWDECIMAL,
    MYSQL_TYPE_FLOAT, MYSQL_TYPE_DOUBLE, MYSQL_TYPE_VAR_STRING, MYSQL_TYPE_VARCHAR, MYSQL_TYPE_BLOB, MYSQL_TYPE_GEOMETRY,
    MYSQL_TYPE_JSON, MYSQL_TYPE_BIT, MYSQL_TYPE_TIME2, MYSQL_TYPE_DATETIME2, MYSQL_TYPE_TIMESTAMP2, MYSQL_TYPE_TINY_BLOB,
    MYSQL_TYPE_MEDIUM_BLOB, MYSQL_TYPE_LONG_BLOB};
use crate::error::ReplicationError;
use crate::consts::{TABLE_MAP_OPT_META_SIGNEDNESS, TABLE_MAP_OPT_META_DEFAULT_CHARSET, TABLE_MAP_OPT_META_COLUMN_CHARSET,
    TABLE_MAP_OPT_META_COLUMN_NAME, TABLE_MAP_OPT_META_SET_STR_VALUE, TABLE_MAP_OPT_META_ENUM_STR_VALUE,
    TABLE_MAP_OPT_META_GEOMETRY_TYPE, TABLE_MAP_OPT_META_SIMPLE_PRIMARY_KEY, TABLE_MAP_OPT_META_PRIMARY_KEY_WITH_PREFIX,
    TABLE_MAP_OPT_META_ENUM_AND_SET_DEFAULT_CHARSET, TABLE_MAP_OPT_META_ENUM_AND_SET_COLUMN_CHARSET};
use crate::table_map::TableMapEvent;
use crate::event::Event;

verus! {

/// A list of length-encoded integers filling `s`.
pub open spec fn int_seq(s: Seq<u8>) -> Option<Seq<u64>>
    decreases s.len(),
{
    if s.len() == 0 {
        Some(Seq::empty())
    } else {
        match lenenc_int(s) {
            None => None,
            Some((x, _, n)) => match int_seq(s.subrange(n as int, s.len() as int)) {
                None => None,
                Some(t) => Some(seq![x] + t),
            },
        }
    }
}

/// A list of names, each a length byte and that many bytes, filling `s`.
pub open spec fn name_seq(s: Seq<u8>) -> Option<Seq<Seq<u8>>>
    decreases s.len(),
{
    if s.len() == 0 {
        Some(Seq::empty())
    } else if 1 + s[0] > s.len() {
        None
    } else {
        match name_seq(s.subrange(1 + s[0], s.len() as int)) {
            None => None,
            Some(t) => Some(seq![s.subrange(1, 1 + s[0])] + t),
        }
    }
}

/// `k` length-encoded strings at the start of `s`, and the bytes they take.
pub open spec fn str_list(s: Seq<u8>, k: nat) -> Option<(Seq<Seq<u8>>, int)>
    decreases k,
{
    if k == 0 {
        Some((Seq::empty(), 0))
    } else {
        match lenenc_str(s) {
            None => None,
            Some((v, _, n)) => match str_list(s.subrange(n as int, s.len() as int), (k - 1) as nat) {
                None => None,
                Some((vs, m)) => Some((seq![v] + vs, n + m)),
            },
        }
    }
}

/// A list of value lists filling `s`: each a length-encoded count, then that many
/// length-encoded strings.
pub open spec fn str_value_seq(s: Seq<u8>) -> Option<Seq<Seq<Seq<u8>>>>
    decreases s.len(),
{
    if s.len() == 0 {
        Some(Seq::empty())
    } else {
        match lenenc_int(s) {
            None => None,
            Some((k, _, n)) => match str_list(s.subrange(n as int, s.len() as int), k as nat) {
                None => None,
                Some((vals, m)) => if n + m > s.len() || m < 0 {
                    None
                } else {
                    match str_value_seq(s.subrange(n + m, s.len() as int)) {
                        None => None,
                        Some(t) => Some(seq![vals] + t),
                    }
                },
            },
        }
    }
}

/// Pairs of length-encoded integers filling `s`: primary key columns and their prefix
/// lengths.
pub open spec fn pair_seq(s: Seq<u8>) -> Option<(Seq<u64>, Seq<u64>)>
    decreases s.len(),
{
    if s.len() == 0 {
        Some((Seq::empty(), Seq::empty()))
    } else {
        match lenenc_int(s) {
            None => None,
            Some((a, _, n)) => match lenenc_int(s.subrange(n as int, s.len() as int)) {
                None => None,
                Some((b, _, m)) => match pair_seq(s.subrange((n + m) as int, s.len() as int)) {
                    None => None,
                    Some((xs, ys)) => Some((seq![a] + xs, seq![b] + ys)),
                },
            },
        }
    }
}

/// The metadata of each column, read from `m` at `pos` on by the column types from `i` on.
pub open spec fn meta_from(types: Seq<u8>, m: Seq<u8>, i: int, pos: int) -> Result<Seq<u16>, ReplicationError>
    decreases types.len() - i,
{
    if i >= types.len() || i < 0 {
        Ok(Seq::empty())
    } else {
        let t = types[i];
        let (size, v): (int, int) = if t == MYSQL_TYPE_STRING || t == MYSQL_TYPE_NEWDECIMAL {
            (2, be_at(m, pos, 2) as int)
        } else if t == MYSQL_TYPE_VAR_STRING || t == MYSQL_TYPE_VARCHAR || t == MYSQL_TYPE_BIT {
            (2, le_at(m, pos, 2) as int)
        } else if t == MYSQL_TYPE_BLOB || t == MYSQL_TYPE_DOUBLE || t == MYSQL_TYPE_FLOAT || t
            == MYSQL_TYPE_GEOMETRY || t == MYSQL_TYPE_JSON || t == MYSQL_TYPE_TIME2 || t
            == MYSQL_TYPE_DATETIME2 || t == MYSQL_TYPE_TIMESTAMP2 {
            (1, le_at(m, pos, 1) as int)
        } else {
            (0, 0)
        };
        if t == MYSQL_TYPE_NEWDATE || t == MYSQL_TYPE_ENUM || t == MYSQL_TYPE_SET || t
            == MYSQL_TYPE_TINY_BLOB || t == MYSQL_TYPE_MEDIUM_BLOB || t == MYSQL_TYPE_LONG_BLOB {
            Err(ReplicationError::UnsupportedColumnType(t))
        } else if pos + size > m.len() {
            Err(ReplicationError::UnexpectedEof)
        } else {
            match meta_from(types, m, i + 1, pos + size) {
                Err(e) => Err(e),
                Ok(rest) => Ok(seq![v as u16] + rest),
            }
        }
    }
}


/// `o` with `a` put in front of the list it holds.
pub open spec fn join_opt<T>(a: Seq<T>, o: Option<Seq<T>>) -> Option<Seq<T>> {
    match o {
        None => None,
        Some(t) => Some(a + t),
    }
}

/// The bytes of each of a list of byte vectors.
pub open spec fn vec_bytes(v: Seq<Vec<u8>>) -> Seq<Seq<u8>> {
    Seq::new(v.len(), |i: int| v[i]@)
}

impl TableMapEvent {
    /// A list of length-encoded integers filling `v`.
    fn decode_int_seq(&self, v: &[u8]) -> (r: Result<Vec<u64>, ReplicationError>)
        ensures
            int_seq(v@) matches Some(t) ==> r matches Ok(x) && x@ == t,
            int_seq(v@) is None ==> r == Err::<Vec<u64>, _>(ReplicationError::UnexpectedEof),
    {
        let mut ret: Vec<u64> = Vec::new();
        let mut p: usize = 0;
        proof {
            assert(v@.subrange(0, v@.len() as int) =~= v@);
            if int_seq(v@) is Some {
                assert(Seq::<u64>::empty() + int_seq(v@)->Some_0 =~= int_seq(v@)->Some_0);
            }
        }
        while p < v.len()
            invariant
                p <= v@.len(),
                int_seq(v@) == join_opt(ret@, int_seq(v@.subrange(p as int, v@.len() as int))),
            decreases v.len() - p,
        {
            let ghost rest = v@.subrange(p as int, v@.len() as int);
            match length_encoded_int(v, p) {
                None => {
                    return Err(ReplicationError::UnexpectedEof);
                },
                Some((x, _, n)) => {
                    assert(rest.subrange(n as int, rest.len() as int) =~= v@.subrange(p + n, v@.len() as int));
                    assert(ret@ + (seq![x] + int_seq(v@.subrange(p + n, v@.len() as int))->Some_0) =~= ret@.push(x)
                        + int_seq(v@.subrange(p + n, v@.len() as int))->Some_0);
                    ret.push(x);
                    p = p + n;
                },
            }
        }
        assert(v@.subrange(p as int, v@.len() as int) =~= Seq::<u8>::empty());
        assert(ret@ + Seq::<u64>::empty() =~= ret@);
        Ok(ret)
    }
}


/// `o` with `a` put in front of the list it holds and `q` added to the bytes it takes.
pub open spec fn join_list(a: Seq<Seq<u8>>, q: int, o: Option<(Seq<Seq<u8>>, int)>) -> Option<(Seq<Seq<u8>>, int)> {
    match o {
        None => None,
        Some((vs, m)) => Some((a + vs, q + m)),
    }
}

/// The bytes of each of a list of lists of byte vectors.
pub open spec fn vec_bytes_lists(v: Seq<Vec<Vec<u8>>>) -> Seq<Seq<Seq<u8>>> {
    Seq::new(v.len(), |i: int| vec_bytes(v[i]@))
}

/// `k` zeros.
pub open spec fn zeros(k: nat) -> Seq<u64> {
    Seq::new(k, |i: int| 0u64)
}

impl TableMapEvent {
    /// The default collation and its exceptions: an odd number of integers.
    fn decode_default_charset(&mut self, v: &[u8]) -> (r: Result<Vec<u64>, ReplicationError>)
        ensures
            *final(self) == *old(self),
            int_seq(v@) is None ==> r == Err::<Vec<u64>, _>(ReplicationError::UnexpectedEof),
            int_seq(v@) matches Some(t) ==> (if t.len() % 2 != 1 {
                r == Err::<Vec<u64>, _>(ReplicationError::InvalidDefaultCharset(t.len() as usize))
            } else {
                r matches Ok(x) && x@ == t
            }),
    {
        let ret = match self.decode_int_seq(v) {
            Ok(x) => x,
            Err(e) => {
                return Err(e);
            },
        };
        if ret.len() % 2 != 1 {
            return Err(ReplicationError::InvalidDefaultCharset(ret.len()));
        }
        Ok(ret)
    }

    /// Appends the column names that fill `v`; the table must then have one per column.
    fn decode_column_names(&mut self, v: &[u8]) -> (r: Result<(), ReplicationError>)
        ensures
            *final(self) == (TableMapEvent { column_name: final(self).column_name, ..*old(self) }),
            name_seq(v@) is None ==> r == Err::<(), _>(ReplicationError::UnexpectedEof),
            name_seq(v@) matches Some(ns) ==> vec_bytes(final(self).column_name@) == vec_bytes(
                old(self).column_name@,
            ) + ns && r == (if old(self).column_name@.len() + ns.len() != old(self).column_count {
                Err(
                    ReplicationError::InvalidColumnNameCount(
                        old(self).column_count,
                        (old(self).column_name@.len() + ns.len()) as usize,
                    ),
                )
            } else {
                Ok(())
            }),
    {
        let mut p: usize = 0;
        let ghost start = vec_bytes(self.column_name@);
        proof {
            assert(v@.subrange(0, v@.len() as int) =~= v@);
            if name_seq(v@) is Some {
                assert(start + name_seq(v@)->Some_0 =~= start + (Seq::<Seq<u8>>::empty() + name_seq(v@)->Some_0));
            }
        }
        let ghost mut found: Seq<Seq<u8>> = Seq::empty();
        while p < v.len()
            invariant
                p <= v@.len(),
                *self == (TableMapEvent { column_name: self.column_name, ..*old(self) }),
                vec_bytes(self.column_name@) == start + found,
                start == vec_bytes(old(self).column_name@),
                name_seq(v@) == join_opt(found, name_seq(v@.subrange(p as int, v@.len() as int))),
            decreases v.len() - p,
        {
            let ghost rest = v@.subrange(p as int, v@.len() as int);
            let n = v[p] as usize;
            if n + 1 > v.len() - p {
                return Err(ReplicationError::UnexpectedEof);
            }
            let name = copy_range(v, p + 1, p + 1 + n);
            assert(rest.subrange(1 + rest[0], rest.len() as int) =~= v@.subrange(p + 1 + n, v@.len() as int));
            assert(rest.subrange(1, 1 + rest[0]) =~= name@);
            proof {
                if name_seq(v@.subrange(p + 1 + n, v@.len() as int)) is Some {
                    let t = name_seq(v@.subrange(p + 1 + n, v@.len() as int))->Some_0;
                    assert(found + (seq![name@] + t) =~= found.push(name@) + t);
                }
            }
            let ghost prev = vec_bytes(self.column_name@);
            let ghost nb = name@;
            self.column_name.push(name);
            assert(vec_bytes(self.column_name@) =~= prev.push(nb));
            proof {
                found = found.push(nb);
            }
            assert(vec_bytes(self.column_name@) =~= start + found);
            p = p + 1 + n;
        }
        assert(v@.subrange(p as int, v@.len() as int) =~= Seq::<u8>::empty());
        assert(found + Seq::<Seq<u8>>::empty() =~= found);
        if self.column_name.len() as u64 != self.column_count {
            return Err(ReplicationError::InvalidColumnNameCount(self.column_count, self.column_name.len()));
        }
        Ok(())
    }

    /// `k` length-encoded strings read from `pos` on, and the position after them.
    fn decode_str_list(&self, v: &[u8], pos: usize, k: u64) -> (r: Result<(Vec<Vec<u8>>, usize), ReplicationError>)
        requires
            pos <= v@.len(),
        ensures
            str_list(v@.subrange(pos as int, v@.len() as int), k as nat) is None ==> r == Err::<(Vec<Vec<u8>>, usize), _>(
                ReplicationError::UnexpectedEof,
            ),
            str_list(v@.subrange(pos as int, v@.len() as int), k as nat) matches Some((vs, m)) ==> r matches Ok((x, q))
                && vec_bytes(x@) == vs && q == pos + m && pos <= q <= v@.len(),
    {
        let mut vals: Vec<Vec<u8>> = Vec::new();
        let mut p = pos;
        let mut j: u64 = 0;
        let ghost s0 = v@.subrange(pos as int, v@.len() as int);
        proof {
            assert(v@.subrange(pos as int, v@.len() as int) =~= s0);
            if str_list(s0, k as nat) is Some {
                let (vs, m) = str_list(s0, k as nat)->Some_0;
                assert(Seq::<Seq<u8>>::empty() + vs =~= vs);
            }
        }
        while j < k
            invariant
                pos <= p <= v@.len(),
                j <= k,
                s0 == v@.subrange(pos as int, v@.len() as int),
                str_list(s0, k as nat) == join_list(vec_bytes(vals@), p - pos, str_list(
                    v@.subrange(p as int, v@.len() as int),
                    (k - j) as nat,
                )),
            decreases k - j,
        {
            let ghost rest = v@.subrange(p as int, v@.len() as int);
            match length_encoded_string(v, p) {
                None => {
                    return Err(ReplicationError::UnexpectedEof);
                },
                Some((val, _, n)) => {
                    assert(rest.subrange(n as int, rest.len() as int) =~= v@.subrange(p + n, v@.len() as int));
                    proof {
                        let nxt = str_list(v@.subrange(p + n, v@.len() as int), (k - j - 1) as nat);
                        if nxt is Some {
                            let (vs, m) = nxt->Some_0;
                            assert(vec_bytes(vals@) + (seq![val@] + vs) =~= vec_bytes(vals@).push(val@) + vs);
                        }
                    }
                    let ghost prev = vec_bytes(vals@);
                    let ghost vb = val@;
                    vals.push(val);
                    assert(vec_bytes(vals@) =~= prev.push(vb));
                    p = p + n;
                    j = j + 1;
                },
            }
        }
        Ok((vals, p))
    }
}


impl TableMapEvent {
    /// The value lists that fill `v`: each a length-encoded count, then that many
    /// length-encoded strings.
    fn decode_str_value(&self, v: &[u8]) -> (r: Result<Vec<Vec<Vec<u8>>>, ReplicationError>)
        ensures
            str_value_seq(v@) is None ==> r == Err::<Vec<Vec<Vec<u8>>>, _>(ReplicationError::UnexpectedEof),
            str_value_seq(v@) matches Some(t) ==> r matches Ok(x) && vec_bytes_lists(x@) == t,
    {
        let mut ret: Vec<Vec<Vec<u8>>> = Vec::new();
        let mut p: usize = 0;
        proof {
            assert(v@.subrange(0, v@.len() as int) =~= v@);
            if str_value_seq(v@) is Some {
                assert(Seq::<Seq<Seq<u8>>>::empty() + str_value_seq(v@)->Some_0 =~= str_value_seq(v@)->Some_0);
            }
        }
        while p < v.len()
            invariant
                p <= v@.len(),
                str_value_seq(v@) == join_opt(vec_bytes_lists(ret@), str_value_seq(v@.subrange(p as int, v@.len() as int))),
            decreases v.len() - p,
        {
            let ghost rest = v@.subrange(p as int, v@.len() as int);
            let (k, n) = match length_encoded_int(v, p) {
                None => {
                    return Err(ReplicationError::UnexpectedEof);
                },
                Some((k, _, n)) => (k, n),
            };
            assert(rest.subrange(n as int, rest.len() as int) =~= v@.subrange(p + n, v@.len() as int));
            let (vals, q) = match self.decode_str_list(v, p + n, k) {
                Ok(x) => x,
                Err(e) => {
                    return Err(e);
                },
            };
            let ghost m = q - p - n;
            assert(n >= 1);
            assert(rest.subrange(n + m, rest.len() as int) =~= v@.subrange(q as int, v@.len() as int));
            proof {
                let nxt = str_value_seq(v@.subrange(q as int, v@.len() as int));
                if nxt is Some {
                    assert(vec_bytes_lists(ret@) + (seq![vec_bytes(vals@)] + nxt->Some_0) =~= vec_bytes_lists(ret@).push(vec_bytes(vals@))
                        + nxt->Some_0);
                }
            }
            let ghost prev = vec_bytes_lists(ret@);
            let ghost vb = vec_bytes(vals@);
            ret.push(vals);
            assert(vec_bytes_lists(ret@) =~= prev.push(vb));
            p = q;
        }
        assert(v@.subrange(p as int, v@.len() as int) =~= Seq::<u8>::empty());
        assert(vec_bytes_lists(ret@) + Seq::<Seq<Seq<u8>>>::empty() =~= vec_bytes_lists(ret@));
        Ok(ret)
    }

    /// Appends the primary key columns listed in `v`, each with prefix 0.
    fn decode_simple_primary_key(&mut self, v: &[u8]) -> (r: Result<(), ReplicationError>)
        ensures
            int_seq(v@) is None ==> r == Err::<(), _>(ReplicationError::UnexpectedEof) && *final(self) == *old(self),
            int_seq(v@) matches Some(t) ==> r is Ok && *final(self) == (TableMapEvent {
                primary_key: final(self).primary_key,
                primary_key_prefix: final(self).primary_key_prefix,
                ..*old(self)
            }) && final(self).primary_key@ == old(self).primary_key@ + t && final(self).primary_key_prefix@
                == old(self).primary_key_prefix@ + zeros(t.len()),
    {
        let ints = match self.decode_int_seq(v) {
            Ok(x) => x,
            Err(e) => {
                return Err(e);
            },
        };
        let mut i: usize = 0;
        while i < ints.len()
            invariant
                i <= ints@.len(),
                *self == (TableMapEvent {
                    primary_key: self.primary_key,
                    primary_key_prefix: self.primary_key_prefix,
                    ..*old(self)
                }),
                self.primary_key@ == old(self).primary_key@ + ints@.subrange(0, i as int),
                self.primary_key_prefix@ == old(self).primary_key_prefix@ + zeros(i as nat),
            decreases ints.len() - i,
        {
            self.primary_key.push(ints[i]);
            self.primary_key_prefix.push(0);
            i = i + 1;
            assert(self.primary_key@ =~= old(self).primary_key@ + ints@.subrange(0, i as int));
            assert(self.primary_key_prefix@ =~= old(self).primary_key_prefix@ + zeros(i as nat));
        }
        assert(ints@.subrange(0, i as int) =~= ints@);
        Ok(())
    }

    /// Appends the primary key columns and prefix lengths listed in pairs in `v`.
    #[verifier::rlimit(40)]
    fn decode_primary_key_with_prefix(&mut self, v: &[u8]) -> (r: Result<(), ReplicationError>)
        ensures
            pair_seq(v@) is None ==> r == Err::<(), _>(ReplicationError::UnexpectedEof) && *final(self) == *old(self),
            pair_seq(v@) matches Some((xs, ys)) ==> r is Ok && *final(self) == (TableMapEvent {
                primary_key: final(self).primary_key,
                primary_key_prefix: final(self).primary_key_prefix,
                ..*old(self)
            }) && final(self).primary_key@ == old(self).primary_key@ + xs && final(self).primary_key_prefix@
                == old(self).primary_key_prefix@ + ys,
    {
        let mut keys: Vec<u64> = Vec::new();
        let mut prefixes: Vec<u64> = Vec::new();
        let mut p: usize = 0;
        proof {
            assert(v@.subrange(0, v@.len() as int) =~= v@);
            if pair_seq(v@) is Some {
                let (xs, ys) = pair_seq(v@)->Some_0;
                assert(Seq::<u64>::empty() + xs =~= xs);
                assert(Seq::<u64>::empty() + ys =~= ys);
            }
        }
        while p < v.len()
            invariant
                p <= v@.len(),
                keys@.len() == prefixes@.len(),
                pair_seq(v@) == (match pair_seq(v@.subrange(p as int, v@.len() as int)) {
                    None => None,
                    Some((xs, ys)) => Some((keys@ + xs, prefixes@ + ys)),
                }),
            decreases v.len() - p,
        {
            let ghost rest = v@.subrange(p as int, v@.len() as int);
            let (a, n) = match length_encoded_int(v, p) {
                None => {
                    return Err(ReplicationError::UnexpectedEof);
                },
                Some((a, _, n)) => (a, n),
            };
            assert(rest.subrange(n as int, rest.len() as int) =~= v@.subrange(p + n, v@.len() as int));
            let (b, m) = match length_encoded_int(v, p + n) {
                None => {
                    return Err(ReplicationError::UnexpectedEof);
                },
                Some((b, _, m)) => (b, m),
            };
            assert(rest.subrange(n + m, rest.len() as int) =~= v@.subrange(p + n + m, v@.len() as int));
            proof {
                let nxt = pair_seq(v@.subrange(p + n + m, v@.len() as int));
                if nxt is Some {
                    let (xs, ys) = nxt->Some_0;
                    assert(keys@ + (seq![a] + xs) =~= keys@.push(a) + xs);
                    assert(prefixes@ + (seq![b] + ys) =~= prefixes@.push(b) + ys);
                }
            }
            keys.push(a);
            prefixes.push(b);
            p = p + n + m;
        }
        assert(v@.subrange(p as int, v@.len() as int) =~= Seq::<u8>::empty());
        assert(keys@ + Seq::<u64>::empty() =~= keys@);
        assert(prefixes@ + Seq::<u64>::empty() =~= prefixes@);
        let mut i: usize = 0;
        while i < keys.len()
            invariant
                i <= keys@.len(),
                keys@.len() == prefixes@.len(),
                *self == (TableMapEvent {
                    primary_key: self.primary_key,
                    primary_key_prefix: self.primary_key_prefix,
                    ..*old(self)
                }),
                self.primary_key@ == old(self).primary_key@ + keys@.subrange(0, i as int),
                self.primary_key_prefix@ == old(self).primary_key_prefix@ + prefixes@.subrange(0, i as int),
            decreases keys.len() - i,
        {
            self.primary_key.push(keys[i]);
            self.primary_key_prefix.push(prefixes[i]);
            i = i + 1;
            assert(self.primary_key@ =~= old(self).primary_key@ + keys@.subrange(0, i as int));
            assert(self.primary_key_prefix@ =~= old(self).primary_key_prefix@ + prefixes@.subrange(0, i as int));
        }
        assert(keys@.subrange(0, i as int) =~= keys@);
        assert(prefixes@.subrange(0, i as int) =~= prefixes@);
        Ok(())
    }
}


/// The optional metadata of a table map.
pub struct OptMeta {
    pub signedness_bitmap: Seq<u8>,
    pub default_charset: Seq<u64>,
    pub column_charset: Seq<u64>,
    pub column_name: Seq<Seq<u8>>,
    pub set_str_value: Seq<Seq<Seq<u8>>>,
    pub enum_str_value: Seq<Seq<Seq<u8>>>,
    pub geometry_type: Seq<u64>,
    pub primary_key: Seq<u64>,
    pub primary_key_prefix: Seq<u64>,
    pub enum_set_default_charset: Seq<u64>,
    pub enum_set_column_charset: Seq<u64>,
}

/// The default charset list `v` holds, when it is an odd number of integers.
pub open spec fn default_charset_of(v: Seq<u8>) -> Result<Seq<u64>, ReplicationError> {
    match int_seq(v) {
        None => Err(ReplicationError::UnexpectedEof),
        Some(t) => if t.len() % 2 != 1 {
            Err(ReplicationError::InvalidDefaultCharset(t.len() as usize))
        } else {
            Ok(t)
        },
    }
}

/// The integer list `v` holds.
pub open spec fn int_seq_of(v: Seq<u8>) -> Result<Seq<u64>, ReplicationError> {
    match int_seq(v) {
        None => Err(ReplicationError::UnexpectedEof),
        Some(t) => Ok(t),
    }
}

/// The metadata after one optional field of type `t` with value `v`, for a table of `cc`
/// columns; a type the decoder does not know changes nothing.
pub open spec fn apply_entry(st: OptMeta, t: u8, v: Seq<u8>, cc: u64) -> Result<OptMeta, ReplicationError> {
    if t == TABLE_MAP_OPT_META_SIGNEDNESS {
        Ok(OptMeta { signedness_bitmap: v, ..st })
    } else if t == TABLE_MAP_OPT_META_DEFAULT_CHARSET {
        match default_charset_of(v) {
            Err(e) => Err(e),
            Ok(x) => Ok(OptMeta { default_charset: x, ..st }),
        }
    } else if t == TABLE_MAP_OPT_META_COLUMN_CHARSET {
        match int_seq_of(v) {
            Err(e) => Err(e),
            Ok(x) => Ok(OptMeta { column_charset: x, ..st }),
        }
    } else if t == TABLE_MAP_OPT_META_COLUMN_NAME {
        match name_seq(v) {
            None => Err(ReplicationError::UnexpectedEof),
            Some(ns) => if st.column_name.len() + ns.len() != cc {
                Err(ReplicationError::InvalidColumnNameCount(cc, (st.column_name.len() + ns.len()) as usize))
            } else {
                Ok(OptMeta { column_name: st.column_name + ns, ..st })
            },
        }
    } else if t == TABLE_MAP_OPT_META_SET_STR_VALUE {
        match str_value_seq(v) {
            None => Err(ReplicationError::UnexpectedEof),
            Some(x) => Ok(OptMeta { set_str_value: x, ..st }),
        }
    } else if t == TABLE_MAP_OPT_META_ENUM_STR_VALUE {
        match str_value_seq(v) {
            None => Err(ReplicationError::UnexpectedEof),
            Some(x) => Ok(OptMeta { enum_str_value: x, ..st }),
        }
    } else if t == TABLE_MAP_OPT_META_GEOMETRY_TYPE {
        match int_seq_of(v) {
            Err(e) => Err(e),
            Ok(x) => Ok(OptMeta { geometry_type: x, ..st }),
        }
    } else if t == TABLE_MAP_OPT_META_SIMPLE_PRIMARY_KEY {
        match int_seq_of(v) {
            Err(e) => Err(e),
            Ok(x) => Ok(
                OptMeta {
                    primary_key: st.primary_key + x,
                    primary_key_prefix: st.primary_key_prefix + zeros(x.len()),
                    ..st
                },
            ),
        }
    } else if t == TABLE_MAP_OPT_META_PRIMARY_KEY_WITH_PREFIX {
        match pair_seq(v) {
            None => Err(ReplicationError::UnexpectedEof),
            Some((xs, ys)) => Ok(
                OptMeta {
                    primary_key: st.primary_key + xs,
                    primary_key_prefix: st.primary_key_prefix + ys,
                    ..st
                },
            ),
        }
    } else if t == TABLE_MAP_OPT_META_ENUM_AND_SET_DEFAULT_CHARSET {
        match default_charset_of(v) {
            Err(e) => Err(e),
            Ok(x) => Ok(OptMeta { enum_set_default_charset: x, ..st }),
        }
    } else if t == TABLE_MAP_OPT_META_ENUM_AND_SET_COLUMN_CHARSET {
        match int_seq_of(v) {
            Err(e) => Err(e),
            Ok(x) => Ok(OptMeta { enum_set_column_charset: x, ..st }),
        }
    } else {
        Ok(st)
    }
}

/// The metadata after the optional fields that fill `d`: each a type byte, a
/// length-encoded length and that many bytes.
pub open spec fn opt_meta_from(d: Seq<u8>, st: OptMeta, cc: u64) -> Result<OptMeta, ReplicationError>
    decreases d.len(),
{
    if d.len() == 0 {
        Ok(st)
    } else {
        match lenenc_int(d.subrange(1, d.len() as int)) {
            None => Err(ReplicationError::UnexpectedEof),
            Some((l, _, n)) => if 1 + n + l > d.len() {
                Err(ReplicationError::UnexpectedEof)
            } else {
                match apply_entry(st, d[0], d.subrange((1 + n) as int, 1 + n + l), cc) {
                    Err(e) => Err(e),
                    Ok(st2) => opt_meta_from(d.subrange((1 + n + l) as int, d.len() as int), st2, cc),
                }
            },
        }
    }
}

impl TableMapEvent {
    /// The optional metadata this table map holds.
    pub open spec fn opt_meta(&self) -> OptMeta {
        OptMeta {
            signedness_bitmap: self.signedness_bitmap@,
            default_charset: self.default_charset@,
            column_charset: self.column_charset@,
            column_name: vec_bytes(self.column_name@),
            set_str_value: vec_bytes_lists(self.set_str_value@),
            enum_str_value: vec_bytes_lists(self.enum_str_value@),
            geometry_type: self.geometry_type@,
            primary_key: self.primary_key@,
            primary_key_prefix: self.primary_key_prefix@,
            enum_set_default_charset: self.enum_set_default_charset@,
            enum_set_column_charset: self.enum_set_column_charset@,
        }
    }

    /// Whether the two table maps agree on all but their optional metadata.
    pub open spec fn same_base(&self, other: &TableMapEvent) -> bool {
        &&& self.flavor == other.flavor
        &&& self.table_id_size == other.table_id_size
        &&& self.table_id == other.table_id
        &&& self.flags == other.flags
        &&& self.schema == other.schema
        &&& self.table == other.table
        &&& self.column_count == other.column_count
        &&& self.column_type == other.column_type
        &&& self.column_meta == other.column_meta
        &&& self.null_bitmap == other.null_bitmap
        &&& self._set_str_value_string == other._set_str_value_string
        &&& self._enum_str_value_string == other._enum_str_value_string
        &&& self._column_name_string == other._column_name_string
    }

    /// Applies one optional metadata field of type `t` with value `v`.
    fn apply_opt_entry(&mut self, t: u8, v: Vec<u8>) -> (r: Result<(), ReplicationError>)
        ensures
            final(self).same_base(old(self)),
            match apply_entry(old(self).opt_meta(), t, v@, old(self).column_count) {
                Ok(st) => r is Ok && final(self).opt_meta() == st,
                Err(e) => r == Err::<(), _>(e),
            },
    {
        if t == TABLE_MAP_OPT_META_SIGNEDNESS {
            self.signedness_bitmap = v;
        } else if t == TABLE_MAP_OPT_META_DEFAULT_CHARSET {
            let x = match self.decode_default_charset(v.as_slice()) {
                Ok(x) => x,
                Err(e) => {
                    return Err(e);
                },
            };
            self.default_charset = x;
        } else if t == TABLE_MAP_OPT_META_COLUMN_CHARSET {
            let x = match self.decode_int_seq(v.as_slice()) {
                Ok(x) => x,
                Err(e) => {
                    return Err(e);
                },
            };
            self.column_charset = x;
        } else if t == TABLE_MAP_OPT_META_COLUMN_NAME {
            let r = self.decode_column_names(v.as_slice());
            if r.is_err() {
                return r;
            }
        } else if t == TABLE_MAP_OPT_META_SET_STR_VALUE {
            let x = match self.decode_str_value(v.as_slice()) {
                Ok(x) => x,
                Err(e) => {
                    return Err(e);
                },
            };
            self.set_str_value = x;
        } else if t == TABLE_MAP_OPT_META_ENUM_STR_VALUE {
            let x = match self.decode_str_value(v.as_slice()) {
                Ok(x) => x,
                Err(e) => {
                    return Err(e);
                },
            };
            self.enum_str_value = x;
        } else if t == TABLE_MAP_OPT_META_GEOMETRY_TYPE {
            let x = match self.decode_int_seq(v.as_slice()) {
                Ok(x) => x,
                Err(e) => {
                    return Err(e);
                },
            };
            self.geometry_type = x;
        } else if t == TABLE_MAP_OPT_META_SIMPLE_PRIMARY_KEY {
            let r = self.decode_simple_primary_key(v.as_slice());
            if r.is_err() {
                return r;
            }
        } else if t == TABLE_MAP_OPT_META_PRIMARY_KEY_WITH_PREFIX {
            let r = self.decode_primary_key_with_prefix(v.as_slice());
            if r.is_err() {
                return r;
            }
        } else if t == TABLE_MAP_OPT_META_ENUM_AND_SET_DEFAULT_CHARSET {
            let x = match self.decode_default_charset(v.as_slice()) {
                Ok(x) => x,
                Err(e) => {
                    return Err(e);
                },
            };
            self.enum_set_default_charset = x;
        } else if t == TABLE_MAP_OPT_META_ENUM_AND_SET_COLUMN_CHARSET {
            let x = match self.decode_int_seq(v.as_slice()) {
                Ok(x) => x,
                Err(e) => {
                    return Err(e);
                },
            };
            self.enum_set_column_charset = x;
        }
        assert(self.opt_meta() =~~= apply_entry(old(self).opt_meta(), t, v@, old(self).column_count)->Ok_0);
        Ok(())
    }

    /// Applies the optional metadata fields that fill `data`.
    fn decode_optional_meta(&mut self, data: &[u8]) -> (r: Result<(), ReplicationError>)
        ensures
            final(self).same_base(old(self)),
            match opt_meta_from(data@, old(self).opt_meta(), old(self).column_count) {
                Ok(st) => r is Ok && final(self).opt_meta() == st,
                Err(e) => r == Err::<(), _>(e),
            },
    {
        let mut p: usize = 0;
        assert(data@.subrange(0, data@.len() as int) =~= data@);
        while p < data.len()
            invariant
                p <= data@.len(),
                self.same_base(old(self)),
                opt_meta_from(data@, old(self).opt_meta(), old(self).column_count) == opt_meta_from(
                    data@.subrange(p as int, data@.len() as int),
                    self.opt_meta(),
                    old(self).column_count,
                ),
            decreases data.len() - p,
        {
            let ghost rest = data@.subrange(p as int, data@.len() as int);
            let t = data[p];
            assert(rest.subrange(1, rest.len() as int) =~= data@.subrange(p + 1, data@.len() as int));
            let (l, n) = match length_encoded_int(data, p + 1) {
                None => {
                    return Err(ReplicationError::UnexpectedEof);
                },
                Some((l, _, n)) => (l, n),
            };
            if l > (data.len() - p - 1 - n) as u64 {
                return Err(ReplicationError::UnexpectedEof);
            }
            let start = p + 1 + n;
            let stop = start + l as usize;
            let v = copy_range(data, start, stop);
            assert(rest.subrange(1 + n, 1 + n + l) =~= v@);
            assert(rest.subrange(1 + n + l, rest.len() as int) =~= data@.subrange(stop as int, data@.len() as int));
            let r = self.apply_opt_entry(t, v);
            if r.is_err() {
                return r;
            }
            p = stop;
        }
        Ok(())
    }
}


/// What the fixed part of a table map holds, and where its optional metadata starts.
pub struct TableMapParts {
    pub table_id: u64,
    pub flags: u16,
    pub schema: Seq<u8>,
    pub table: Seq<u8>,
    pub column_count: u64,
    pub column_type: Seq<u8>,
    pub column_meta: Seq<u16>,
    pub null_bitmap: Seq<u8>,
    pub rest: int,
}

/// The fixed part of a table map body `d` whose table id takes `tis` bytes: the table id,
/// flags, schema name, a zero byte, table name, a zero byte, the column count, the column
/// types, the length-encoded column metadata and the null bitmap.
pub open spec fn table_map_parts(d: Seq<u8>, tis: int) -> Result<TableMapParts, ReplicationError> {
    if tis < 0 || tis > 8 {
        Err(ReplicationError::InvalidTableIdSize(tis as isize))
    } else if d.len() < tis + 3 {
        Err(ReplicationError::UnexpectedEof)
    } else {
        let sl = d[tis + 2] as int;
        let ps = tis + 3;
        let pt = ps + sl + 1;
        if pt + 1 > d.len() {
            Err(ReplicationError::UnexpectedEof)
        } else {
            let tl = d[pt] as int;
            let pc = pt + 1 + tl + 1;
            if pc > d.len() {
                Err(ReplicationError::UnexpectedEof)
            } else {
                match lenenc_int(d.subrange(pc, d.len() as int)) {
                    None => Err(ReplicationError::UnexpectedEof),
                    Some((cc, _, n)) => {
                        let pty = pc + n;
                        if pty + cc > d.len() {
                            Err(ReplicationError::UnexpectedEof)
                        } else {
                            let pm = pty + cc;
                            let types = d.subrange(pty, pm);
                            match lenenc_str(d.subrange(pm, d.len() as int)) {
                                None => Err(ReplicationError::UnexpectedEof),
                                Some((meta, _, n2)) => match meta_from(types, meta, 0, 0) {
                                    Err(e) => Err(e),
                                    Ok(metas) => {
                                        let pn = pm + n2;
                                        let nb = (cc + 7) / 8;
                                        if pn + nb > d.len() {
                                            Err(ReplicationError::UnexpectedEof)
                                        } else {
                                            Ok(
                                                TableMapParts {
                                                    table_id: le_at(d, 0, tis) as u64,
                                                    flags: le_at(d, tis, 2) as u16,
                                                    schema: d.subrange(ps, ps + sl),
                                                    table: d.subrange(pt + 1, pt + 1 + tl),
                                                    column_count: cc,
                                                    column_type: types,
                                                    column_meta: metas,
                                                    null_bitmap: d.subrange(pn, pn + nb),
                                                    rest: pn + nb,
                                                },
                                            )
                                        }
                                    },
                                },
                            }
                        }
                    },
                }
            }
        }
    }
}

/// `r` with `a` put in front of the list it holds.
pub open spec fn join_res(a: Seq<u16>, r: Result<Seq<u16>, ReplicationError>) -> Result<Seq<u16>, ReplicationError> {
    match r {
        Err(e) => Err(e),
        Ok(t) => Ok(a + t),
    }
}

impl TableMapEvent {
    /// The metadata of each column, read from `data` by the column types.
    fn decode_meta(&mut self, data: &[u8]) -> (r: Result<(), ReplicationError>)
        ensures
            *final(self) == (TableMapEvent { column_meta: final(self).column_meta, ..*old(self) }),
            match meta_from(old(self).column_type@, data@, 0, 0) {
                Ok(ms) => r is Ok && final(self).column_meta@ == ms,
                Err(e) => r == Err::<(), _>(e),
            },
    {
        let ghost types = self.column_type@;
        let mut metas: Vec<u16> = Vec::new();
        let mut pos: usize = 0;
        let mut i: usize = 0;
        proof {
            if meta_from(types, data@, 0, 0) is Ok {
                assert(Seq::<u16>::empty() + meta_from(types, data@, 0, 0)->Ok_0 =~= meta_from(types, data@, 0, 0)->Ok_0);
            }
        }
        while i < self.column_type.len()
            invariant
                types == self.column_type@,
                *self == *old(self),
                i <= types.len(),
                pos <= data@.len(),
                meta_from(types, data@, 0, 0) == join_res(metas@, meta_from(types, data@, i as int, pos as int)),
            decreases self.column_type.len() - i,
        {
            let t = self.column_type[i];
            proof {
                reveal_with_fuel(byte_pow, 3);
            }
            let (size, v): (usize, u16) = if t == MYSQL_TYPE_STRING || t == MYSQL_TYPE_NEWDECIMAL {
                if data.len() - pos < 2 {
                    return Err(ReplicationError::UnexpectedEof);
                }
                let x = fixed_be(data, pos, 2);
                proof {
                    crate::bytes::lemma_fixed_be_bound(data@, pos as int, 2);
                }
                (2, x as u16)
            } else if t == MYSQL_TYPE_VAR_STRING || t == MYSQL_TYPE_VARCHAR || t == MYSQL_TYPE_BIT {
                if data.len() - pos < 2 {
                    return Err(ReplicationError::UnexpectedEof);
                }
                let x = fixed_le(data, pos, 2);
                proof {
                    lemma_fixed_le_bound(data@, pos as int, 2);
                }
                (2, x as u16)
            } else if t == MYSQL_TYPE_BLOB || t == MYSQL_TYPE_DOUBLE || t == MYSQL_TYPE_FLOAT || t
                == MYSQL_TYPE_GEOMETRY || t == MYSQL_TYPE_JSON || t == MYSQL_TYPE_TIME2 || t
                == MYSQL_TYPE_DATETIME2 || t == MYSQL_TYPE_TIMESTAMP2 {
                if data.len() - pos < 1 {
                    return Err(ReplicationError::UnexpectedEof);
                }
                let x = fixed_le(data, pos, 1);
                proof {
                    lemma_fixed_le_bound(data@, pos as int, 1);
                }
                (1, x as u16)
            } else if t == MYSQL_TYPE_NEWDATE || t == MYSQL_TYPE_ENUM || t == MYSQL_TYPE_SET || t
                == MYSQL_TYPE_TINY_BLOB || t == MYSQL_TYPE_MEDIUM_BLOB || t == MYSQL_TYPE_LONG_BLOB {
                return Err(ReplicationError::UnsupportedColumnType(t));
            } else {
                (0, 0)
            };
            proof {
                let nxt = meta_from(types, data@, i + 1, pos + size);
                if nxt is Ok {
                    assert(metas@ + (seq![v] + nxt->Ok_0) =~= metas@.push(v) + nxt->Ok_0);
                }
            }
            metas.push(v);
            pos = pos + size;
            i = i + 1;
        }
        assert(metas@ + Seq::<u16>::empty() =~= metas@);
        self.column_meta = metas;
        Ok(())
    }
}


impl Event for TableMapEvent {
    open spec fn decode_spec(&self, data: Seq<u8>, after: Self, r: Result<(), ReplicationError>) -> bool {
        &&& after.set_str_cache() == self.set_str_cache()
        &&& after.enum_str_cache() == self.enum_str_cache()
        &&& after.column_name_cache() == self.column_name_cache()
        &&& (match table_map_parts(data, self.table_id_size as int) {
            Err(e) => r == Err::<(), _>(e),
            Ok(p) => {
                &&& after.flavor == self.flavor
                &&& after.table_id_size == self.table_id_size
                &&& after.table_id == p.table_id
                &&& after.flags == p.flags
                &&& after.schema@ == p.schema
                &&& after.table@ == p.table
                &&& after.column_count == p.column_count
                &&& after.column_type@ == p.column_type
                &&& after.column_meta@ == p.column_meta
                &&& after.null_bitmap@ == p.null_bitmap
                &&& match opt_meta_from(
                    data.subrange(p.rest, data.len() as int),
                    self.opt_meta(),
                    p.column_count,
                ) {
                    Ok(st) => r is Ok && after.opt_meta() == st,
                    Err(e) => r == Err::<(), _>(e),
                }
            },
        })
    }

    /// Decodes a table map body: its fixed part, then its optional metadata.
    fn decode(&mut self, data: &[u8]) -> (r: Result<(), ReplicationError>)
    {
        let tis = self.table_id_size;
        if tis < 0 || tis > 8 {
            return Err(ReplicationError::InvalidTableIdSize(tis));
        }
        let t = tis as usize;
        let len = data.len();
        if len < t + 3 {
            return Err(ReplicationError::UnexpectedEof);
        }
        let table_id = fixed_le(data, 0, t);
        let flags = fixed_le(data, t, 2);
        proof {
            lemma_fixed_le_bound(data@, t as int, 2);
            reveal_with_fuel(byte_pow, 3);
        }
        let sl = data[t + 2] as usize;
        let ps = t + 3;
        if len - ps < sl + 2 {
            return Err(ReplicationError::UnexpectedEof);
        }
        let pt = ps + sl + 1;
        let tl = data[pt] as usize;
        if len - pt - 1 < tl + 1 {
            return Err(ReplicationError::UnexpectedEof);
        }
        let pc = pt + 1 + tl + 1;
        let (cc, n) = match length_encoded_int(data, pc) {
            None => {
                return Err(ReplicationError::UnexpectedEof);
            },
            Some((cc, _, n)) => (cc, n),
        };
        let pty = pc + n;
        if cc > (len - pty) as u64 {
            return Err(ReplicationError::UnexpectedEof);
        }
        let pm = pty + cc as usize;
        let (meta, n2) = match length_encoded_string(data, pm) {
            None => {
                return Err(ReplicationError::UnexpectedEof);
            },
            Some((meta, _, n2)) => (meta, n2),
        };
        self.table_id = table_id;
        self.flags = flags as u16;
        self.schema = copy_range(data, ps, ps + sl);
        self.table = copy_range(data, pt + 1, pt + 1 + tl);
        self.column_count = cc;
        self.column_type = copy_range(data, pty, pm);
        let r = self.decode_meta(meta.as_slice());
        if r.is_err() {
            return r;
        }
        let pn = pm + n2;
        let nb = (cc as usize + 7) / 8;
        if len - pn < nb {
            return Err(ReplicationError::UnexpectedEof);
        }
        self.null_bitmap = copy_range(data, pn, pn + nb);
        let rest = pn + nb;
        let ghost before = *self;
        assert(before.opt_meta() == old(self).opt_meta());
        self.decode_optional_meta(&data[rest..len])
    }
}

} // verus!
