use vstd::prelude::*;
use crate::bytes::{be_at, le_at, fixed_be, fixed_le, copy_range, lemma_fixed_le_bound, lemma_fixed_be_bound, byte_pow};
use crate::error::ReplicationError;
use crate::text::{utf8_lossy, lossy_string, dec_digits, padded, push_char, push_uint, push_padded};
use crate::fields::{DecodeDecimal, DecodeDatetime, parse_big_decimal, big_decimal_of, digits_between};
use crate::time::{CalendarTime, FracTime, format_zero_time, format_before_unix_zero_time, make_calendar, unix_to_calendar};

verus! {

/// Whether bit `i` of `bitmap` is set, bit 0 being the lowest bit of the first byte.
pub open spec fn bit_set(bitmap: Seq<u8>, i: int) -> bool {
    (bitmap[i / 8] >> ((i % 8) as u8)) & 1u8 == 1u8
}

proof fn lemma_bit_test(b: u8, k: u8)
    requires
        k < 8,
    ensures
        ((b as usize & (1usize << (k as usize))) > 0) == ((b >> k) & 1u8 == 1u8),
{
    assert(k < 8 ==> (((b as usize & (1usize << (k as usize))) > 0) == ((b >> k) & 1u8 == 1u8)))
        by (bit_vector);
}

/// Whether bit `i` of `bitmap` is set.
pub fn is_bit_set(bitmap: &[u8], i: isize) -> (r: bool)
    requires
        0 <= i,
        i / 8 < bitmap@.len(),
    ensures
        r == bit_set(bitmap@, i as int),
{
    let u = i as usize;
    let idx = u >> 3;
    let k = u & 7;
    assert(u >> 3 == u / 8) by (bit_vector);
    assert(u & 7 == u % 8) by (bit_vector);
    let b = bitmap[idx] as usize;
    let c = 1usize << k;
    proof {
        lemma_bit_test(bitmap@[i / 8], k as u8);
    }
    (b & c) > 0
}

/// Whether bit `*i` of `bitmap` is set; moves `*i` on by one.
pub fn is_bit_set_incr(bitmap: &[u8], i: &mut isize) -> (r: bool)
    requires
        0 <= *old(i) < isize::MAX,
        *old(i) / 8 < bitmap@.len(),
    ensures
        r == bit_set(bitmap@, *old(i) as int),
        *final(i) == *old(i) + 1,
{
    let v = is_bit_set(bitmap, *i);
    *i = *i + 1;
    v
}

/// The value of a BIT or SET column of `length` bytes, with multi-byte fields of 2, 4 and 8
/// bytes big-endian (`little` false) or little-endian (`little` true), 3, 5 and 7 bytes
/// little-endian, and 6 bytes read as 7 little-endian bytes; `None` for other lengths.
pub open spec fn bit_value(d: Seq<u8>, nbits: int, length: int, little: bool) -> Option<i64> {
    if nbits > 1 {
        if length == 1 {
            Some(d[0] as i64)
        } else if length == 2 {
            Some((if little { le_at(d, 0, 2) } else { be_at(d, 0, 2) }) as i64)
        } else if length == 3 {
            Some(le_at(d, 0, 3) as i64)
        } else if length == 4 {
            Some((if little { le_at(d, 0, 4) } else { be_at(d, 0, 4) }) as i64)
        } else if length == 5 {
            Some(le_at(d, 0, 5) as i64)
        } else if length == 6 || length == 7 {
            Some(le_at(d, 0, 7) as i64)
        } else if length == 8 {
            Some((if little { le_at(d, 0, 8) } else { be_at(d, 0, 8) }) as i64)
        } else {
            None
        }
    } else if length == 1 {
        Some(d[0] as i64)
    } else {
        None
    }
}

/// How many bytes `bit_value` reads for a field of `length` bytes.
pub open spec fn bit_bytes(length: int) -> int {
    if length == 6 {
        7
    } else {
        length
    }
}

fn decode_bit_impl(data: &[u8], nbits: isize, length: isize, little: bool) -> (r: Result<i64, ReplicationError>)
    ensures
        bit_value(data@, nbits as int, length as int, little) is None ==> r == Err::<i64, _>(
            ReplicationError::InvalidBitLength(length),
        ),
        bit_value(data@, nbits as int, length as int, little) is Some ==> (if data@.len() >= bit_bytes(length as int) {
            r == Ok::<i64, ReplicationError>(bit_value(data@, nbits as int, length as int, little).unwrap())
        } else {
            r == Err::<i64, _>(ReplicationError::UnexpectedEof)
        }),
{
    if nbits <= 1 && length != 1 {
        return Err(ReplicationError::InvalidBitLength(length));
    }
    if length < 1 || length > 8 {
        return Err(ReplicationError::InvalidBitLength(length));
    }
    let need: usize = if length == 6 {
        7
    } else {
        length as usize
    };
    if data.len() < need {
        return Err(ReplicationError::UnexpectedEof);
    }
    let v: u64 = if length == 1 {
        data[0] as u64
    } else if length == 3 || length == 5 || length == 6 || length == 7 {
        fixed_le(data, 0, need)
    } else if little {
        fixed_le(data, 0, need)
    } else {
        fixed_be(data, 0, need)
    };
    Ok(v as i64)
}

/// The value of a BIT column: `length` bytes, big-endian where it matters.
pub fn decode_bit(data: &[u8], nbits: isize, length: isize) -> (r: Result<i64, ReplicationError>)
    ensures
        bit_value(data@, nbits as int, length as int, false) is None ==> r == Err::<i64, _>(
            ReplicationError::InvalidBitLength(length),
        ),
        bit_value(data@, nbits as int, length as int, false) is Some ==> (if data@.len() >= bit_bytes(length as int) {
            r == Ok::<i64, ReplicationError>(bit_value(data@, nbits as int, length as int, false).unwrap())
        } else {
            r == Err::<i64, _>(ReplicationError::UnexpectedEof)
        }),
{
    decode_bit_impl(data, nbits, length, false)
}

/// The value of a SET column: `length` bytes, little-endian.
pub fn little_decode_bit(data: &[u8], nbits: isize, length: isize) -> (r: Result<i64, ReplicationError>)
    ensures
        bit_value(data@, nbits as int, length as int, true) is None ==> r == Err::<i64, _>(
            ReplicationError::InvalidBitLength(length),
        ),
        bit_value(data@, nbits as int, length as int, true) is Some ==> (if data@.len() >= bit_bytes(length as int) {
            r == Ok::<i64, ReplicationError>(bit_value(data@, nbits as int, length as int, true).unwrap())
        } else {
            r == Err::<i64, _>(ReplicationError::UnexpectedEof)
        }),
{
    decode_bit_impl(data, nbits, length, true)
}

/// A string with a one-byte length prefix (when `length < 256`) or a two-byte little-endian
/// one: the text and the bytes it takes; `None` where the data is short.
pub open spec fn string_value(d: Seq<u8>, length: int) -> Option<(Seq<char>, int)> {
    if length < 256 {
        if d.len() < 1 || d[0] == 255 || d[0] + 1 > d.len() {
            None
        } else {
            Some((utf8_lossy(d.subrange(1, d[0] + 1)), d[0] + 1))
        }
    } else {
        if d.len() < 2 || le_at(d, 0, 2) + 2 > 0xffff || le_at(d, 0, 2) + 2 > d.len() {
            None
        } else {
            Some((utf8_lossy(d.subrange(2, le_at(d, 0, 2) + 2int)), le_at(d, 0, 2) + 2int))
        }
    }
}

/// A CHAR or VARCHAR value: its text and the bytes it takes.
pub fn decode_string(data: &[u8], length: isize) -> (r: Result<(String, isize), ReplicationError>)
    ensures
        r matches Ok((s, n)) ==> string_value(data@, length as int) == Some((s@, n as int)),
        r is Err ==> string_value(data@, length as int) is None && r == Err::<(String, isize), _>(
            ReplicationError::UnexpectedEof,
        ),
{
    if length < 256 {
        if data.len() < 1 || data[0] == 255 {
            return Err(ReplicationError::UnexpectedEof);
        }
        let n = data[0] as usize + 1;
        if n > data.len() {
            return Err(ReplicationError::UnexpectedEof);
        }
        let s = lossy_string(&data[1..n]);
        Ok((s, n as isize))
    } else {
        if data.len() < 2 {
            return Err(ReplicationError::UnexpectedEof);
        }
        let l = fixed_le(data, 0, 2);
        proof {
            lemma_fixed_le_bound(data@, 0, 2);
            reveal_with_fuel(byte_pow, 3);
        }
        if l + 2 > 0xffff {
            return Err(ReplicationError::UnexpectedEof);
        }
        let n = l as usize + 2;
        if n > data.len() {
            return Err(ReplicationError::UnexpectedEof);
        }
        let s = lossy_string(&data[2..n]);
        Ok((s, n as isize))
    }
}

/// A BLOB value with a `meta`-byte little-endian length prefix: the bytes and how many the
/// value takes; `None` where the data is short.
pub open spec fn blob_value(d: Seq<u8>, meta: int) -> Option<(Seq<u8>, int)> {
    if 1 <= meta <= 4 && d.len() >= meta && le_at(d, 0, meta) + meta <= d.len() {
        Some((d.subrange(meta, le_at(d, 0, meta) + meta), le_at(d, 0, meta) as int + meta))
    } else {
        None
    }
}

/// A BLOB value: its bytes and how many bytes it takes.
pub fn decode_blob(data: &[u8], meta: u16) -> (r: Result<(Vec<u8>, isize), ReplicationError>)
    requires
        data@.len() <= isize::MAX,
    ensures
        !(1 <= meta <= 4) ==> r == Err::<(Vec<u8>, isize), _>(ReplicationError::InvalidBlobPackLen(meta)),
        1 <= meta <= 4 ==> (r matches Ok((v, n)) ==> blob_value(data@, meta as int) == Some((v@, n as int))),
        1 <= meta <= 4 ==> (r is Err ==> blob_value(data@, meta as int) is None && r == Err::<(Vec<u8>, isize), _>(ReplicationError::UnexpectedEof)),
{
    if meta < 1 || meta > 4 {
        return Err(ReplicationError::InvalidBlobPackLen(meta));
    }
    let m = meta as usize;
    if data.len() < m {
        return Err(ReplicationError::UnexpectedEof);
    }
    let length = fixed_le(data, 0, m);
    if length > (data.len() - m) as u64 {
        return Err(ReplicationError::UnexpectedEof);
    }
    let n = length as usize + m;
    let v = copy_range(data, m, n);
    Ok((v, n as isize))
}

} // verus!

verus! {

pub const DIGITS_PER_INTEGER: isize = 9;

/// How many bytes hold `i` leftover decimal digits: `[0, 1, 1, 2, 2, 3, 3, 4, 4, 4][i]`.
pub open spec fn comp_bytes(i: int) -> int {
    if i <= 0 {
        0
    } else if i <= 2 {
        1
    } else if i <= 4 {
        2
    } else if i <= 6 {
        3
    } else {
        4
    }
}

fn compressed_bytes(i: isize) -> (r: isize)
    requires
        0 <= i < 10,
    ensures
        r == comp_bytes(i as int),
{
    if i == 0 {
        0
    } else if i <= 2 {
        1
    } else if i <= 4 {
        2
    } else if i <= 6 {
        3
    } else {
        4
    }
}

/// The big-endian value of `s` with every byte XOR-ed with `mask`.
pub open spec fn be_uint_masked(s: Seq<u8>, mask: u8) -> nat
    decreases s.len(),
{
    if s.len() == 0 {
        0
    } else {
        be_uint_masked(s.drop_last(), mask) * 256 + (s.last() ^ mask) as nat
    }
}

/// Reads the `comp_bytes(comp_indx)` leading bytes of `data`, each XOR-ed with `mask`, as a
/// big-endian number: the leftover digits of a DECIMAL value.
pub fn decode_decimal_decompress_value(comp_indx: isize, data: &[u8], mask: u8) -> (r: (isize, u32))
    requires
        0 <= comp_indx < 10,
        comp_bytes(comp_indx as int) <= data@.len(),
    ensures
        r.0 == comp_bytes(comp_indx as int),
        r.1 == be_uint_masked(data@.subrange(0, r.0 as int), mask),
{
    let size = compressed_bytes(comp_indx);
    let mut acc: u64 = 0;
    let mut i: usize = 0;
    while i < size as usize
        invariant
            0 <= size <= 4,
            size <= data@.len(),
            i <= size,
            acc == be_uint_masked(data@.subrange(0, i as int), mask),
            acc < byte_pow(i as nat),
        decreases size - i,
    {
        assert(data@.subrange(0, i + 1).drop_last() =~= data@.subrange(0, i as int));
        proof {
            reveal_with_fuel(byte_pow, 5);
            crate::bytes::lemma_byte_pow_mono(i as nat, 3);
        }
        acc = acc * 256 + (data[i] ^ mask) as u64;
        i = i + 1;
    }
    proof {
        crate::bytes::lemma_byte_pow_mono(i as nat, 4);
        reveal_with_fuel(byte_pow, 5);
    }
    (size, acc as u32)
}

} // verus!

verus! {

/// The integer digits, fraction digits, and the leftover digit counts and byte count of a
/// DECIMAL(`precision`, `decimals`) value: `(ui, uf, ci, cf, bytes)`.
pub open spec fn decimal_layout(precision: int, decimals: int) -> (int, int, int, int, int) {
    let integral = precision - decimals;
    let ui = integral / 9;
    let uf = decimals / 9;
    let ci = integral - ui * 9;
    let cf = decimals - uf * 9;
    (ui, uf, ci, cf, ui * 4 + comp_bytes(ci) + uf * 4 + comp_bytes(cf))
}

/// Whether a DECIMAL value is negative: its sign bit is clear.
pub open spec fn decimal_negative(d: Seq<u8>) -> bool {
    d[0] < 128
}

/// The first `n` bytes of a DECIMAL value with the sign bit flipped, all inverted when the
/// value is negative: big-endian groups of digits.
pub open spec fn decimal_bytes(d: Seq<u8>, n: int) -> Seq<u8> {
    Seq::new(
        n as nat,
        |i: int|
            {
                let b: u8 = if i == 0 {
                    (d[0] ^ 0x80u8) as u8
                } else {
                    d[i]
                };
                if decimal_negative(d) {
                    (b ^ 0xffu8) as u8
                } else {
                    b
                }
            },
    )
}

/// Integer-part text of the groups `vals`: the first group that is not zero in plain
/// digits and each later one in nine zero-padded digits. Also whether any digit was
/// written, and whether every padded group was below 10^9.
pub open spec fn int_part_fold(vals: Seq<nat>) -> (Seq<char>, bool, bool)
    decreases vals.len(),
{
    if vals.len() == 0 {
        (Seq::empty(), false, true)
    } else {
        let prev = int_part_fold(vals.drop_last());
        let v = vals.last();
        if prev.1 {
            (prev.0 + padded(v, 9), true, prev.2 && v < 1_000_000_000)
        } else if v != 0 {
            (prev.0 + dec_digits(v), true, prev.2)
        } else {
            prev
        }
    }
}

/// Fraction text of the nine-digit groups `vals`, and whether each was below 10^9.
pub open spec fn frac_part_fold(vals: Seq<nat>) -> (Seq<char>, bool)
    decreases vals.len(),
{
    if vals.len() == 0 {
        (Seq::empty(), true)
    } else {
        let prev = frac_part_fold(vals.drop_last());
        let v = vals.last();
        (prev.0 + padded(v, 9), prev.1 && v < 1_000_000_000)
    }
}

/// The integer-part groups: the leftover leading digits, then `ui` four-byte groups.
pub open spec fn int_groups(c: Seq<u8>, ui: int, ci: int) -> Seq<nat> {
    seq![be_at(c, 0, comp_bytes(ci))] + Seq::new(ui as nat, |k: int| be_at(c, comp_bytes(ci) + 4 * k, 4))
}

/// The `uf` four-byte fraction groups that start at `start`.
pub open spec fn frac_groups(c: Seq<u8>, start: int, uf: int) -> Seq<nat> {
    Seq::new(uf as nat, |k: int| be_at(c, start + 4 * k, 4))
}

/// The text MySQL gives a DECIMAL(`precision`, `decimals`) value stored in `d`; `None`
/// where a group is too large.
pub open spec fn decimal_text(d: Seq<u8>, precision: int, decimals: int) -> Option<Seq<char>> {
    let (ui, uf, ci, cf, n) = decimal_layout(precision, decimals);
    let c = decimal_bytes(d, n);
    let ip = int_part_fold(int_groups(c, ui, ci));
    let int_text = if ip.1 {
        ip.0
    } else {
        seq!['0']
    };
    let fstart = comp_bytes(ci) + 4 * ui;
    let fp = frac_part_fold(frac_groups(c, fstart, uf));
    let tail = if comp_bytes(cf) > 0 {
        padded(be_at(c, fstart + 4 * uf, comp_bytes(cf)), cf as nat)
    } else {
        Seq::empty()
    };
    let sign = if decimal_negative(d) {
        seq!['-']
    } else {
        Seq::empty()
    };
    let has_frac = fstart < n;
    if ip.2 && (has_frac ==> fp.1) {
        Some(
            sign + int_text + if has_frac {
                seq!['.'] + fp.0 + tail
            } else {
                Seq::empty()
            },
        )
    } else {
        None
    }
}

/// The bytes of a DECIMAL value with the sign bit flipped and, for a negative value, all
/// bits inverted.
fn decimal_prepare(data: &[u8], n: usize) -> (c: Vec<u8>)
    requires
        1 <= n <= data@.len(),
    ensures
        c@ == decimal_bytes(data@, n as int),
{
    let neg = data[0] < 128;
    let mut c: Vec<u8> = Vec::new();
    let mut i: usize = 0;
    while i < n
        invariant
            n <= data@.len(),
            n >= 1,
            i <= n,
            neg == decimal_negative(data@),
            c@ == decimal_bytes(data@, n as int).subrange(0, i as int),
        decreases n - i,
    {
        let mut b = data[i];
        if i == 0 {
            b = b ^ 0x80;
        }
        if neg {
            b = b ^ 0xff;
        }
        c.push(b);
        i = i + 1;
        assert(c@ =~= decimal_bytes(data@, n as int).subrange(0, i as int));
    }
    assert(c@ =~= decimal_bytes(data@, n as int));
    c
}

/// Appends the integer part of a DECIMAL value; false where a group is too large.
fn decimal_int_part(c: &Vec<u8>, ui: isize, ci: isize, res: &mut String) -> (ok: bool)
    requires
        0 <= ui,
        0 <= ci < 10,
        comp_bytes(ci as int) + 4 * ui <= c.len(),
    ensures
        ok == int_part_fold(int_groups(c@, ui as int, ci as int)).2,
        ok ==> final(res)@ == old(res)@ + (if int_part_fold(int_groups(c@, ui as int, ci as int)).1 {
            int_part_fold(int_groups(c@, ui as int, ci as int)).0
        } else {
            seq!['0']
        }),
{
    let ghost igroups = int_groups(c@, ui as int, ci as int);
    let lead_size = compressed_bytes(ci);
    let lead = fixed_be(c.as_slice(), 0, lead_size as usize);
    proof {
        lemma_fixed_be_bound(c@, 0, lead_size as int);
        reveal_with_fuel(byte_pow, 5);
        crate::bytes::lemma_byte_pow_mono(lead_size as nat, 4);
    }
    let mut started = lead != 0;
    if started {
        push_uint(res, lead);
    }
    proof {
        let one = igroups.subrange(0, 1);
        assert(one.drop_last() =~= Seq::<nat>::empty());
        assert(one.last() == lead);
        reveal_with_fuel(int_part_fold, 2);
        assert(res@ =~= old(res)@ + int_part_fold(one).0);
    }
    let mut pos: usize = lead_size as usize;
    let mut k: isize = 0;
    while k < ui
        invariant
            0 <= k <= ui,
            comp_bytes(ci as int) + 4 * ui <= c.len(),
            igroups == int_groups(c@, ui as int, ci as int),
            pos == lead_size + 4 * k,
            lead_size == comp_bytes(ci as int),
            int_part_fold(igroups.subrange(0, k + 1)).2,
            res@ == old(res)@ + int_part_fold(igroups.subrange(0, k + 1)).0,
            started == int_part_fold(igroups.subrange(0, k + 1)).1,
        decreases ui - k,
    {
        let v = fixed_be(c.as_slice(), pos, 4);
        proof {
            lemma_fixed_be_bound(c@, pos as int, 4);
            reveal_with_fuel(byte_pow, 5);
            assert(igroups.subrange(0, k + 2).drop_last() =~= igroups.subrange(0, k + 1));
            assert(igroups.subrange(0, k + 2).last() == v);
        }
        if started {
            if v >= 1_000_000_000 {
                proof {
                    lemma_int_fold_fails(igroups, (k + 2) as nat);
                }
                return false;
            }
            push_padded(res, v, 9);
        } else if v != 0 {
            started = true;
            push_uint(res, v);
        }
        pos = pos + 4;
        k = k + 1;
        assert(res@ =~= old(res)@ + int_part_fold(igroups.subrange(0, k + 1)).0);
    }
    assert(igroups.subrange(0, k + 1) =~= igroups);
    if !started {
        proof {
            lemma_int_fold_unstarted(igroups);
        }
        push_char(res, '0');
        assert(res@ =~= old(res)@ + seq!['0']);
    }
    true
}

/// Appends the nine-digit fraction groups of a DECIMAL value; false where one is too large.
fn decimal_frac_part(c: &Vec<u8>, start: usize, uf: isize, res: &mut String) -> (ok: bool)
    requires
        0 <= uf,
        start + 4 * uf <= c.len(),
    ensures
        ok == frac_part_fold(frac_groups(c@, start as int, uf as int)).1,
        ok ==> final(res)@ == old(res)@ + frac_part_fold(frac_groups(c@, start as int, uf as int)).0,
{
    let ghost fgroups = frac_groups(c@, start as int, uf as int);
    let mut pos = start;
    let mut k: isize = 0;
    assert(fgroups.subrange(0, 0) =~= Seq::<nat>::empty());
    while k < uf
        invariant
            0 <= k <= uf,
            start + 4 * uf <= c.len(),
            fgroups == frac_groups(c@, start as int, uf as int),
            pos == start + 4 * k,
            frac_part_fold(fgroups.subrange(0, k as int)).1,
            res@ == old(res)@ + frac_part_fold(fgroups.subrange(0, k as int)).0,
        decreases uf - k,
    {
        let v = fixed_be(c.as_slice(), pos, 4);
        proof {
            lemma_fixed_be_bound(c@, pos as int, 4);
            reveal_with_fuel(byte_pow, 5);
            assert(fgroups.subrange(0, k + 1).drop_last() =~= fgroups.subrange(0, k as int));
            assert(fgroups.subrange(0, k + 1).last() == v);
        }
        if v >= 1_000_000_000 {
            proof {
                lemma_frac_fold_fails(fgroups, (k + 1) as nat);
            }
            return false;
        }
        push_padded(res, v, 9);
        pos = pos + 4;
        k = k + 1;
        assert(res@ =~= old(res)@ + frac_part_fold(fgroups.subrange(0, k as int)).0);
    }
    assert(fgroups.subrange(0, k as int) =~= fgroups);
    true
}

/// Decodes a DECIMAL(`precision`, `decimals`) value: its text, or the number it spells when
/// `use_decimal` holds, and the bytes it takes.
#[verifier::rlimit(60)]
#[verifier::spinoff_prover]
pub fn decode_decimal(data: &[u8], precision: isize, decimals: isize, use_decimal: bool) -> (r:
    Result<(DecodeDecimal, isize), ReplicationError>)
    requires
        0 <= decimals <= precision,
    ensures
        ({
            let n = decimal_layout(precision as int, decimals as int).4;
            &&& (r is Ok) == (n >= 1 && n <= data@.len() && decimal_text(data@, precision as int, decimals as int) is Some)
            &&& (n < 1 || n > data@.len()) ==> r == Err::<(DecodeDecimal, isize), _>(ReplicationError::UnexpectedEof)
            &&& (n >= 1 && n <= data@.len() && decimal_text(data@, precision as int, decimals as int) is None) ==>
                r == Err::<(DecodeDecimal, isize), _>(ReplicationError::InvalidDecimal)
            &&& r matches Ok((v, pos)) ==> pos == n && (if use_decimal {
                v == DecodeDecimal::Decimal(big_decimal_of(decimal_text(data@, precision as int, decimals as int).unwrap()))
            } else {
                v matches DecodeDecimal::String(s) && s@ == decimal_text(data@, precision as int, decimals as int).unwrap()
            })
        }),
{
    let integral = precision - decimals;
    let ui = integral / DIGITS_PER_INTEGER;
    let uf = decimals / DIGITS_PER_INTEGER;
    let ci = integral - ui * DIGITS_PER_INTEGER;
    let cf = decimals - uf * DIGITS_PER_INTEGER;
    let lead_size = compressed_bytes(ci);
    let tail_size = compressed_bytes(cf);
    let bin_size = ui * 4 + lead_size + uf * 4 + tail_size;
    let ghost layout = decimal_layout(precision as int, decimals as int);
    assert(layout == (ui as int, uf as int, ci as int, cf as int, bin_size as int));
    if bin_size < 1 || (bin_size as usize) > data.len() {
        return Err(ReplicationError::UnexpectedEof);
    }
    let n = bin_size as usize;
    let c = decimal_prepare(data, n);
    let ghost text = decimal_text(data@, precision as int, decimals as int);
    let mut res = String::new();
    if data[0] < 128 {
        push_char(&mut res, '-');
    }
    let ghost sign = res@;
    if !decimal_int_part(&c, ui, ci, &mut res) {
        return Err(ReplicationError::InvalidDecimal);
    }
    let pos = (lead_size + 4 * ui) as usize;
    if pos < n {
        push_char(&mut res, '.');
        if !decimal_frac_part(&c, pos, uf, &mut res) {
            return Err(ReplicationError::InvalidDecimal);
        }
        let fpos = pos + 4 * uf as usize;
        if tail_size > 0 {
            let (size, t) = decode_decimal_decompress_value(cf, &c.as_slice()[fpos..n], 0);
            assert(c@.subrange(fpos as int, n as int).subrange(0, size as int) =~= c@.subrange(fpos as int, fpos + size));
            proof {
                lemma_be_unmasked(c@.subrange(fpos as int, fpos + size));
            }
            push_padded(&mut res, t as u64, cf as usize);
        }
    }
    assert(text is Some);
    assert(res@ =~= text.unwrap());
    if use_decimal {
        assert(crate::fields::plain_decimal_text(res@)) by {
            lemma_decimal_text_plain(data@, precision as int, decimals as int);
        }
        match parse_big_decimal(&res) {
            Some(v) => Ok((DecodeDecimal::Decimal(v), n as isize)),
            None => Err(ReplicationError::DecimalParse),
        }
    } else {
        Ok((DecodeDecimal::String(res), n as isize))
    }
}

/// A group at or above 10^9 after the first non-zero group makes the integer part invalid.
proof fn lemma_int_fold_fails(vals: Seq<nat>, k: nat)
    requires
        1 <= k <= vals.len(),
        int_part_fold(vals.subrange(0, k - 1)).1,
        vals[k - 1] >= 1_000_000_000,
    ensures
        !int_part_fold(vals).2,
    decreases vals.len() - k,
{
    assert(vals.subrange(0, k as int).drop_last() =~= vals.subrange(0, k - 1));
    lemma_int_fold_stays(vals, k);
}

/// Once invalid, the integer part stays invalid.
proof fn lemma_int_fold_stays(vals: Seq<nat>, k: nat)
    requires
        1 <= k <= vals.len(),
        !int_part_fold(vals.subrange(0, k as int)).2 || int_part_fold(vals.subrange(0, k - 1)).1 && vals[k - 1] >= 1_000_000_000,
    ensures
        !int_part_fold(vals).2,
    decreases vals.len() - k,
{
    assert(vals.subrange(0, k as int).drop_last() =~= vals.subrange(0, k - 1));
    assert(vals.subrange(0, k as int).last() == vals[k - 1]);
    assert(!int_part_fold(vals.subrange(0, k as int)).2);
    if k < vals.len() {
        assert(vals.subrange(0, k + 1int).drop_last() =~= vals.subrange(0, k as int));
        assert(!int_part_fold(vals.subrange(0, k + 1int)).2);
        lemma_int_fold_stays(vals, k + 1);
    } else {
        assert(vals.subrange(0, k as int) =~= vals);
    }
}

/// A fraction group at or above 10^9 makes the fraction invalid.
proof fn lemma_frac_fold_fails(vals: Seq<nat>, k: nat)
    requires
        1 <= k <= vals.len(),
        vals[k - 1] >= 1_000_000_000,
    ensures
        !frac_part_fold(vals).1,
    decreases vals.len() - k,
{
    assert(vals.subrange(0, k as int).drop_last() =~= vals.subrange(0, k - 1));
    if k < vals.len() {
        lemma_frac_fold_stays(vals, k + 1);
    } else {
        assert(vals.subrange(0, k as int) =~= vals);
    }
}

proof fn lemma_frac_fold_stays(vals: Seq<nat>, k: nat)
    requires
        2 <= k <= vals.len(),
        !frac_part_fold(vals.subrange(0, k - 1)).1,
    ensures
        !frac_part_fold(vals).1,
    decreases vals.len() - k,
{
    assert(vals.subrange(0, k as int).drop_last() =~= vals.subrange(0, k - 1));
    if k < vals.len() {
        lemma_frac_fold_stays(vals, k + 1);
    } else {
        assert(vals.subrange(0, k as int) =~= vals);
    }
}

/// With a zero mask the masked value is the plain big-endian value.
proof fn lemma_be_unmasked(s: Seq<u8>)
    ensures
        be_uint_masked(s, 0) == crate::bytes::be_uint(s),
    decreases s.len(),
{
    if s.len() > 0 {
        lemma_be_unmasked(s.drop_last());
        let b = s.last();
        assert(b ^ 0u8 == b) by (bit_vector);
    }
}

/// Before any digit is written the integer text is empty.
proof fn lemma_int_fold_unstarted(vals: Seq<nat>)
    ensures
        !int_part_fold(vals).1 ==> int_part_fold(vals).0 == Seq::<char>::empty(),
    decreases vals.len(),
{
    if vals.len() > 0 {
        lemma_int_fold_unstarted(vals.drop_last());
    }
}

proof fn lemma_dec_digits_digits(n: nat)
    ensures
        digits_between(dec_digits(n), 0, dec_digits(n).len() as int),
        dec_digits(n).len() >= 1,
    decreases n,
{
    if n >= 10 {
        lemma_dec_digits_digits(n / 10);
        let s = dec_digits(n / 10).push(crate::text::digit_char(n % 10));
        assert forall|i: int| 0 <= i < s.len() implies '0' <= #[trigger] s[i] <= '9' by {
            if i < s.len() - 1 {
                assert(s[i] == dec_digits(n / 10)[i]);
            }
        }
    }
}

proof fn lemma_padded_digits(n: nat, w: nat)
    ensures
        digits_between(padded(n, w), 0, padded(n, w).len() as int),
        padded(n, w).len() >= 1,
        padded(n, w).len() >= w,
{
    lemma_dec_digits_digits(n);
    let d = dec_digits(n);
    if d.len() < w {
        let z = Seq::new((w - d.len()) as nat, |i: int| '0');
        let s = z + d;
        assert forall|i: int| 0 <= i < s.len() implies '0' <= #[trigger] s[i] <= '9' by {
            if i >= z.len() {
                assert(s[i] == d[i - z.len()]);
            }
        }
    }
}

proof fn lemma_digits_concat(a: Seq<char>, b: Seq<char>)
    requires
        digits_between(a, 0, a.len() as int),
        digits_between(b, 0, b.len() as int),
    ensures
        digits_between(a + b, 0, (a + b).len() as int),
{
    assert forall|i: int| 0 <= i < (a + b).len() implies '0' <= #[trigger] (a + b)[i] <= '9' by {
        if i < a.len() {
            assert((a + b)[i] == a[i]);
        } else {
            assert((a + b)[i] == b[i - a.len()]);
        }
    }
}

proof fn lemma_int_fold_digits(vals: Seq<nat>)
    ensures
        digits_between(int_part_fold(vals).0, 0, int_part_fold(vals).0.len() as int),
        int_part_fold(vals).1 ==> int_part_fold(vals).0.len() >= 1,
    decreases vals.len(),
{
    if vals.len() > 0 {
        lemma_int_fold_digits(vals.drop_last());
        let v = vals.last();
        let prev = int_part_fold(vals.drop_last());
        lemma_padded_digits(v, 9);
        lemma_dec_digits_digits(v);
        lemma_digits_concat(prev.0, padded(v, 9));
        lemma_digits_concat(prev.0, dec_digits(v));
    }
}

proof fn lemma_frac_fold_digits(vals: Seq<nat>)
    ensures
        digits_between(frac_part_fold(vals).0, 0, frac_part_fold(vals).0.len() as int),
        frac_part_fold(vals).0.len() >= vals.len(),
    decreases vals.len(),
{
    if vals.len() > 0 {
        lemma_frac_fold_digits(vals.drop_last());
        let v = vals.last();
        let prev = frac_part_fold(vals.drop_last());
        lemma_padded_digits(v, 9);
        lemma_digits_concat(prev.0, padded(v, 9));
    }
}

/// A decimal text is digits with an optional sign and fraction.
#[verifier::spinoff_prover]
#[verifier::rlimit(40)]
proof fn lemma_decimal_text_plain(d: Seq<u8>, precision: int, decimals: int)
    requires
        0 <= decimals <= precision,
        decimal_text(d, precision, decimals) is Some,
    ensures
        crate::fields::plain_decimal_text(decimal_text(d, precision, decimals).unwrap()),
{
    let (ui, uf, ci, cf, n) = decimal_layout(precision, decimals);
    let c = decimal_bytes(d, n);
    let ip = int_part_fold(int_groups(c, ui, ci));
    let int_text = if ip.1 {
        ip.0
    } else {
        seq!['0']
    };
    lemma_int_fold_digits(int_groups(c, ui, ci));
    assert(digits_between(int_text, 0, int_text.len() as int));
    let fstart = comp_bytes(ci) + 4 * ui;
    let fp = frac_part_fold(frac_groups(c, fstart, uf));
    lemma_frac_fold_digits(frac_groups(c, fstart, uf));
    let tail = if comp_bytes(cf) > 0 {
        padded(be_at(c, fstart + 4 * uf, comp_bytes(cf)), cf as nat)
    } else {
        Seq::empty()
    };
    lemma_padded_digits(be_at(c, fstart + 4 * uf, comp_bytes(cf)), cf as nat);
    lemma_digits_concat(fp.0, tail);
    let ft = fp.0 + tail;
    let has_frac = fstart < n;
    let rest = if has_frac {
        seq!['.'] + ft
    } else {
        Seq::empty()
    };
    let sign = if decimal_negative(d) {
        seq!['-']
    } else {
        Seq::empty()
    };
    let s = decimal_text(d, precision, decimals).unwrap();
    assert(s =~= sign + int_text + rest);
    let body = int_text + rest;
    let k = int_text.len() as int;
    if decimal_negative(d) {
        assert(s[0] == '-');
        assert(s.drop_first() =~= body);
    } else {
        assert(s =~= body);
        assert(s[0] == int_text[0]);
    }
    assert(body.subrange(0, k) =~= int_text);
    assert(digits_between(body, 0, k)) by {
        assert forall|i: int| 0 <= i < k implies '0' <= #[trigger] body[i] <= '9' by {
            assert(body[i] == int_text[i]);
        }
    }
    if has_frac {
        assert(ft.len() >= 1);
        assert(body[k] == '.');
        assert(digits_between(body, k + 1, body.len() as int)) by {
            assert forall|i: int| k + 1 <= i < body.len() implies '0' <= #[trigger] body[i] <= '9' by {
                assert(body[i] == ft[i - k - 1]);
            }
        }
    } else {
        assert(body.len() == k);
    }
    assert(crate::fields::unsigned_part(s) == body);
    assert(crate::fields::decimal_split_at(crate::fields::unsigned_part(s), k));
    reveal(crate::fields::plain_decimal_text);
}

} // verus!

verus! {

/// The magnitude of a packed TIME value.
pub open spec fn abs_int(x: int) -> int {
    if x < 0 {
        -x
    } else {
        x
    }
}

/// The microsecond part of a packed TIME value.
pub open spec fn time_sec_part(tmp: int) -> int {
    abs_int(tmp) % 0x1000000
}

/// `HH:MM:SS` with each field at least two digits.
pub open spec fn hms_text(hour: int, minute: int, second: int) -> Seq<char> {
    padded(hour as nat, 2) + seq![':'] + padded(minute as nat, 2) + seq![':'] + padded(
        second as nat,
        2,
    )
}

/// The text of a packed TIME value: a sign for negative values, hours from bit 36, minutes
/// from bit 30 and seconds from bit 24, and, when the low 24 bits are not zero, `.` and
/// those bits as six digits cut to `dec` digits.
pub open spec fn time_text(tmp: int, dec: int) -> Seq<char> {
    let a = abs_int(tmp);
    let sign = if tmp < 0 {
        seq!['-']
    } else {
        Seq::empty()
    };
    let hms = a / 0x1000000;
    let base = sign + hms_text((hms / 0x1000) % 0x400, (hms / 0x40) % 0x40, hms % 0x40);
    if time_sec_part(tmp) != 0 {
        crate::time::cut_fraction(base + seq!['.'] + padded(time_sec_part(tmp) as nat, 6), dec)
    } else {
        base
    }
}

/// The text of a packed TIME value, with `n`, the binary length of the value, handed back
/// beside it.
pub fn time_format(tmp: i64, dec: u16, n: isize) -> (r: Result<(String, isize), ReplicationError>)
    requires
        tmp != i64::MIN,
        time_sec_part(tmp as int) != 0 ==> dec <= 6,
    ensures
        r matches Ok((s, len)) && s@ == time_text(tmp as int, dec as int) && len == n,
{
    let a: i64 = if tmp < 0 {
        -tmp
    } else {
        tmp
    };
    let hms = a / 0x1000000;
    let hour = (hms / 0x1000) % 0x400;
    let minute = (hms / 0x40) % 0x40;
    let second = hms % 0x40;
    let sec_part = a % 0x1000000;
    let mut s = String::new();
    if tmp < 0 {
        push_char(&mut s, '-');
    }
    push_padded(&mut s, hour as u64, 2);
    push_char(&mut s, ':');
    push_padded(&mut s, minute as u64, 2);
    push_char(&mut s, ':');
    push_padded(&mut s, second as u64, 2);
    let ghost base = s@;
    assert(base =~= (if tmp < 0 {
        seq!['-']
    } else {
        Seq::empty()
    }) + hms_text(hour as int, minute as int, second as int));
    if sec_part != 0 {
        push_char(&mut s, '.');
        push_padded(&mut s, sec_part as u64, 6);
        proof {
            crate::time::lemma_zero_pad_len(dec_digits(sec_part as nat), 6);
        }
        let t = crate::time::cut_tail(&s, (6 - dec) as usize);
        return Ok((t, n));
    }
    Ok((s, n))
}

/// How many bytes a TIME(`dec`) value takes.
pub open spec fn time2_len(dec: int) -> int {
    3 + (dec + 1) / 2
}

/// How many bytes of a TIME(`dec`) value are read.
pub open spec fn time2_need(dec: int) -> int {
    if dec == 1 || dec == 2 {
        4
    } else if dec == 3 || dec == 4 {
        5
    } else if dec == 5 || dec == 6 {
        6
    } else {
        3
    }
}

/// The packed value of a TIME(`dec`) column, and whether it is the zero time that is shown
/// without going through `time_text`. A negative value keeps its fraction in reverse order,
/// which is undone here.
pub open spec fn time2_value(d: Seq<u8>, dec: int) -> (int, bool) {
    if dec == 5 || dec == 6 {
        (be_at(d, 0, 6) - 0x800000000000, false)
    } else {
        let ip0 = be_at(d, 0, 3) - 0x800000;
        if dec == 1 || dec == 2 {
            let f0 = d[3] as int;
            let ip = if ip0 < 0 && f0 != 0 { ip0 + 1 } else { ip0 };
            let f = if ip0 < 0 && f0 != 0 { f0 - 0x100 } else { f0 };
            (ip * 0x1000000 + f * 10000, ip == 0 && f == 0)
        } else if dec == 3 || dec == 4 {
            let f0 = be_at(d, 3, 2) as int;
            let ip = if ip0 < 0 && f0 != 0 { ip0 + 1 } else { ip0 };
            let f = if ip0 < 0 && f0 != 0 { f0 - 0x10000 } else { f0 };
            (ip * 0x1000000 + f * 100, ip == 0 && f == 0)
        } else {
            (ip0 * 0x1000000, ip0 == 0)
        }
    }
}

/// The text and byte count a text decoder gives.
pub open spec fn text_result_view(r: Result<(String, isize), ReplicationError>) -> Result<(Seq<char>, int), ReplicationError> {
    match r {
        Ok((s, n)) => Ok((s@, n as int)),
        Err(e) => Err(e),
    }
}

/// How a TIME(`dec`) value in `d` decodes: its text, and the bytes it takes.
pub open spec fn time2_model(d: Seq<u8>, dec: u16) -> Result<(Seq<char>, int), ReplicationError> {
    if dec == u16::MAX {
        Err(ReplicationError::InvalidFractionDigits(dec))
    } else if d.len() < time2_need(dec as int) {
        Err(ReplicationError::UnexpectedEof)
    } else {
        let (tmp, zero) = time2_value(d, dec as int);
        if zero {
            Ok(("00:00:00"@, time2_len(dec as int)))
        } else {
            Ok((time_text(tmp, dec as int), time2_len(dec as int)))
        }
    }
}

/// Decodes a TIME(`dec`) value: its text and the bytes it takes.
pub fn decode_time2(data: &[u8], dec: u16) -> (r: Result<(String, isize), ReplicationError>)
    ensures
        text_result_view(r) == time2_model(data@, dec),
{
    if dec == u16::MAX {
        return Err(ReplicationError::InvalidFractionDigits(dec));
    }
    let n = (3 + (dec + 1) / 2) as isize;
    let need: usize = if dec == 1 || dec == 2 {
        4
    } else if dec == 3 || dec == 4 {
        5
    } else if dec == 5 || dec == 6 {
        6
    } else {
        3
    };
    if data.len() < need {
        return Err(ReplicationError::UnexpectedEof);
    }
    proof {
        reveal_with_fuel(byte_pow, 7);
    }
    if dec == 5 || dec == 6 {
        let v = fixed_be(data, 0, 6);
        proof {
            lemma_fixed_be_bound(data@, 0, 6);
        }
        let len_int = v as i64 - 0x800000000000;
        return time_format(len_int, dec, n);
    }
    let v = fixed_be(data, 0, 3);
    proof {
        lemma_fixed_be_bound(data@, 0, 3);
    }
    let mut int_part = v as i64 - 0x800000;
    let mut frac: i64 = 0;
    let tmp: i64 = if dec == 1 || dec == 2 {
        frac = data[3] as i64;
        if int_part < 0 && frac != 0 {
            int_part = int_part + 1;
            frac = frac - 0x100;
        }
        int_part * 0x1000000 + frac * 10000
    } else if dec == 3 || dec == 4 {
        let f = fixed_be(data, 3, 2);
        proof {
            lemma_fixed_be_bound(data@, 3, 2);
        }
        frac = f as i64;
        if int_part < 0 && frac != 0 {
            int_part = int_part + 1;
            frac = frac - 0x10000;
        }
        int_part * 0x1000000 + frac * 100
    } else {
        int_part * 0x1000000
    };
    if int_part == 0 && frac == 0 {
        proof {
            reveal_strlit("00:00:00");
        }
        return Ok((crate::text::text("00:00:00"), n));
    }
    time_format(tmp, dec, n)
}

/// How many bytes of a value with `base` whole bytes and `dec` fraction digits are read.
pub open spec fn frac_need(base: int, dec: int) -> int {
    if dec == 1 || dec == 2 {
        base + 1
    } else if dec == 3 || dec == 4 {
        base + 2
    } else if dec == 5 || dec == 6 {
        base + 3
    } else {
        base
    }
}

/// The fraction, in microseconds, stored at `pos` for `dec` fraction digits.
pub open spec fn frac_value(d: Seq<u8>, pos: int, dec: int) -> int {
    if dec == 1 || dec == 2 {
        d[pos] as int * 10000
    } else if dec == 3 || dec == 4 {
        be_at(d, pos, 2) as int * 100
    } else if dec == 5 || dec == 6 {
        be_at(d, pos, 3) as int
    } else {
        0
    }
}

/// Reads the fraction stored at `pos` for `dec` fraction digits.
fn read_frac(data: &[u8], pos: usize, dec: u16) -> (r: i64)
    requires
        frac_need(pos as int, dec as int) <= data@.len(),
    ensures
        r == frac_value(data@, pos as int, dec as int),
        0 <= r < 0x1000000,
{
    proof {
        reveal_with_fuel(byte_pow, 4);
    }
    if dec == 1 || dec == 2 {
        data[pos] as i64 * 10000
    } else if dec == 3 || dec == 4 {
        let v = fixed_be(data, pos, 2);
        proof {
            lemma_fixed_be_bound(data@, pos as int, 2);
        }
        v as i64 * 100
    } else if dec == 5 || dec == 6 {
        let v = fixed_be(data, pos, 3);
        proof {
            lemma_fixed_be_bound(data@, pos as int, 3);
        }
        v as i64
    } else {
        0
    }
}

/// The date and time fields packed in a DATETIME2 whole part `ip` and fraction `frac`:
/// year, month, day, hour, minute and second.
pub open spec fn datetime2_fields(ip: int, frac: int) -> (int, int, int, int, int, int) {
    let tmp = abs_int(ip * 0x1000000 + frac);
    let ymdhms = tmp / 0x1000000;
    let ymd = ymdhms / 0x20000;
    let ym = ymd / 0x20;
    let hms = ymdhms % 0x20000;
    (ym / 13, ym % 13, ymd % 0x20, hms / 0x1000, (hms / 0x40) % 0x40, hms % 0x40)
}

/// The whole part of a DATETIME2 value, 1970-01-01 00:00:00 and after being at least
/// 107420450816.
pub open spec fn datetime2_int(d: Seq<u8>) -> int {
    be_at(d, 0, 5) - 0x8000000000
}

/// A decoded date and time, as text or as a calendar time with its fraction digits and
/// zone.
pub enum DtModel {
    Text(Seq<char>),
    Time(CalendarTime, int, Option<chrono_tz::Tz>),
}

/// The form of a decoded date and time.
pub open spec fn dt_view(v: DecodeDatetime) -> DtModel {
    match v {
        DecodeDatetime::String(s) => DtModel::Text(s@),
        DecodeDatetime::FracTime(f) => DtModel::Time(f.f_time, f.dec as int, f.timestamp_string_location),
    }
}

/// The form of a date and time decoder's result.
pub open spec fn dt_result_view(r: Result<(DecodeDatetime, isize), ReplicationError>) -> Result<(DtModel, int), ReplicationError> {
    match r {
        Ok((v, n)) => Ok((dt_view(v), n as int)),
        Err(e) => Err(e),
    }
}

/// The calendar time with the given fields.
pub open spec fn calendar_of(t: (int, int, int, int, int, int, int)) -> CalendarTime {
    CalendarTime {
        year: t.0 as i32,
        month: t.1 as u32,
        day: t.2 as u32,
        hour: t.3 as u32,
        minute: t.4 as u32,
        second: t.5 as u32,
        nanosecond: t.6 as u32,
    }
}

/// How a DATETIME2(`dec`) value in `d` decodes: the zero date and dates before the UNIX
/// epoch as text, later ones as a date and time, and the bytes the value takes.
pub open spec fn datetime2_model(d: Seq<u8>, dec: u16) -> Result<(DtModel, int), ReplicationError> {
    let ip = datetime2_int(d);
    let frac = frac_value(d, 5, dec as int);
    let (year, month, day, hour, minute, second) = datetime2_fields(ip, frac);
    let n = 5 + (dec + 1) / 2;
    if dec == u16::MAX {
        Err(ReplicationError::InvalidFractionDigits(dec))
    } else if d.len() < frac_need(5, dec as int) {
        Err(ReplicationError::UnexpectedEof)
    } else if ip * 0x1000000 + frac == i64::MIN {
        Err(ReplicationError::InvalidDate)
    } else if ip < 107420450816 && dec > 6 {
        Err(ReplicationError::InvalidFractionDigits(dec))
    } else if ip == 0 {
        Ok((DtModel::Text(crate::time::zero_time_text(frac, dec as int)), n))
    } else if ip < 107420450816 {
        Ok((DtModel::Text(crate::time::before_epoch_text(year, month, day, hour, minute, second, frac, dec as int)), n))
    } else if crate::time::fields_valid(year, month, day, hour, minute, second, frac * 1000) {
        Ok((DtModel::Time(calendar_of((year, month, day, hour, minute, second, frac * 1000)), dec as int, None), n))
    } else {
        Err(ReplicationError::InvalidDate)
    }
}

/// The fields packed in a DATETIME2 whole part and fraction.
fn unpack_datetime2(int_part: i64, frac: i64) -> (r: (i64, i64, i64, i64, i64, i64))
    requires
        -0x8000000000 <= int_part < 0x8000000000,
        0 <= frac < 0x1000000,
        int_part * 0x1000000 + frac != i64::MIN,
    ensures
        r == (
            datetime2_fields(int_part as int, frac as int).0 as i64,
            datetime2_fields(int_part as int, frac as int).1 as i64,
            datetime2_fields(int_part as int, frac as int).2 as i64,
            datetime2_fields(int_part as int, frac as int).3 as i64,
            datetime2_fields(int_part as int, frac as int).4 as i64,
            datetime2_fields(int_part as int, frac as int).5 as i64,
        ),
        datetime2_fields(int_part as int, frac as int).0 < 0x800000,
        0 <= datetime2_fields(int_part as int, frac as int).0,
        0 <= datetime2_fields(int_part as int, frac as int).3 < 32,
{
    let packed = int_part * 0x1000000 + frac;
    let tmp: i64 = if packed < 0 {
        -packed
    } else {
        packed
    };
    let ymdhms = tmp / 0x1000000;
    let ymd = ymdhms / 0x20000;
    let ym = ymd / 0x20;
    let hms = ymdhms % 0x20000;
    (ym / 13, ym % 13, ymd % 0x20, hms / 0x1000, (hms / 0x40) % 0x40, hms % 0x40)
}

/// Decodes a DATETIME2(`dec`) value and the bytes it takes.
#[verifier::rlimit(50)]
#[verifier::spinoff_prover]
pub fn decode_datetime2(data: &[u8], dec: u16) -> (r: Result<(DecodeDatetime, isize), ReplicationError>)
    ensures
        dt_result_view(r) == datetime2_model(data@, dec),
{
    if dec == u16::MAX {
        return Err(ReplicationError::InvalidFractionDigits(dec));
    }
    let n = (5 + (dec + 1) / 2) as isize;
    let need: usize = if dec == 1 || dec == 2 {
        6
    } else if dec == 3 || dec == 4 {
        7
    } else if dec == 5 || dec == 6 {
        8
    } else {
        5
    };
    if data.len() < need {
        return Err(ReplicationError::UnexpectedEof);
    }
    let v = fixed_be(data, 0, 5);
    proof {
        lemma_fixed_be_bound(data@, 0, 5);
        reveal_with_fuel(byte_pow, 6);
    }
    let int_part = v as i64 - 0x8000000000;
    let frac = read_frac(data, 5, dec);
    let packed = int_part * 0x1000000 + frac;
    if packed == i64::MIN {
        return Err(ReplicationError::InvalidDate);
    }
    if int_part < 107420450816 && dec > 6 {
        return Err(ReplicationError::InvalidFractionDigits(dec));
    }
    if int_part == 0 {
        return Ok((DecodeDatetime::String(format_zero_time(frac as isize, dec as isize)), n));
    }
    let (year, month, day, hour, minute, second) = unpack_datetime2(int_part, frac);
    if int_part < 107420450816 {
        return Ok((
            DecodeDatetime::String(
                format_before_unix_zero_time(
                    year as isize,
                    month as isize,
                    day as isize,
                    hour as isize,
                    minute as isize,
                    second as isize,
                    frac as isize,
                    dec as isize,
                ),
            ),
            n,
        ));
    }
    match make_calendar(year, month, day, hour, minute, second, frac * 1000) {
        Some(t) => Ok((
            DecodeDatetime::FracTime(
                FracTime { f_time: t, dec: dec as isize, timestamp_string_location: None },
            ),
            n,
        )),
        None => Err(ReplicationError::InvalidDate),
    }
}

/// How a TIMESTAMP2(`dec`) value in `d` decodes: second 0 as the zero date text, others
/// as the UTC time of the UNIX timestamp, to be shown in `tz`; and the bytes it takes.
pub open spec fn timestamp2_model(d: Seq<u8>, dec: u16, tz: Option<chrono_tz::Tz>) -> Result<(DtModel, int), ReplicationError> {
    let sec = be_at(d, 0, 4);
    let usec = frac_value(d, 4, dec as int);
    let n = 4 + (dec + 1) / 2;
    if dec == u16::MAX {
        Err(ReplicationError::InvalidFractionDigits(dec))
    } else if d.len() < frac_need(4, dec as int) {
        Err(ReplicationError::UnexpectedEof)
    } else if sec == 0 {
        if dec > 6 {
            Err(ReplicationError::InvalidFractionDigits(dec))
        } else {
            Ok((DtModel::Text(crate::time::zero_time_text(usec, dec as int)), n))
        }
    } else if usec * 1000 >= 1_000_000_000 {
        Err(ReplicationError::InvalidDate)
    } else {
        match crate::time::unix_calendar(sec as i64, (usec * 1000) as u32) {
            Some(tp) => Ok((DtModel::Time(calendar_of(tp), dec as int, tz), n)),
            None => Err(ReplicationError::InvalidDate),
        }
    }
}

/// Decodes a TIMESTAMP2(`dec`) value and the bytes it takes; a time is kept with the zone
/// `timestamp_string_location` it is to be shown in.
pub fn decode_timestamp2(
    data: &[u8],
    dec: u16,
    timestamp_string_location: Option<chrono_tz::Tz>,
) -> (r: Result<(DecodeDatetime, isize), ReplicationError>)
    ensures
        dt_result_view(r) == timestamp2_model(data@, dec, timestamp_string_location),
{
    if dec == u16::MAX {
        return Err(ReplicationError::InvalidFractionDigits(dec));
    }
    let n = (4 + (dec + 1) / 2) as isize;
    let need: usize = if dec == 1 || dec == 2 {
        5
    } else if dec == 3 || dec == 4 {
        6
    } else if dec == 5 || dec == 6 {
        7
    } else {
        4
    };
    if data.len() < need {
        return Err(ReplicationError::UnexpectedEof);
    }
    let sec = fixed_be(data, 0, 4);
    proof {
        lemma_fixed_be_bound(data@, 0, 4);
        reveal_with_fuel(byte_pow, 5);
    }
    let usec = read_frac(data, 4, dec);
    if sec == 0 {
        if dec > 6 {
            return Err(ReplicationError::InvalidFractionDigits(dec));
        }
        return Ok((DecodeDatetime::String(format_zero_time(usec as isize, dec as isize)), n));
    }
    if usec * 1000 >= 1_000_000_000 {
        return Err(ReplicationError::InvalidDate);
    }
    match unix_to_calendar(sec as i64, (usec * 1000) as u32) {
        Some(t) => Ok((
            DecodeDatetime::FracTime(
                FracTime { f_time: t, dec: dec as isize, timestamp_string_location },
            ),
            n,
        )),
        None => Err(ReplicationError::InvalidDate),
    }
}

/// The widths the fixed-size decoders give back.
pub proof fn lemma_widths(d: Seq<u8>, dec: u16)
    ensures
        datetime2_model(d, dec) matches Ok((m, n)) ==> 0 <= n <= 5 + 0x8000,
        timestamp2_model(d, dec, None) matches Ok((m, n)) ==> 0 <= n <= 4 + 0x8000,
        forall|tz: Option<chrono_tz::Tz>| #[trigger] timestamp2_model(d, dec, tz) matches Ok((m, n)) ==> 0 <= n <= 4 + 0x8000,
        time2_model(d, dec) matches Ok((s, n)) ==> 0 <= n <= 3 + 0x8000,
        blob_value(d, dec as int) matches Some((b, n)) ==> 0 <= n <= d.len(),
        forall|len: int| #[trigger] string_value(d, len) matches Some((s, n)) ==> 0 <= n <= d.len(),
{
}

} // verus!
