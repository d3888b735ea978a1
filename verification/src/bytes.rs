use vstd::prelude::*;

verus! {

/// The number that `s` spells when its first byte is the least significant.
pub open spec fn le_uint(s: Seq<u8>) -> nat
    decreases s.len(),
{
    if s.len() == 0 {
        0
    } else {
        s[0] as nat + 256 * le_uint(s.drop_first())
    }
}

/// The number that `s` spells when its first byte is the most significant.
pub open spec fn be_uint(s: Seq<u8>) -> nat
    decreases s.len(),
{
    if s.len() == 0 {
        0
    } else {
        be_uint(s.drop_last()) * 256 + s.last() as nat
    }
}

/// `256` to the power `n`.
pub open spec fn byte_pow(n: nat) -> nat
    decreases n,
{
    if n == 0 {
        1
    } else {
        256 * byte_pow((n - 1) as nat)
    }
}

/// Little-endian value of the `n` bytes of `s` that start at `pos`.
pub open spec fn le_at(s: Seq<u8>, pos: int, n: int) -> nat {
    le_uint(s.subrange(pos, pos + n))
}

/// Big-endian value of the `n` bytes of `s` that start at `pos`.
pub open spec fn be_at(s: Seq<u8>, pos: int, n: int) -> nat {
    be_uint(s.subrange(pos, pos + n))
}

pub proof fn lemma_le_uint_bound(s: Seq<u8>)
    ensures
        le_uint(s) < byte_pow(s.len()),
    decreases s.len(),
{
    if s.len() > 0 {
        lemma_le_uint_bound(s.drop_first());
    }
}

pub proof fn lemma_be_uint_bound(s: Seq<u8>)
    ensures
        be_uint(s) < byte_pow(s.len()),
    decreases s.len(),
{
    if s.len() > 0 {
        lemma_be_uint_bound(s.drop_last());
    }
}

pub proof fn lemma_byte_pow_mono(a: nat, b: nat)
    requires
        a <= b,
    ensures
        byte_pow(a) <= byte_pow(b),
    decreases b,
{
    if a < b {
        lemma_byte_pow_mono(a, (b - 1) as nat);
    }
}

proof fn lemma_byte_pow_8()
    ensures
        byte_pow(8) == 0x1_0000_0000_0000_0000,
{
    reveal_with_fuel(byte_pow, 9);
}

/// Little-endian value of `n <= 8` bytes of `data` starting at `pos`.
pub fn fixed_le(data: &[u8], pos: usize, n: usize) -> (r: u64)
    requires
        n <= 8,
        pos + n <= data.len(),
    ensures
        r == le_at(data@, pos as int, n as int),
{
    let mut acc: u64 = 0;
    let mut i: usize = n;
    proof {
        lemma_byte_pow_8();
    }
    while i > 0
        invariant
            n <= 8,
            pos + n <= data.len(),
            i <= n,
            byte_pow(8) == 0x1_0000_0000_0000_0000,
            acc == le_uint(data@.subrange(pos + i, pos + n)),
        decreases i,
    {
        let ghost tail = data@.subrange(pos + i, pos + n);
        let ghost s = data@.subrange(pos + i - 1, pos + n);
        assert(s.drop_first() =~= tail);
        proof {
            lemma_le_uint_bound(tail);
            lemma_byte_pow_mono(tail.len(), 7);
            reveal_with_fuel(byte_pow, 2);
        }
        acc = acc * 256 + data[pos + i - 1] as u64;
        i = i - 1;
    }
    acc
}

/// Big-endian value of `n <= 8` bytes of `data` starting at `pos`.
pub fn fixed_be(data: &[u8], pos: usize, n: usize) -> (r: u64)
    requires
        n <= 8,
        pos + n <= data.len(),
    ensures
        r == be_at(data@, pos as int, n as int),
{
    let mut acc: u64 = 0;
    let mut i: usize = 0;
    proof {
        lemma_byte_pow_8();
    }
    while i < n
        invariant
            n <= 8,
            pos + n <= data.len(),
            i <= n,
            byte_pow(8) == 0x1_0000_0000_0000_0000,
            acc == be_uint(data@.subrange(pos as int, pos + i)),
        decreases n - i,
    {
        let ghost head = data@.subrange(pos as int, pos + i);
        let ghost s = data@.subrange(pos as int, pos + i + 1);
        assert(s.drop_last() =~= head);
        proof {
            lemma_be_uint_bound(head);
            lemma_byte_pow_mono(head.len(), 7);
            reveal_with_fuel(byte_pow, 2);
        }
        acc = acc * 256 + data[pos + i] as u64;
        i = i + 1;
    }
    acc
}

} // verus!

verus! {

/// A MySQL length-encoded integer at the start of `s`: its value, whether it is the
/// NULL marker, and how many bytes it takes; `None` when `s` ends first.
pub open spec fn lenenc_int(s: Seq<u8>) -> Option<(u64, bool, nat)> {
    if s.len() == 0 {
        None
    } else if s[0] == 0xfb {
        Some((0, true, 1))
    } else if s[0] == 0xfc {
        if s.len() < 3 {
            None
        } else {
            Some((le_at(s, 1, 2) as u64, false, 3))
        }
    } else if s[0] == 0xfd {
        if s.len() < 4 {
            None
        } else {
            Some((le_at(s, 1, 3) as u64, false, 4))
        }
    } else if s[0] == 0xfe {
        if s.len() < 9 {
            None
        } else {
            Some((le_at(s, 1, 8) as u64, false, 9))
        }
    } else {
        Some((s[0] as u64, false, 1))
    }
}

/// Reads the length-encoded integer that starts at `pos`.
pub fn length_encoded_int(data: &[u8], pos: usize) -> (r: Option<(u64, bool, usize)>)
    requires
        pos <= data.len(),
    ensures
        r matches Some((v, null, n)) ==> lenenc_int(data@.subrange(pos as int, data@.len() as int))
            == Some((v, null, n as nat)) && pos + n <= data.len(),
        r is None <==> lenenc_int(data@.subrange(pos as int, data@.len() as int)) is None,
{
    let ghost s = data@.subrange(pos as int, data@.len() as int);
    if pos >= data.len() {
        return None;
    }
    let b = data[pos];
    let rest = data.len() - pos;
    if b == 0xfb {
        Some((0, true, 1))
    } else if b == 0xfc {
        if rest < 3 {
            None
        } else {
            proof {
                lemma_le_at_shift(data@, pos as int, 1, 2);
            }
            Some((fixed_le(data, pos + 1, 2), false, 3))
        }
    } else if b == 0xfd {
        if rest < 4 {
            None
        } else {
            proof {
                lemma_le_at_shift(data@, pos as int, 1, 3);
            }
            Some((fixed_le(data, pos + 1, 3), false, 4))
        }
    } else if b == 0xfe {
        if rest < 9 {
            None
        } else {
            proof {
                lemma_le_at_shift(data@, pos as int, 1, 8);
            }
            Some((fixed_le(data, pos + 1, 8), false, 9))
        }
    } else {
        Some((b as u64, false, 1))
    }
}

/// Little-endian reads within a suffix agree with reads in the whole sequence.
pub proof fn lemma_le_at_shift(s: Seq<u8>, pos: int, off: int, n: int)
    requires
        0 <= pos <= s.len(),
        0 <= off,
        0 <= n,
        pos + off + n <= s.len(),
    ensures
        le_at(s.subrange(pos, s.len() as int), off, n) == le_at(s, pos + off, n),
{
    assert(s.subrange(pos, s.len() as int).subrange(off, off + n) =~= s.subrange(
        pos + off,
        pos + off + n,
    ));
}

/// A length-encoded string at the start of `s`: its bytes, whether it was NULL, and
/// how many bytes it takes in all; `None` when `s` ends first.
pub open spec fn lenenc_str(s: Seq<u8>) -> Option<(Seq<u8>, bool, nat)> {
    match lenenc_int(s) {
        None => None,
        Some((num, null, n)) => if num < 1 {
            Some((Seq::empty(), null, n))
        } else if n + num <= s.len() {
            Some((s.subrange(n as int, n + num), false, (n + num) as nat))
        } else {
            None
        },
    }
}

/// Reads the length-encoded string that starts at `pos`.
pub fn length_encoded_string(data: &[u8], pos: usize) -> (r: Option<(Vec<u8>, bool, usize)>)
    requires
        pos <= data.len(),
    ensures
        r matches Some((v, null, n)) ==> lenenc_str(data@.subrange(pos as int, data@.len() as int))
            == Some((v@, null, n as nat)) && pos + n <= data.len(),
        r is None <==> lenenc_str(data@.subrange(pos as int, data@.len() as int)) is None,
{
    let ghost s = data@.subrange(pos as int, data@.len() as int);
    match length_encoded_int(data, pos) {
        None => None,
        Some((num, null, n)) => {
            if num < 1 {
                Some((Vec::new(), null, n))
            } else if (num as u128) <= ((data.len() - pos - n) as u128) {
                let start = pos + n;
                let stop = start + num as usize;
                let v = vstd::slice::slice_to_vec(&data[start..stop]);
                assert(v@ =~= s.subrange(n as int, n + num));
                Some((v, false, n + num as usize))
            } else {
                None
            }
        },
    }
}

/// A copy of a vector of plain values.
pub fn copy_vec<T: Copy>(v: &Vec<T>) -> (r: Vec<T>)
    ensures
        r@ == v@,
{
    let mut r: Vec<T> = Vec::new();
    let mut i: usize = 0;
    while i < v.len()
        invariant
            i <= v@.len(),
            r@ == v@.subrange(0, i as int),
        decreases v.len() - i,
    {
        r.push(v[i]);
        i = i + 1;
        assert(r@ =~= v@.subrange(0, i as int));
    }
    assert(v@.subrange(0, v@.len() as int) =~= v@);
    r
}

/// A copy of a list of byte vectors.
pub fn copy_bytes_list(v: &Vec<Vec<u8>>) -> (r: Vec<Vec<u8>>)
    ensures
        r@.len() == v@.len(),
        forall|i: int| 0 <= i < v@.len() ==> (#[trigger] r@[i])@ == v@[i]@,
{
    let mut r: Vec<Vec<u8>> = Vec::new();
    let mut i: usize = 0;
    while i < v.len()
        invariant
            i <= v@.len(),
            r@.len() == i,
            forall|j: int| 0 <= j < i ==> (#[trigger] r@[j])@ == v@[j]@,
        decreases v.len() - i,
    {
        r.push(copy_vec(&v[i]));
        i = i + 1;
    }
    r
}

/// Copies `data[start..stop]`.
pub fn copy_range(data: &[u8], start: usize, stop: usize) -> (r: Vec<u8>)
    requires
        start <= stop <= data.len(),
    ensures
        r@ == data@.subrange(start as int, stop as int),
{
    vstd::slice::slice_to_vec(&data[start..stop])
}

} // verus!

verus! {

proof fn lemma_le_at_bound(s: Seq<u8>, pos: int, n: int)
    requires
        0 <= pos,
        0 <= n,
        pos + n <= s.len(),
    ensures
        le_at(s, pos, n) < byte_pow(n as nat),
{
    lemma_le_uint_bound(s.subrange(pos, pos + n));
}

proof fn lemma_be_at_bound(s: Seq<u8>, pos: int, n: int)
    requires
        0 <= pos,
        0 <= n,
        pos + n <= s.len(),
    ensures
        be_at(s, pos, n) < byte_pow(n as nat),
{
    lemma_be_uint_bound(s.subrange(pos, pos + n));
}

/// Little-endian `u16` at `pos`.
pub fn le_u16(data: &[u8], pos: usize) -> (r: u16)
    requires
        pos + 2 <= data.len(),
    ensures
        r as nat == le_at(data@, pos as int, 2),
{
    proof {
        lemma_le_at_bound(data@, pos as int, 2);
        reveal_with_fuel(byte_pow, 3);
    }
    fixed_le(data, pos, 2) as u16
}

/// Little-endian `u32` at `pos`.
pub fn le_u32(data: &[u8], pos: usize) -> (r: u32)
    requires
        pos + 4 <= data.len(),
    ensures
        r as nat == le_at(data@, pos as int, 4),
{
    proof {
        lemma_le_at_bound(data@, pos as int, 4);
        reveal_with_fuel(byte_pow, 5);
    }
    fixed_le(data, pos, 4) as u32
}

/// Little-endian `u64` at `pos`.
pub fn le_u64(data: &[u8], pos: usize) -> (r: u64)
    requires
        pos + 8 <= data.len(),
    ensures
        r as nat == le_at(data@, pos as int, 8),
{
    fixed_le(data, pos, 8)
}

/// The value of `n <= 8` little-endian bytes is below `256^n`.
pub proof fn lemma_fixed_le_bound(s: Seq<u8>, pos: int, n: int)
    requires
        0 <= pos,
        0 <= n,
        pos + n <= s.len(),
    ensures
        le_at(s, pos, n) < byte_pow(n as nat),
{
    lemma_le_at_bound(s, pos, n);
}

/// The value of `n <= 8` big-endian bytes is below `256^n`.
pub proof fn lemma_fixed_be_bound(s: Seq<u8>, pos: int, n: int)
    requires
        0 <= pos,
        0 <= n,
        pos + n <= s.len(),
    ensures
        be_at(s, pos, n) < byte_pow(n as nat),
{
    lemma_be_at_bound(s, pos, n);
}

} // verus!
