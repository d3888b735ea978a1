use vstd::prelude::*;
use vstd::string::StringExecFns;

verus! {

/// The ASCII digit for `d < 10`.
pub open spec fn digit_char(d: nat) -> char {
    ((48 + d) as u8) as char
}

/// Decimal digits of `n`, most significant first, with no leading zero.
pub open spec fn dec_digits(n: nat) -> Seq<char>
    decreases n,
{
    if n < 10 {
        seq![digit_char(n)]
    } else {
        dec_digits(n / 10).push(digit_char(n % 10))
    }
}

/// `s`, with `'0'` put in front of it until it is `width` long.
pub open spec fn zero_pad(s: Seq<char>, width: nat) -> Seq<char> {
    if s.len() >= width {
        s
    } else {
        Seq::new((width - s.len()) as nat, |i: int| '0') + s
    }
}

/// Decimal text of the signed number `n`.
pub open spec fn int_text(n: int) -> Seq<char> {
    if n < 0 {
        seq!['-'] + dec_digits((-n) as nat)
    } else {
        dec_digits(n as nat)
    }
}

/// Decimal text of `n` padded with zeros to at least `width` digits.
pub open spec fn padded(n: nat, width: nat) -> Seq<char> {
    zero_pad(dec_digits(n), width)
}

/// What `String::from_utf8_lossy` makes of the bytes `b`.
pub uninterp spec fn utf8_lossy(b: Seq<u8>) -> Seq<char>;

/// The characters that the ASCII bytes `b` stand for.
pub open spec fn ascii_chars(b: Seq<u8>) -> Seq<char> {
    b.map_values(|x: u8| x as char)
}

/// Whether every byte of `b` is ASCII.
pub open spec fn all_ascii(b: Seq<u8>) -> bool {
    forall|i: int| 0 <= i < b.len() ==> b[i] < 128
}

/// Appends one character: `String::push`.
#[verifier::external_body]
pub(crate) fn push_char(s: &mut String, c: char)
    ensures
        final(s)@ == old(s)@.push(c),
{
    s.push(c);
}

/// Text of `b` as `String::from_utf8_lossy` decodes it. Its documentation states that
/// valid UTF-8 comes back unchanged, so ASCII bytes give the same characters.
#[verifier::external_body]
pub(crate) fn lossy_string(b: &[u8]) -> (r: String)
    ensures
        r@ == utf8_lossy(b@),
        all_ascii(b@) ==> r@ == ascii_chars(b@),
{
    String::from_utf8_lossy(b).to_string()
}

/// The characters of `s`: `str::chars` collected.
#[verifier::external_body]
pub(crate) fn string_chars(s: &String) -> (r: Vec<char>)
    ensures
        r@ == s@,
{
    s.chars().collect()
}

/// A fresh string holding `s`.
pub fn text(s: &str) -> (r: String)
    ensures
        r@ == s@,
{
    <String as StringExecFns>::from_str(s)
}

/// Appends `t` to `s`.
pub fn append(s: &mut String, t: &str)
    ensures
        final(s)@ == old(s)@ + t@,
{
    s.append(t);
}

proof fn lemma_dec_digits_len(n: nat)
    ensures
        dec_digits(n).len() >= 1,
    decreases n,
{
    if n >= 10 {
        lemma_dec_digits_len(n / 10);
    }
}

/// Digits of `m` when `m > 0`, and nothing for `0`.
spec fn rest_digits(m: nat) -> Seq<char> {
    if m == 0 {
        Seq::empty()
    } else {
        dec_digits(m)
    }
}

proof fn lemma_digit_step(m: nat, c: char)
    requires
        c == digit_char(m % 10),
    ensures
        dec_digits(m) =~= rest_digits(m / 10).push(c),
{
}

/// Decimal digits of `n` as characters.
pub fn uint_chars(n: u64) -> (v: Vec<char>)
    ensures
        v@ == dec_digits(n as nat),
{
    let mut digits: Vec<char> = Vec::new();
    let c = (48u8 + (n % 10) as u8) as char;
    digits.push(c);
    let mut m: u64 = n / 10;
    proof {
        lemma_digit_step(n as nat, c);
        assert(digits@.reverse() =~= seq![c]);
    }
    while m > 0
        invariant
            dec_digits(n as nat) =~= rest_digits(m as nat) + digits@.reverse(),
        decreases m,
    {
        let c = (48u8 + (m % 10) as u8) as char;
        let ghost old_digits = digits@;
        digits.push(c);
        proof {
            lemma_digit_step(m as nat, c);
            assert(digits@.reverse() =~= seq![c] + old_digits.reverse());
            assert(rest_digits(m as nat) + old_digits.reverse() =~= rest_digits(m as nat / 10)
                + digits@.reverse());
        }
        m = m / 10;
    }
    let mut r: Vec<char> = Vec::new();
    let mut i: usize = digits.len();
    while i > 0
        invariant
            i <= digits@.len(),
            r@ == digits@.reverse().subrange(0, (digits@.len() - i) as int),
        decreases i,
    {
        r.push(digits[i - 1]);
        i = i - 1;
        assert(r@ =~= digits@.reverse().subrange(0, (digits@.len() - i) as int));
    }
    assert(r@ =~= digits@.reverse());
    r
}

/// Appends the characters `v` to `s`.
pub fn push_chars(s: &mut String, v: &Vec<char>)
    ensures
        final(s)@ == old(s)@ + v@,
{
    let mut i: usize = 0;
    while i < v.len()
        invariant
            i <= v@.len(),
            s@ == old(s)@ + v@.subrange(0, i as int),
        decreases v@.len() - i,
    {
        push_char(s, v[i]);
        i = i + 1;
        assert(s@ =~= old(s)@ + v@.subrange(0, i as int));
    }
    assert(v@.subrange(0, i as int) =~= v@);
}

/// Appends the decimal text of `n` to `s`.
pub fn push_uint(s: &mut String, n: u64)
    ensures
        final(s)@ == old(s)@ + dec_digits(n as nat),
{
    let v = uint_chars(n);
    push_chars(s, &v);
}

/// Appends the decimal text of `n`, padded with zeros to `width` digits, to `s`.
pub fn push_padded(s: &mut String, n: u64, width: usize)
    ensures
        final(s)@ == old(s)@ + padded(n as nat, width as nat),
{
    let v = uint_chars(n);
    if v.len() < width {
        let k = width - v.len();
        let mut j: usize = 0;
        while j < k
            invariant
                j <= k,
                s@ == old(s)@ + Seq::new(j as nat, |i: int| '0'),
            decreases k - j,
        {
            push_char(s, '0');
            j = j + 1;
            assert(s@ =~= old(s)@ + Seq::new(j as nat, |i: int| '0'));
        }
        push_chars(s, &v);
        assert(s@ =~= old(s)@ + padded(n as nat, width as nat));
    } else {
        push_chars(s, &v);
    }
}

/// Whether `needle` occurs in `hay`.
pub open spec fn contains_seq(hay: Seq<char>, needle: Seq<char>) -> bool {
    exists|i: int| 0 <= i <= hay.len() - needle.len() && #[trigger] hay.subrange(i, i + needle.len()) == needle
}

/// Whether `needle` occurs in `hay`, as `str::contains` answers.
pub fn contains_chars(hay: &Vec<char>, needle: &Vec<char>) -> (r: bool)
    ensures
        r == contains_seq(hay@, needle@),
{
    if needle.len() > hay.len() {
        return false;
    }
    let mut i: usize = 0;
    let last = hay.len() - needle.len();
    while i <= last
        invariant
            last + needle.len() == hay.len(),
            i <= last + 1,
            forall|k: int| 0 <= k < i ==> #[trigger] hay@.subrange(k, k + needle@.len()) != needle@,
        decreases last + 1 - i,
    {
        let mut j: usize = 0;
        let mut same = true;
        while j < needle.len()
            invariant
                i <= last,
                last + needle.len() == hay.len(),
                j <= needle@.len(),
                same == (forall|m: int| 0 <= m < j ==> hay@[i + m] == needle@[m]),
            decreases needle@.len() - j,
        {
            if hay[i + j] != needle[j] {
                same = false;
            }
            j = j + 1;
        }
        if same {
            assert(hay@.subrange(i as int, i + needle@.len()) =~= needle@);
            return true;
        }
        assert(hay@.subrange(i as int, i + needle@.len()) != needle@) by {
            let m = choose|m: int| 0 <= m < needle@.len() && hay@[i + m] != needle@[m];
            assert(hay@.subrange(i as int, i + needle@.len())[m] != needle@[m]);
        }
        if i == last {
            return false;
        }
        i = i + 1;
    }
    false
}

} // verus!
