use vstd::prelude::*;

verus! {

/// Whether `c` is an ASCII digit.
pub open spec fn is_digit(c: char) -> bool {
    '0' <= c <= '9'
}

/// Whether every character of `s` is an ASCII digit.
pub open spec fn all_digits(s: Seq<char>) -> bool {
    forall|i: int| 0 <= i < s.len() ==> is_digit(#[trigger] s[i])
}

/// The number the ASCII digits `s` spell.
pub open spec fn digits_value(s: Seq<char>) -> nat
    decreases s.len(),
{
    if s.len() == 0 {
        0
    } else {
        digits_value(s.drop_last()) * 10 + (s.last() as nat - 48) as nat
    }
}

/// What `str::parse::<isize>` gives for `s`: an optional sign, then one or more ASCII
/// digits, within the range of `isize`.
pub open spec fn parse_isize(s: Seq<char>) -> Option<int> {
    let neg = s.len() > 0 && s[0] == '-';
    let signed = s.len() > 0 && (s[0] == '-' || s[0] == '+');
    let body = if signed {
        s.drop_first()
    } else {
        s
    };
    if body.len() == 0 || !all_digits(body) {
        None
    } else {
        let v = if neg {
            -(digits_value(body) as int)
        } else {
            digits_value(body) as int
        };
        if isize::MIN <= v <= isize::MAX {
            Some(v)
        } else {
            None
        }
    }
}

/// The parsed number, or 0 where it does not parse.
pub open spec fn parse_or_zero(s: Seq<char>) -> int {
    match parse_isize(s) {
        Some(v) => v,
        None => 0,
    }
}

/// Parses `s[start..stop]` as `str::parse::<isize>` does, giving 0 where it fails.
pub fn parse_isize_or_zero(s: &Vec<char>, start: usize, stop: usize) -> (r: isize)
    requires
        start <= stop <= s@.len(),
    ensures
        r as int == parse_or_zero(s@.subrange(start as int, stop as int)),
{
    let ghost t = s@.subrange(start as int, stop as int);
    let mut i = start;
    let mut neg = false;
    if i < stop && (s[i] == '-' || s[i] == '+') {
        neg = s[i] == '-';
        i = i + 1;
    }
    let ghost body = s@.subrange(i as int, stop as int);
    assert(body =~= if t.len() > 0 && (t[0] == '-' || t[0] == '+') {
        t.drop_first()
    } else {
        t
    });
    if i == stop {
        return 0;
    }
    let mut acc: i128 = 0;
    let limit: i128 = if neg {
        -(isize::MIN as i128)
    } else {
        isize::MAX as i128
    };
    let first = i;
    while i < stop
        invariant
            first <= i <= stop <= s@.len(),
            start <= first,
            t == s@.subrange(start as int, stop as int),
            body == s@.subrange(first as int, stop as int),
            body == if t.len() > 0 && (t[0] == '-' || t[0] == '+') {
                t.drop_first()
            } else {
                t
            },
            neg == (t.len() > 0 && t[0] == '-'),
            limit == if neg {
                -(isize::MIN as int)
            } else {
                isize::MAX as int
            },
            0 <= limit <= 0x8000_0000_0000_0000,
            all_digits(s@.subrange(first as int, i as int)),
            acc == digits_value(s@.subrange(first as int, i as int)),
            acc <= limit,
        decreases stop - i,
    {
        let c = s[i];
        if !('0' <= c && c <= '9') {
            assert(!all_digits(body)) by {
                assert(body[i - first] == c);
            }
            return 0;
        }
        let d = (c as u32 - 48) as i128;
        let ghost pre = s@.subrange(first as int, i as int);
        assert(s@.subrange(first as int, i + 1).drop_last() =~= pre);
        acc = acc * 10 + d;
        i = i + 1;
        assert(all_digits(s@.subrange(first as int, i as int))) by {
            assert forall|k: int| 0 <= k < i - first implies is_digit(
                #[trigger] s@.subrange(first as int, i as int)[k],
            ) by {
                if k < i - 1 - first {
                    assert(s@.subrange(first as int, i as int)[k] == pre[k]);
                }
            }
        }
        if acc > limit {
            proof {
                if all_digits(body) {
                    lemma_digits_value_prefix_mono(body, (i - first) as nat);
                    assert(body.subrange(0, (i - first) as int) =~= s@.subrange(first as int, i as int));
                }
            }
            return 0;
        }
    }
    assert(s@.subrange(first as int, i as int) =~= body);
    if neg {
        (-acc) as isize
    } else {
        acc as isize
    }
}

/// A prefix of a digit string is worth no more than the whole.
proof fn lemma_digits_value_prefix_mono(s: Seq<char>, k: nat)
    requires
        k <= s.len(),
        all_digits(s),
    ensures
        digits_value(s.subrange(0, k as int)) <= digits_value(s),
    decreases s.len(),
{
    if k < s.len() {
        let d = s.drop_last();
        assert(d.subrange(0, k as int) =~= s.subrange(0, k as int));
        assert(all_digits(d)) by {
            assert forall|i: int| 0 <= i < d.len() implies is_digit(#[trigger] d[i]) by {
                assert(d[i] == s[i]);
            }
        }
        lemma_digits_value_prefix_mono(d, k);
        assert(is_digit(s[s.len() - 1]));
    } else {
        assert(s.subrange(0, k as int) =~= s);
    }
}

/// Whether `char::is_numeric` holds of `c`: the Unicode numeric categories.
pub uninterp spec fn char_numeric(c: char) -> bool;

/// `char::is_numeric`. Its documentation names the Unicode categories Nd, Nl and No, which
/// among ASCII characters hold the digits alone.
#[verifier::external_body]
pub(crate) fn is_numeric(c: char) -> (r: bool)
    ensures
        r == char_numeric(c),
        (c as u32) < 128 ==> (r == is_digit(c)),
{
    c.is_numeric()
}

/// The index of the first `'.'` in `s` from `i` on, or `s.len()` when there is none.
pub open spec fn next_dot(s: Seq<char>, i: int) -> int
    decreases s.len() - i,
{
    if i < 0 || i >= s.len() {
        s.len() as int
    } else if s[i] == '.' {
        i
    } else {
        next_dot(s, i + 1)
    }
}

/// The index of the first character of `s` from `i` on that `char::is_numeric` rejects,
/// or `s.len()` when there is none.
pub open spec fn next_non_numeric(s: Seq<char>, i: int) -> int
    decreases s.len() - i,
{
    if i < 0 || i >= s.len() {
        s.len() as int
    } else if !char_numeric(s[i]) {
        i
    } else {
        next_non_numeric(s, i + 1)
    }
}

/// The `[X, Y, Z]` of a version text `X.Y.Zabc`: `X` and `Y` are the first two dot-separated
/// fields, and `Z` the leading numeric part of the third, where the third field counts as
/// empty when all of it is numeric. Unparsable parts are 0, and so is all of it when the
/// text has fewer than three fields.
pub open spec fn server_version_parts(s: Seq<char>) -> Seq<int> {
    let d1 = next_dot(s, 0);
    let d2 = next_dot(s, d1 + 1);
    if d1 >= s.len() || d2 >= s.len() {
        seq![0, 0, 0]
    } else {
        let third = s.subrange(d2 + 1, next_dot(s, d2 + 1));
        let k = next_non_numeric(third, 0);
        let index = if k >= third.len() {
            0
        } else {
            k
        };
        seq![
            parse_or_zero(s.subrange(0, d1)),
            parse_or_zero(s.subrange(d1 + 1, d2)),
            parse_or_zero(third.subrange(0, index)),
        ]
    }
}

/// The first `'.'` at or after `i`.
fn find_dot(s: &Vec<char>, i: usize) -> (r: usize)
    requires
        i <= s@.len(),
    ensures
        r == next_dot(s@, i as int),
        i <= r <= s@.len(),
{
    let mut j = i;
    while j < s.len()
        invariant
            i <= j <= s@.len(),
            next_dot(s@, i as int) == next_dot(s@, j as int),
        decreases s@.len() - j,
    {
        if s[j] == '.' {
            return j;
        }
        j = j + 1;
    }
    j
}

/// The first character from `i` on within `s[..stop]` that `char::is_numeric` rejects.
fn find_non_numeric(s: &Vec<char>, start: usize, i: usize, stop: usize) -> (r: usize)
    requires
        start <= i <= stop <= s@.len(),
    ensures
        r - start == next_non_numeric(s@.subrange(start as int, stop as int), i - start),
        i <= r <= stop,
{
    let ghost t = s@.subrange(start as int, stop as int);
    let mut j = i;
    while j < stop
        invariant
            start <= i <= j <= stop <= s@.len(),
            t == s@.subrange(start as int, stop as int),
            next_non_numeric(t, i - start) == next_non_numeric(t, j - start),
        decreases stop - j,
    {
        if !is_numeric(s[j]) {
            return j;
        }
        j = j + 1;
    }
    j
}

/// Splits a server version text `X.Y.Zabc` into `[X, Y, Z]`.
pub fn split_server_version(server: &Vec<char>) -> (r: Vec<isize>)
    ensures
        r@.len() == 3,
        forall|i: int| 0 <= i < 3 ==> r@[i] as int == #[trigger] server_version_parts(server@)[i],
{
    let d1 = find_dot(server, 0);
    if d1 >= server.len() {
        return vec![0, 0, 0];
    }
    let d2 = find_dot(server, d1 + 1);
    if d2 >= server.len() {
        return vec![0, 0, 0];
    }
    let x = parse_isize_or_zero(server, 0, d1);
    let y = parse_isize_or_zero(server, d1 + 1, d2);
    let d3 = find_dot(server, d2 + 1);
    let k = find_non_numeric(server, d2 + 1, d2 + 1, d3);
    let index = if k >= d3 {
        d2 + 1
    } else {
        k
    };
    let ghost third = server@.subrange(d2 + 1, d3 as int);
    assert(third.subrange(0, index - (d2 + 1)) =~= server@.subrange(d2 + 1, index as int));
    let z = parse_isize_or_zero(server, d2 + 1, index);
    vec![x, y, z]
}

/// `(X * 256 + Y) * 256 + Z` for the version `X.Y.Z` of `server`.
pub open spec fn version_product(server: Seq<char>) -> int {
    let p = server_version_parts(server);
    (p[0] * 256 + p[1]) * 256 + p[2]
}

/// The version of `server` as one number, `(X * 256 + Y) * 256 + Z`.
pub fn calc_version_product(server: &Vec<char>) -> (r: i128)
    ensures
        r == version_product(server@),
{
    let v = split_server_version(server);
    assert(v@[0] as int == server_version_parts(server@)[0]);
    assert(v@[1] as int == server_version_parts(server@)[1]);
    assert(v@[2] as int == server_version_parts(server@)[2]);
    (v[0] as i128 * 256 + v[1] as i128) * 256 + v[2] as i128
}

} // verus!
