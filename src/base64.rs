//! Base64 decoding with the padding inferred from the text's length.
use vstd::prelude::*;

use crate::error::DecodeError;
use crate::text::chars_of;

verus! {

/// The characters that Unicode gives the White_Space property.
pub open spec fn is_white(c: char) -> bool {
    ||| '\u{9}' <= c <= '\u{d}'
    ||| c == ' '
    ||| c == '\u{85}'
    ||| c == '\u{a0}'
    ||| c == '\u{1680}'
    ||| '\u{2000}' <= c <= '\u{200a}'
    ||| c == '\u{2028}'
    ||| c == '\u{2029}'
    ||| c == '\u{202f}'
    ||| c == '\u{205f}'
    ||| c == '\u{3000}'
}

/// How many bytes UTF-8 takes for `c`.
pub open spec fn utf8_width(c: char) -> int {
    if (c as u32) < 0x80 {
        1
    } else if (c as u32) < 0x800 {
        2
    } else if (c as u32) < 0x10000 {
        3
    } else {
        4
    }
}

/// How many bytes UTF-8 takes for `s`.
pub open spec fn utf8_len(s: Seq<char>) -> int
    decreases s.len(),
{
    if s.len() == 0 {
        0
    } else {
        utf8_len(s.drop_last()) + utf8_width(s.last())
    }
}

/// `s` without its leading white space.
pub open spec fn trim_front(s: Seq<char>) -> Seq<char>
    decreases s.len(),
{
    if s.len() > 0 && is_white(s[0]) {
        trim_front(s.drop_first())
    } else {
        s
    }
}

/// `s` without its trailing white space.
pub open spec fn trim_back(s: Seq<char>) -> Seq<char>
    decreases s.len(),
{
    if s.len() > 0 && is_white(s.last()) {
        trim_back(s.drop_last())
    } else {
        s
    }
}

/// `s` without white space at either end.
pub open spec fn trim(s: Seq<char>) -> Seq<char> {
    trim_back(trim_front(s))
}

/// The position of `c` in the alphabet `A-Z a-z 0-9 + /`, if it is in it.
pub open spec fn sextet(c: char) -> Option<u8> {
    if 'A' <= c <= 'Z' {
        Some((c as u32 - 'A' as u32) as u8)
    } else if 'a' <= c <= 'z' {
        Some((c as u32 - 'a' as u32 + 26) as u8)
    } else if '0' <= c <= '9' {
        Some((c as u32 - '0' as u32 + 52) as u8)
    } else if c == '+' {
        Some(62)
    } else if c == '/' {
        Some(63)
    } else {
        None
    }
}

/// The characters of `t` other than the padding character `=`.
pub open spec fn data_chars(t: Seq<char>) -> Seq<char> {
    t.filter(|c: char| c != '=')
}

/// The first character of `d` that is not in the alphabet.
pub open spec fn first_invalid(d: Seq<char>) -> Option<char>
    decreases d.len(),
{
    if d.len() == 0 {
        None
    } else {
        match first_invalid(d.drop_last()) {
            Some(c) => Some(c),
            None => if sextet(d.last()) is None {
                Some(d.last())
            } else {
                None
            },
        }
    }
}

/// The alphabet positions of the characters of `d`.
pub open spec fn sextets(d: Seq<char>) -> Seq<u8> {
    d.map_values(|c: char| sextet(c)->0)
}

/// How many bytes of the last group are padding, for a text of `len` bytes.
pub open spec fn padding_of(len: int) -> int {
    if len % 4 == 2 {
        2
    } else if len % 4 == 3 {
        1
    } else {
        0
    }
}

/// Byte `k` of what the groups of four sextets in `x` decode to.
pub open spec fn decoded_byte(x: Seq<u8>, k: int) -> u8 {
    let g = 4 * (k / 3);
    if k % 3 == 0 {
        ((x[g] << 2u8) | (x[g + 1] >> 4u8)) as u8
    } else if k % 3 == 1 {
        (((x[g + 1] & 0x0Fu8) << 4u8) | (x[g + 2] >> 2u8)) as u8
    } else {
        (((x[g + 2] & 0x03u8) << 6u8) | x[g + 3]) as u8
    }
}

/// Three bytes for each whole group of four sextets in `x`.
pub open spec fn decode_groups(x: Seq<u8>) -> Seq<u8> {
    Seq::new((x.len() / 4 * 3) as nat, |k: int| decoded_byte(x, k))
}

/// What decoding the text `s` gives.
///
/// The text is trimmed of white space. Its length in bytes decides the
/// padding: a remainder of 0 modulo 4 means none, 2 means two padding bytes,
/// 3 means one, and 1 is an invalid length. Characters `=` are skipped; any
/// other character outside the alphabet is invalid. The sextets, followed by
/// zeros for the padding, must then fill whole groups of four; each group
/// gives three bytes, and the padding bytes are dropped from the end.
pub open spec fn base64_spec(s: Seq<char>) -> Result<Seq<u8>, DecodeError> {
    let t = trim(s);
    let len = utf8_len(t);
    if len % 4 == 1 {
        Err(DecodeError::InvalidLength)
    } else {
        let d = data_chars(t);
        let p = padding_of(len);
        match first_invalid(d) {
            Some(c) => Err(DecodeError::InvalidCharacter(c)),
            None => if (d.len() + p) % 4 != 0 {
                Err(DecodeError::InvalidLength)
            } else {
                let bytes = decode_groups(sextets(d) + Seq::new(p as nat, |i: int| 0u8));
                Ok(bytes.take(bytes.len() - p))
            },
        }
    }
}

fn is_white_char(c: char) -> (r: bool)
    ensures
        r == is_white(c),
{
    ('\u{9}' <= c && c <= '\u{d}') || c == ' ' || c == '\u{85}' || c == '\u{a0}' || c
        == '\u{1680}' || ('\u{2000}' <= c && c <= '\u{200a}') || c == '\u{2028}' || c
        == '\u{2029}' || c == '\u{202f}' || c == '\u{205f}' || c == '\u{3000}'
}

fn utf8_width_of(c: char) -> (r: usize)
    ensures
        r == utf8_width(c),
{
    let u = c as u32;
    if u < 0x80 {
        1
    } else if u < 0x800 {
        2
    } else if u < 0x10000 {
        3
    } else {
        4
    }
}

/// `utf8_len` of `v[start..end]`, modulo 4.
fn utf8_len_mod4(v: &Vec<char>, start: usize, end: usize) -> (r: usize)
    requires
        start <= end <= v@.len(),
    ensures
        r == utf8_len(v@.subrange(start as int, end as int)) % 4,
{
    let mut m: usize = 0;
    let mut i: usize = start;
    while i < end
        invariant
            start <= i <= end <= v@.len(),
            m == utf8_len(v@.subrange(start as int, i as int)) % 4,
        decreases end - i,
    {
        assert(v@.subrange(start as int, i + 1).drop_last() =~= v@.subrange(start as int, i as int));
        m = (m + utf8_width_of(v[i])) % 4;
        i = i + 1;
    }
    m
}

fn sextet_of(c: char) -> (r: Option<u8>)
    ensures
        r == sextet(c),
{
    if 'A' <= c && c <= 'Z' {
        Some((c as u32 - 'A' as u32) as u8)
    } else if 'a' <= c && c <= 'z' {
        Some((c as u32 - 'a' as u32 + 26) as u8)
    } else if '0' <= c && c <= '9' {
        Some((c as u32 - '0' as u32 + 52) as u8)
    } else if c == '+' {
        Some(62)
    } else if c == '/' {
        Some(63)
    } else {
        None
    }
}

/// The bounds `(start, end)` of `v` without white space at either end.
fn trim_bounds(v: &Vec<char>) -> (r: (usize, usize))
    ensures
        r.0 <= r.1 <= v@.len(),
        v@.subrange(r.0 as int, r.1 as int) == trim(v@),
{
    let n = v.len();
    let mut start: usize = 0;
    assert(v@.subrange(0, n as int) =~= v@);
    while start < n && is_white_char(v[start])
        invariant
            start <= n == v@.len(),
            trim_front(v@) == trim_front(v@.subrange(start as int, n as int)),
        decreases n - start,
    {
        assert(v@.subrange(start as int, n as int).drop_first() =~= v@.subrange(
            start + 1,
            n as int,
        ));
        start = start + 1;
    }
    let mut end: usize = n;
    while end > start && is_white_char(v[end - 1])
        invariant
            start <= end <= n == v@.len(),
            trim(v@) == trim_back(v@.subrange(start as int, end as int)),
        decreases end - start,
    {
        assert(v@.subrange(start as int, end as int).drop_last() =~= v@.subrange(
            start as int,
            end - 1,
        ));
        end = end - 1;
    }
    (start, end)
}

/// Decodes base64 text whose padding is inferred from its length.
pub fn base64_decode(encoded: &str) -> (r: Result<Vec<u8>, DecodeError>)
    ensures
        match r {
            Ok(bytes) => base64_spec(encoded@) == Ok::<Seq<u8>, DecodeError>(bytes@),
            Err(e) => base64_spec(encoded@) == Err::<Seq<u8>, DecodeError>(e),
        },
        utf8_len(trim(encoded@)) % 4 == 1 ==> r == Err::<Vec<u8>, DecodeError>(
            DecodeError::InvalidLength,
        ),
{
    let v = chars_of(encoded);
    let (start, end) = trim_bounds(&v);
    let ghost ts = trim(encoded@);
    let len = utf8_len_mod4(&v, start, end);
    if len == 1 {
        return Err(DecodeError::InvalidLength);
    }
    let padding: usize = if len == 2 {
        2
    } else if len == 3 {
        1
    } else {
        0
    };
    let mut x: Vec<u8> = Vec::new();
    let mut i: usize = start;
    while i < end
        invariant
            start <= i <= end <= v@.len(),
            v@.subrange(start as int, end as int) == ts,
            ts == trim(encoded@),
            len == utf8_len(ts) % 4,
            len != 1,
            first_invalid(data_chars(ts.take(i - start))) is None,
            x@ == sextets(data_chars(ts.take(i - start))),
        decreases end - i,
    {
        let c = v[i];
        let ghost pre = ts.take(i - start);
        proof {
            assert(ts.take(i + 1 - start) =~= pre.push(c));
            lemma_data_chars_push(pre, c);
        }
        if c != '=' {
            match sextet_of(c) {
                Some(k) => {
                    x.push(k);
                    assert(data_chars(pre.push(c)).drop_last() =~= data_chars(pre));
                    assert(x@ =~= sextets(data_chars(pre.push(c))));
                },
                None => {
                    let ghost d1 = data_chars(pre.push(c));
                    assert(d1.drop_last() =~= data_chars(pre));
                    assert(first_invalid(d1) == Some(c));
                    proof {
                        let rest = ts.skip(i + 1 - start);
                        assert(ts =~= pre.push(c) + rest);
                        Seq::filter_distributes_over_add(
                            pre.push(c),
                            rest,
                            |ch: char| ch != '=',
                        );
                        lemma_first_invalid_append(d1, data_chars(rest));
                    }
                    return Err(DecodeError::InvalidCharacter(c));
                },
            }
        }
        i = i + 1;
    }
    assert(ts.take(end - start) =~= ts);
    if (x.len() % 4 + padding) % 4 != 0 {
        return Err(DecodeError::InvalidLength);
    }
    let ghost d = data_chars(ts);
    let mut j: usize = 0;
    while j < padding
        invariant
            j <= padding <= 2,
            x@ == sextets(d) + Seq::new(j as nat, |k: int| 0u8),
        decreases padding - j,
    {
        x.push(0);
        assert(x@ =~= sextets(d) + Seq::new((j + 1) as nat, |k: int| 0u8));
        j = j + 1;
    }
    let ghost xs = x@;
    let mut out: Vec<u8> = Vec::new();
    let mut g: usize = 0;
    while g < x.len()
        invariant
            x@ == xs,
            xs.len() % 4 == 0,
            g % 4 == 0,
            g <= xs.len(),
            out@ == decode_groups(xs).take(g / 4 * 3),
        decreases xs.len() - g,
    {
        let a = x[g];
        let b = x[g + 1];
        let c = x[g + 2];
        let e = x[g + 3];
        out.push((a << 2u8) | (b >> 4u8));
        out.push(((b & 0x0Fu8) << 4u8) | (c >> 2u8));
        out.push(((c & 0x03u8) << 6u8) | e);
        assert(out@ =~= decode_groups(xs).take((g + 4) / 4 * 3));
        g = g + 4;
    }
    assert(decode_groups(xs).take(g / 4 * 3) =~= decode_groups(xs));
    let keep = out.len() - padding;
    out.truncate(keep);
    assert(out@ =~= decode_groups(xs).take(decode_groups(xs).len() - padding));
    Ok(out)
}

proof fn lemma_data_chars_push(pre: Seq<char>, c: char)
    ensures
        data_chars(pre.push(c)) == (if c != '=' {
            data_chars(pre).push(c)
        } else {
            data_chars(pre)
        }),
{
    pre.lemma_filter_push(c, |ch: char| ch != '=');
}

/// An invalid character in `a` stays the first one whatever follows `a`.
proof fn lemma_first_invalid_append(a: Seq<char>, b: Seq<char>)
    requires
        first_invalid(a) is Some,
    ensures
        first_invalid(a + b) == first_invalid(a),
    decreases b.len(),
{
    if b.len() == 0 {
        assert(a + b =~= a);
    } else {
        assert((a + b).drop_last() =~= a + b.drop_last());
        lemma_first_invalid_append(a, b.drop_last());
    }
}

} // verus!
