//! The inverse of radar decoding, as specification: codes to bytes to base64
//! text, and the law that decoding that text gives the grid back.
use vstd::prelude::*;

use crate::cell::{cell_of_pattern, passage_cell, room_cell, CellView};
use crate::radar::{
    bit_char, byte_bits, nibble_bits, radar_cell, radar_grid, radar_spec, room_digit,
    separator_bits, RADAR_MIN_LEN,
};
use crate::base64::{
    base64_spec, data_chars, first_invalid, is_white, padding_of, sextet, sextets, trim,
    trim_back, trim_front, utf8_len, decode_groups, decoded_byte,
};

verus! {

/// The character at position `v` of the alphabet `A-Z a-z 0-9 + /`.
pub open spec fn alphabet_char(v: u8) -> char {
    if v < 26 {
        ((v + 65) as u8) as char
    } else if v < 52 {
        ((v + 71) as u8) as char
    } else if v < 62 {
        ((v - 4) as u8) as char
    } else if v == 62 {
        '+'
    } else {
        '/'
    }
}

/// Sextet `i` of the base64 encoding of `b`; bytes missing from the last
/// group count as zero.
pub open spec fn sextet_at(b: Seq<u8>, i: int) -> u8 {
    let g = i / 4;
    let x0 = b[3 * g];
    let x1 = if 3 * g + 1 < b.len() {
        b[3 * g + 1]
    } else {
        0u8
    };
    let x2 = if 3 * g + 2 < b.len() {
        b[3 * g + 2]
    } else {
        0u8
    };
    if i % 4 == 0 {
        x0 >> 2u8
    } else if i % 4 == 1 {
        ((x0 & 0x03u8) << 4u8) | (x1 >> 4u8)
    } else if i % 4 == 2 {
        ((x1 & 0x0Fu8) << 2u8) | (x2 >> 6u8)
    } else {
        x2 & 0x3Fu8
    }
}

/// How many characters the unpadded base64 text of `n` bytes has.
pub open spec fn base64_len(n: int) -> int {
    4 * (n / 3) + if n % 3 == 0 {
        0
    } else {
        n % 3 + 1
    }
}

/// The standard base64 text of `b`, without `=` padding.
pub open spec fn base64_text(b: Seq<u8>) -> Seq<char> {
    Seq::new(base64_len(b.len() as int) as nat, |i: int| alphabet_char(sextet_at(b, i)))
}

proof fn lemma_alphabet_char(v: u8)
    requires
        v < 64,
    ensures
        sextet(alphabet_char(v)) == Some(v),
        (alphabet_char(v) as u32) < 0x80,
        alphabet_char(v) != '=',
        !is_white(alphabet_char(v)),
{
}

/// Splitting three bytes into four sextets and joining them again gives the
/// bytes back; zero bytes give zero sextets.
proof fn lemma_group(x0: u8, x1: u8, x2: u8)
    ensures
        x0 >> 2u8 < 64,
        ((x0 & 0x03u8) << 4u8) | (x1 >> 4u8) < 64,
        ((x1 & 0x0Fu8) << 2u8) | (x2 >> 6u8) < 64,
        x2 & 0x3Fu8 < 64,
        ((x0 >> 2u8) << 2u8) | ((((x0 & 0x03u8) << 4u8) | (x1 >> 4u8)) >> 4u8) == x0,
        (((((x0 & 0x03u8) << 4u8) | (x1 >> 4u8)) & 0x0Fu8) << 4u8) | ((((x1 & 0x0Fu8) << 2u8) | (
        x2 >> 6u8)) >> 2u8) == x1,
        (((((x1 & 0x0Fu8) << 2u8) | (x2 >> 6u8)) & 0x03u8) << 6u8) | (x2 & 0x3Fu8) == x2,
        x1 == 0 && x2 == 0 ==> ((x1 & 0x0Fu8) << 2u8) | (x2 >> 6u8) == 0,
        x2 == 0 ==> x2 & 0x3Fu8 == 0,
{
    assert(x0 >> 2u8 < 64) by (bit_vector);
    assert(((x0 & 0x03u8) << 4u8) | (x1 >> 4u8) < 64) by (bit_vector);
    assert(((x1 & 0x0Fu8) << 2u8) | (x2 >> 6u8) < 64) by (bit_vector);
    assert(x2 & 0x3Fu8 < 64) by (bit_vector);
    assert(((x0 >> 2u8) << 2u8) | ((((x0 & 0x03u8) << 4u8) | (x1 >> 4u8)) >> 4u8) == x0)
        by (bit_vector);
    assert((((((x0 & 0x03u8) << 4u8) | (x1 >> 4u8)) & 0x0Fu8) << 4u8) | ((((x1 & 0x0Fu8) << 2u8)
        | (x2 >> 6u8)) >> 2u8) == x1) by (bit_vector);
    assert((((((x1 & 0x0Fu8) << 2u8) | (x2 >> 6u8)) & 0x03u8) << 6u8) | (x2 & 0x3Fu8) == x2)
        by (bit_vector);
    assert(x1 == 0 && x2 == 0 ==> ((x1 & 0x0Fu8) << 2u8) | (x2 >> 6u8) == 0) by (bit_vector);
    assert(x2 == 0 ==> x2 & 0x3Fu8 == 0) by (bit_vector);
}

proof fn lemma_sextet_at_range(b: Seq<u8>, i: int)
    requires
        0 <= i,
        3 * (i / 4) < b.len(),
    ensures
        sextet_at(b, i) < 64,
{
    let g = i / 4;
    let x1 = if 3 * g + 1 < b.len() {
        b[3 * g + 1]
    } else {
        0u8
    };
    let x2 = if 3 * g + 2 < b.len() {
        b[3 * g + 2]
    } else {
        0u8
    };
    lemma_group(b[3 * g], x1, x2);
}

proof fn lemma_ascii_utf8_len(s: Seq<char>)
    requires
        forall|i: int| 0 <= i < s.len() ==> (#[trigger] s[i] as u32) < 0x80,
    ensures
        utf8_len(s) == s.len(),
    decreases s.len(),
{
    if s.len() > 0 {
        lemma_ascii_utf8_len(s.drop_last());
    }
}

proof fn lemma_no_padding_chars(s: Seq<char>)
    requires
        forall|i: int| 0 <= i < s.len() ==> #[trigger] s[i] != '=',
    ensures
        data_chars(s) == s,
    decreases s.len(),
{
    if s.len() > 0 {
        let pre = s.drop_last();
        lemma_no_padding_chars(pre);
        pre.lemma_filter_push(s.last(), |c: char| c != '=');
        assert(pre.push(s.last()) =~= s);
    } else {
        assert(s.filter(|c: char| c != '=') =~= s) by {
            reveal(Seq::filter);
        }
    }
}

proof fn lemma_all_valid(s: Seq<char>)
    requires
        forall|i: int| 0 <= i < s.len() ==> #[trigger] sextet(s[i]) is Some,
    ensures
        first_invalid(s) is None,
    decreases s.len(),
{
    if s.len() > 0 {
        lemma_all_valid(s.drop_last());
    }
}

/// Decoding the base64 text of any bytes gives those bytes.
pub proof fn lemma_base64_round_trip(b: Seq<u8>)
    ensures
        base64_spec(base64_text(b)) == Ok::<Seq<u8>, crate::error::DecodeError>(b),
{
    let n = b.len() as int;
    let t = base64_text(b);
    let len = t.len() as int;
    assert forall|i: int| 0 <= i < len implies sextet_at(b, i) < 64 && #[trigger] t[i]
        == alphabet_char(sextet_at(b, i)) by {
        lemma_sextet_at_range(b, i);
    }
    assert forall|i: int| 0 <= i < len implies sextet(#[trigger] t[i]) == Some(sextet_at(b, i))
        && (t[i] as u32) < 0x80 && t[i] != '=' && !is_white(t[i]) by {
        lemma_alphabet_char(sextet_at(b, i));
    }
    // The text has no white space to trim.
    assert(trim_front(t) == t);
    if len > 0 {
        assert(!is_white(t.last()));
    }
    assert(trim(t) == t);
    lemma_ascii_utf8_len(t);
    lemma_no_padding_chars(t);
    lemma_all_valid(t);
    let p = padding_of(len);
    assert((len + p) % 4 == 0 && len + p == 4 * ((n + 2) / 3) && 3 * ((n + 2) / 3) - p == n);
    let x = sextets(t) + Seq::new(p as nat, |i: int| 0u8);
    assert forall|i: int| 0 <= i < len + p implies #[trigger] x[i] == sextet_at(b, i) by {
        if i >= len {
            let g = i / 4;
            lemma_group(b[3 * g], 0, 0);
            if 3 * g + 1 < n {
                lemma_group(b[3 * g], b[3 * g + 1], 0);
            }
        }
    }
    let bytes = decode_groups(x);
    assert forall|k: int| 0 <= k < n implies #[trigger] bytes[k] == b[k] by {
        let g = k / 3;
        let x1 = if 3 * g + 1 < n {
            b[3 * g + 1]
        } else {
            0u8
        };
        let x2 = if 3 * g + 2 < n {
            b[3 * g + 2]
        } else {
            0u8
        };
        lemma_group(b[3 * g], x1, x2);
        assert(x[4 * g] == sextet_at(b, 4 * g));
        assert(x[4 * g + 1] == sextet_at(b, 4 * g + 1));
        assert(x[4 * g + 2] == sextet_at(b, 4 * g + 2));
        assert(x[4 * g + 3] == sextet_at(b, 4 * g + 3));
        assert(bytes[k] == decoded_byte(x, k));
    }
    assert(bytes.take(bytes.len() - p) =~= b);
}

/// A radar view given by its codes, each list in row-major order: a 2-bit code
/// for each passage of the even rows, a 2-bit code for each passage of the
/// odd rows, and a 4-bit code for each room.
pub ghost struct RadarCodes {
    pub row_passages: Seq<u8>,
    pub column_passages: Seq<u8>,
    pub rooms: Seq<u8>,
}

/// Twelve and twelve 2-bit passage codes, nine 4-bit room codes.
pub open spec fn codes_valid(c: RadarCodes) -> bool {
    &&& c.row_passages.len() == 12
    &&& c.column_passages.len() == 12
    &&& c.rooms.len() == 9
    &&& forall|i: int| 0 <= i < 12 ==> #[trigger] c.row_passages[i] < 4
    &&& forall|i: int| 0 <= i < 12 ==> #[trigger] c.column_passages[i] < 4
    &&& forall|i: int| 0 <= i < 9 ==> #[trigger] c.rooms[i] < 16
}

/// Four 2-bit codes in one byte, the first in the high bits.
pub open spec fn pack(a: u8, b: u8, c: u8, d: u8) -> u8 {
    (64 * a + 16 * b + 4 * c + d) as u8
}

/// Two 4-bit codes in one byte, the first in the high bits.
pub open spec fn pack_digits(a: u8, b: u8) -> u8 {
    (16 * a + b) as u8
}

/// The eleven bytes that describe the codes `c`: the separator bytes (even
/// row passages in the first three, reversed; odd row passages in the next
/// three, reversed) and the room digits, a zero digit last.
pub open spec fn radar_bytes(c: RadarCodes) -> Seq<u8> {
    let h = c.row_passages;
    let v = c.column_passages;
    let r = c.rooms;
    seq![
        pack(h[8], h[9], h[10], h[11]),
        pack(h[4], h[5], h[6], h[7]),
        pack(h[0], h[1], h[2], h[3]),
        pack(v[8], v[9], v[10], v[11]),
        pack(v[4], v[5], v[6], v[7]),
        pack(v[0], v[1], v[2], v[3]),
        pack_digits(r[0], r[1]),
        pack_digits(r[2], r[3]),
        pack_digits(r[4], r[5]),
        pack_digits(r[6], r[7]),
        pack_digits(r[8], 0),
    ]
}

/// The cell that a room code stands for.
pub open spec fn room_of_code(n: u8) -> CellView {
    match room_cell(n as int) {
        Some(cell) => cell,
        None => CellView::Unknown(nibble_bits(n as int)),
    }
}

/// The cell at `(row, col)` of the grid that the codes `c` describe.
pub open spec fn code_cell(c: RadarCodes, row: int, col: int) -> CellView {
    if row % 2 == 0 && col % 2 == 0 {
        CellView::Undefined
    } else if row % 2 == 0 {
        passage_cell(c.row_passages[3 * (row / 2) + col / 2] as int)
    } else if col % 2 == 0 {
        passage_cell(c.column_passages[4 * (row / 2) + col / 2] as int)
    } else {
        room_of_code(c.rooms[3 * (row / 2) + col / 2])
    }
}

/// The grid that the codes `c` describe.
pub open spec fn code_grid(c: RadarCodes) -> Seq<Seq<CellView>> {
    Seq::new(7, |row: int| Seq::new(7, |col: int| code_cell(c, row, col)))
}

/// The 2-digit group `m` of a packed byte reads back as the code put there.
proof fn lemma_pack_group(a: u8, b: u8, c: u8, d: u8, m: int)
    requires
        a < 4,
        b < 4,
        c < 4,
        d < 4,
        0 <= m < 4,
    ensures
        cell_of_pattern(byte_bits(pack(a, b, c, d)).subrange(2 * m, 2 * m + 2)) == passage_cell(
            (if m == 0 {
                a
            } else if m == 1 {
                b
            } else if m == 2 {
                c
            } else {
                d
            }) as int,
        ),
{
    let x = pack(a, b, c, d) as int;
    let code = (if m == 0 {
        a
    } else if m == 1 {
        b
    } else if m == 2 {
        c
    } else {
        d
    }) as int;
    let p = byte_bits(pack(a, b, c, d)).subrange(2 * m, 2 * m + 2);
    assert(x == 64 * a + 16 * b + 4 * c + d);
    assert(x / 128 == a / 2 && x / 64 % 2 == a % 2);
    assert(x / 32 % 2 == b / 2 && x / 16 % 2 == b % 2);
    assert(x / 8 % 2 == c / 2 && x / 4 % 2 == c % 2);
    assert(x / 2 % 2 == d / 2 && x % 2 == d % 2);
    assert(p =~= seq![bit_char(code / 2), bit_char(code)]);
}

/// A room digit reads back as the cell of its code.
proof fn lemma_room_digit(n: u8)
    requires
        n < 16,
    ensures
        cell_of_pattern(nibble_bits(n as int)) == room_of_code(n),
{
    let p = nibble_bits(n as int);
    assert(p.len() == 4);
    assert(crate::cell::is_bit_string(p));
    assert(crate::cell::value4(p) == n);
}

/// The 2-digit group `j` of the separator digits lies in byte `2 - j / 4`.
proof fn lemma_separator_group(b: Seq<u8>, j: int)
    requires
        b.len() == RADAR_MIN_LEN,
        0 <= j < 12,
    ensures
        separator_bits(b).subrange(2 * j, 2 * j + 2) == byte_bits(b[2 - j / 4]).subrange(
            2 * (j % 4),
            2 * (j % 4) + 2,
        ),
{
    let sep = separator_bits(b);
    if j < 4 {
        assert(sep.subrange(2 * j, 2 * j + 2) =~= byte_bits(b[2]).subrange(2 * j, 2 * j + 2));
    } else if j < 8 {
        assert(sep.subrange(2 * j, 2 * j + 2) =~= byte_bits(b[1]).subrange(
            2 * (j - 4),
            2 * (j - 4) + 2,
        ));
    } else {
        assert(sep.subrange(2 * j, 2 * j + 2) =~= byte_bits(b[0]).subrange(
            2 * (j - 8),
            2 * (j - 8) + 2,
        ));
    }
}

proof fn lemma_row_passage(c: RadarCodes, row: int, col: int)
    requires
        codes_valid(c),
        0 <= row < 7,
        0 <= col < 7,
        row % 2 == 0,
        col % 2 == 1,
    ensures
        radar_cell(radar_bytes(c), row, col) == code_cell(c, row, col),
{
    let b = radar_bytes(c);
    let h = c.row_passages;
    let j = 3 * (row / 2) + col / 2;
    let q = j / 4;
    let m = j % 4;
    assert(0 <= j < 12 && 0 <= q < 3 && j == 4 * q + m);
    lemma_separator_group(b, j);
    if q == 0 {
        lemma_pack_group(h[0], h[1], h[2], h[3], m);
    } else if q == 1 {
        lemma_pack_group(h[4], h[5], h[6], h[7], m);
    } else {
        lemma_pack_group(h[8], h[9], h[10], h[11], m);
    }
}

proof fn lemma_column_passage(c: RadarCodes, row: int, col: int)
    requires
        codes_valid(c),
        0 <= row < 7,
        0 <= col < 7,
        row % 2 == 1,
        col % 2 == 0,
    ensures
        radar_cell(radar_bytes(c), row, col) == code_cell(c, row, col),
{
    let b = radar_bytes(c);
    let v = c.column_passages;
    let k = row / 2;
    let m = col / 2;
    assert(0 <= k < 3 && col == 2 * m);
    assert(b[5 - k] == pack(v[4 * k], v[4 * k + 1], v[4 * k + 2], v[4 * k + 3]));
    lemma_pack_group(v[4 * k], v[4 * k + 1], v[4 * k + 2], v[4 * k + 3], m);
}

proof fn lemma_pack_digits(x: u8, y: u8)
    requires
        x < 16,
        y < 16,
    ensures
        pack_digits(x, y) as int / 16 == x,
        pack_digits(x, y) as int % 16 == y,
{
    assert(pack_digits(x, y) as int == 16 * x + y);
}

/// Room digit `t` of the bytes is room code `t`.
proof fn lemma_room_code(c: RadarCodes, t: int)
    requires
        codes_valid(c),
        0 <= t < 9,
    ensures
        room_digit(radar_bytes(c), t) == c.rooms[t],
{
    let b = radar_bytes(c);
    let r = c.rooms;
    let s = t / 2;
    if s == 0 {
        lemma_pack_digits(r[0], r[1]);
    } else if s == 1 {
        lemma_pack_digits(r[2], r[3]);
    } else if s == 2 {
        lemma_pack_digits(r[4], r[5]);
    } else if s == 3 {
        lemma_pack_digits(r[6], r[7]);
    } else {
        lemma_pack_digits(r[8], 0);
    }
}

proof fn lemma_room(c: RadarCodes, row: int, col: int)
    requires
        codes_valid(c),
        0 <= row < 7,
        0 <= col < 7,
        row % 2 == 1,
        col % 2 == 1,
    ensures
        radar_cell(radar_bytes(c), row, col) == code_cell(c, row, col),
{
    let t = 3 * (row / 2) + col / 2;
    assert(0 <= t < 9);
    lemma_room_code(c, t);
    lemma_room_digit(c.rooms[t]);
}

/// Decoding the base64 text of the bytes that describe a radar view gives
/// back the view's grid, cell for cell.
pub proof fn lemma_radar_round_trip(c: RadarCodes)
    requires
        codes_valid(c),
    ensures
        radar_spec(base64_text(radar_bytes(c))) == Ok::<
            Seq<Seq<CellView>>,
            crate::error::DecodeError,
        >(code_grid(c)),
{
    let b = radar_bytes(c);
    lemma_base64_round_trip(b);
    assert(b.len() == RADAR_MIN_LEN);
    assert forall|row: int, col: int| 0 <= row < 7 && 0 <= col < 7 implies #[trigger] radar_cell(
        b,
        row,
        col,
    ) == code_cell(c, row, col) by {
        if row % 2 == 0 && col % 2 == 1 {
            lemma_row_passage(c, row, col);
        } else if row % 2 == 1 && col % 2 == 0 {
            lemma_column_passage(c, row, col);
        } else if row % 2 == 1 && col % 2 == 1 {
            lemma_room(c, row, col);
        }
    }
    assert(radar_grid(b) =~= code_grid(c)) by {
        assert forall|row: int| 0 <= row < 7 implies #[trigger] radar_grid(b)[row] =~= code_grid(
            c,
        )[row] by {}
    }
}

} // verus!
