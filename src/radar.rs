//! The radar view: a 7×7 grid of cells decoded from a base64 string.
//!
//! Rooms sit at odd/odd positions, passages between horizontally adjacent
//! rooms at odd/even positions, passages between vertically adjacent rooms at
//! even/odd positions, and the even/even vertices stay `Undefined`.
use vstd::prelude::*;

use crate::base64::{base64_decode, base64_spec};
use crate::cell::{cell_of_pattern, Cell, CellView};
use crate::error::DecodeError;

verus! {

/// Side of the grid.
pub const GRID_SIZE: usize = 7;

/// Bytes before the room data.
pub const SEPARATOR_LEN: usize = 6;

/// Bytes needed for the nine hexadecimal room digits.
pub const RADAR_MIN_LEN: usize = 11;

/// `'1'` when `n` is odd, `'0'` when it is even.
pub open spec fn bit_char(n: int) -> char {
    if n % 2 == 1 {
        '1'
    } else {
        '0'
    }
}

/// The eight binary digits of `x`, most significant first.
pub open spec fn byte_bits(x: u8) -> Seq<char> {
    let v = x as int;
    seq![
        bit_char(v / 128),
        bit_char(v / 64),
        bit_char(v / 32),
        bit_char(v / 16),
        bit_char(v / 8),
        bit_char(v / 4),
        bit_char(v / 2),
        bit_char(v),
    ]
}

/// The four binary digits of the hexadecimal digit `n`, most significant first.
pub open spec fn nibble_bits(n: int) -> Seq<char> {
    seq![bit_char(n / 8), bit_char(n / 4), bit_char(n / 2), bit_char(n)]
}

/// The first three bytes, reversed and rendered as one 24-digit string: four
/// 6-digit codes for the passages of the even rows.
pub open spec fn separator_bits(b: Seq<u8>) -> Seq<char> {
    byte_bits(b[2]) + byte_bits(b[1]) + byte_bits(b[0])
}

/// Hexadecimal digit `t` of the room data (the bytes after the separator).
pub open spec fn room_digit(b: Seq<u8>, t: int) -> int {
    let byte = b[SEPARATOR_LEN + t / 2] as int;
    if t % 2 == 0 {
        byte / 16
    } else {
        byte % 16
    }
}

/// The cell at `(row, col)` of the grid that the decoded bytes `b` describe.
///
/// Even row, odd column: 2-digit group `3 * (row / 2) + col / 2` of
/// `separator_bits`. Odd row, even column: 2-digit group `col / 2` of byte
/// `5 - row / 2`. Odd row, odd column: room digit `3 * (row / 2) + col / 2`
/// through the room table.
pub open spec fn radar_cell(b: Seq<u8>, row: int, col: int) -> CellView {
    if row % 2 == 0 && col % 2 == 0 {
        CellView::Undefined
    } else if row % 2 == 0 {
        let j = 3 * (row / 2) + col / 2;
        cell_of_pattern(separator_bits(b).subrange(2 * j, 2 * j + 2))
    } else if col % 2 == 0 {
        cell_of_pattern(byte_bits(b[5 - row / 2]).subrange(col, col + 2))
    } else {
        cell_of_pattern(nibble_bits(room_digit(b, 3 * (row / 2) + col / 2)))
    }
}

/// The grid that the decoded bytes `b` describe.
pub open spec fn radar_grid(b: Seq<u8>) -> Seq<Seq<CellView>> {
    Seq::new(7, |row: int| Seq::new(7, |col: int| radar_cell(b, row, col)))
}

/// What decoding the radar string `s` gives.
pub open spec fn radar_spec(s: Seq<char>) -> Result<Seq<Seq<CellView>>, DecodeError> {
    match base64_spec(s) {
        Err(e) => Err(e),
        Ok(b) => if b.len() < SEPARATOR_LEN {
            Err(DecodeError::TruncatedInput)
        } else if b.len() < RADAR_MIN_LEN {
            Err(DecodeError::InsufficientRoomData)
        } else {
            Ok(radar_grid(b))
        },
    }
}

/// Text that decodes to exactly eleven bytes gives a 7×7 grid whose
/// even/even positions, the four corners among them, are `Undefined`, and
/// whose nine rooms are, in row-major order, the first nine hexadecimal
/// digits of the room data read through the room table.
pub proof fn lemma_eleven_bytes(s: Seq<char>)
    requires
        base64_spec(s) is Ok,
        base64_spec(s)->Ok_0.len() == RADAR_MIN_LEN,
    ensures
        radar_spec(s) is Ok,
        ({
            let g = radar_spec(s)->Ok_0;
            let b = base64_spec(s)->Ok_0;
            &&& is_grid_shape(g)
            &&& g[0][0] == CellView::Undefined && g[0][6] == CellView::Undefined && g[6][0]
                == CellView::Undefined && g[6][6] == CellView::Undefined
            &&& forall|i: int, j: int|
                0 <= i < 4 && 0 <= j < 4 ==> #[trigger] g[2 * i][2 * j] == CellView::Undefined
            &&& forall|i: int, j: int|
                0 <= i < 3 && 0 <= j < 3 ==> #[trigger] g[2 * i + 1][2 * j + 1]
                    == cell_of_pattern(nibble_bits(room_digit(b, 3 * i + j)))
        }),
{
    let g = radar_spec(s)->Ok_0;
    let b = base64_spec(s)->Ok_0;
    assert(g == radar_grid(b));
    assert forall|i: int, j: int| 0 <= i < 4 && 0 <= j < 4 implies #[trigger] g[2 * i][2 * j]
        == CellView::Undefined by {
        assert((2 * i) % 2 == 0 && (2 * j) % 2 == 0);
    }
    assert forall|i: int, j: int| 0 <= i < 3 && 0 <= j < 3 implies #[trigger] g[2 * i + 1][2 * j
        + 1] == cell_of_pattern(nibble_bits(room_digit(b, 3 * i + j))) by {
        assert((2 * i + 1) % 2 == 1 && (2 * j + 1) % 2 == 1);
        assert((2 * i + 1) / 2 == i && (2 * j + 1) / 2 == j);
    }
}

/// The rooms of an eleven-byte radar view are the last nine of its ten room
/// digits, read in row-major order, when those coincide with the first nine:
/// when each of the first nine digits equals the one after it.
pub proof fn lemma_eleven_bytes_last_digits(s: Seq<char>)
    requires
        base64_spec(s) is Ok,
        base64_spec(s)->Ok_0.len() == RADAR_MIN_LEN,
        forall|t: int|
            0 <= t < 9 ==> #[trigger] room_digit(base64_spec(s)->Ok_0, t) == room_digit(
                base64_spec(s)->Ok_0,
                t + 1,
            ),
    ensures
        radar_spec(s) is Ok,
        forall|i: int, j: int|
            0 <= i < 3 && 0 <= j < 3 ==> #[trigger] radar_spec(s)->Ok_0[2 * i + 1][2 * j + 1]
                == cell_of_pattern(nibble_bits(room_digit(base64_spec(s)->Ok_0, 3 * i + j + 1))),
{
    lemma_eleven_bytes(s);
    let b = base64_spec(s)->Ok_0;
    assert forall|i: int, j: int| 0 <= i < 3 && 0 <= j < 3 implies #[trigger] radar_spec(
        s,
    )->Ok_0[2 * i + 1][2 * j + 1] == cell_of_pattern(nibble_bits(room_digit(b, 3 * i + j + 1))) by {
        assert(room_digit(b, 3 * i + j) == room_digit(b, 3 * i + j + 1));
    }
}

/// An immutable 7×7 grid of cells.
pub struct RadarGrid {
    rows: Vec<Vec<Cell>>,
}

impl RadarGrid {
    #[verifier::type_invariant]
    spec fn is_square(&self) -> bool {
        &&& self.rows@.len() == GRID_SIZE
        &&& forall|r: int| 0 <= r < GRID_SIZE ==> #[trigger] self.rows@[r]@.len() == GRID_SIZE
    }
}

impl View for RadarGrid {
    type V = Seq<Seq<CellView>>;

    closed spec fn view(&self) -> Seq<Seq<CellView>> {
        Seq::new(7, |r: int| Seq::new(7, |c: int| self.rows@[r]@[c]@))
    }
}

/// `g` has seven rows of seven cells.
pub open spec fn is_grid_shape(g: Seq<Seq<CellView>>) -> bool {
    &&& g.len() == GRID_SIZE
    &&& forall|r: int| 0 <= r < GRID_SIZE ==> #[trigger] g[r].len() == GRID_SIZE
}

impl RadarGrid {
    /// A grid from seven rows of seven cells; `None` for any other shape.
    pub fn from_rows(rows: Vec<Vec<Cell>>) -> (r: Option<RadarGrid>)
        ensures
            r is Some <==> (rows@.len() == GRID_SIZE && forall|i: int|
                0 <= i < GRID_SIZE ==> #[trigger] rows@[i]@.len() == GRID_SIZE),
            r matches Some(g) ==> is_grid_shape(g@) && forall|i: int, j: int|
                0 <= i < GRID_SIZE && 0 <= j < GRID_SIZE ==> #[trigger] g@[i][j]
                    == rows@[i]@[j]@,
    {
        if rows.len() != GRID_SIZE {
            return None;
        }
        let mut i: usize = 0;
        while i < GRID_SIZE
            invariant
                rows@.len() == GRID_SIZE,
                i <= GRID_SIZE,
                forall|k: int| 0 <= k < i ==> #[trigger] rows@[k]@.len() == GRID_SIZE,
            decreases GRID_SIZE - i,
        {
            if rows[i].len() != GRID_SIZE {
                return None;
            }
            i = i + 1;
        }
        let g = RadarGrid { rows };
        Some(g)
    }

    /// The cell at `(row, col)`.
    pub fn cell(&self, row: usize, col: usize) -> (r: &Cell)
        requires
            row < GRID_SIZE,
            col < GRID_SIZE,
        ensures
            r@ == self@[row as int][col as int],
    {
        proof {
            use_type_invariant(self);
        }
        &self.rows[row][col]
    }
}

/// Appends the binary digit `one` to `s`.
fn push_bit(s: &mut String, one: bool)
    ensures
        final(s)@ == old(s)@.push(if one {
            '1'
        } else {
            '0'
        }),
{
    proof {
        reveal_strlit("1");
        reveal_strlit("0");
    }
    if one {
        s.append("1");
    } else {
        s.append("0");
    }
}

/// The byte `x` as eight binary digits.
pub fn to_binary(x: u8) -> (r: String)
    ensures
        r@ == byte_bits(x),
{
    let mut s = String::new();
    push_bit(&mut s, (x / 128) % 2 == 1);
    push_bit(&mut s, (x / 64) % 2 == 1);
    push_bit(&mut s, (x / 32) % 2 == 1);
    push_bit(&mut s, (x / 16) % 2 == 1);
    push_bit(&mut s, (x / 8) % 2 == 1);
    push_bit(&mut s, (x / 4) % 2 == 1);
    push_bit(&mut s, (x / 2) % 2 == 1);
    push_bit(&mut s, x % 2 == 1);
    assert(s@ =~= byte_bits(x));
    s
}

/// The hexadecimal digit `n` as four binary digits.
fn hex_to_binary(n: u8) -> (r: String)
    requires
        n < 16,
    ensures
        r@ == nibble_bits(n as int),
{
    let mut s = String::new();
    push_bit(&mut s, (n / 8) % 2 == 1);
    push_bit(&mut s, (n / 4) % 2 == 1);
    push_bit(&mut s, (n / 2) % 2 == 1);
    push_bit(&mut s, n % 2 == 1);
    assert(s@ =~= nibble_bits(n as int));
    s
}

/// The 24 binary digits of the first three bytes, in reverse byte order.
fn split_line_column(b: &Vec<u8>) -> (r: String)
    requires
        b@.len() >= SEPARATOR_LEN,
    ensures
        r@ == separator_bits(b@),
{
    let mut s = to_binary(b[2]);
    let mid = to_binary(b[1]);
    let low = to_binary(b[0]);
    s.append(mid.as_str());
    s.append(low.as_str());
    s
}

/// The passage cell of 2-digit group `j` of the separator digits `sep`.
fn row_passage(sep: &str, j: usize) -> (r: Cell)
    requires
        sep@.len() == 24,
        j < 12,
    ensures
        r@ == cell_of_pattern(sep@.subrange(2 * j, 2 * j + 2)),
{
    let group = sep.substring_char(2 * j, 2 * j + 2);
    Cell::from_bits(group)
}

/// The passage cell of the 2-digit group at `at` of the byte `x`.
fn column_passage(x: u8, at: usize) -> (r: Cell)
    requires
        at <= 6,
    ensures
        r@ == cell_of_pattern(byte_bits(x).subrange(at as int, at + 2)),
{
    let code = to_binary(x);
    let group = code.as_str().substring_char(at, at + 2);
    Cell::from_bits(group)
}

/// The room cell of hexadecimal digit `t` of the room data in `b`.
fn room(b: &Vec<u8>, t: usize) -> (r: Cell)
    requires
        b@.len() >= RADAR_MIN_LEN,
        t < 9,
    ensures
        r@ == cell_of_pattern(nibble_bits(room_digit(b@, t as int))),
{
    let byte = b[SEPARATOR_LEN + t / 2];
    let digit = if t % 2 == 0 {
        byte / 16
    } else {
        byte % 16
    };
    let bits = hex_to_binary(digit);
    Cell::from_bits(bits.as_str())
}

/// The cell at `(row, col)` of the grid that `b` describes; `sep` holds
/// `separator_bits(b)`.
fn reader_cell(b: &Vec<u8>, sep: &str, row: usize, col: usize) -> (r: Cell)
    requires
        b@.len() >= RADAR_MIN_LEN,
        sep@ == separator_bits(b@),
        row < GRID_SIZE,
        col < GRID_SIZE,
    ensures
        r@ == radar_cell(b@, row as int, col as int),
{
    if row % 2 == 0 && col % 2 == 0 {
        Cell::Undefined
    } else if row % 2 == 0 {
        row_passage(sep, 3 * (row / 2) + col / 2)
    } else if col % 2 == 0 {
        column_passage(b[5 - row / 2], col)
    } else {
        room(b, 3 * (row / 2) + col / 2)
    }
}

/// Assembles the grid that the decoded bytes `b` describe.
pub fn create_radar_view(b: &Vec<u8>) -> (r: RadarGrid)
    requires
        b@.len() >= RADAR_MIN_LEN,
    ensures
        r@ == radar_grid(b@),
{
    let sep = split_line_column(b);
    let mut rows: Vec<Vec<Cell>> = Vec::new();
    let mut row: usize = 0;
    while row < GRID_SIZE
        invariant
            b@.len() >= RADAR_MIN_LEN,
            sep@ == separator_bits(b@),
            row <= GRID_SIZE,
            rows@.len() == row,
            forall|i: int| 0 <= i < row ==> #[trigger] rows@[i]@.len() == GRID_SIZE,
            forall|i: int, j: int|
                0 <= i < row && 0 <= j < GRID_SIZE ==> #[trigger] rows@[i]@[j]@ == radar_cell(
                    b@,
                    i,
                    j,
                ),
        decreases GRID_SIZE - row,
    {
        let mut line: Vec<Cell> = Vec::new();
        let mut col: usize = 0;
        while col < GRID_SIZE
            invariant
                b@.len() >= RADAR_MIN_LEN,
                sep@ == separator_bits(b@),
                row < GRID_SIZE,
                col <= GRID_SIZE,
                line@.len() == col,
                forall|j: int| 0 <= j < col ==> #[trigger] line@[j]@ == radar_cell(
                    b@,
                    row as int,
                    j,
                ),
            decreases GRID_SIZE - col,
        {
            let c = reader_cell(b, sep.as_str(), row, col);
            line.push(c);
            col = col + 1;
        }
        rows.push(line);
        row = row + 1;
    }
    let g = RadarGrid { rows };
    assert(g@ =~= radar_grid(b@)) by {
        assert forall|i: int| 0 <= i < GRID_SIZE implies #[trigger] g@[i] =~= radar_grid(b@)[i] by {}
    }
    g
}

/// Decodes a radar string into its grid.
pub fn decoder(encoded: &str) -> (r: Result<RadarGrid, DecodeError>)
    ensures
        match r {
            Ok(g) => radar_spec(encoded@) == Ok::<Seq<Seq<CellView>>, DecodeError>(g@),
            Err(e) => radar_spec(encoded@) == Err::<Seq<Seq<CellView>>, DecodeError>(e),
        },
{
    let bytes = match base64_decode(encoded) {
        Ok(bytes) => bytes,
        Err(e) => return Err(e),
    };
    if bytes.len() < SEPARATOR_LEN {
        return Err(DecodeError::TruncatedInput);
    }
    if bytes.len() < RADAR_MIN_LEN {
        return Err(DecodeError::InsufficientRoomData);
    }
    Ok(create_radar_view(&bytes))
}

} // verus!
