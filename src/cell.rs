//! Typed cells of a radar view and the bit-pattern tables that produce them.
use vstd::prelude::*;

verus! {

/// One position of a radar view: the content of a room, or the state of the
/// passage between two adjacent rooms.
#[derive(Clone, Debug, PartialEq, Eq)]
pub enum Cell {
    Undefined,
    Open,
    Wall,
    Exit,
    /// A bit pattern that no table maps, kept as it was read.
    Unknown(String),
}

/// What a `Cell` stands for, with the raw pattern of `Unknown` as characters.
pub ghost enum CellView {
    Undefined,
    Open,
    Wall,
    Exit,
    Unknown(Seq<char>),
}

impl View for Cell {
    type V = CellView;

    open spec fn view(&self) -> CellView {
        match self {
            Cell::Undefined => CellView::Undefined,
            Cell::Open => CellView::Open,
            Cell::Wall => CellView::Wall,
            Cell::Exit => CellView::Exit,
            Cell::Unknown(bits) => CellView::Unknown(bits@),
        }
    }
}

/// `c` is a binary digit.
pub open spec fn is_bit_char(c: char) -> bool {
    c == '0' || c == '1'
}

/// Every character of `p` is a binary digit.
pub open spec fn is_bit_string(p: Seq<char>) -> bool {
    forall|i: int| 0 <= i < p.len() ==> is_bit_char(#[trigger] p[i])
}

pub open spec fn bit_value(c: char) -> int {
    if c == '1' {
        1
    } else {
        0
    }
}

/// The number that a two-digit binary pattern denotes.
pub open spec fn value2(p: Seq<char>) -> int {
    2 * bit_value(p[0]) + bit_value(p[1])
}

/// The number that a four-digit binary pattern denotes.
pub open spec fn value4(p: Seq<char>) -> int {
    8 * bit_value(p[0]) + 4 * bit_value(p[1]) + 2 * bit_value(p[2]) + bit_value(p[3])
}

/// Passage table: `00` undefined, `01` open, `10` and `11` wall.
pub open spec fn passage_cell(code: int) -> CellView {
    if code == 0b00 {
        CellView::Undefined
    } else if code == 0b01 {
        CellView::Open
    } else {
        CellView::Wall
    }
}

/// Room table; `None` for the patterns it does not map.
pub open spec fn room_cell(code: int) -> Option<CellView> {
    if code == 0b1111 {
        Some(CellView::Undefined)
    } else if code == 0b0000 || code == 0b0001 || code == 0b0101 {
        Some(CellView::Open)
    } else if code == 0b0111 || code == 0b0011 || code == 0b0010 || code == 0b0110 || code
        == 0b1010 {
        Some(CellView::Wall)
    } else if code == 0b1000 || code == 0b1001 {
        Some(CellView::Exit)
    } else {
        None
    }
}

/// The cell that a bit pattern stands for: two binary digits go through the
/// passage table, four through the room table, anything else (and a
/// four-digit pattern that the room table lacks) is `Unknown` with the pattern.
pub open spec fn cell_of_pattern(p: Seq<char>) -> CellView {
    if is_bit_string(p) && p.len() == 2 {
        passage_cell(value2(p))
    } else if is_bit_string(p) && p.len() == 4 && room_cell(value4(p)) is Some {
        room_cell(value4(p))->0
    } else {
        CellView::Unknown(p)
    }
}

/// Every 2-digit and every 4-digit binary pattern denotes a cell. The 2-digit
/// ones all have a meaning; a 4-digit one is `Unknown`, holding the pattern
/// itself, exactly when the room table lacks it (`0100`, `1011`, `1100`,
/// `1101`, `1110`).
pub proof fn lemma_patterns_total(p: Seq<char>)
    requires
        is_bit_string(p),
        p.len() == 2 || p.len() == 4,
    ensures
        p.len() == 2 ==> !(cell_of_pattern(p) is Unknown),
        p.len() == 4 ==> ((cell_of_pattern(p) is Unknown) <==> (value4(p) == 0b0100 || value4(
            p,
        ) == 0b1011 || value4(p) == 0b1100 || value4(p) == 0b1101 || value4(p) == 0b1110)),
        cell_of_pattern(p) is Unknown ==> cell_of_pattern(p) == CellView::Unknown(p),
{
    if p.len() == 4 {
        assert(is_bit_char(p[0]) && is_bit_char(p[1]) && is_bit_char(p[2]) && is_bit_char(p[3]));
        assert(0 <= value4(p) < 16);
    }
}

/// Reads the character at `i` as a binary digit: `Some(0)`, `Some(1)` or `None`.
fn read_bit(bits: &str, i: usize) -> (r: Option<u8>)
    requires
        i < bits@.len(),
    ensures
        r is Some <==> is_bit_char(bits@[i as int]),
        r is Some ==> r->0 == bit_value(bits@[i as int]),
{
    let c = bits.get_char(i);
    if c == '0' {
        Some(0)
    } else if c == '1' {
        Some(1)
    } else {
        None
    }
}

/// The cell for a passage code (two bits).
fn passage_from_code(code: u8) -> (r: Cell)
    requires
        code < 4,
    ensures
        r@ == passage_cell(code as int),
{
    if code == 0 {
        Cell::Undefined
    } else if code == 1 {
        Cell::Open
    } else {
        Cell::Wall
    }
}

/// The cell for a room code (four bits), if the room table maps it.
fn room_from_code(code: u8) -> (r: Option<Cell>)
    requires
        code < 16,
    ensures
        r is Some <==> room_cell(code as int) is Some,
        r is Some ==> r->0@ == room_cell(code as int)->0,
{
    match code {
        0b1111 => Some(Cell::Undefined),
        0b0000 | 0b0001 | 0b0101 => Some(Cell::Open),
        0b0111 | 0b0011 | 0b0010 | 0b0110 | 0b1010 => Some(Cell::Wall),
        0b1000 | 0b1001 => Some(Cell::Exit),
        _ => None,
    }
}

/// How a cell is shown: `U`, `O`, `W`, `E`, or `?` followed by the pattern.
pub open spec fn cell_text(c: CellView) -> Seq<char> {
    match c {
        CellView::Undefined => seq!['U'],
        CellView::Open => seq!['O'],
        CellView::Wall => seq!['W'],
        CellView::Exit => seq!['E'],
        CellView::Unknown(p) => seq!['?'] + p,
    }
}

impl Cell {
    /// The cell as shown on a text map.
    pub fn to_text(&self) -> (r: String)
        ensures
            r@ == cell_text(self@),
    {
        proof {
            reveal_strlit("U");
            reveal_strlit("O");
            reveal_strlit("W");
            reveal_strlit("E");
            reveal_strlit("?");
        }
        let mut s = String::new();
        match self {
            Cell::Undefined => s.append("U"),
            Cell::Open => s.append("O"),
            Cell::Wall => s.append("W"),
            Cell::Exit => s.append("E"),
            Cell::Unknown(bits) => {
                s.append("?");
                s.append(bits.as_str());
            },
        }
        assert(s@ =~= cell_text(self@));
        s
    }

    /// Maps a bit pattern to a cell. Total: a pattern that no table maps
    /// becomes `Unknown` holding the pattern.
    pub fn from_bits(bits: &str) -> (r: Cell)
        ensures
            r@ == cell_of_pattern(bits@),
    {
        let n = bits.unicode_len();
        if n == 2 {
            let b0 = read_bit(bits, 0);
            let b1 = read_bit(bits, 1);
            if let (Some(x0), Some(x1)) = (b0, b1) {
                assert(is_bit_string(bits@));
                return passage_from_code(2 * x0 + x1);
            }
            assert(!is_bit_string(bits@));
        } else if n == 4 {
            let b0 = read_bit(bits, 0);
            let b1 = read_bit(bits, 1);
            let b2 = read_bit(bits, 2);
            let b3 = read_bit(bits, 3);
            if let (Some(x0), Some(x1), Some(x2), Some(x3)) = (b0, b1, b2, b3) {
                assert(is_bit_string(bits@));
                if let Some(c) = room_from_code(8 * x0 + 4 * x1 + 2 * x2 + x3) {
                    return c;
                }
            } else {
                assert(!is_bit_string(bits@));
            }
        }
        Cell::Unknown(bits.to_owned())
    }
}

} // verus!
