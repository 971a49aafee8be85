use maze_player::cell::Cell;

fn unknown(p: &str) -> Cell {
    Cell::Unknown(p.to_string())
}

#[test]
fn passage_patterns_map_through_the_passage_table() {
    assert_eq!(Cell::from_bits("00"), Cell::Undefined);
    assert_eq!(Cell::from_bits("01"), Cell::Open);
    assert_eq!(Cell::from_bits("10"), Cell::Wall);
    assert_eq!(Cell::from_bits("11"), Cell::Wall);
}

#[test]
fn room_patterns_map_through_the_room_table() {
    assert_eq!(Cell::from_bits("1111"), Cell::Undefined);
    for p in ["0000", "0001", "0101"] {
        assert_eq!(Cell::from_bits(p), Cell::Open, "{}", p);
    }
    for p in ["0111", "0011", "0010", "0110", "1010"] {
        assert_eq!(Cell::from_bits(p), Cell::Wall, "{}", p);
    }
    for p in ["1000", "1001"] {
        assert_eq!(Cell::from_bits(p), Cell::Exit, "{}", p);
    }
}

#[test]
fn unmapped_room_patterns_are_kept_as_unknown() {
    for p in ["0100", "1011", "1100", "1101", "1110"] {
        assert_eq!(Cell::from_bits(p), unknown(p));
    }
}

#[test]
fn every_two_and_four_digit_pattern_gives_a_cell() {
    for v in 0..4u32 {
        let p = format!("{:02b}", v);
        assert!(!matches!(Cell::from_bits(&p), Cell::Unknown(_)), "{}", p);
    }
    let unmapped = ["0100", "1011", "1100", "1101", "1110"];
    for v in 0..16u32 {
        let p = format!("{:04b}", v);
        let c = Cell::from_bits(&p);
        if unmapped.contains(&p.as_str()) {
            assert_eq!(c, unknown(&p));
        } else {
            assert!(!matches!(c, Cell::Unknown(_)), "{}", p);
        }
    }
}

#[test]
fn other_text_is_unknown() {
    assert_eq!(Cell::from_bits(""), unknown(""));
    assert_eq!(Cell::from_bits("0"), unknown("0"));
    assert_eq!(Cell::from_bits("010"), unknown("010"));
    assert_eq!(Cell::from_bits("0a"), unknown("0a"));
    assert_eq!(Cell::from_bits("01010"), unknown("01010"));
    assert_eq!(Cell::from_bits("é1"), unknown("é1"));
}

#[test]
fn cells_render_as_text() {
    assert_eq!(Cell::Undefined.to_text(), "U");
    assert_eq!(Cell::Open.to_text(), "O");
    assert_eq!(Cell::Wall.to_text(), "W");
    assert_eq!(Cell::Exit.to_text(), "E");
    assert_eq!(unknown("1100").to_text(), "?1100");
}
