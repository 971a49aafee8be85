use maze_player::cell::Cell;
use maze_player::error::DecodeError;
use maze_player::radar::{decoder, to_binary, RadarGrid};

fn cell_of(name: &str) -> Cell {
    match name {
        "U" => Cell::Undefined,
        "O" => Cell::Open,
        "W" => Cell::Wall,
        "E" => Cell::Exit,
        other => Cell::Unknown(other.trim_start_matches('?').to_string()),
    }
}

fn assert_grid(g: &RadarGrid, expected: [[&str; 7]; 7]) {
    for r in 0..7 {
        for c in 0..7 {
            assert_eq!(*g.cell(r, c), cell_of(expected[r][c]), "at ({}, {})", r, c);
        }
    }
}

#[test]
fn decodes_a_radar_view() {
    let g = decoder("ieysGjGO8papd/a").unwrap();
    assert_grid(
        &g,
        [
            ["U", "W", "U", "W", "U", "W", "U"],
            ["W", "U", "U", "W", "W", "E", "W"],
            ["U", "U", "U", "W", "U", "W", "U"],
            ["U", "W", "W", "W", "U", "E", "O"],
            ["U", "W", "U", "U", "U", "W", "U"],
            ["U", "W", "O", "W", "W", "U", "W"],
            ["U", "U", "U", "W", "U", "O", "U"],
        ],
    );
}

#[test]
fn decodes_another_radar_view() {
    let g = decoder("zveI8/8p8p8a8aa").unwrap();
    assert_grid(
        &g,
        [
            ["U", "W", "U", "U", "U", "W", "U"],
            ["U", "U", "W", "W", "W", "E", "O"],
            ["U", "U", "U", "W", "U", "W", "U"],
            ["W", "U", "W", "O", "W", "W", "W"],
            ["U", "O", "U", "W", "U", "W", "U"],
            ["W", "U", "W", "O", "U", "W", "W"],
            ["U", "U", "U", "W", "U", "W", "U"],
        ],
    );
}

#[test]
fn unmapped_room_digits_stay_unknown() {
    let g = decoder("AAAAAAAAS83gAAA").unwrap();
    assert_grid(
        &g,
        [
            ["U", "U", "U", "U", "U", "U", "U"],
            ["U", "?0100", "U", "?1011", "U", "?1100", "U"],
            ["U", "U", "U", "U", "U", "U", "U"],
            ["U", "?1101", "U", "?1110", "U", "O", "U"],
            ["U", "U", "U", "U", "U", "U", "U"],
            ["U", "O", "U", "O", "U", "O", "U"],
            ["U", "U", "U", "U", "U", "U", "U"],
        ],
    );
}

#[test]
fn eleven_bytes_give_undefined_corners_and_nine_rooms() {
    for s in ["ieysGjGO8papd/a", "zveI8/8p8p8a8aa", "//////////////8"] {
        let g = decoder(s).unwrap();
        for r in (0..7).step_by(2) {
            for c in (0..7).step_by(2) {
                assert_eq!(*g.cell(r, c), Cell::Undefined, "{} at ({}, {})", s, r, c);
            }
        }
    }
    // Room data 0x12 0x34 0x56 0x78 0x9a: the rooms are digits 1..9.
    let g = decoder("AAAAAAAAEjRWeJo").unwrap();
    let digits = ["0001", "0010", "0011", "0100", "0101", "0110", "0111", "1000", "1001"];
    for (k, d) in digits.iter().enumerate() {
        assert_eq!(*g.cell(2 * (k / 3) + 1, 2 * (k % 3) + 1), Cell::from_bits(d));
    }
}

#[test]
fn short_inputs_are_rejected() {
    assert_eq!(decoder("AAAA").err(), Some(DecodeError::TruncatedInput));
    assert_eq!(decoder("").err(), Some(DecodeError::TruncatedInput));
    assert_eq!(decoder("AAAAAAAA").err(), Some(DecodeError::InsufficientRoomData));
    assert_eq!(decoder("AAAAAAAAAAAAAA").err(), Some(DecodeError::InsufficientRoomData));
}

#[test]
fn base64_errors_pass_through() {
    assert_eq!(decoder("abcde").err(), Some(DecodeError::InvalidLength));
    assert_eq!(decoder("ieysGjGO8pa_d/a").err(), Some(DecodeError::InvalidCharacter('_')));
}

#[test]
fn bytes_render_as_eight_binary_digits() {
    assert_eq!(to_binary(0), "00000000");
    assert_eq!(to_binary(5), "00000101");
    assert_eq!(to_binary(0b1011_0010), "10110010");
    assert_eq!(to_binary(255), "11111111");
}

#[test]
fn grids_are_built_only_from_seven_by_seven_rows() {
    let row = || vec![Cell::Undefined; 7];
    assert!(RadarGrid::from_rows(vec![row(); 7]).is_some());
    assert!(RadarGrid::from_rows(vec![row(); 6]).is_none());
    let mut rows = vec![row(); 7];
    rows[4].pop();
    assert!(RadarGrid::from_rows(rows).is_none());
}
