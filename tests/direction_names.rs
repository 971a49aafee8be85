use maze_player::direction::{direction_from_angle, RelativeDirection};

#[test]
fn directions_have_their_wire_names() {
    assert_eq!(RelativeDirection::Left.to_string(), "Left");
    assert_eq!(RelativeDirection::Right.to_string(), "Right");
    assert_eq!(RelativeDirection::Back.to_string(), "Back");
    assert_eq!(RelativeDirection::Front.to_string(), "Front");
}

#[test]
fn compass_angles_map_to_quadrants() {
    assert_eq!(direction_from_angle(0), RelativeDirection::Front);
    assert_eq!(direction_from_angle(44), RelativeDirection::Front);
    assert_eq!(direction_from_angle(45), RelativeDirection::Right);
    assert_eq!(direction_from_angle(134), RelativeDirection::Right);
    assert_eq!(direction_from_angle(135), RelativeDirection::Back);
    assert_eq!(direction_from_angle(224), RelativeDirection::Back);
    assert_eq!(direction_from_angle(225), RelativeDirection::Left);
    assert_eq!(direction_from_angle(314), RelativeDirection::Left);
    assert_eq!(direction_from_angle(315), RelativeDirection::Front);
    assert_eq!(direction_from_angle(360), RelativeDirection::Front);
    assert_eq!(direction_from_angle(-10), RelativeDirection::Front);
}
