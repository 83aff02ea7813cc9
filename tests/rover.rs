use mars_rover::rover::{Bearing, Coordinates, Rover};
use mars_rover::Command;

#[test]
fn move_north() {
    let mut rover = Rover::new(0, 0, Bearing::North);

    rover.execute_command(&Command::MoveForward);

    assert_eq!(Rover::new(0, 1, Bearing::North), rover);
}

#[test]
fn move_south() {
    let mut rover = Rover::new(0, 1, Bearing::South);

    rover.execute_command(&Command::MoveForward);

    assert_eq!(Rover::new(0, 0, Bearing::South), rover);
}

#[test]
fn move_east() {
    let mut rover = Rover::new(0, 0, Bearing::East);

    rover.execute_command(&Command::MoveForward);

    assert_eq!(Rover::new(1, 0, Bearing::East), rover);
}

#[test]
fn move_west() {
    let mut rover = Rover::new(1, 0, Bearing::West);

    rover.execute_command(&Command::MoveForward);

    assert_eq!(Rover::new(0, 0, Bearing::West), rover);
}

#[test]
fn turn_right_from_north() {
    let mut rover = Rover::new(0, 0, Bearing::North);

    rover.execute_command(&Command::RightTurn);

    assert_eq!(Rover::new(0, 0, Bearing::East), rover);
}

#[test]
fn turn_left_from_north() {
    let mut rover = Rover::new(0, 0, Bearing::North);

    rover.execute_command(&Command::LeftTurn);

    assert_eq!(Rover::new(0, 0, Bearing::West), rover);
}

#[test]
fn get_planned_move() {
    let rover = Rover::new(0, 0, Bearing::North);

    let planned_coordinates = rover.planned_move();

    assert_eq!(Coordinates::new(0, 1), planned_coordinates);

    assert_eq!(Rover::new(0, 0, Bearing::North), rover);
}

const ALL: [Bearing; 4] = [Bearing::North, Bearing::East, Bearing::South, Bearing::West];

#[test]
fn four_right_turns_return_to_start() {
    for b in ALL {
        assert_eq!(b, b.turn_right().turn_right().turn_right().turn_right());
    }
}

#[test]
fn four_left_turns_return_to_start() {
    for b in ALL {
        assert_eq!(b, b.turn_left().turn_left().turn_left().turn_left());
    }
}

#[test]
fn right_then_left_is_identity() {
    for b in ALL {
        assert_eq!(b, b.turn_right().turn_left());
        assert_eq!(b, b.turn_left().turn_right());
    }
}

#[test]
fn right_turns_cycle_clockwise() {
    assert_eq!(Bearing::East, Bearing::North.turn_right());
    assert_eq!(Bearing::South, Bearing::East.turn_right());
    assert_eq!(Bearing::West, Bearing::South.turn_right());
    assert_eq!(Bearing::North, Bearing::West.turn_right());
}

#[test]
fn left_turns_cycle_counter_clockwise() {
    assert_eq!(Bearing::West, Bearing::North.turn_left());
    assert_eq!(Bearing::South, Bearing::West.turn_left());
    assert_eq!(Bearing::East, Bearing::South.turn_left());
    assert_eq!(Bearing::North, Bearing::East.turn_left());
}

#[test]
fn bearing_letters() {
    assert_eq!('N', Bearing::North.letter());
    assert_eq!('E', Bearing::East.letter());
    assert_eq!('S', Bearing::South.letter());
    assert_eq!('W', Bearing::West.letter());
}

#[test]
fn translation_goes_below_zero_without_clamping() {
    let mut c = Coordinates::new(0, 0);
    c.move_forward(Bearing::West);
    assert_eq!(Coordinates::new(-1, 0), c);
    c.move_forward(Bearing::South);
    assert_eq!(Coordinates::new(-1, -1), c);
}

#[test]
fn forward_step_at_the_edge_of_the_range_is_reported() {
    let c = Coordinates::new(i64::MAX, 0);
    assert!(!c.can_move_forward(Bearing::East));
    assert!(c.can_move_forward(Bearing::West));
    assert!(c.can_move_forward(Bearing::North));
    let d = Coordinates::new(0, i64::MIN);
    assert!(!d.can_move_forward(Bearing::South));
}

#[test]
fn turns_leave_position_and_moves_leave_heading() {
    let mut rover = Rover::new(2, 3, Bearing::South);
    rover.execute_command(&Command::LeftTurn);
    assert_eq!(&Coordinates::new(2, 3), rover.coordinates());
    assert_eq!(Bearing::East, rover.bearing());
    rover.execute_command(&Command::MoveForward);
    assert_eq!(&Coordinates::new(3, 3), rover.coordinates());
    assert_eq!(Bearing::East, rover.bearing());
}
