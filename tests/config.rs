use mars_rover::rover::Bearing;
use mars_rover::{Command, Config, RoverInstructions};

fn words(ws: &[&str]) -> Vec<String> {
    ws.iter().map(|w| w.to_string()).collect()
}

#[test]
fn parse_one_rover() {
    let args = vec![
        "test".to_string(),
        "5".to_string(),
        "5".to_string(),
        "3".to_string(),
        "3".to_string(),
        "N".to_string(),
        "MRLM".to_string(),
    ];

    let expected = Config {
        max_x_grid: 5,
        max_y_grid: 5,
        instructions: vec![RoverInstructions {
            starting_x: 3,
            starting_y: 3,
            bearing: Bearing::North,
            commands: vec![
                Command::MoveForward,
                Command::RightTurn,
                Command::LeftTurn,
                Command::MoveForward,
            ],
        }],
    };

    let config = Config::new(&args).expect("should create config");

    assert_eq!(expected, config);
}

#[test]
fn parse_multiple_rovers() {
    let args = vec![
        "test".to_string(),
        "5".to_string(),
        "5".to_string(),
        "3".to_string(),
        "3".to_string(),
        "N".to_string(),
        "MRLM".to_string(),
        "3".to_string(),
        "3".to_string(),
        "N".to_string(),
        "MRLM".to_string(),
    ];

    let expected = Config {
        max_x_grid: 5,
        max_y_grid: 5,
        instructions: vec![
            RoverInstructions {
                starting_x: 3,
                starting_y: 3,
                bearing: Bearing::North,
                commands: vec![
                    Command::MoveForward,
                    Command::RightTurn,
                    Command::LeftTurn,
                    Command::MoveForward,
                ],
            },
            RoverInstructions {
                starting_x: 3,
                starting_y: 3,
                bearing: Bearing::North,
                commands: vec![
                    Command::MoveForward,
                    Command::RightTurn,
                    Command::LeftTurn,
                    Command::MoveForward,
                ],
            },
        ],
    };

    let config = Config::new(&args).expect("should create config");

    assert_eq!(expected, config);
}

#[test]
fn every_heading_letter_is_read() {
    for (letter, bearing) in [
        ("N", Bearing::North),
        ("E", Bearing::East),
        ("S", Bearing::South),
        ("W", Bearing::West),
    ] {
        let config = Config::new(&words(&["t", "1", "2", "0", "1", letter, "L"])).unwrap();
        assert_eq!(
            vec![RoverInstructions::new(0, 1, bearing, vec![Command::LeftTurn])],
            config.instructions
        );
        assert_eq!(1, config.max_x_grid);
        assert_eq!(2, config.max_y_grid);
    }
}

#[test]
fn heading_word_is_read_by_its_first_letter() {
    let config = Config::new(&words(&["t", "5", "5", "0", "0", "West", "M"])).unwrap();
    assert_eq!(Bearing::West, config.instructions[0].bearing);
}

#[test]
fn plus_sign_before_a_number_is_accepted() {
    let config = Config::new(&words(&["t", "+7", "5", "0", "0", "N", "M"])).unwrap();
    assert_eq!(7, config.max_x_grid);
}

#[test]
fn too_few_arguments_are_refused() {
    assert!(Config::new(&words(&["t", "5", "5", "0", "0", "N"])).is_err());
    assert!(Config::new(&words(&[])).is_err());
}

#[test]
fn incomplete_rover_is_refused() {
    assert!(Config::new(&words(&["t", "5", "5", "0", "0", "N", "M", "1"])).is_err());
    assert!(Config::new(&words(&["t", "5", "5", "0", "0", "N", "M", "1", "1", "N"])).is_err());
}

#[test]
fn bad_numbers_are_refused() {
    for bad in ["", "-1", "x", "1.5", " 3", "+", "9223372036854775808", "18446744073709551616"] {
        assert!(Config::new(&words(&["t", bad, "5", "0", "0", "N", "M"])).is_err());
        assert!(Config::new(&words(&["t", "5", bad, "0", "0", "N", "M"])).is_err());
        assert!(Config::new(&words(&["t", "5", "5", bad, "0", "N", "M"])).is_err());
        assert!(Config::new(&words(&["t", "5", "5", "0", bad, "N", "M"])).is_err());
    }
}

#[test]
fn largest_signed_number_is_accepted() {
    let config =
        Config::new(&words(&["t", "9223372036854775807", "5", "0", "0", "N", "M"])).unwrap();
    assert_eq!(i64::MAX, config.max_x_grid);
}

#[test]
fn bad_heading_is_refused() {
    let e = Config::new(&words(&["t", "5", "5", "0", "0", "X", "M"])).unwrap_err();
    assert_eq!("could not parse bearing", e.details());
    assert!(Config::new(&words(&["t", "5", "5", "0", "0", "", "M"])).is_err());
}

#[test]
fn bad_commands_are_refused() {
    let e = Config::new(&words(&["t", "5", "5", "0", "0", "N", "MXM"])).unwrap_err();
    assert_eq!("could not parse command", e.details());
    let e = Config::new(&words(&["t", "5", "5", "0", "0", "N", ""])).unwrap_err();
    assert_eq!("can't parse empty commands", e.details());
}

#[test]
fn error_in_a_later_rover_is_refused() {
    assert!(
        Config::new(&words(&["t", "5", "5", "0", "0", "N", "M", "1", "1", "N", "Q"])).is_err()
    );
}

#[test]
fn bearing_from_str_reads_single_letters() {
    assert_eq!(Ok(Bearing::West), "W".parse::<Bearing>());
    assert_eq!(Ok(Bearing::North), "N".parse::<Bearing>());
    assert!("Q".parse::<Bearing>().is_err());
    assert!("NE".parse::<Bearing>().is_err());
}

#[test]
fn parse_commands_maps_each_letter() {
    assert_eq!(
        Ok(vec![Command::LeftTurn, Command::MoveForward, Command::RightTurn]),
        mars_rover::config::parse_commands(vec!['L', 'M', 'R'])
    );
    assert!(mars_rover::config::parse_commands(vec![]).is_err());
}
