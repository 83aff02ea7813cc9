use vstd::prelude::*;

use crate::Command;

verus! {

/// One of the four compass headings a rover can face.
#[derive(Clone, Copy, Debug, PartialEq, Eq, Hash, PartialOrd, Structural)]
pub enum Bearing {
    North,
    East,
    South,
    West,
}

impl Bearing {
    /// The heading a quarter turn clockwise from `self`.
    pub open spec fn right(self) -> Bearing {
        match self {
            Bearing::North => Bearing::East,
            Bearing::East => Bearing::South,
            Bearing::South => Bearing::West,
            Bearing::West => Bearing::North,
        }
    }

    /// The heading a quarter turn counter-clockwise from `self`.
    pub open spec fn left(self) -> Bearing {
        match self {
            Bearing::North => Bearing::West,
            Bearing::East => Bearing::North,
            Bearing::South => Bearing::East,
            Bearing::West => Bearing::South,
        }
    }

    /// Change of x for one step forward along this heading.
    pub open spec fn dx(self) -> int {
        match self {
            Bearing::East => 1,
            Bearing::West => -1,
            _ => 0,
        }
    }

    /// Change of y for one step forward along this heading.
    pub open spec fn dy(self) -> int {
        match self {
            Bearing::North => 1,
            Bearing::South => -1,
            _ => 0,
        }
    }

    /// The one-letter name of the heading.
    pub open spec fn symbol(self) -> char {
        match self {
            Bearing::North => 'N',
            Bearing::East => 'E',
            Bearing::South => 'S',
            Bearing::West => 'W',
        }
    }

    pub fn turn_right(self) -> (r: Bearing)
        ensures
            r == self.right(),
    {
        match self {
            Bearing::North => Bearing::East,
            Bearing::East => Bearing::South,
            Bearing::South => Bearing::West,
            Bearing::West => Bearing::North,
        }
    }

    pub fn turn_left(self) -> (r: Bearing)
        ensures
            r == self.left(),
    {
        match self {
            Bearing::North => Bearing::West,
            Bearing::East => Bearing::North,
            Bearing::South => Bearing::East,
            Bearing::West => Bearing::South,
        }
    }

    pub fn letter(self) -> (c: char)
        ensures
            c == self.symbol(),
    {
        match self {
            Bearing::North => 'N',
            Bearing::East => 'E',
            Bearing::South => 'S',
            Bearing::West => 'W',
        }
    }
}

/// Four right turns, or four left turns, bring any heading back to itself,
/// and a right turn followed by a left turn (or the reverse) changes nothing.
pub proof fn lemma_turns_are_cyclic(b: Bearing)
    ensures
        b.right().right().right().right() == b,
        b.left().left().left().left() == b,
        b.right().left() == b,
        b.left().right() == b,
{
}

/// A cell of the grid. Coordinates are signed so that a step off the low
/// edge yields a value the plateau can reject instead of wrapping.
#[derive(Clone, Copy, Debug, PartialEq, Eq, Hash, Structural)]
pub struct Coordinates {
    pub x_coordinate: i64,
    pub y_coordinate: i64,
}

impl Coordinates {
    /// Whether the cell one step along `b` is representable.
    pub open spec fn forward_fits(self, b: Bearing) -> bool {
        &&& i64::MIN <= self.x_coordinate + b.dx() <= i64::MAX
        &&& i64::MIN <= self.y_coordinate + b.dy() <= i64::MAX
    }

    /// The cell one step along `b`; meaningful when `forward_fits(b)`.
    pub open spec fn forward(self, b: Bearing) -> Coordinates {
        Coordinates {
            x_coordinate: (self.x_coordinate + b.dx()) as i64,
            y_coordinate: (self.y_coordinate + b.dy()) as i64,
        }
    }

    pub fn new(x_coordinate: i64, y_coordinate: i64) -> (r: Coordinates)
        ensures
            r.x_coordinate == x_coordinate,
            r.y_coordinate == y_coordinate,
    {
        Coordinates { x_coordinate, y_coordinate }
    }

    /// Tells whether one step along `bearing` stays representable.
    pub fn can_move_forward(&self, bearing: Bearing) -> (r: bool)
        ensures
            r == self.forward_fits(bearing),
    {
        match bearing {
            Bearing::North => self.y_coordinate < i64::MAX,
            Bearing::South => self.y_coordinate > i64::MIN,
            Bearing::East => self.x_coordinate < i64::MAX,
            Bearing::West => self.x_coordinate > i64::MIN,
        }
    }

    /// Translates the cell one unit along `bearing`, without any bounds check.
    pub fn move_forward(&mut self, bearing: Bearing)
        requires
            old(self).forward_fits(bearing),
        ensures
            *final(self) == old(self).forward(bearing),
    {
        match bearing {
            Bearing::North => self.y_coordinate = self.y_coordinate + 1,
            Bearing::South => self.y_coordinate = self.y_coordinate - 1,
            Bearing::East => self.x_coordinate = self.x_coordinate + 1,
            Bearing::West => self.x_coordinate = self.x_coordinate - 1,
        }
    }
}

/// What a rover is, seen from outside: where it stands and where it faces.
pub struct RoverView {
    pub coordinates: Coordinates,
    pub bearing: Bearing,
}

impl RoverView {
    /// Whether `cmd` can be carried out without leaving the representable range.
    pub open spec fn can_apply(self, cmd: Command) -> bool {
        cmd is MoveForward ==> self.coordinates.forward_fits(self.bearing)
    }

    /// The state after carrying out `cmd`.
    pub open spec fn after(self, cmd: Command) -> RoverView {
        match cmd {
            Command::RightTurn => RoverView { bearing: self.bearing.right(), ..self },
            Command::LeftTurn => RoverView { bearing: self.bearing.left(), ..self },
            Command::MoveForward => RoverView {
                coordinates: self.coordinates.forward(self.bearing),
                ..self
            },
        }
    }

    /// The state after carrying out `cmds` in order, with no plateau to consult.
    pub open spec fn run(self, cmds: Seq<Command>) -> RoverView
        decreases cmds.len(),
    {
        if cmds.len() == 0 {
            self
        } else {
            self.after(cmds[0]).run(cmds.drop_first())
        }
    }
}

#[derive(Debug, PartialEq, Eq, Hash)]
pub struct Rover {
    bearing: Bearing,
    coordinates: Coordinates,
}

impl View for Rover {
    type V = RoverView;

    closed spec fn view(&self) -> RoverView {
        RoverView { coordinates: self.coordinates, bearing: self.bearing }
    }
}

impl Rover {
    pub fn new(x_coordinate: i64, y_coordinate: i64, bearing: Bearing) -> (r: Rover)
        ensures
            r@ == (RoverView {
                coordinates: Coordinates { x_coordinate, y_coordinate },
                bearing,
            }),
    {
        Rover { bearing, coordinates: Coordinates { x_coordinate, y_coordinate } }
    }

    /// The cell the rover would reach by moving forward, leaving the rover as it is.
    pub fn planned_move(&self) -> (r: Coordinates)
        requires
            self@.coordinates.forward_fits(self@.bearing),
        ensures
            r == self@.coordinates.forward(self@.bearing),
    {
        let mut planned_coordinates = self.coordinates;
        planned_coordinates.move_forward(self.bearing);
        planned_coordinates
    }

    pub fn coordinates(&self) -> (r: &Coordinates)
        ensures
            *r == self@.coordinates,
    {
        &self.coordinates
    }

    pub fn bearing(&self) -> (r: Bearing)
        ensures
            r == self@.bearing,
    {
        self.bearing
    }

    /// Turns or moves the rover. A move is not checked against any plateau:
    /// the caller confirms it first.
    pub fn execute_command(&mut self, command: &Command)
        requires
            old(self)@.can_apply(*command),
        ensures
            final(self)@ == old(self)@.after(*command),
    {
        match command {
            Command::RightTurn => self.bearing = self.bearing.turn_right(),
            Command::LeftTurn => self.bearing = self.bearing.turn_left(),
            Command::MoveForward => self.coordinates.move_forward(self.bearing),
        }
    }
}

} // verus!
