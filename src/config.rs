use vstd::prelude::*;

use crate::rover::Bearing;
use crate::Command;

verus! {

broadcast use vstd::string::group_string_axioms;

/// Where one rover starts and what it is told to do.
#[derive(Debug, Clone, PartialEq, PartialOrd)]
pub struct RoverInstructions {
    pub starting_x: i64,
    pub starting_y: i64,
    pub bearing: Bearing,
    pub commands: Vec<Command>,
}

impl RoverInstructions {
    pub fn new(starting_x: i64, starting_y: i64, bearing: Bearing, commands: Vec<Command>) -> (r:
        RoverInstructions)
        ensures
            r.starting_x == starting_x,
            r.starting_y == starting_y,
            r.bearing == bearing,
            r.commands@ == commands@,
    {
        RoverInstructions { starting_x, starting_y, bearing, commands }
    }
}

/// A whole run: the grid's inclusive upper bounds and the rovers in deployment order.
#[derive(Debug, Clone, PartialEq, PartialOrd)]
pub struct Config {
    pub max_x_grid: i64,
    pub max_y_grid: i64,
    pub instructions: Vec<RoverInstructions>,
}

impl Config {
    /// Reads a run from a command line: the program name, the grid's two
    /// upper bounds, then for each rover its starting x and y, its heading
    /// letter and its word of commands.
    pub fn new(args: &[String]) -> (r: Result<Config, ParseError>)
        ensures
            r is Ok <==> args_well_formed(words_of(args@)),
            r matches Ok(config) ==> {
                let words = words_of(args@);
                &&& config.max_x_grid == number_of(words[1])->Some_0
                &&& config.max_y_grid == number_of(words[2])->Some_0
                &&& config.instructions@.len() == rover_count(words)
                &&& forall|k: int|
                    0 <= k < rover_count(words) ==> holds_instruction(
                        #[trigger] config.instructions@[k],
                        instruction_at(words, k)->Some_0,
                    )
            },
    {
        let ghost words = words_of(args@);
        if args.len() < 7 {
            return Err(ParseError::new("can't have less than 6 arguments"));
        }
        let count: usize = (args.len() - 3) / 4;
        if 3 + 4 * count != args.len() {
            return Err(ParseError::new("each rover takes four arguments"));
        }
        assert(words[1] == args@[1]@ && words[2] == args@[2]@);
        let max_x_grid = match parse_number(args[1].as_str()) {
            Some(v) => v,
            None => return Err(ParseError::new("could not parse grid width")),
        };
        let max_y_grid = match parse_number(args[2].as_str()) {
            Some(v) => v,
            None => return Err(ParseError::new("could not parse grid height")),
        };
        let mut instructions: Vec<RoverInstructions> = Vec::new();
        let mut k: usize = 0;
        let mut base: usize = 3;
        while k < count
            invariant
                words == words_of(args@),
                3 + 4 * count == args.len(),
                count == rover_count(words),
                k <= count,
                base == 3 + 4 * k,
                instructions@.len() == k,
                forall|j: int|
                    0 <= j < k ==> {
                        &&& #[trigger] instruction_at(words, j) is Some
                        &&& holds_instruction(instructions@[j], instruction_at(words, j)->Some_0)
                    },
            decreases count - k,
        {
            assert(words[base as int] == args@[base as int]@);
            assert(words[base + 1] == args@[base + 1]@);
            assert(words[base + 2] == args@[base + 2]@);
            assert(words[base + 3] == args@[base + 3]@);
            let starting_x = match parse_number(args[base].as_str()) {
                Some(v) => v,
                None => {
                    assert(instruction_at(words, k as int) is None);
                    return Err(ParseError::new("could not parse starting x"));
                },
            };
            let starting_y = match parse_number(args[base + 1].as_str()) {
                Some(v) => v,
                None => {
                    assert(instruction_at(words, k as int) is None);
                    return Err(ParseError::new("could not parse starting y"));
                },
            };
            let heading = chars_of(args[base + 2].as_str());
            if heading.len() == 0 {
                assert(instruction_at(words, k as int) is None);
                return Err(ParseError::new("could not parse bearing"));
            }
            let bearing = match parse_bearing(heading[0]) {
                Ok(b) => b,
                Err(e) => {
                    assert(instruction_at(words, k as int) is None);
                    return Err(e);
                },
            };
            let commands = match parse_commands(chars_of(args[base + 3].as_str())) {
                Ok(c) => c,
                Err(e) => {
                    assert(instruction_at(words, k as int) is None);
                    return Err(e);
                },
            };
            instructions.push(RoverInstructions::new(starting_x, starting_y, bearing, commands));
            assert(instruction_at(words, k as int) is Some);
            k = k + 1;
            base = base + 4;
        }
        Ok(Config { max_x_grid, max_y_grid, instructions })
    }
}

/// Why the arguments could not be read.
#[derive(Debug, Clone, PartialEq, PartialOrd)]
pub struct ParseError {
    details: String,
}

impl View for ParseError {
    type V = Seq<char>;

    closed spec fn view(&self) -> Seq<char> {
        self.details@
    }
}

impl ParseError {
    fn new(msg: &str) -> (r: ParseError)
        ensures
            r@ == msg@,
    {
        ParseError { details: msg.to_string() }
    }

    /// What went wrong, in words.
    pub fn details(&self) -> (r: &str)
        ensures
            r@ == self@,
    {
        self.details.as_str()
    }
}

pub open spec fn is_digit(c: char) -> bool {
    '0' <= c <= '9'
}

/// The number written by the decimal digits `s`, most significant first.
pub open spec fn digits_value(s: Seq<char>) -> int
    decreases s.len(),
{
    if s.len() == 0 {
        0
    } else {
        digits_value(s.drop_last()) * 10 + (s.last() as int - '0' as int)
    }
}

/// An unsigned decimal as `u64`'s `FromStr` reads it: an optional `+`, then
/// one or more ASCII digits and nothing else, whose value fits in `u64`.
pub open spec fn decimal_u64(s: Seq<char>) -> Option<u64> {
    let digits = if s.len() > 0 && s[0] == '+' {
        s.drop_first()
    } else {
        s
    };
    if digits.len() > 0 && (forall|i: int| 0 <= i < digits.len() ==> is_digit(#[trigger] digits[i]))
        && digits_value(digits) <= u64::MAX {
        Some(digits_value(digits) as u64)
    } else {
        None
    }
}

/// Relies on `str::parse::<u64>`, whose documented grammar `decimal_u64` states.
#[verifier::external_body]
fn parse_u64(s: &str) -> (r: Option<u64>)
    ensures
        r == decimal_u64(s@),
{
    s.parse::<u64>().ok()
}

/// A grid bound or a coordinate: an unsigned decimal that fits in `i64`.
pub open spec fn number_of(s: Seq<char>) -> Option<i64> {
    match decimal_u64(s) {
        Some(v) if v <= i64::MAX => Some(v as i64),
        _ => None,
    }
}

pub open spec fn bearing_of(c: char) -> Option<Bearing> {
    if c == 'N' {
        Some(Bearing::North)
    } else if c == 'E' {
        Some(Bearing::East)
    } else if c == 'S' {
        Some(Bearing::South)
    } else if c == 'W' {
        Some(Bearing::West)
    } else {
        None
    }
}

pub open spec fn command_of(c: char) -> Option<Command> {
    if c == 'M' {
        Some(Command::MoveForward)
    } else if c == 'R' {
        Some(Command::RightTurn)
    } else if c == 'L' {
        Some(Command::LeftTurn)
    } else {
        None
    }
}

/// A heading word: its first letter names the heading.
pub open spec fn heading_of(s: Seq<char>) -> Option<Bearing> {
    if s.len() > 0 {
        bearing_of(s[0])
    } else {
        None
    }
}

/// A command word: one or more command letters.
pub open spec fn commands_of(s: Seq<char>) -> Option<Seq<Command>> {
    if s.len() > 0 && (forall|i: int| 0 <= i < s.len() ==> #[trigger] command_of(s[i]) is Some) {
        Some(s.map_values(|c: char| command_of(c)->Some_0))
    } else {
        None
    }
}

/// Rover `k` of the argument list, when its four words are well formed.
pub open spec fn instruction_at(args: Seq<Seq<char>>, k: int) -> Option<
    (i64, i64, Bearing, Seq<Command>),
> {
    let base = 3 + 4 * k;
    match (
        number_of(args[base]),
        number_of(args[base + 1]),
        heading_of(args[base + 2]),
        commands_of(args[base + 3]),
    ) {
        (Some(x), Some(y), Some(b), Some(cs)) => Some((x, y, b, cs)),
        _ => None,
    }
}

/// Number of rovers the argument list describes.
pub open spec fn rover_count(args: Seq<Seq<char>>) -> int {
    (args.len() - 3) / 4
}

/// The argument list is a program name, the two grid bounds, then four
/// well-formed words for each of at least one rover.
pub open spec fn args_well_formed(args: Seq<Seq<char>>) -> bool {
    &&& args.len() >= 7
    &&& (args.len() - 3) % 4 == 0
    &&& number_of(args[1]) is Some
    &&& number_of(args[2]) is Some
    &&& forall|k: int| 0 <= k < rover_count(args) ==> #[trigger] instruction_at(args, k) is Some
}

/// `ins` holds what `parsed` says.
pub open spec fn holds_instruction(
    ins: RoverInstructions,
    parsed: (i64, i64, Bearing, Seq<Command>),
) -> bool {
    &&& ins.starting_x == parsed.0
    &&& ins.starting_y == parsed.1
    &&& ins.bearing == parsed.2
    &&& ins.commands@ == parsed.3
}

pub open spec fn words_of(args: Seq<String>) -> Seq<Seq<char>> {
    args.map_values(|s: String| s@)
}

fn parse_number(s: &str) -> (r: Option<i64>)
    ensures
        r == number_of(s@),
{
    match parse_u64(s) {
        Some(v) => {
            if v <= i64::MAX as u64 {
                Some(v as i64)
            } else {
                None
            }
        },
        None => None,
    }
}

/// Reads a heading from its letter.
pub fn parse_bearing(c: char) -> (r: Result<Bearing, ParseError>)
    ensures
        match r {
            Ok(b) => bearing_of(c) == Some(b),
            Err(_) => bearing_of(c) is None,
        },
{
    match c {
        'N' => Ok(Bearing::North),
        'E' => Ok(Bearing::East),
        'S' => Ok(Bearing::South),
        'W' => Ok(Bearing::West),
        _ => Err(ParseError::new("could not parse bearing")),
    }
}

impl std::str::FromStr for Bearing {
    type Err = ParseError;

    /// Reads a heading written as its single letter.
    fn from_str(s: &str) -> Result<Bearing, ParseError> {
        let letters = chars_of(s);
        if letters.len() != 1 {
            return Err(ParseError::new("could not parse bearing"));
        }
        parse_bearing(letters[0])
    }
}

fn map_command(c: char) -> (r: Result<Command, ParseError>)
    ensures
        match r {
            Ok(cmd) => command_of(c) == Some(cmd),
            Err(_) => command_of(c) is None,
        },
{
    match c {
        'M' => Ok(Command::MoveForward),
        'R' => Ok(Command::RightTurn),
        'L' => Ok(Command::LeftTurn),
        _ => Err(ParseError::new("could not parse command")),
    }
}

/// Reads a non-empty word of command letters.
pub fn parse_commands(chars: Vec<char>) -> (r: Result<Vec<Command>, ParseError>)
    ensures
        match r {
            Ok(cmds) => commands_of(chars@) == Some(cmds@),
            Err(_) => commands_of(chars@) is None,
        },
{
    if chars.len() == 0 {
        return Err(ParseError::new("can't parse empty commands"));
    }
    let mut commands: Vec<Command> = Vec::new();
    let mut i: usize = 0;
    while i < chars.len()
        invariant
            i <= chars.len(),
            commands@.len() == i,
            forall|j: int| 0 <= j < i ==> #[trigger] command_of(chars@[j]) == Some(commands@[j]),
        decreases chars.len() - i,
    {
        match map_command(chars[i]) {
            Ok(cmd) => commands.push(cmd),
            Err(e) => return Err(e),
        }
        i = i + 1;
    }
    assert(commands@ =~= chars@.map_values(|c: char| command_of(c)->Some_0));
    Ok(commands)
}

fn chars_of(s: &str) -> (r: Vec<char>)
    ensures
        r@ == s@,
{
    let mut r: Vec<char> = Vec::new();
    for c in it: s.chars()
        invariant
            r@ == it.seq().take(it.index()),
    {
        r.push(c);
    }
    r
}

} // verus!
