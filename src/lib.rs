use vstd::prelude::*;

pub mod config;
pub mod plateau;
pub mod rover;

pub use config::{Config, ParseError, RoverInstructions};

use plateau::{OutOfBounds, Plateau, PlateauError, PlateauView};
use rover::{Coordinates, Rover, RoverView};

verus! {

/// One instruction for a rover.
#[derive(Clone, Copy, Debug, PartialEq, Eq, PartialOrd, Structural)]
pub enum Command {
    MoveForward,
    RightTurn,
    LeftTurn,
}

/// The rover an instruction set puts on the plateau.
pub open spec fn start_of(ins: RoverInstructions) -> RoverView {
    RoverView {
        coordinates: Coordinates { x_coordinate: ins.starting_x, y_coordinate: ins.starting_y },
        bearing: ins.bearing,
    }
}

/// Drives a rover that already stands on `grid` through `cmds`. Turns need no
/// consent; each move is first put to the grid and ends the run if refused.
/// A step past the range of the coordinates is off every grid.
pub open spec fn drive(grid: PlateauView, rover: RoverView, cmds: Seq<Command>) -> Result<
    (PlateauView, RoverView),
    PlateauError,
>
    decreases cmds.len(),
{
    if cmds.len() == 0 {
        Ok((grid, rover))
    } else if cmds[0] is MoveForward {
        if !rover.coordinates.forward_fits(rover.bearing) {
            Err(PlateauError::OutOfBounds(OutOfBounds))
        } else {
            let target = rover.coordinates.forward(rover.bearing);
            match grid.move_check(target) {
                Err(e) => Err(e),
                Ok(_) => drive(
                    grid.relocate(rover.coordinates, target),
                    rover.after(cmds[0]),
                    cmds.drop_first(),
                ),
            }
        }
    } else {
        drive(grid, rover.after(cmds[0]), cmds.drop_first())
    }
}

/// Deploys the rovers of `instrs` one after another on `grid`: each is placed,
/// then driven to the end of its commands before the next one is placed.
/// The first refusal ends the whole run.
pub open spec fn deploy_from(grid: PlateauView, instrs: Seq<RoverInstructions>) -> Result<
    Seq<RoverView>,
    PlateauError,
>
    decreases instrs.len(),
{
    if instrs.len() == 0 {
        Ok(Seq::empty())
    } else {
        let start = start_of(instrs[0]);
        match grid.drop_check(start.coordinates) {
            Err(e) => Err(e),
            Ok(_) => match drive(grid.place(start.coordinates), start, instrs[0].commands@) {
                Err(e) => Err(e),
                Ok((g, r)) => match deploy_from(g, instrs.drop_first()) {
                    Err(e) => Err(e),
                    Ok(rs) => Ok(seq![r] + rs),
                },
            },
        }
    }
}

/// The outcome of a whole run on an empty plateau.
pub open spec fn deployment(config: Config) -> Result<Seq<RoverView>, PlateauError> {
    deploy_from(
        PlateauView { max_x: config.max_x_grid, max_y: config.max_y_grid, occupied: Set::empty() },
        config.instructions@,
    )
}

/// `done` followed by whatever deploying `rest` on `grid` gives.
spec fn deploy_after(
    done: Seq<RoverView>,
    grid: PlateauView,
    rest: Seq<RoverInstructions>,
) -> Result<Seq<RoverView>, PlateauError> {
    match deploy_from(grid, rest) {
        Err(e) => Err(e),
        Ok(rs) => Ok(done + rs),
    }
}

/// A drive the grid lets through to the end leaves the rover where its
/// commands alone would take it.
proof fn lemma_drive_follows_run(grid: PlateauView, rover: RoverView, cmds: Seq<Command>)
    requires
        drive(grid, rover, cmds) is Ok,
    ensures
        drive(grid, rover, cmds)->Ok_0.1 == rover.run(cmds),
    decreases cmds.len(),
{
    if cmds.len() > 0 {
        if cmds[0] is MoveForward {
            let target = rover.coordinates.forward(rover.bearing);
            lemma_drive_follows_run(
                grid.relocate(rover.coordinates, target),
                rover.after(cmds[0]),
                cmds.drop_first(),
            );
        } else {
            lemma_drive_follows_run(grid, rover.after(cmds[0]), cmds.drop_first());
        }
    }
}

/// A successful drive made of moves only keeps the heading and shifts the
/// rover one cell per move along it.
proof fn lemma_drive_straight(grid: PlateauView, rover: RoverView, cmds: Seq<Command>)
    requires
        drive(grid, rover, cmds) is Ok,
        forall|k: int| 0 <= k < cmds.len() ==> #[trigger] cmds[k] is MoveForward,
    ensures
        ({
            let r = drive(grid, rover, cmds)->Ok_0.1;
            &&& r.bearing == rover.bearing
            &&& r.coordinates.x_coordinate == rover.coordinates.x_coordinate + cmds.len()
                * rover.bearing.dx()
            &&& r.coordinates.y_coordinate == rover.coordinates.y_coordinate + cmds.len()
                * rover.bearing.dy()
        }),
    decreases cmds.len(),
{
    if cmds.len() > 0 {
        assert(cmds[0] is MoveForward);
        let target = rover.coordinates.forward(rover.bearing);
        let rest = cmds.drop_first();
        assert forall|k: int| 0 <= k < rest.len() implies #[trigger] rest[k] is MoveForward by {
            assert(rest[k] == cmds[k + 1]);
        }
        lemma_drive_straight(grid.relocate(rover.coordinates, target), rover.after(cmds[0]), rest);
        let n = rest.len() as int;
        assert(n * rover.bearing.dx() + rover.bearing.dx() == (n + 1) * rover.bearing.dx())
            by (nonlinear_arith);
        assert(n * rover.bearing.dy() + rover.bearing.dy() == (n + 1) * rover.bearing.dy())
            by (nonlinear_arith);
    }
}

/// A lone rover whose deployment succeeds ends where its commands take it:
/// turns change its heading in order, and each move shifts it one cell along
/// the heading those turns have produced.
pub proof fn lemma_single_rover_follows_commands(config: Config)
    requires
        config.instructions@.len() == 1,
        deployment(config) is Ok,
    ensures
        deployment(config)->Ok_0 == seq![
            start_of(config.instructions@[0]).run(config.instructions@[0].commands@),
        ],
{
    let ins = config.instructions@[0];
    let grid = PlateauView {
        max_x: config.max_x_grid,
        max_y: config.max_y_grid,
        occupied: Set::empty(),
    };
    let start = start_of(ins);
    lemma_drive_follows_run(grid.place(start.coordinates), start, ins.commands@);
    let (g, r) = drive(grid.place(start.coordinates), start, ins.commands@)->Ok_0;
    assert(deploy_from(g, config.instructions@.drop_first()) == Ok::<
        Seq<RoverView>,
        PlateauError,
    >(Seq::empty()));
    assert(seq![r] + Seq::<RoverView>::empty() =~= seq![r]);
}

/// A lone rover that only moves, and whose deployment succeeds, keeps its
/// heading and ends one cell along it per move from where it started.
pub proof fn lemma_straight_run_translates(config: Config)
    requires
        config.instructions@.len() == 1,
        deployment(config) is Ok,
        forall|k: int|
            0 <= k < config.instructions@[0].commands@.len()
                ==> #[trigger] config.instructions@[0].commands@[k] is MoveForward,
    ensures
        ({
            let ins = config.instructions@[0];
            let n = ins.commands@.len();
            let r = deployment(config)->Ok_0[0];
            &&& r.bearing == ins.bearing
            &&& r.coordinates.x_coordinate == ins.starting_x + n * ins.bearing.dx()
            &&& r.coordinates.y_coordinate == ins.starting_y + n * ins.bearing.dy()
        }),
{
    let ins = config.instructions@[0];
    let grid = PlateauView {
        max_x: config.max_x_grid,
        max_y: config.max_y_grid,
        occupied: Set::empty(),
    };
    let start = start_of(ins);
    lemma_drive_straight(grid.place(start.coordinates), start, ins.commands@);
    let r = drive(grid.place(start.coordinates), start, ins.commands@)->Ok_0.1;
    assert(config.instructions@.drop_first().len() == 0);
    assert(seq![r] + Seq::<RoverView>::empty() =~= seq![r]);
}

/// Places and drives every rover of `config` in order, and returns them in
/// their final state.
pub fn deploy_rovers(config: Config) -> (r: Result<Vec<Rover>, PlateauError>)
    ensures
        match r {
            Ok(rovers) => deployment(config) == Ok::<Seq<RoverView>, PlateauError>(
                rovers@.map_values(|x: Rover| x@),
            ),
            Err(e) => deployment(config) == Err::<Seq<RoverView>, PlateauError>(e),
        },
{
    let mut plateau = Plateau::new(config.max_x_grid, config.max_y_grid);
    let mut rovers: Vec<Rover> = Vec::new();
    let ghost instrs = config.instructions@;
    let mut i: usize = 0;
    assert(instrs.skip(0) =~= instrs);
    while i < config.instructions.len()
        invariant
            instrs == config.instructions@,
            i <= instrs.len(),
            plateau.wf(),
            plateau@.max_x == config.max_x_grid,
            plateau@.max_y == config.max_y_grid,
            deployment(config) == deploy_after(
                rovers@.map_values(|x: Rover| x@),
                plateau@,
                instrs.skip(i as int),
            ),
        decreases instrs.len() - i,
    {
        let ins = &config.instructions[i];
        let ghost done = rovers@.map_values(|x: Rover| x@);
        let ghost grid0 = plateau@;
        let mut rover = Rover::new(ins.starting_x, ins.starting_y, ins.bearing);
        let ghost rover0 = rover@;
        assert(instrs.skip(i as int)[0] == instrs[i as int]);
        assert(instrs.skip(i as int).drop_first() =~= instrs.skip(i + 1));
        let placed = plateau.drop_rover(Coordinates::new(ins.starting_x, ins.starting_y));
        if let Err(e) = placed {
            return Err(e);
        }
        let ghost cmds = ins.commands@;
        proof {
            if let Ok((g, r)) = drive(grid0.place(rover0.coordinates), rover0, cmds) {
                if let Ok(rs) = deploy_from(g, instrs.skip(i + 1)) {
                    assert(done + (seq![r] + rs) =~= done.push(r) + rs);
                }
            }
        }
        let mut j: usize = 0;
        assert(cmds.skip(0) =~= cmds);
        while j < ins.commands.len()
            invariant
                instrs == config.instructions@,
                i < instrs.len(),
                *ins == instrs[i as int],
                cmds == ins.commands@,
                j <= cmds.len(),
                plateau.wf(),
                plateau@.max_x == config.max_x_grid,
                plateau@.max_y == config.max_y_grid,
                plateau@.occupied.contains(rover@.coordinates),
                done == rovers@.map_values(|x: Rover| x@),
                drive(grid0.place(rover0.coordinates), rover0, cmds) == drive(
                    plateau@,
                    rover@,
                    cmds.skip(j as int),
                ),
                deployment(config) == (match drive(grid0.place(rover0.coordinates), rover0, cmds) {
                    Err(e) => Err(e),
                    Ok((g, r)) => deploy_after(done.push(r), g, instrs.skip(i + 1)),
                }),
            decreases cmds.len() - j,
        {
            let command = ins.commands[j];
            assert(cmds.skip(j as int)[0] == command);
            assert(cmds.skip(j as int).drop_first() =~= cmds.skip(j + 1));
            match command {
                Command::MoveForward => {
                    if !rover.coordinates().can_move_forward(rover.bearing()) {
                        return Err(PlateauError::OutOfBounds(OutOfBounds));
                    }
                    let target = rover.planned_move();
                    let moved = plateau.update_rover_position(rover.coordinates(), &target);
                    if let Err(e) = moved {
                        return Err(e);
                    }
                    rover.execute_command(&command);
                },
                _ => {
                    rover.execute_command(&command);
                },
            }
            j = j + 1;
        }
        assert(cmds.skip(j as int) =~= Seq::<Command>::empty());
        rovers.push(rover);
        proof {
            let pushed = rovers@.map_values(|x: Rover| x@);
            assert(pushed =~= done.push(rover@));
            match deploy_from(plateau@, instrs.skip(i + 1)) {
                Err(e) => {},
                Ok(rs) => {
                    assert(done + (seq![rover@] + rs) =~= done.push(rover@) + rs);
                },
            }
        }
        i = i + 1;
    }
    assert(instrs.skip(i as int) =~= Seq::<RoverInstructions>::empty());
    assert(rovers@.map_values(|x: Rover| x@) + Seq::<RoverView>::empty() =~= rovers@.map_values(
        |x: Rover| x@,
    ));
    Ok(rovers)
}

} // verus!
