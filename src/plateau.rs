use vstd::prelude::*;

use crate::rover::Coordinates;

verus! {

/// A rover was placed on a cell that already holds one.
#[derive(Clone, Copy, Debug, PartialEq, Eq, PartialOrd, Structural)]
pub struct DropError;

/// A move targets a cell that already holds a rover.
#[derive(Clone, Copy, Debug, PartialEq, Eq, PartialOrd, Structural)]
pub struct CollisionError;

/// A move starts from a cell the plateau does not record as occupied.
#[derive(Clone, Copy, Debug, PartialEq, Eq, PartialOrd, Structural)]
pub struct NotFound;

/// A cell lies off the grid.
#[derive(Clone, Copy, Debug, PartialEq, Eq, PartialOrd, Structural)]
pub struct OutOfBounds;

/// Every way the plateau can refuse a placement or a move.
#[derive(Clone, Copy, Debug, PartialEq, Eq, Structural)]
pub enum PlateauError {
    AlreadyOccupied(DropError),
    Collision(CollisionError),
    OutOfBounds(OutOfBounds),
    NotFound(NotFound),
}

/// The plateau seen from outside: its inclusive bounds and the occupied cells.
pub struct PlateauView {
    pub max_x: i64,
    pub max_y: i64,
    pub occupied: Set<Coordinates>,
}

impl PlateauView {
    pub open spec fn in_bounds(self, c: Coordinates) -> bool {
        &&& 0 <= c.x_coordinate <= self.max_x
        &&& 0 <= c.y_coordinate <= self.max_y
    }

    /// Verdict on placing a new rover on `c`.
    pub open spec fn drop_check(self, c: Coordinates) -> Result<(), PlateauError> {
        if self.occupied.contains(c) {
            Err(PlateauError::AlreadyOccupied(DropError))
        } else if !self.in_bounds(c) {
            Err(PlateauError::OutOfBounds(OutOfBounds))
        } else {
            Ok(())
        }
    }

    /// Verdict on moving some rover onto `c`.
    pub open spec fn move_check(self, c: Coordinates) -> Result<(), PlateauError> {
        if self.occupied.contains(c) {
            Err(PlateauError::Collision(CollisionError))
        } else if !self.in_bounds(c) {
            Err(PlateauError::OutOfBounds(OutOfBounds))
        } else {
            Ok(())
        }
    }

    /// Verdict on moving the rover at `from` onto `to`.
    pub open spec fn commit_check(self, from: Coordinates, to: Coordinates) -> Result<
        (),
        PlateauError,
    > {
        if self.move_check(to) is Err {
            self.move_check(to)
        } else if !self.occupied.contains(from) {
            Err(PlateauError::NotFound(NotFound))
        } else {
            Ok(())
        }
    }

    /// The plateau with `c` occupied as well.
    pub open spec fn place(self, c: Coordinates) -> PlateauView {
        PlateauView { occupied: self.occupied.insert(c), ..self }
    }

    /// The plateau with the rover at `from` standing on `to` instead.
    pub open spec fn relocate(self, from: Coordinates, to: Coordinates) -> PlateauView {
        PlateauView { occupied: self.occupied.remove(from).insert(to), ..self }
    }
}

/// The grid and the ledger of which cells hold a rover.
pub struct Plateau {
    max_x_coordinate: i64,
    max_y_coordinate: i64,
    rovers: Vec<Coordinates>,
}

impl View for Plateau {
    type V = PlateauView;

    closed spec fn view(&self) -> PlateauView {
        PlateauView {
            max_x: self.max_x_coordinate,
            max_y: self.max_y_coordinate,
            occupied: self.rovers@.to_set(),
        }
    }
}

/// A well-formed plateau records finitely many occupied cells, all of them on the grid.
pub proof fn lemma_occupied_cells_in_bounds(p: &Plateau)
    requires
        p.wf(),
    ensures
        p@.occupied.finite(),
        forall|c: Coordinates| p@.occupied.contains(c) ==> p@.in_bounds(c),
{
    p.rovers@.lemma_cardinality_of_set();
}

impl Plateau {
    /// The ledger lists each cell at most once, and only cells on the grid.
    pub closed spec fn wf(&self) -> bool {
        &&& self.rovers@.no_duplicates()
        &&& forall|i: int| 0 <= i < self.rovers@.len() ==> self@.in_bounds(#[trigger] self.rovers@[i])
    }

    pub fn new(max_x_coordinate: i64, max_y_coordinate: i64) -> (r: Plateau)
        ensures
            r.wf(),
            r@.max_x == max_x_coordinate,
            r@.max_y == max_y_coordinate,
            r@.occupied == Set::<Coordinates>::empty(),
    {
        let r = Plateau { max_x_coordinate, max_y_coordinate, rovers: Vec::new() };
        assert(r@.occupied =~= Set::<Coordinates>::empty());
        r
    }

    /// The occupied cells, each once, in no particular order.
    pub fn list_rovers(&self) -> (r: Vec<Coordinates>)
        requires
            self.wf(),
        ensures
            r@.no_duplicates(),
            r@.to_set() == self@.occupied,
    {
        let mut r: Vec<Coordinates> = Vec::new();
        let mut i: usize = 0;
        while i < self.rovers.len()
            invariant
                i <= self.rovers.len(),
                r@ == self.rovers@.subrange(0, i as int),
            decreases self.rovers.len() - i,
        {
            r.push(self.rovers[i]);
            i = i + 1;
            assert(r@ =~= self.rovers@.subrange(0, i as int));
        }
        assert(r@ =~= self.rovers@);
        r
    }

    fn is_move_inbounds(&self, c: &Coordinates) -> (r: bool)
        ensures
            r == self@.in_bounds(*c),
    {
        0 <= c.x_coordinate && c.x_coordinate <= self.max_x_coordinate && 0 <= c.y_coordinate
            && c.y_coordinate <= self.max_y_coordinate
    }

    /// Index of `c` in the ledger, if it is there.
    fn index_of(&self, c: &Coordinates) -> (r: Option<usize>)
        ensures
            match r {
                Some(i) => i < self.rovers.len() && self.rovers@[i as int] == *c,
                None => !self@.occupied.contains(*c),
            },
    {
        let mut i: usize = 0;
        while i < self.rovers.len()
            invariant
                i <= self.rovers.len(),
                forall|j: int| 0 <= j < i ==> self.rovers@[j] != *c,
            decreases self.rovers.len() - i,
        {
            if self.rovers[i] == *c {
                return Some(i);
            }
            i = i + 1;
        }
        None
    }

    /// Registers a new rover on `coordinates`, which must be free and on the grid.
    pub fn drop_rover(&mut self, coordinates: Coordinates) -> (r: Result<(), PlateauError>)
        requires
            old(self).wf(),
        ensures
            final(self).wf(),
            r == old(self)@.drop_check(coordinates),
            final(self)@ == (if r is Ok {
                old(self)@.place(coordinates)
            } else {
                old(self)@
            }),
    {
        if self.index_of(&coordinates).is_some() {
            return Err(PlateauError::AlreadyOccupied(DropError));
        }
        if !self.is_move_inbounds(&coordinates) {
            return Err(PlateauError::OutOfBounds(OutOfBounds));
        }
        let ghost before = self.rovers@;
        self.rovers.push(coordinates);
        assert(self.rovers@.to_set() =~= before.to_set().insert(coordinates)) by {
            assert forall|c: Coordinates| #[trigger] before.contains(c) implies self.rovers@.contains(
                c,
            ) by {
                let j = choose|j: int| 0 <= j < before.len() && before[j] == c;
                assert(self.rovers@[j] == c);
            }
            assert(self.rovers@[before.len() as int] == coordinates);
        }
        Ok(())
    }

    /// Whether a rover could move onto `coordinates` without meeting another.
    pub fn can_rover_move(&self, coordinates: &Coordinates) -> (r: Result<(), CollisionError>)
        ensures
            r is Ok <==> !self@.occupied.contains(*coordinates),
    {
        if self.index_of(coordinates).is_none() {
            Ok(())
        } else {
            Err(CollisionError)
        }
    }

    /// Whether a rover may move onto `coordinates`: free and on the grid.
    /// A pure query; the plateau is left as it is.
    pub fn is_move_valid(&self, coordinates: &Coordinates) -> (r: Result<(), PlateauError>)
        ensures
            r == self@.move_check(*coordinates),
    {
        if self.can_rover_move(coordinates).is_err() {
            return Err(PlateauError::Collision(CollisionError));
        }
        if !self.is_move_inbounds(coordinates) {
            Err(PlateauError::OutOfBounds(OutOfBounds))
        } else {
            Ok(())
        }
    }

    /// Moves the rover at `old_coordinates` onto `new_coordinates` in one step,
    /// after checking the target again.
    pub fn update_rover_position(
        &mut self,
        old_coordinates: &Coordinates,
        new_coordinates: &Coordinates,
    ) -> (r: Result<(), PlateauError>)
        requires
            old(self).wf(),
        ensures
            final(self).wf(),
            r == old(self)@.commit_check(*old_coordinates, *new_coordinates),
            final(self)@ == (if r is Ok {
                old(self)@.relocate(*old_coordinates, *new_coordinates)
            } else {
                old(self)@
            }),
    {
        let verdict = self.is_move_valid(new_coordinates);
        if verdict.is_err() {
            return verdict;
        }
        let found = self.index_of(old_coordinates);
        match found {
            None => Err(PlateauError::NotFound(NotFound)),
            Some(i) => {
                let ghost before = self.rovers@;
                self.rovers.set(i, *new_coordinates);
                assert(self.rovers@.to_set() =~= before.to_set().remove(*old_coordinates).insert(
                    *new_coordinates,
                )) by {
                    assert forall|c: Coordinates| #[trigger]
                        before.contains(c) && c != *old_coordinates implies self.rovers@.contains(
                        c,
                    ) by {
                        let j = choose|j: int| 0 <= j < before.len() && before[j] == c;
                        assert(j != i);
                        assert(self.rovers@[j] == c);
                    }
                    assert(self.rovers@[i as int] == *new_coordinates);
                    assert forall|c: Coordinates| #[trigger]
                        self.rovers@.contains(c) implies c == *new_coordinates || (before.contains(
                        c,
                    ) && c != *old_coordinates) by {
                        let j = choose|j: int| 0 <= j < self.rovers@.len() && self.rovers@[j] == c;
                        if j != i {
                            assert(before[j] == c);
                        }
                    }
                }
                Ok(())
            },
        }
    }
}

} // verus!
