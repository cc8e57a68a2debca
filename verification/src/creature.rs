//! Creatures: the agents of the simulation.
//!
//! A creature stands on one cell of the grid and is counted there. Whatever
//! it does (moving, resting, waking, hunting, breeding, dying) changes its own
//! state and the counters of the cells it leaves and enters. The `CreatureView`
//! methods say, as functions on mathematical values, what each of these does;
//! the methods of [`Creature`] are proved to do exactly that.

use std::rc::Rc;
use vstd::prelude::*;
use crate::grid::{Grid, GridView, HasLocation};
use crate::location::{LocationView, BREED_ENERGY_THRESHOLD};
use crate::program::{capped, Action, Direction, Program, RuntimeError, StatementView};
use crate::random::{draws_in_range, random_below, Draws};

verus! {

/// The energy of a new creature.
pub const INIT_ENERGY: i32 = 100;

/// A predator that hunts where prey stands succeeds when its energy is above
/// a number drawn below this limit.
pub const HUNT_LIMIT: i32 = 100;

/// The ticks that a breeding creature and its offspring stay out of sight.
pub const BREED_PAUSE: i32 = 6;

/// The ticks that a predator pauses after a kill.
pub const KILL_PAUSE: i32 = 3;

#[derive(PartialEq, Eq, Copy, Clone, Debug, Structural)]
pub enum CreatureType {
    Predator,
    Prey,
}

/// A creature as a mathematical value.
pub struct CreatureView {
    pub creature_type: CreatureType,
    pub energy: int,
    pub x: int,
    pub y: int,
    /// Ticks since the creature last began to rest.
    pub awake_daily: int,
    /// Ticks until the creature decides again.
    pub count_down: int,
    /// A creature that rests or recovers from breeding is out of sight.
    pub visible: bool,
    pub resting: bool,
    pub program: StatementView,
}

/// A creature and the grid it stands on.
pub struct Scene {
    pub creature: CreatureView,
    pub grid: GridView,
}

/// What one tick of one creature leaves behind: the creature, the grid, and
/// the creatures that were born.
pub struct Turn {
    pub creature: CreatureView,
    pub grid: GridView,
    pub offspring: Seq<CreatureView>,
}

/// The cell after a visible creature of the given kind has entered it.
pub open spec fn enter(cell: LocationView, kind: CreatureType, energy: int) -> LocationView {
    match kind {
        CreatureType::Predator => cell.add_predator(energy),
        CreatureType::Prey => cell.add_prey(energy),
    }
}

/// The cell after a visible creature of the given kind has left it.
pub open spec fn leave(cell: LocationView, kind: CreatureType, energy: int) -> LocationView {
    match kind {
        CreatureType::Predator => cell.remove_predator(energy),
        CreatureType::Prey => cell.remove_prey(energy),
    }
}

/// The cell after a visible creature on it has gone out of sight.
pub open spec fn conceal(cell: LocationView, kind: CreatureType, energy: int) -> LocationView {
    match kind {
        CreatureType::Predator => cell.rest_predator(energy),
        CreatureType::Prey => cell.rest_prey(energy),
    }
}

/// The cell after a creature on it has come back into sight.
pub open spec fn uncover(cell: LocationView, kind: CreatureType, energy: int) -> LocationView {
    match kind {
        CreatureType::Predator => cell.awake_predator(energy),
        CreatureType::Prey => cell.awake_prey(energy),
    }
}

/// The cell after a creature that was out of sight has left it.
pub open spec fn leave_hidden(cell: LocationView, kind: CreatureType) -> LocationView {
    match kind {
        CreatureType::Predator => cell.remove_resting_predator(),
        CreatureType::Prey => cell.remove_resting_prey(),
    }
}

/// The cell after a visible creature on it has become eligible to breed.
pub open spec fn gain_breeder(cell: LocationView, kind: CreatureType) -> LocationView {
    match kind {
        CreatureType::Predator => cell.add_breeding_predator(),
        CreatureType::Prey => cell.add_breeding_prey(),
    }
}

/// The cell after a visible creature on it has ceased to be eligible to
/// breed.
pub open spec fn lose_breeder(cell: LocationView, kind: CreatureType) -> LocationView {
    match kind {
        CreatureType::Predator => cell.remove_breeding_predator(),
        CreatureType::Prey => cell.remove_breeding_prey(),
    }
}

/// More than one creature of the given kind on the cell may breed.
pub open spec fn has_partner(cell: LocationView, kind: CreatureType) -> bool {
    match kind {
        CreatureType::Predator => cell.predator_has_partner(),
        CreatureType::Prey => cell.prey_has_partner(),
    }
}

/// A coordinate after a step, wrapped around a side of the given size.
pub open spec fn wrap(v: int, size: int) -> int {
    if v >= size {
        0
    } else if v < 0 {
        size - 1
    } else {
        v
    }
}

/// The change of the column that a step in a direction makes.
pub open spec fn dx(dir: Direction) -> int {
    match dir {
        Direction::NE | Direction::E | Direction::SE => 1,
        Direction::NW | Direction::W | Direction::SW => -1,
        _ => 0,
    }
}

/// The change of the row that a step in a direction makes. North is up:
/// towards row 0.
pub open spec fn dy(dir: Direction) -> int {
    match dir {
        Direction::NW | Direction::N | Direction::NE => -1,
        Direction::SW | Direction::S | Direction::SE => 1,
        _ => 0,
    }
}

impl CreatureView {
    /// A creature as it is created: with full energy, awake and in sight.
    pub open spec fn born(kind: CreatureType, x: int, y: int, program: StatementView) -> CreatureView {
        CreatureView {
            creature_type: kind,
            energy: INIT_ENERGY as int,
            x,
            y,
            awake_daily: 0,
            count_down: 0,
            visible: true,
            resting: false,
            program,
        }
    }

    /// A new creature enters its cell.
    pub open spec fn created(kind: CreatureType, x: int, y: int, program: StatementView, grid: GridView) -> Scene {
        Scene {
            creature: Self::born(kind, x, y, program),
            grid: grid.set(x, y, enter(grid.at(x, y), kind, INIT_ENERGY as int)),
        }
    }

    /// The creature has run out of energy.
    pub open spec fn is_dead(self) -> bool {
        self.energy <= 0
    }

    /// The creature stands on a cell of the grid.
    pub open spec fn on(self, grid: GridView) -> bool {
        grid.contains(self.x, self.y)
    }

    /// The energy changes by `delta`. Where it crosses the breeding threshold,
    /// the cell gains or loses one breeder.
    pub open spec fn change_energy(self, delta: int, grid: GridView) -> Scene {
        let creature = CreatureView { energy: self.energy + delta, ..self };
        let cell = grid.at(self.x, self.y);
        let grid = if self.energy > BREED_ENERGY_THRESHOLD && creature.energy <= BREED_ENERGY_THRESHOLD {
            grid.set(self.x, self.y, lose_breeder(cell, self.creature_type))
        } else if self.energy <= BREED_ENERGY_THRESHOLD && creature.energy > BREED_ENERGY_THRESHOLD {
            grid.set(self.x, self.y, gain_breeder(cell, self.creature_type))
        } else {
            grid
        };
        Scene { creature, grid }
    }

    /// The creature goes out of sight.
    pub open spec fn set_invisible(self, grid: GridView) -> Scene {
        Scene {
            creature: CreatureView { visible: false, ..self },
            grid: grid.set(self.x, self.y, conceal(grid.at(self.x, self.y), self.creature_type, self.energy)),
        }
    }

    /// The creature comes back into sight.
    pub open spec fn set_visible(self, grid: GridView) -> Scene {
        Scene {
            creature: CreatureView { visible: true, ..self },
            grid: grid.set(self.x, self.y, uncover(grid.at(self.x, self.y), self.creature_type, self.energy)),
        }
    }

    /// The creature leaves its cell, spends one unit of energy on a step in
    /// the given direction, and enters the cell it reaches. The grid is a
    /// torus: a step over an edge leads to the opposite edge.
    pub open spec fn movee(self, dir: Direction, grid: GridView) -> Scene {
        let left = grid.set(self.x, self.y, leave(grid.at(self.x, self.y), self.creature_type, self.energy));
        let creature = CreatureView {
            energy: self.energy - 1,
            x: wrap(self.x + dx(dir), grid.xsize),
            y: wrap(self.y + dy(dir), grid.ysize),
            ..self
        };
        Scene {
            creature,
            grid: left.set(
                creature.x,
                creature.y,
                enter(left.at(creature.x, creature.y), creature.creature_type, creature.energy),
            ),
        }
    }

    /// What a rest of `count` ticks costs: a short nap costs one unit of
    /// energy, a rest of a day or more costs five.
    pub open spec fn rest_cost(count: int) -> int {
        if count < 8 {
            1
        } else if count >= 24 {
            5
        } else {
            0
        }
    }

    /// The creature begins a rest of `count` ticks: it goes out of sight, pays
    /// for the rest, and its time awake starts again at 0.
    pub open spec fn rest(self, count: int, grid: GridView) -> Scene {
        let hidden = CreatureView { count_down: count, ..self }.set_invisible(grid);
        Scene {
            creature: CreatureView {
                energy: hidden.creature.energy - Self::rest_cost(count),
                awake_daily: 0,
                ..hidden.creature
            },
            grid: hidden.grid,
        }
    }

    /// The creature moves and hunts where it arrives. Prey grazes and gains 2
    /// units of energy. A predator hunts only where prey stands: it succeeds
    /// where its energy is above `roll`, then gains 25 units, pauses and marks
    /// one prey of the cell as killed; the hunt costs it 10 units either way.
    pub open spec fn hunt(self, dir: Direction, roll: int, grid: GridView) -> Scene {
        let moved = self.movee(dir, grid);
        if self.creature_type == CreatureType::Prey {
            moved.creature.change_energy(2, moved.grid)
        } else if moved.grid.at(moved.creature.x, moved.creature.y).has_prey() {
            let struck = if moved.creature.energy > roll {
                let fed = moved.creature.change_energy(25, moved.grid);
                Scene {
                    creature: CreatureView { count_down: KILL_PAUSE as int, ..fed.creature },
                    grid: fed.grid.set(
                        fed.creature.x,
                        fed.creature.y,
                        fed.grid.at(fed.creature.x, fed.creature.y).kill_prey(),
                    ),
                }
            } else {
                moved
            };
            struck.creature.change_energy(-10, struck.grid)
        } else {
            moved
        }
    }

    /// The creature moves and breeds where it arrives, if more than one
    /// creature of its kind there may breed: it goes out of sight for a
    /// while, spends 25 units of energy, and two offspring are born on its
    /// cell. Without a partner nothing but the move happens.
    pub open spec fn breed(self, dir: Direction, grid: GridView) -> Turn {
        let moved = self.movee(dir, grid);
        if has_partner(moved.grid.at(moved.creature.x, moved.creature.y), self.creature_type) {
            let hidden = CreatureView { count_down: BREED_PAUSE as int, ..moved.creature }.set_invisible(
                moved.grid,
            );
            let parent = CreatureView { energy: hidden.creature.energy - 25, ..hidden.creature };
            let first = Self::created(parent.creature_type, parent.x, parent.y, parent.program, hidden.grid);
            let second = Self::created(parent.creature_type, parent.x, parent.y, parent.program, first.grid);
            let first_resting = first.creature.rest(BREED_PAUSE as int, second.grid);
            let second_resting = second.creature.rest(BREED_PAUSE as int, first_resting.grid);
            Turn {
                creature: parent,
                grid: second_resting.grid,
                offspring: seq![first_resting.creature, second_resting.creature],
            }
        } else {
            Turn { creature: moved.creature, grid: moved.grid, offspring: Seq::empty() }
        }
    }

    /// The creature is visible prey on a cell with a prey marked as killed.
    pub open spec fn is_eaten(self, grid: GridView) -> bool {
        self.creature_type == CreatureType::Prey && grid.at(self.x, self.y).has_killed_prey() && self.visible
    }

    /// The creature is consumed: it loses all its energy, leaves the visible
    /// prey of its cell and takes one mark with it.
    pub open spec fn eaten(self, grid: GridView) -> Scene {
        let drained = self.change_energy(-self.energy, grid);
        Scene {
            creature: drained.creature,
            grid: drained.grid.set(self.x, self.y, drained.grid.at(self.x, self.y).remove_killed_prey()),
        }
    }

    /// The start of a tick: the countdown goes down and the time awake goes
    /// up.
    pub open spec fn tick(self) -> CreatureView {
        CreatureView {
            count_down: if self.count_down > 0 {
                self.count_down - 1
            } else {
                self.count_down
            },
            awake_daily: if !self.resting {
                self.awake_daily + 1
            } else {
                self.awake_daily
            },
            ..self
        }
    }

    /// The creature does what its program has decided. A run that failed
    /// decides nothing: the creature stays as it is.
    #[verifier::opaque]
    pub open spec fn perform(self, decision: Result<Action, RuntimeError>, roll: int, grid: GridView) -> Turn {
        match decision {
            Ok(Action::Move(dir)) => {
                let moved = self.movee(dir, grid);
                Turn { creature: moved.creature, grid: moved.grid, offspring: Seq::empty() }
            },
            Ok(Action::Rest(count)) => {
                let resting = self.rest(count as int, grid);
                Turn { creature: resting.creature, grid: resting.grid, offspring: Seq::empty() }
            },
            Ok(Action::Hunt(dir)) => {
                let hunted = self.hunt(dir, roll, grid);
                Turn { creature: hunted.creature, grid: hunted.grid, offspring: Seq::empty() }
            },
            Ok(Action::Breed(dir)) => self.breed(dir, grid),
            _ => Turn { creature: self, grid, offspring: Seq::empty() },
        }
    }

    /// A creature that has run out of energy leaves the counters of its cell.
    pub open spec fn bury(self, grid: GridView) -> GridView {
        if !self.is_dead() {
            grid
        } else if self.visible {
            grid.set(self.x, self.y, leave(grid.at(self.x, self.y), self.creature_type, 0))
        } else {
            grid.set(self.x, self.y, leave_hidden(grid.at(self.x, self.y), self.creature_type))
        }
    }

    /// One tick of the creature.
    ///
    /// 1. The countdown goes down and the time awake goes up.
    /// 2. Visible prey on a cell with a mark is consumed, and the tick ends.
    /// 3. Else, where the countdown is at 0: the creature comes back into
    ///    sight if it was out of it, runs its program on its energy and its
    ///    time awake with the given `draws`, and does what the program has
    ///    decided. `roll` decides a hunt. A creature that has run out of
    ///    energy by then leaves the counters of its cell.
    /// 4. Else nothing more happens.
    pub open spec fn act(self, grid: GridView, draws: Seq<i32>, roll: int) -> Turn {
        let ticked = self.tick();
        if ticked.is_eaten(grid) {
            let eaten = ticked.eaten(grid);
            Turn { creature: eaten.creature, grid: eaten.grid, offspring: Seq::empty() }
        } else if ticked.count_down == 0 {
            let awake = if !ticked.visible {
                ticked.set_visible(grid)
            } else {
                Scene { creature: ticked, grid }
            };
            let decision = awake.creature.program.run(
                awake.creature.energy as i32,
                awake.creature.awake_daily as i32,
                draws,
            );
            let done = awake.creature.perform(decision, roll, awake.grid);
            Turn { creature: done.creature, grid: done.creature.bury(done.grid), offspring: done.offspring }
        } else {
            Turn { creature: ticked, grid, offspring: Seq::empty() }
        }
    }

    /// The energy leaves room for whatever the creature does in a tick.
    pub open spec fn vigorous(self) -> bool {
        i32::MIN + 26 <= self.energy <= i32::MAX - 24
    }

    /// The energy and the time awake leave room for one tick.
    pub open spec fn fit(self) -> bool {
        &&& self.vigorous()
        &&& self.awake_daily < i32::MAX
    }
}

/// A creature acts on a grid whose counters are all this far from the limits
/// of a machine integer: one tick changes a cell at most this many times, by
/// one each time.
pub const MARGIN: i32 = 9;

impl GridView {
    /// The sizes fit the coordinates of a creature, and every counter leaves
    /// room for `steps` changes by one.
    pub open spec fn roomy(self, steps: int) -> bool {
        &&& self.wf()
        &&& self.xsize <= i32::MAX
        &&& self.ysize <= i32::MAX
        &&& self.within(i32::MIN + steps, i32::MAX - steps)
    }
}


/// A creature of the simulation. Creatures of one kind share one program.
pub struct Creature {
    creature_type: CreatureType,
    energy: i32,
    x_coord: i32,
    y_coord: i32,
    awake_daily: i32,
    count_down: i32,
    visible: bool,
    resting: bool,
    program: Rc<Program>,
}

impl View for Creature {
    type V = CreatureView;

    closed spec fn view(&self) -> CreatureView {
        CreatureView {
            creature_type: self.creature_type,
            energy: self.energy as int,
            x: self.x_coord as int,
            y: self.y_coord as int,
            awake_daily: self.awake_daily as int,
            count_down: self.count_down as int,
            visible: self.visible,
            resting: self.resting,
            program: self.program@,
        }
    }
}

impl HasLocation for Creature {
    closed spec fn position(&self) -> (int, int) {
        (self.x_coord as int, self.y_coord as int)
    }

    fn xcoord(&self) -> (x: i32) {
        self.x_coord
    }

    fn ycoord(&self) -> (y: i32) {
        self.y_coord
    }
}

/// Another handle to the same program.
///
/// Calls `Rc::clone`, which makes a new pointer to the same allocation: what
/// the new handle points to is what the old one points to.
#[verifier::external_body]
pub(crate) fn share(program: &Rc<Program>) -> (shared: Rc<Program>)
    ensures
        shared == program,
{
    Rc::clone(program)
}

/// The views of creatures, in order.
pub open spec fn creature_views(creatures: Seq<Creature>) -> Seq<CreatureView> {
    Seq::new(creatures.len(), |i: int| creatures[i]@)
}

/// Replacing one cell by a cell whose counters differ by at most `used`
/// leaves that much less room.
pub proof fn lemma_roomy_set(grid: GridView, x: int, y: int, cell: LocationView, steps: int, used: int)
    requires
        grid.roomy(steps),
        grid.contains(x, y),
        used >= 0,
        cell.within(i32::MIN + steps - used, i32::MAX - steps + used),
    ensures
        grid.set(x, y, cell).roomy(steps - used),
{
    let after = grid.set(x, y, cell);
    assert forall|a: int, b: int| after.contains(a, b) implies (#[trigger] after.at(a, b)).within(
        i32::MIN + steps - used,
        i32::MAX - steps + used,
    ) by {
        if a == x && b == y {
        } else {
            assert(after.at(a, b) == grid.at(a, b));
            assert(grid.at(a, b).within(i32::MIN + steps, i32::MAX - steps));
        }
    }
    assert forall|p: (int, int)| after.cells.dom().contains(p) <==> after.contains(p.0, p.1) by {
        if p == (x, y) {
        }
    }
}

impl Creature {
    /// The creature and the grid fit each other and leave room for one tick.
    pub open spec fn ready(&self, grid: &Grid) -> bool {
        &&& grid.wf()
        &&& grid@.roomy(MARGIN as int)
        &&& self@.on(grid@)
        &&& self@.fit()
    }

    /// The creature stands on a cell of a grid whose counters leave room for
    /// `steps` changes by one.
    pub open spec fn placed(&self, grid: &Grid, steps: int) -> bool {
        &&& grid.wf()
        &&& grid@.roomy(steps)
        &&& self@.on(grid@)
    }

    /// Creates a creature on the cell `(x, y)` of the grid.
    pub fn new(creature_type: CreatureType, x: i32, y: i32, program: Rc<Program>, grid: &mut Grid) -> (creature:
        Creature)
        requires
            old(grid).wf(),
            old(grid)@.contains(x as int, y as int),
            enter(old(grid)@.at(x as int, y as int), creature_type, INIT_ENERGY as int).within(
                i32::MIN as int,
                i32::MAX as int,
            ),
        ensures
            final(grid).wf(),
            (Scene { creature: creature@, grid: final(grid)@ }) == CreatureView::created(
                creature_type,
                x as int,
                y as int,
                program@,
                old(grid)@,
            ),
    {
        let creature = Creature {
            creature_type,
            energy: INIT_ENERGY,
            x_coord: x,
            y_coord: y,
            awake_daily: 0,
            count_down: 0,
            visible: true,
            resting: false,
            program,
        };
        match creature.creature_type {
            CreatureType::Predator => {
                grid.location(&creature).add_predator(creature.energy);
            },
            CreatureType::Prey => {
                grid.location(&creature).add_prey(creature.energy);
            },
        }
        creature
    }

    /// Whether the creature is a predator or prey.
    pub fn creature_type(&self) -> (kind: CreatureType)
        ensures
            kind == self@.creature_type,
    {
        self.creature_type
    }

    /// What the creature has left to live on.
    pub fn energy(&self) -> (energy: i32)
        ensures
            energy == self@.energy,
    {
        self.energy
    }

    /// Ticks since the creature last began to rest.
    pub fn awake_daily(&self) -> (ticks: i32)
        ensures
            ticks == self@.awake_daily,
    {
        self.awake_daily
    }

    /// Ticks until the creature decides again.
    pub fn count_down(&self) -> (ticks: i32)
        ensures
            ticks == self@.count_down,
    {
        self.count_down
    }

    /// Whether the creature is in sight.
    pub fn is_visible(&self) -> (visible: bool)
        ensures
            visible == self@.visible,
    {
        self.visible
    }

    /// The program that drives the creature.
    pub fn program(&self) -> (program: &Program)
        ensures
            program@ == self@.program,
    {
        &self.program
    }

    /// The creature and the grid fit each other and leave room for one
    /// tick: what [`Creature::act`] asks for.
    pub fn is_ready(&self, grid: &Grid) -> (ready: bool)
        requires
            grid.wf(),
        ensures
            ready == self.ready(grid),
    {
        proof {
            grid.lemma_view();
        }
        if !self.is_fit() {
            return false;
        }
        let xsize = grid.xsize();
        let ysize = grid.ysize();
        if xsize > i32::MAX as usize || ysize > i32::MAX as usize {
            return false;
        }
        if self.x_coord < 0 || self.x_coord >= xsize as i32 || self.y_coord < 0 || self.y_coord >= ysize as i32 {
            return false;
        }
        let mut x: usize = 0;
        while x < xsize
            invariant
                x <= xsize,
                grid.wf(),
                xsize == grid@.xsize,
                ysize == grid@.ysize,
                xsize <= i32::MAX,
                ysize <= i32::MAX,
                forall|a: int, b: int|
                    0 <= a < x && 0 <= b < ysize ==> (#[trigger] grid@.at(a, b)).within(
                        i32::MIN + MARGIN,
                        i32::MAX - MARGIN,
                    ),
            decreases xsize - x,
        {
            let mut y: usize = 0;
            while y < ysize
                invariant
                    x < xsize,
                    y <= ysize,
                    grid.wf(),
                    xsize == grid@.xsize,
                    ysize == grid@.ysize,
                    xsize <= i32::MAX,
                    ysize <= i32::MAX,
                    forall|a: int, b: int|
                        0 <= a < x && 0 <= b < ysize ==> (#[trigger] grid@.at(a, b)).within(
                            i32::MIN + MARGIN,
                            i32::MAX - MARGIN,
                        ),
                    forall|b: int|
                        0 <= b < y ==> (#[trigger] grid@.at(x as int, b)).within(
                            i32::MIN + MARGIN,
                            i32::MAX - MARGIN,
                        ),
                decreases ysize - y,
            {
                if !grid.loc(x as i32, y as i32).is_within(i32::MIN + MARGIN, i32::MAX - MARGIN) {
                    assert(grid@.contains(x as int, y as int));
                    return false;
                }
                y += 1;
            }
            x += 1;
        }
        true
    }

    /// The energy and the time awake leave room for one tick.
    pub fn is_fit(&self) -> (fit: bool)
        ensures
            fit == self@.fit(),
    {
        i32::MIN + 26 <= self.energy && self.energy <= i32::MAX - 24 && self.awake_daily < i32::MAX
    }

    /// The creature has run out of energy.
    pub fn is_dead(&self) -> (dead: bool)
        ensures
            dead == self@.is_dead(),
    {
        self.energy <= 0
    }

    /// Changes the energy by `delta_energy` and tells the cell when the
    /// creature becomes, or ceases to be, eligible to breed.
    pub fn change_energy(&mut self, delta_energy: i32, grid: &mut Grid)
        requires
            old(self).placed(old(grid), 1),
            i32::MIN <= old(self)@.energy + delta_energy <= i32::MAX,
        ensures
            final(grid).wf(),
            (Scene { creature: final(self)@, grid: final(grid)@ }) == old(self)@.change_energy(
                delta_energy as int,
                old(grid)@,
            ),
    {
        let previous_energy = self.energy;
        self.energy += delta_energy;
        if previous_energy > BREED_ENERGY_THRESHOLD && self.energy <= BREED_ENERGY_THRESHOLD {
            match self.creature_type {
                CreatureType::Predator => grid.location(self).remove_breeding_predator(),
                CreatureType::Prey => grid.location(self).remove_breeding_prey(),
            }
        } else if previous_energy <= BREED_ENERGY_THRESHOLD && self.energy > BREED_ENERGY_THRESHOLD {
            match self.creature_type {
                CreatureType::Predator => grid.location(self).add_breeding_predator(),
                CreatureType::Prey => grid.location(self).add_breeding_prey(),
            }
        }
    }

    /// Takes the creature out of sight on its cell.
    pub fn set_invisible(&mut self, grid: &mut Grid)
        requires
            old(self).placed(old(grid), 1),
        ensures
            final(grid).wf(),
            (Scene { creature: final(self)@, grid: final(grid)@ }) == old(self)@.set_invisible(old(grid)@),
    {
        match self.creature_type {
            CreatureType::Predator => grid.location(self).rest_predator(self.energy),
            CreatureType::Prey => grid.location(self).rest_prey(self.energy),
        }
        self.visible = false;
    }

    /// Brings the creature back into sight on its cell.
    pub fn set_visible(&mut self, grid: &mut Grid)
        requires
            old(self).placed(old(grid), 1),
        ensures
            final(grid).wf(),
            (Scene { creature: final(self)@, grid: final(grid)@ }) == old(self)@.set_visible(old(grid)@),
    {
        match self.creature_type {
            CreatureType::Predator => grid.location(self).awake_predator(self.energy),
            CreatureType::Prey => grid.location(self).awake_prey(self.energy),
        }
        self.visible = true;
    }

    /// Moves the creature one step in the given direction.
    pub fn movee(&mut self, dir: Direction, grid: &mut Grid)
        requires
            old(self).placed(old(grid), 2),
            old(self)@.energy > i32::MIN,
        ensures
            final(grid).wf(),
            (Scene { creature: final(self)@, grid: final(grid)@ }) == old(self)@.movee(dir, old(grid)@),
            final(self)@.on(final(grid)@),
    {
        // The creature leaves its cell.
        match self.creature_type {
            CreatureType::Predator => grid.location(self).remove_predator(self.energy),
            CreatureType::Prey => grid.location(self).remove_prey(self.energy),
        }
        proof {
            lemma_roomy_set(
                old(grid)@,
                self@.x,
                self@.y,
                leave(old(grid)@.at(self@.x, self@.y), self@.creature_type, self@.energy),
                2,
                1,
            );
        }

        // A step costs one unit of energy.
        self.energy -= 1;

        match dir {
            Direction::NW | Direction::N | Direction::NE => self.y_coord -= 1,
            Direction::SW | Direction::S | Direction::SE => self.y_coord += 1,
            _ => (),
        }
        match dir {
            Direction::NE | Direction::E | Direction::SE => self.x_coord += 1,
            Direction::NW | Direction::W | Direction::SW => self.x_coord -= 1,
            _ => (),
        }

        // Over an edge the creature comes in at the opposite edge.
        if self.x_coord >= (grid.xsize() as i32) {
            self.x_coord = 0;
        } else if self.x_coord < 0 {
            self.x_coord = (grid.xsize() as i32) - 1;
        }
        if self.y_coord >= (grid.ysize() as i32) {
            self.y_coord = 0;
        } else if self.y_coord < 0 {
            self.y_coord = (grid.ysize() as i32) - 1;
        }

        // The creature enters the cell it has reached.
        match self.creature_type {
            CreatureType::Predator => grid.location(self).add_predator(self.energy),
            CreatureType::Prey => grid.location(self).add_prey(self.energy),
        }
    }

    /// Puts the creature to rest for `count` ticks.
    pub fn rest(&mut self, count: i32, grid: &mut Grid)
        requires
            old(self).placed(old(grid), 1),
            old(self)@.energy >= i32::MIN + 5,
        ensures
            final(grid).wf(),
            (Scene { creature: final(self)@, grid: final(grid)@ }) == old(self)@.rest(count as int, old(grid)@),
    {
        self.count_down = count;
        self.set_invisible(grid);
        if self.count_down < 8 {
            self.energy -= 1;
        } else if self.count_down >= 24 {
            self.energy -= 5;
        }
        self.awake_daily = 0;
    }

    /// Moves the creature and lets it hunt where it arrives; a fresh random
    /// number below [`HUNT_LIMIT`] decides whether a predator succeeds.
    pub fn hunt(&mut self, dir: Direction, grid: &mut Grid)
        requires
            old(self).placed(old(grid), 5),
            i32::MIN + 11 <= old(self)@.energy <= i32::MAX - 24,
        ensures
            final(grid).wf(),
            exists|roll: int|
                0 <= roll < HUNT_LIMIT && (Scene { creature: final(self)@, grid: final(grid)@ })
                    == #[trigger] old(self)@.hunt(dir, roll, old(grid)@),
    {
        let roll = random_below(HUNT_LIMIT);
        self.hunt_with(dir, roll, grid);
        assert((Scene { creature: self@, grid: grid@ }) == old(self)@.hunt(dir, roll as int, old(grid)@));
    }

    /// Moves the creature and lets it hunt where it arrives; `roll` decides
    /// whether a predator succeeds.
    pub fn hunt_with(&mut self, dir: Direction, roll: i32, grid: &mut Grid)
        requires
            old(self).placed(old(grid), 5),
            i32::MIN + 11 <= old(self)@.energy <= i32::MAX - 24,
        ensures
            final(grid).wf(),
            (Scene { creature: final(self)@, grid: final(grid)@ }) == old(self)@.hunt(
                dir,
                roll as int,
                old(grid)@,
            ),
    {
        self.movee(dir, grid);
        proof {
            lemma_roomy_movee(old(self)@, dir, old(grid)@, 5);
        }
        if self.creature_type == CreatureType::Prey {
            self.change_energy(2, grid);
        } else if grid.loc(self.x_coord, self.y_coord).has_prey() {
            if self.energy > roll {
                let ghost moved = Scene { creature: self@, grid: grid@ };
                self.change_energy(25, grid);
                proof {
                    lemma_roomy_change_energy(moved.creature, 25, moved.grid, 3);
                }
                self.count_down = KILL_PAUSE;
                grid.location(self).kill_prey();
                proof {
                    let fed = moved.creature.change_energy(25, moved.grid);
                    lemma_roomy_set(fed.grid, self@.x, self@.y, fed.grid.at(self@.x, self@.y).kill_prey(), 2, 1);
                }
            }
            self.change_energy(-10, grid);
        }
    }

    /// Moves the creature and lets it breed where it arrives. Returns the
    /// offspring: two creatures, or none where there is no partner.
    pub fn breed(&mut self, dir: Direction, grid: &mut Grid) -> (offspring: Vec<Creature>)
        requires
            old(self).placed(old(grid), 7),
            old(self)@.energy >= i32::MIN + 26,
        ensures
            final(grid).wf(),
            (Turn { creature: final(self)@, grid: final(grid)@, offspring: creature_views(offspring@) })
                == old(self)@.breed(dir, old(grid)@),
    {
        self.movee(dir, grid);
        proof {
            lemma_roomy_movee(old(self)@, dir, old(grid)@, 7);
        }
        let ghost moved = Scene { creature: self@, grid: grid@ };

        let has_partner = match self.creature_type {
            CreatureType::Predator => grid.loc(self.x_coord, self.y_coord).predator_has_partner(),
            CreatureType::Prey => grid.loc(self.x_coord, self.y_coord).prey_has_partner(),
        };

        if has_partner {
            self.count_down = BREED_PAUSE;
            let ghost counting = self@;
            self.set_invisible(grid);
            proof {
                lemma_roomy_set_invisible(counting, moved.grid, 5);
            }
            self.energy -= 25;
            let ghost hidden = grid@;

            let mut baby1 = Creature::new(self.creature_type, self.x_coord, self.y_coord, share(&self.program), grid);
            proof {
                lemma_roomy_created(self@.creature_type, self@.x, self@.y, self@.program, hidden, 4);
            }
            let ghost first = grid@;
            let mut baby2 = Creature::new(self.creature_type, self.x_coord, self.y_coord, share(&self.program), grid);
            proof {
                lemma_roomy_created(self@.creature_type, self@.x, self@.y, self@.program, first, 3);
            }
            let ghost second = grid@;
            let ghost newborn = baby1@;

            baby1.rest(BREED_PAUSE, grid);
            proof {
                lemma_roomy_set_invisible(
                    CreatureView { count_down: BREED_PAUSE as int, ..newborn },
                    second,
                    2,
                );
            }
            baby2.rest(BREED_PAUSE, grid);
            let offspring = vec![baby1, baby2];
            assert(creature_views(offspring@) =~= seq![baby1@, baby2@]);
            offspring
        } else {
            let offspring = Vec::new();
            assert(creature_views(offspring@) =~= Seq::<CreatureView>::empty());
            offspring
        }
    }

    /// Consumes the creature if it is visible prey on a cell with a prey
    /// marked as killed. Returns whether it was consumed.
    pub fn is_eaten(&mut self, grid: &mut Grid) -> (eaten: bool)
        requires
            old(self).placed(old(grid), 2),
            old(self)@.energy > i32::MIN,
        ensures
            final(grid).wf(),
            eaten == old(self)@.is_eaten(old(grid)@),
            eaten ==> (Scene { creature: final(self)@, grid: final(grid)@ }) == old(self)@.eaten(old(grid)@),
            !eaten ==> final(self)@ == old(self)@ && final(grid)@ == old(grid)@,
    {
        if self.creature_type == CreatureType::Prey && grid.loc(self.x_coord, self.y_coord).has_killed_prey()
            && self.visible {
            self.change_energy(-self.energy, grid);
            proof {
                lemma_roomy_change_energy(old(self)@, -old(self)@.energy, old(grid)@, 2);
            }
            grid.location(self).remove_killed_prey();
            return true;
        }
        false
    }

    /// Takes a creature that has run out of energy off the counters of its
    /// cell.
    fn bury(&self, grid: &mut Grid)
        requires
            self.placed(old(grid), 1),
        ensures
            final(grid).wf(),
            final(grid)@ == self@.bury(old(grid)@),
    {
        if self.is_dead() {
            if self.visible {
                match self.creature_type {
                    CreatureType::Predator => grid.location(self).remove_predator(0),
                    CreatureType::Prey => grid.location(self).remove_prey(0),
                }
            } else {
                match self.creature_type {
                    CreatureType::Predator => grid.location(self).remove_resting_predator(),
                    CreatureType::Prey => grid.location(self).remove_resting_prey(),
                }
            }
        }
    }

    /// Does what the program has decided; `roll` decides a hunt. Returns the
    /// offspring.
    pub fn perform(&mut self, decision: Result<Action, RuntimeError>, roll: i32, grid: &mut Grid) -> (offspring:
        Vec<Creature>)
        requires
            old(self).placed(old(grid), 7),
            old(self)@.vigorous(),
        ensures
            final(grid).wf(),
            (Turn { creature: final(self)@, grid: final(grid)@, offspring: creature_views(offspring@) })
                == old(self)@.perform(decision, roll as int, old(grid)@),
    {
        proof {
            reveal(CreatureView::perform);
        }
        let offspring = match decision {
            Ok(Action::Move(dir)) => {
                self.movee(dir, grid);
                Vec::new()
            },
            Ok(Action::Rest(count)) => {
                self.rest(count, grid);
                Vec::new()
            },
            Ok(Action::Hunt(dir)) => {
                self.hunt_with(dir, roll, grid);
                Vec::new()
            },
            Ok(Action::Breed(dir)) => {
                return self.breed(dir, grid);
            },
            _ => Vec::new(),
        };
        assert(creature_views(offspring@) =~= Seq::<CreatureView>::empty());
        offspring
    }

    /// One tick of the creature, with the numbers that chance contributes
    /// given: `draws` for the `rand` of the program and `roll` for a hunt.
    /// Returns the offspring.
    pub fn act_with(&mut self, draws: &mut Draws, roll: i32, grid: &mut Grid) -> (offspring: Vec<Creature>)
        requires
            old(self).ready(old(grid)),
        ensures
            final(grid).wf(),
            (Turn { creature: final(self)@, grid: final(grid)@, offspring: creature_views(offspring@) })
                == old(self)@.act(old(grid)@, old(draws)@, roll as int),
    {
        // The countdown runs down to 0, where the next action is due.
        if self.count_down > 0 {
            self.count_down -= 1;
        }
        if !self.resting {
            self.awake_daily += 1;
        }
        let ghost ticked = self@;

        // A predator may have killed prey on this cell: this creature may be
        // the one that is consumed.
        if self.is_eaten(grid) {
            let offspring = Vec::new();
            assert(creature_views(offspring@) =~= Seq::<CreatureView>::empty());
            return offspring;
        }
        if self.count_down == 0 {
            // A long action takes the creature out of sight. It comes back
            // into sight for its next action.
            if !self.visible {
                self.set_visible(grid);
            }
            proof {
                lemma_roomy_set_visible(ticked, old(grid)@, MARGIN as int);
            }
            let ghost awake = Scene { creature: self@, grid: grid@ };

            let decision = self.program.execute_with(self.energy, self.awake_daily, draws);
            let offspring = self.perform(decision, roll, grid);

            // A creature that has run out of energy leaves the grid here. It
            // leaves the population later.
            proof {
                lemma_roomy_perform(awake.creature, decision, roll as int, awake.grid, (MARGIN - 1) as int);
            }
            self.bury(grid);
            return offspring;
        }
        let offspring = Vec::new();
        assert(creature_views(offspring@) =~= Seq::<CreatureView>::empty());
        offspring
    }

    /// One tick of the creature. Chance contributes a fresh random number
    /// for each place at which `rand` stands in the program, and one for a
    /// hunt. Returns the offspring.
    pub fn act(&mut self, grid: &mut Grid) -> (offspring: Vec<Creature>)
        requires
            old(self).ready(old(grid)),
        ensures
            final(grid).wf(),
            old(self)@.acts(
                old(grid)@,
                Turn { creature: final(self)@, grid: final(grid)@, offspring: creature_views(offspring@) },
            ),
    {
        let mut draws = Draws::roll(self.program.draw_count());
        let ghost rolled = draws@;
        let roll = random_below(HUNT_LIMIT);
        let offspring = self.act_with(&mut draws, roll, grid);
        assert(old(self)@.chance(rolled, roll as int) && old(self)@.act(old(grid)@, rolled, roll as int) == (Turn {
            creature: self@,
            grid: grid@,
            offspring: creature_views(offspring@),
        }));
        offspring
    }
}

impl CreatureView {
    /// What chance may contribute to one tick of the creature.
    pub open spec fn chance(self, draws: Seq<i32>, roll: int) -> bool {
        &&& draws_in_range(draws)
        &&& draws.len() == capped(self.program.rand_sites())
        &&& 0 <= roll < HUNT_LIMIT
    }

    /// `turn` is what one tick of the creature leaves behind for some numbers
    /// that chance may contribute.
    pub open spec fn acts(self, grid: GridView, turn: Turn) -> bool {
        exists|draws: Seq<i32>, roll: int| self.chance(draws, roll) && #[trigger] self.act(grid, draws, roll) == turn
    }
}

/// A change of energy uses one step of room.
pub proof fn lemma_roomy_change_energy(creature: CreatureView, delta: int, grid: GridView, steps: int)
    requires
        grid.roomy(steps),
        creature.on(grid),
    ensures
        creature.change_energy(delta, grid).grid.roomy(steps - 1),
        creature.change_energy(delta, grid).creature.on(creature.change_energy(delta, grid).grid),
{
    let cell = grid.at(creature.x, creature.y);
    assert(cell.within(i32::MIN + steps, i32::MAX - steps));
    lemma_roomy_set(grid, creature.x, creature.y, lose_breeder(cell, creature.creature_type), steps, 1);
    lemma_roomy_set(grid, creature.x, creature.y, gain_breeder(cell, creature.creature_type), steps, 1);
}

/// Going out of sight uses one step of room.
pub proof fn lemma_roomy_set_invisible(creature: CreatureView, grid: GridView, steps: int)
    requires
        grid.roomy(steps),
        creature.on(grid),
    ensures
        creature.set_invisible(grid).grid.roomy(steps - 1),
{
    let cell = grid.at(creature.x, creature.y);
    assert(cell.within(i32::MIN + steps, i32::MAX - steps));
    lemma_roomy_set(
        grid,
        creature.x,
        creature.y,
        conceal(cell, creature.creature_type, creature.energy),
        steps,
        1,
    );
}

/// Coming back into sight uses one step of room.
pub proof fn lemma_roomy_set_visible(creature: CreatureView, grid: GridView, steps: int)
    requires
        grid.roomy(steps),
        creature.on(grid),
    ensures
        creature.set_visible(grid).grid.roomy(steps - 1),
{
    let cell = grid.at(creature.x, creature.y);
    assert(cell.within(i32::MIN + steps, i32::MAX - steps));
    lemma_roomy_set(
        grid,
        creature.x,
        creature.y,
        uncover(cell, creature.creature_type, creature.energy),
        steps,
        1,
    );
}

/// A new creature uses one step of room.
pub proof fn lemma_roomy_created(
    kind: CreatureType,
    x: int,
    y: int,
    program: StatementView,
    grid: GridView,
    steps: int,
)
    requires
        grid.roomy(steps),
        grid.contains(x, y),
    ensures
        CreatureView::created(kind, x, y, program, grid).grid.roomy(steps - 1),
{
    let cell = grid.at(x, y);
    assert(cell.within(i32::MIN + steps, i32::MAX - steps));
    lemma_roomy_set(grid, x, y, enter(cell, kind, INIT_ENERGY as int), steps, 1);
}

/// A move uses two steps of room and leads to a cell of the grid.
pub proof fn lemma_roomy_movee(creature: CreatureView, dir: Direction, grid: GridView, steps: int)
    requires
        grid.roomy(steps),
        creature.on(grid),
    ensures
        creature.movee(dir, grid).grid.roomy(steps - 2),
        creature.movee(dir, grid).creature.on(creature.movee(dir, grid).grid),
{
    let cell = grid.at(creature.x, creature.y);
    assert(cell.within(i32::MIN + steps, i32::MAX - steps));
    let left = grid.set(creature.x, creature.y, leave(cell, creature.creature_type, creature.energy));
    lemma_roomy_set(
        grid,
        creature.x,
        creature.y,
        leave(cell, creature.creature_type, creature.energy),
        steps,
        1,
    );
    let moved = creature.movee(dir, grid).creature;
    assert(left.contains(moved.x, moved.y));
    let target = left.at(moved.x, moved.y);
    assert(target.within(i32::MIN + steps - 1, i32::MAX - steps + 1));
    lemma_roomy_set(left, moved.x, moved.y, enter(target, moved.creature_type, moved.energy), steps - 1, 1);
}


/// A rest uses one step of room.
pub proof fn lemma_roomy_rest(creature: CreatureView, count: int, grid: GridView, steps: int)
    requires
        grid.roomy(steps),
        creature.on(grid),
    ensures
        creature.rest(count, grid).grid.roomy(steps - 1),
        creature.rest(count, grid).creature.on(creature.rest(count, grid).grid),
{
    lemma_roomy_set_invisible(CreatureView { count_down: count, ..creature }, grid, steps);
}

/// A hunt uses five steps of room.
pub proof fn lemma_roomy_hunt(creature: CreatureView, dir: Direction, roll: int, grid: GridView, steps: int)
    requires
        grid.roomy(steps),
        creature.on(grid),
    ensures
        creature.hunt(dir, roll, grid).grid.roomy(steps - 5),
        creature.hunt(dir, roll, grid).creature.on(creature.hunt(dir, roll, grid).grid),
{
    lemma_roomy_movee(creature, dir, grid, steps);
    let moved = creature.movee(dir, grid);
    lemma_roomy_change_energy(moved.creature, 2, moved.grid, steps - 2);
    let fed = moved.creature.change_energy(25, moved.grid);
    lemma_roomy_change_energy(moved.creature, 25, moved.grid, steps - 2);
    let marked = fed.grid.at(fed.creature.x, fed.creature.y).kill_prey();
    assert(fed.grid.at(fed.creature.x, fed.creature.y).within(i32::MIN + steps - 3, i32::MAX - steps + 3));
    lemma_roomy_set(fed.grid, fed.creature.x, fed.creature.y, marked, steps - 3, 1);
    let struck = Scene {
        creature: CreatureView { count_down: KILL_PAUSE as int, ..fed.creature },
        grid: fed.grid.set(fed.creature.x, fed.creature.y, marked),
    };
    lemma_roomy_change_energy(struck.creature, -10, struck.grid, steps - 4);
    lemma_roomy_change_energy(moved.creature, -10, moved.grid, steps - 2);
    lemma_roomy_weaken(creature.hunt(dir, roll, grid).grid, steps - 5);
}

/// Room for more steps is room for fewer.
pub proof fn lemma_roomy_weaken(grid: GridView, steps: int)
    requires
        exists|more: int| more >= steps && #[trigger] grid.roomy(more),
    ensures
        grid.roomy(steps),
{
    let more = choose|more: int| more >= steps && #[trigger] grid.roomy(more);
    assert forall|x: int, y: int| grid.contains(x, y) implies (#[trigger] grid.at(x, y)).within(
        i32::MIN + steps,
        i32::MAX - steps,
    ) by {
        assert(grid.at(x, y).within(i32::MIN + more, i32::MAX - more));
    }
}

/// Breeding uses seven steps of room.
pub proof fn lemma_roomy_breed(creature: CreatureView, dir: Direction, grid: GridView, steps: int)
    requires
        grid.roomy(steps),
        creature.on(grid),
    ensures
        creature.breed(dir, grid).grid.roomy(steps - 7),
        creature.breed(dir, grid).creature.on(creature.breed(dir, grid).grid),
{
    lemma_roomy_movee(creature, dir, grid, steps);
    let moved = creature.movee(dir, grid);
    if has_partner(moved.grid.at(moved.creature.x, moved.creature.y), creature.creature_type) {
        let counting = CreatureView { count_down: BREED_PAUSE as int, ..moved.creature };
        lemma_roomy_set_invisible(counting, moved.grid, steps - 2);
        let hidden = counting.set_invisible(moved.grid);
        let parent = CreatureView { energy: hidden.creature.energy - 25, ..hidden.creature };
        lemma_roomy_created(parent.creature_type, parent.x, parent.y, parent.program, hidden.grid, steps - 3);
        let first = CreatureView::created(parent.creature_type, parent.x, parent.y, parent.program, hidden.grid);
        lemma_roomy_created(parent.creature_type, parent.x, parent.y, parent.program, first.grid, steps - 4);
        let second = CreatureView::created(parent.creature_type, parent.x, parent.y, parent.program, first.grid);
        lemma_roomy_rest(first.creature, BREED_PAUSE as int, second.grid, steps - 5);
        let first_resting = first.creature.rest(BREED_PAUSE as int, second.grid);
        lemma_roomy_rest(second.creature, BREED_PAUSE as int, first_resting.grid, steps - 6);
    } else {
        lemma_roomy_weaken(moved.grid, steps - 7);
    }
}

/// Whatever a creature does uses at most seven steps of room.
pub proof fn lemma_roomy_perform(
    creature: CreatureView,
    decision: Result<Action, RuntimeError>,
    roll: int,
    grid: GridView,
    steps: int,
)
    requires
        grid.roomy(steps),
        creature.on(grid),
    ensures
        creature.perform(decision, roll, grid).grid.roomy(steps - 7),
        creature.perform(decision, roll, grid).creature.on(creature.perform(decision, roll, grid).grid),
{
    reveal(CreatureView::perform);
    match decision {
        Ok(Action::Move(dir)) => {
            lemma_roomy_movee(creature, dir, grid, steps);
        },
        Ok(Action::Rest(count)) => {
            lemma_roomy_rest(creature, count as int, grid, steps);
        },
        Ok(Action::Hunt(dir)) => {
            lemma_roomy_hunt(creature, dir, roll, grid, steps);
        },
        Ok(Action::Breed(dir)) => {
            lemma_roomy_breed(creature, dir, grid, steps);
        },
        _ => {},
    }
    lemma_roomy_weaken(creature.perform(decision, roll, grid).grid, steps - 7);
}


/// The number of visible creatures of a kind on a cell that may breed.
pub open spec fn breeders(cell: LocationView, kind: CreatureType) -> int {
    match kind {
        CreatureType::Predator => cell.pred_breed,
        CreatureType::Prey => cell.prey_breed,
    }
}

/// The grid is a torus. A step to the west from the first column leads to the
/// last column, and a step to the east from the last column leads to the
/// first; likewise a step to the north from the first row and a step to the
/// south from the last row. Wherever a step begins on the grid, it ends on
/// the grid.
pub proof fn lemma_move_wraps_around(creature: CreatureView, dir: Direction, grid: GridView)
    requires
        creature.on(grid),
    ensures
        creature.movee(dir, grid).creature.on(grid),
        creature.x == 0 ==> creature.movee(Direction::W, grid).creature.x == grid.xsize - 1,
        creature.x == grid.xsize - 1 ==> creature.movee(Direction::E, grid).creature.x == 0,
        creature.y == 0 ==> creature.movee(Direction::N, grid).creature.y == grid.ysize - 1,
        creature.y == grid.ysize - 1 ==> creature.movee(Direction::S, grid).creature.y == 0,
{
}

/// A rest begins with the countdown at the count of the rest and the time
/// awake at 0, whatever the creature and the grid were before.
pub proof fn lemma_rest_begins(creature: CreatureView, count: int, grid: GridView)
    ensures
        creature.rest(count, grid).creature.count_down == count,
        creature.rest(count, grid).creature.awake_daily == 0,
        !creature.rest(count, grid).creature.visible,
{
}

/// In the tick in which its program decides on a rest, a creature ends with
/// the countdown at the count of the rest and the time awake at 0.
pub proof fn lemma_tick_with_rest(creature: CreatureView, grid: GridView, draws: Seq<i32>, roll: int, count: i32)
    requires
        !creature.tick().is_eaten(grid),
        creature.tick().count_down == 0,
        creature.program.run(creature.energy as i32, creature.tick().awake_daily as i32, draws) == Ok::<
            Action,
            RuntimeError,
        >(Action::Rest(count)),
    ensures
        creature.act(grid, draws, roll).creature.count_down == count,
        creature.act(grid, draws, roll).creature.awake_daily == 0,
{
    reveal(CreatureView::perform);
}

/// Breeding yields two offspring where, after the creature's own move, more
/// than one creature of its kind on the cell it has reached may breed, and
/// none otherwise. The creature itself is among those that are counted, so
/// a creature that is alone with its eligibility never breeds.
pub proof fn lemma_breed_needs_partner(creature: CreatureView, dir: Direction, grid: GridView)
    ensures
        ({
            let moved = creature.movee(dir, grid);
            let partners = breeders(moved.grid.at(moved.creature.x, moved.creature.y), creature.creature_type);
            &&& partners > 1 ==> creature.breed(dir, grid).offspring.len() == 2
            &&& partners <= 1 ==> creature.breed(dir, grid).offspring.len() == 0
        }),
{
}

} // verus!
