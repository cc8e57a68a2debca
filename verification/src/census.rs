//! The counters of the grid agree with the creatures that stand on it.
//!
//! Every creature stands for a few units in the counters of its cell: its
//! footprint. This module shows that whatever a creature does changes the
//! counters of every cell by exactly the change of the footprints that stand
//! there. Counters that agree with the population before a tick therefore
//! agree with it after the tick.

use vstd::prelude::*;
use crate::creature::{
    conceal, enter, gain_breeder, has_partner, leave, leave_hidden, lose_breeder, uncover, CreatureType,
    CreatureView, Scene, Turn, BREED_PAUSE, INIT_ENERGY, KILL_PAUSE,
};
use crate::grid::GridView;
use crate::location::LocationView;
use crate::program::{Action, Direction, RuntimeError};

verus! {

impl LocationView {
    /// The counters added one by one.
    pub open spec fn plus(self, other: LocationView) -> LocationView {
        LocationView {
            prey_num: self.prey_num + other.prey_num,
            pred_num: self.pred_num + other.pred_num,
            prey_breed: self.prey_breed + other.prey_breed,
            pred_breed: self.pred_breed + other.pred_breed,
            prey_resting: self.prey_resting + other.prey_resting,
            pred_resting: self.pred_resting + other.pred_resting,
            prey_kill: self.prey_kill + other.prey_kill,
        }
    }

    /// The counters subtracted one by one.
    pub open spec fn minus(self, other: LocationView) -> LocationView {
        LocationView {
            prey_num: self.prey_num - other.prey_num,
            pred_num: self.pred_num - other.pred_num,
            prey_breed: self.prey_breed - other.prey_breed,
            pred_breed: self.pred_breed - other.pred_breed,
            prey_resting: self.prey_resting - other.prey_resting,
            pred_resting: self.pred_resting - other.pred_resting,
            prey_kill: self.prey_kill - other.prey_kill,
        }
    }

    /// The counters that count creatures: all but the marks of killed prey.
    pub open spec fn census(self) -> LocationView {
        LocationView { prey_kill: 0, ..self }
    }
}

impl CreatureView {
    /// What the creature stands for in the counters of its cell: one visible
    /// creature, which also counts as a breeder where its energy allows, or
    /// one creature out of sight.
    pub open spec fn footprint(self) -> LocationView {
        if self.visible {
            enter(LocationView::empty(), self.creature_type, self.energy)
        } else {
            match self.creature_type {
                CreatureType::Predator => LocationView::empty().add_resting_predator(),
                CreatureType::Prey => LocationView::empty().add_resting_prey(),
            }
        }
    }

    /// What the creature stands for in the counters of the cell `(x, y)`:
    /// its footprint on its own cell, nothing elsewhere.
    pub open spec fn standing(self, x: int, y: int) -> LocationView {
        if self.x == x && self.y == y {
            self.footprint()
        } else {
            LocationView::empty()
        }
    }

    /// What the creature counts for in the cell `(x, y)` between two ticks: a
    /// creature that has run out of energy counts for nothing.
    pub open spec fn presence(self, x: int, y: int) -> LocationView {
        if self.is_dead() {
            LocationView::empty()
        } else {
            self.standing(x, y)
        }
    }
}

/// What the first `n` creatures count for in the cell `(x, y)`.
pub open spec fn census_of(creatures: Seq<CreatureView>, n: nat, x: int, y: int) -> LocationView
    decreases n,
{
    if n == 0 {
        LocationView::empty()
    } else {
        census_of(creatures, (n - 1) as nat, x, y).plus(creatures[n - 1].presence(x, y))
    }
}

/// The scene `after` differs from the scene `before` in the counters of the
/// cell `(x, y)` by the change of what the creature stands for there. The
/// marks of killed prey, the shape of the grid and the creature's standing on
/// it are as before.
pub open spec fn carried(before: Scene, after: Scene, x: int, y: int) -> bool {
    &&& after.grid.at(x, y).census() == before.grid.at(x, y).census().minus(before.creature.standing(x, y)).plus(
        after.creature.standing(x, y),
    )
    &&& before.grid.shaped_like(after.grid)
    &&& after.creature.on(after.grid)
}

/// A change of the energy of a visible creature changes the counters of
/// every cell by the change of what the creature stands for there.
pub proof fn lemma_change_energy_carried(creature: CreatureView, delta: int, grid: GridView, x: int, y: int)
    requires
        creature.visible,
        creature.on(grid),
        grid.wf(),
    ensures
        carried(Scene { creature, grid }, creature.change_energy(delta, grid), x, y),
        creature.change_energy(delta, grid).grid.at(x, y).prey_kill == grid.at(x, y).prey_kill,
{
    let cell = grid.at(creature.x, creature.y);
    grid.lemma_set_shape(creature.x, creature.y, lose_breeder(cell, creature.creature_type));
    grid.lemma_set_shape(creature.x, creature.y, gain_breeder(cell, creature.creature_type));
}

/// A visible creature that goes out of sight changes the counters of every
/// cell by the change of what it stands for there.
pub proof fn lemma_set_invisible_carried(creature: CreatureView, grid: GridView, x: int, y: int)
    requires
        creature.visible,
        creature.on(grid),
        grid.wf(),
    ensures
        carried(Scene { creature, grid }, creature.set_invisible(grid), x, y),
        creature.set_invisible(grid).grid.at(x, y).prey_kill == grid.at(x, y).prey_kill,
{
    grid.lemma_set_shape(
        creature.x,
        creature.y,
        conceal(grid.at(creature.x, creature.y), creature.creature_type, creature.energy),
    );
}

/// A hidden creature that comes back into sight changes the counters of
/// every cell by the change of what it stands for there.
pub proof fn lemma_set_visible_carried(creature: CreatureView, grid: GridView, x: int, y: int)
    requires
        !creature.visible,
        creature.on(grid),
        grid.wf(),
    ensures
        carried(Scene { creature, grid }, creature.set_visible(grid), x, y),
        creature.set_visible(grid).grid.at(x, y).prey_kill == grid.at(x, y).prey_kill,
{
    grid.lemma_set_shape(
        creature.x,
        creature.y,
        uncover(grid.at(creature.x, creature.y), creature.creature_type, creature.energy),
    );
}

/// A visible creature that moves changes the counters of every cell by the
/// change of what it stands for there, and stays in sight.
pub proof fn lemma_movee_carried(creature: CreatureView, dir: Direction, grid: GridView, x: int, y: int)
    requires
        creature.visible,
        creature.on(grid),
        grid.wf(),
    ensures
        carried(Scene { creature, grid }, creature.movee(dir, grid), x, y),
        creature.movee(dir, grid).grid.at(x, y).prey_kill == grid.at(x, y).prey_kill,
        creature.movee(dir, grid).creature.visible,
{
    let left = grid.set(
        creature.x,
        creature.y,
        leave(grid.at(creature.x, creature.y), creature.creature_type, creature.energy),
    );
    grid.lemma_set_shape(
        creature.x,
        creature.y,
        leave(grid.at(creature.x, creature.y), creature.creature_type, creature.energy),
    );
    let moved = creature.movee(dir, grid);
    left.lemma_set_shape(
        moved.creature.x,
        moved.creature.y,
        enter(left.at(moved.creature.x, moved.creature.y), moved.creature.creature_type, moved.creature.energy),
    );
}

/// A visible creature that begins a rest changes the counters of every cell
/// by the change of what it stands for there.
pub proof fn lemma_rest_carried(creature: CreatureView, count: int, grid: GridView, x: int, y: int)
    requires
        creature.visible,
        creature.on(grid),
        grid.wf(),
    ensures
        carried(Scene { creature, grid }, creature.rest(count, grid), x, y),
        creature.rest(count, grid).grid.at(x, y).prey_kill == grid.at(x, y).prey_kill,
{
    lemma_set_invisible_carried(CreatureView { count_down: count, ..creature }, grid, x, y);
}

/// A visible creature that hunts changes the counters of every cell by the
/// change of what it stands for there, and marks at most one prey.
pub proof fn lemma_hunt_carried(creature: CreatureView, dir: Direction, roll: int, grid: GridView, x: int, y: int)
    requires
        creature.visible,
        creature.on(grid),
        grid.wf(),
    ensures
        carried(Scene { creature, grid }, creature.hunt(dir, roll, grid), x, y),
        grid.at(x, y).prey_kill <= creature.hunt(dir, roll, grid).grid.at(x, y).prey_kill <= grid.at(x, y).prey_kill
            + 1,
{
    lemma_movee_carried(creature, dir, grid, x, y);
    let moved = creature.movee(dir, grid);
    lemma_change_energy_carried(moved.creature, 2, moved.grid, x, y);
    lemma_change_energy_carried(moved.creature, -10, moved.grid, x, y);
    lemma_change_energy_carried(moved.creature, 25, moved.grid, x, y);
    let fed = moved.creature.change_energy(25, moved.grid);
    let struck = Scene {
        creature: CreatureView { count_down: KILL_PAUSE as int, ..fed.creature },
        grid: fed.grid.set(fed.creature.x, fed.creature.y, fed.grid.at(fed.creature.x, fed.creature.y).kill_prey()),
    };
    fed.grid.lemma_set_shape(
        fed.creature.x,
        fed.creature.y,
        fed.grid.at(fed.creature.x, fed.creature.y).kill_prey(),
    );
    lemma_change_energy_carried(struck.creature, -10, struck.grid, x, y);
}

/// The turn differs from the scene `before` in the counters of the cell
/// `(x, y)` by the change of what the creature stands for there and by what
/// its offspring count for there.
pub open spec fn turn_carried(before: Scene, turn: Turn, x: int, y: int) -> bool {
    &&& turn.grid.at(x, y).census() == before.grid.at(x, y).census().minus(before.creature.standing(x, y)).plus(
        turn.creature.standing(x, y),
    ).plus(census_of(turn.offspring, turn.offspring.len(), x, y))
    &&& before.grid.shaped_like(turn.grid)
    &&& turn.creature.on(turn.grid)
    &&& all_live_on(turn.offspring, turn.grid)
}

/// Every creature of the sequence stands on the grid and has energy left.
pub open spec fn all_live_on(creatures: Seq<CreatureView>, grid: GridView) -> bool {
    forall|i: int| 0 <= i < creatures.len() ==> (#[trigger] creatures[i]).on(grid) && !creatures[i].is_dead()
}

/// A visible creature that breeds changes the counters of every cell by the
/// change of what it stands for there and by what its offspring count
/// for there. It has at most two offspring.
pub proof fn lemma_breed_carried(creature: CreatureView, dir: Direction, grid: GridView, x: int, y: int)
    requires
        creature.visible,
        creature.on(grid),
        grid.wf(),
    ensures
        turn_carried(Scene { creature, grid }, creature.breed(dir, grid), x, y),
        creature.breed(dir, grid).grid.at(x, y).prey_kill == grid.at(x, y).prey_kill,
        creature.breed(dir, grid).offspring.len() <= 2,
{
    lemma_movee_carried(creature, dir, grid, x, y);
    let moved = creature.movee(dir, grid);
    let turn = creature.breed(dir, grid);
    if has_partner(moved.grid.at(moved.creature.x, moved.creature.y), creature.creature_type) {
        let counting = CreatureView { count_down: BREED_PAUSE as int, ..moved.creature };
        lemma_set_invisible_carried(counting, moved.grid, x, y);
        let hidden = counting.set_invisible(moved.grid);
        let parent = CreatureView { energy: hidden.creature.energy - 25, ..hidden.creature };
        let first = CreatureView::created(parent.creature_type, parent.x, parent.y, parent.program, hidden.grid);
        hidden.grid.lemma_set_shape(
            parent.x,
            parent.y,
            enter(hidden.grid.at(parent.x, parent.y), parent.creature_type, INIT_ENERGY as int),
        );
        let second = CreatureView::created(parent.creature_type, parent.x, parent.y, parent.program, first.grid);
        first.grid.lemma_set_shape(
            parent.x,
            parent.y,
            enter(first.grid.at(parent.x, parent.y), parent.creature_type, INIT_ENERGY as int),
        );
        let first_resting = first.creature.rest(BREED_PAUSE as int, second.grid);
        lemma_rest_carried(first.creature, BREED_PAUSE as int, second.grid, x, y);
        let second_resting = second.creature.rest(BREED_PAUSE as int, first_resting.grid);
        lemma_rest_carried(second.creature, BREED_PAUSE as int, first_resting.grid, x, y);
        assert(turn.offspring.len() == 2);
        assert(turn.offspring[0] == first_resting.creature);
        assert(turn.offspring[1] == second_resting.creature);
        reveal_with_fuel(census_of, 3);
        assert(census_of(turn.offspring, 2, x, y) == LocationView::empty().plus(
            first_resting.creature.presence(x, y),
        ).plus(second_resting.creature.presence(x, y)));
    } else {
        assert(turn.offspring.len() == 0);
    }
}

/// Prey that is consumed leaves the counters.
pub proof fn lemma_eaten_carried(creature: CreatureView, grid: GridView, x: int, y: int)
    requires
        creature.is_eaten(grid),
        creature.on(grid),
        grid.wf(),
    ensures
        creature.eaten(grid).grid.at(x, y).census() == grid.at(x, y).census().minus(creature.standing(x, y)),
        creature.eaten(grid).creature.is_dead(),
        creature.eaten(grid).creature.on(creature.eaten(grid).grid),
        grid.shaped_like(creature.eaten(grid).grid),
        grid.at(x, y).prey_kill - 1 <= creature.eaten(grid).grid.at(x, y).prey_kill <= grid.at(x, y).prey_kill,
        grid.at(x, y).prey_kill >= 0 ==> creature.eaten(grid).grid.at(x, y).prey_kill >= 0,
{
    lemma_change_energy_carried(creature, -creature.energy, grid, x, y);
    let drained = creature.change_energy(-creature.energy, grid);
    drained.grid.lemma_set_shape(creature.x, creature.y, drained.grid.at(creature.x, creature.y).remove_killed_prey());
}

/// A creature that has run out of energy leaves the counters.
pub proof fn lemma_bury_carried(creature: CreatureView, grid: GridView, x: int, y: int)
    requires
        creature.on(grid),
        grid.wf(),
    ensures
        creature.bury(grid).at(x, y).census() == grid.at(x, y).census().minus(creature.standing(x, y)).plus(
            creature.presence(x, y),
        ),
        creature.bury(grid).at(x, y).prey_kill == grid.at(x, y).prey_kill,
        grid.shaped_like(creature.bury(grid)),
{
    let cell = grid.at(creature.x, creature.y);
    grid.lemma_set_shape(creature.x, creature.y, leave(cell, creature.creature_type, 0));
    grid.lemma_set_shape(creature.x, creature.y, leave_hidden(cell, creature.creature_type));
}

/// Whatever a visible creature does changes the counters of every cell by
/// the change of what it stands for there and by what its offspring count
/// for there.
pub proof fn lemma_perform_carried(
    creature: CreatureView,
    decision: Result<Action, RuntimeError>,
    roll: int,
    grid: GridView,
    x: int,
    y: int,
)
    requires
        creature.visible,
        creature.on(grid),
        grid.wf(),
    ensures
        turn_carried(Scene { creature, grid }, creature.perform(decision, roll, grid), x, y),
        grid.at(x, y).prey_kill <= creature.perform(decision, roll, grid).grid.at(x, y).prey_kill <= grid.at(
            x,
            y,
        ).prey_kill + 1,
        creature.perform(decision, roll, grid).offspring.len() <= 2,
{
    reveal(CreatureView::perform);
    match decision {
        Ok(Action::Move(dir)) => {
            lemma_movee_carried(creature, dir, grid, x, y);
        },
        Ok(Action::Rest(count)) => {
            lemma_rest_carried(creature, count as int, grid, x, y);
        },
        Ok(Action::Hunt(dir)) => {
            lemma_hunt_carried(creature, dir, roll, grid, x, y);
        },
        Ok(Action::Breed(dir)) => {
            lemma_breed_carried(creature, dir, grid, x, y);
        },
        _ => {},
    }
}

/// One tick of a live creature changes the counters of every cell by the
/// change of what the creature counts for there, and by what its offspring
/// count for there. It adds at most one mark of killed prey and leaves no
/// cell with a negative number of marks.
pub proof fn lemma_act_carried(creature: CreatureView, grid: GridView, draws: Seq<i32>, roll: int, x: int, y: int)
    requires
        !creature.is_dead(),
        creature.on(grid),
        grid.wf(),
    ensures
        creature.act(grid, draws, roll).grid.at(x, y).census() == grid.at(x, y).census().minus(
            creature.presence(x, y),
        ).plus(creature.act(grid, draws, roll).creature.presence(x, y)).plus(
            census_of(
                creature.act(grid, draws, roll).offspring,
                creature.act(grid, draws, roll).offspring.len(),
                x,
                y,
            ),
        ),
        grid.shaped_like(creature.act(grid, draws, roll).grid),
        creature.act(grid, draws, roll).creature.on(grid),
        all_live_on(creature.act(grid, draws, roll).offspring, grid),
        creature.act(grid, draws, roll).grid.at(x, y).prey_kill <= grid.at(x, y).prey_kill + 1,
        grid.at(x, y).prey_kill >= 0 ==> creature.act(grid, draws, roll).grid.at(x, y).prey_kill >= 0,
        creature.act(grid, draws, roll).offspring.len() <= 2,
{
    let ticked = creature.tick();
    if ticked.is_eaten(grid) {
        lemma_eaten_carried(ticked, grid, x, y);
    } else if ticked.count_down == 0 {
        if !ticked.visible {
            lemma_set_visible_carried(ticked, grid, x, y);
        }
        let awake = if !ticked.visible {
            ticked.set_visible(grid)
        } else {
            Scene { creature: ticked, grid }
        };
        let decision = awake.creature.program.run(
            awake.creature.energy as i32,
            awake.creature.awake_daily as i32,
            draws,
        );
        lemma_perform_carried(awake.creature, decision, roll, awake.grid, x, y);
        let done = awake.creature.perform(decision, roll, awake.grid);
        lemma_bury_carried(done.creature, done.grid, x, y);
    }
}


/// The counters of every cell of the grid are what the creatures count for
/// there, and no cell has a negative number of marks.
pub open spec fn counted(grid: GridView, creatures: Seq<CreatureView>) -> bool {
    forall|x: int, y: int|
        grid.contains(x, y) ==> (#[trigger] grid.at(x, y)).census() == census_of(creatures, creatures.len(), x, y)
            && grid.at(x, y).prey_kill >= 0
}

/// The creatures among the first `n` that have energy left, in order.
pub open spec fn survivors(creatures: Seq<CreatureView>, n: nat) -> Seq<CreatureView>
    decreases n,
{
    if n == 0 {
        Seq::empty()
    } else if creatures[n - 1].is_dead() {
        survivors(creatures, (n - 1) as nat)
    } else {
        survivors(creatures, (n - 1) as nat).push(creatures[n - 1])
    }
}

/// The number of creatures of a kind among the first `n` that stand on the
/// cell `(x, y)` and have energy left.
pub open spec fn live_count(creatures: Seq<CreatureView>, n: nat, kind: CreatureType, x: int, y: int) -> nat
    decreases n,
{
    if n == 0 {
        0
    } else {
        let c = creatures[n - 1];
        let before = live_count(creatures, (n - 1) as nat, kind, x, y);
        if c.creature_type == kind && c.x == x && c.y == y && !c.is_dead() {
            before + 1
        } else {
            before
        }
    }
}

/// `n` creatures count for at most `n` in each counter, and for no mark.
pub proof fn lemma_census_bounds(creatures: Seq<CreatureView>, n: nat, x: int, y: int)
    ensures
        census_of(creatures, n, x, y).within(0, n as int),
        census_of(creatures, n, x, y).prey_kill == 0,
    decreases n,
{
    if n > 0 {
        lemma_census_bounds(creatures, (n - 1) as nat, x, y);
    }
}

/// The visible and the hidden creatures of a kind that the census counts on
/// a cell are the live creatures of that kind on the cell.
pub proof fn lemma_census_counts_live(creatures: Seq<CreatureView>, n: nat, x: int, y: int)
    ensures
        census_of(creatures, n, x, y).pred_num + census_of(creatures, n, x, y).pred_resting == live_count(
            creatures,
            n,
            CreatureType::Predator,
            x,
            y,
        ),
        census_of(creatures, n, x, y).prey_num + census_of(creatures, n, x, y).prey_resting == live_count(
            creatures,
            n,
            CreatureType::Prey,
            x,
            y,
        ),
    decreases n,
{
    if n > 0 {
        lemma_census_counts_live(creatures, (n - 1) as nat, x, y);
    }
}

/// The census of the first `n` creatures looks at no other creature.
pub proof fn lemma_census_prefix(a: Seq<CreatureView>, b: Seq<CreatureView>, n: nat, x: int, y: int)
    requires
        n <= a.len(),
        n <= b.len(),
        forall|i: int| 0 <= i < n ==> a[i] == b[i],
    ensures
        census_of(a, n, x, y) == census_of(b, n, x, y),
    decreases n,
{
    if n > 0 {
        lemma_census_prefix(a, b, (n - 1) as nat, x, y);
    }
}

/// Replacing one creature changes the census by the difference of what the
/// two count for.
pub proof fn lemma_census_update(creatures: Seq<CreatureView>, i: int, c: CreatureView, n: nat, x: int, y: int)
    requires
        0 <= i < n <= creatures.len(),
    ensures
        census_of(creatures.update(i, c), n, x, y) == census_of(creatures, n, x, y).minus(
            creatures[i].presence(x, y),
        ).plus(c.presence(x, y)),
    decreases n,
{
    if n - 1 == i {
        lemma_census_prefix(creatures.update(i, c), creatures, (n - 1) as nat, x, y);
    } else {
        lemma_census_update(creatures, i, c, (n - 1) as nat, x, y);
    }
}

/// The census of two sequences of creatures, one behind the other, is the
/// sum of their censuses.
pub proof fn lemma_census_concat(a: Seq<CreatureView>, b: Seq<CreatureView>, n: nat, x: int, y: int)
    requires
        n <= b.len(),
    ensures
        census_of(a + b, a.len() + n, x, y) == census_of(a, a.len(), x, y).plus(census_of(b, n, x, y)),
    decreases n,
{
    if n == 0 {
        lemma_census_prefix(a + b, a, a.len(), x, y);
    } else {
        lemma_census_concat(a, b, (n - 1) as nat, x, y);
        assert((a + b)[a.len() + n - 1] == b[n - 1]);
    }
}

/// The creatures that have run out of energy count for nothing: the census
/// of the survivors is the census of all.
pub proof fn lemma_census_survivors(creatures: Seq<CreatureView>, n: nat, x: int, y: int)
    requires
        n <= creatures.len(),
    ensures
        census_of(survivors(creatures, n), survivors(creatures, n).len(), x, y) == census_of(creatures, n, x, y),
    decreases n,
{
    if n > 0 {
        lemma_census_survivors(creatures, (n - 1) as nat, x, y);
        let before = survivors(creatures, (n - 1) as nat);
        if !creatures[n - 1].is_dead() {
            lemma_census_prefix(before.push(creatures[n - 1]), before, before.len(), x, y);
        }
    }
}

/// The survivors have energy left, and stand where the creatures stood.
pub proof fn lemma_survivors_live(creatures: Seq<CreatureView>, n: nat, grid: GridView)
    requires
        n <= creatures.len(),
        forall|i: int| 0 <= i < n ==> (#[trigger] creatures[i]).on(grid),
    ensures
        all_live_on(survivors(creatures, n), grid),
        survivors(creatures, n).len() <= n,
    decreases n,
{
    if n > 0 {
        lemma_survivors_live(creatures, (n - 1) as nat, grid);
    }
}


/// Counters that agree with a population agree with it after one of its
/// live creatures has acted: the creature is replaced by what it has become,
/// and its offspring join the newborn.
pub proof fn lemma_act_counted(
    creatures: Seq<CreatureView>,
    newborn: Seq<CreatureView>,
    i: int,
    grid: GridView,
    draws: Seq<i32>,
    roll: int,
)
    requires
        0 <= i < creatures.len(),
        grid.wf(),
        !creatures[i].is_dead(),
        creatures[i].on(grid),
        counted(grid, creatures + newborn),
    ensures
        ({
            let turn = creatures[i].act(grid, draws, roll);
            &&& counted(turn.grid, creatures.update(i, turn.creature) + (newborn + turn.offspring))
            &&& grid.shaped_like(turn.grid)
            &&& turn.creature.on(turn.grid)
            &&& all_live_on(turn.offspring, turn.grid)
            &&& turn.offspring.len() <= 2
            &&& forall|x: int, y: int|
                grid.contains(x, y) ==> (#[trigger] turn.grid.at(x, y)).prey_kill <= grid.at(x, y).prey_kill + 1
        }),
{
    let turn = creatures[i].act(grid, draws, roll);
    let after = creatures.update(i, turn.creature);
    let born = newborn + turn.offspring;
    lemma_act_carried(creatures[i], grid, draws, roll, 0, 0);
    assert forall|x: int, y: int| turn.grid.contains(x, y) implies (#[trigger] turn.grid.at(x, y)).census()
        == census_of(after + born, (after + born).len(), x, y) && turn.grid.at(x, y).prey_kill >= 0 by {
        lemma_act_carried(creatures[i], grid, draws, roll, x, y);
        assert(grid.contains(x, y));
        assert(grid.at(x, y).census() == census_of(creatures + newborn, (creatures + newborn).len(), x, y));
        lemma_census_concat(creatures, newborn, newborn.len(), x, y);
        lemma_census_concat(after, born, born.len(), x, y);
        lemma_census_update(creatures, i, turn.creature, creatures.len(), x, y);
        lemma_census_concat(newborn, turn.offspring, turn.offspring.len(), x, y);
    }
    assert forall|x: int, y: int| grid.contains(x, y) implies (#[trigger] turn.grid.at(x, y)).prey_kill <= grid.at(
        x,
        y,
    ).prey_kill + 1 by {
        lemma_act_carried(creatures[i], grid, draws, roll, x, y);
    }
}

/// Counters that agree with a population agree with it after the creatures
/// that have run out of energy have left it and the newborn have joined it.
pub proof fn lemma_purge_counted(creatures: Seq<CreatureView>, newborn: Seq<CreatureView>, grid: GridView)
    requires
        counted(grid, creatures + newborn),
        forall|i: int| 0 <= i < creatures.len() ==> (#[trigger] creatures[i]).on(grid),
        all_live_on(newborn, grid),
    ensures
        counted(grid, survivors(creatures, creatures.len()) + newborn),
        all_live_on(survivors(creatures, creatures.len()) + newborn, grid),
{
    let alive = survivors(creatures, creatures.len());
    assert forall|x: int, y: int| grid.contains(x, y) implies (#[trigger] grid.at(x, y)).census() == census_of(
        alive + newborn,
        (alive + newborn).len(),
        x,
        y,
    ) && grid.at(x, y).prey_kill >= 0 by {
        lemma_census_concat(creatures, newborn, newborn.len(), x, y);
        lemma_census_concat(alive, newborn, newborn.len(), x, y);
        lemma_census_survivors(creatures, creatures.len(), x, y);
    }
    lemma_survivors_live(creatures, creatures.len(), grid);
    assert forall|i: int| 0 <= i < (alive + newborn).len() implies (#[trigger] (alive + newborn)[i]).on(grid) && !(
    alive + newborn)[i].is_dead() by {
        if i < alive.len() {
            assert((alive + newborn)[i] == alive[i]);
        } else {
            assert((alive + newborn)[i] == newborn[i - alive.len()]);
        }
    }
}

/// Counters that agree with a population leave room where the population
/// and the marks of killed prey do.
pub proof fn lemma_counted_roomy(grid: GridView, creatures: Seq<CreatureView>, steps: int)
    requires
        grid.wf(),
        grid.xsize <= i32::MAX,
        grid.ysize <= i32::MAX,
        counted(grid, creatures),
        steps >= 0,
        creatures.len() + steps <= i32::MAX,
        forall|x: int, y: int| grid.contains(x, y) ==> (#[trigger] grid.at(x, y)).prey_kill + steps <= i32::MAX,
    ensures
        grid.roomy(steps),
{
    assert forall|x: int, y: int| grid.contains(x, y) implies (#[trigger] grid.at(x, y)).within(
        i32::MIN + steps,
        i32::MAX - steps,
    ) by {
        lemma_census_bounds(creatures, creatures.len(), x, y);
        assert(grid.at(x, y).census() == census_of(creatures, creatures.len(), x, y));
    }
}


/// The number of creatures of a kind among the first `n`.
pub open spec fn kind_count(creatures: Seq<CreatureView>, n: nat, kind: CreatureType) -> nat
    decreases n,
{
    if n == 0 {
        0
    } else if creatures[n - 1].creature_type == kind {
        kind_count(creatures, (n - 1) as nat, kind) + 1
    } else {
        kind_count(creatures, (n - 1) as nat, kind)
    }
}

/// The counters of a kind do not exceed the number of creatures of that kind,
/// and the breeders are among the visible creatures.
pub proof fn lemma_census_kind_bounds(creatures: Seq<CreatureView>, n: nat, x: int, y: int)
    ensures
        0 <= census_of(creatures, n, x, y).pred_breed <= census_of(creatures, n, x, y).pred_num,
        0 <= census_of(creatures, n, x, y).prey_breed <= census_of(creatures, n, x, y).prey_num,
        0 <= census_of(creatures, n, x, y).pred_resting,
        0 <= census_of(creatures, n, x, y).prey_resting,
        census_of(creatures, n, x, y).pred_num + census_of(creatures, n, x, y).pred_resting <= kind_count(
            creatures,
            n,
            CreatureType::Predator,
        ),
        census_of(creatures, n, x, y).prey_num + census_of(creatures, n, x, y).prey_resting <= kind_count(
            creatures,
            n,
            CreatureType::Prey,
        ),
    decreases n,
{
    if n > 0 {
        lemma_census_kind_bounds(creatures, (n - 1) as nat, x, y);
    }
}

/// The number of creatures of a kind among the first `n` looks at no other
/// creature.
pub proof fn lemma_kind_count_prefix(a: Seq<CreatureView>, b: Seq<CreatureView>, n: nat, kind: CreatureType)
    requires
        n <= a.len(),
        n <= b.len(),
        forall|i: int| 0 <= i < n ==> a[i] == b[i],
    ensures
        kind_count(a, n, kind) == kind_count(b, n, kind),
    decreases n,
{
    if n > 0 {
        lemma_kind_count_prefix(a, b, (n - 1) as nat, kind);
    }
}

/// The grid after the first `n` creatures, all new, have entered it one
/// after the other.
pub open spec fn settled(grid: GridView, creatures: Seq<CreatureView>, n: nat) -> GridView
    decreases n,
{
    if n == 0 {
        grid
    } else {
        let before = settled(grid, creatures, (n - 1) as nat);
        let c = creatures[n - 1];
        before.set(c.x, c.y, enter(before.at(c.x, c.y), c.creature_type, c.energy))
    }
}

/// What the first `n` creatures make of a grid looks at no other creature.
pub proof fn lemma_settled_prefix(grid: GridView, a: Seq<CreatureView>, b: Seq<CreatureView>, n: nat)
    requires
        n <= a.len(),
        n <= b.len(),
        forall|i: int| 0 <= i < n ==> a[i] == b[i],
    ensures
        settled(grid, a, n) == settled(grid, b, n),
    decreases n,
{
    if n > 0 {
        lemma_settled_prefix(grid, a, b, (n - 1) as nat);
    }
}

/// The counters of an empty grid agree with the empty population.
pub proof fn lemma_empty_counted(xsize: int, ysize: int)
    requires
        0 <= xsize,
        0 <= ysize,
    ensures
        GridView::empty(xsize, ysize).wf(),
        counted(GridView::empty(xsize, ysize), Seq::empty()),
{
}

/// Counters that agree with a population agree with it after a new creature
/// has entered the grid and joined the population.
pub proof fn lemma_created_counted(
    grid: GridView,
    creatures: Seq<CreatureView>,
    kind: CreatureType,
    cx: int,
    cy: int,
    program: crate::program::StatementView,
)
    requires
        grid.wf(),
        grid.contains(cx, cy),
        counted(grid, creatures),
    ensures
        counted(
            CreatureView::created(kind, cx, cy, program, grid).grid,
            creatures.push(CreatureView::born(kind, cx, cy, program)),
        ),
        grid.shaped_like(CreatureView::created(kind, cx, cy, program, grid).grid),
{
    let created = CreatureView::created(kind, cx, cy, program, grid);
    let after = creatures.push(created.creature);
    grid.lemma_set_shape(cx, cy, enter(grid.at(cx, cy), kind, INIT_ENERGY as int));
    assert forall|x: int, y: int| created.grid.contains(x, y) implies (#[trigger] created.grid.at(x, y)).census()
        == census_of(after, after.len(), x, y) && created.grid.at(x, y).prey_kill >= 0 by {
        assert(grid.at(x, y).census() == census_of(creatures, creatures.len(), x, y));
        lemma_census_prefix(after, creatures, creatures.len(), x, y);
    }
}


/// Where no creature among the first `n` is of a kind, the number of
/// creatures of that kind is 0.
pub proof fn lemma_kind_count_none(creatures: Seq<CreatureView>, n: nat, kind: CreatureType)
    requires
        n <= creatures.len(),
        forall|i: int| 0 <= i < n ==> (#[trigger] creatures[i]).creature_type != kind,
    ensures
        kind_count(creatures, n, kind) == 0,
    decreases n,
{
    if n > 0 {
        lemma_kind_count_none(creatures, (n - 1) as nat, kind);
    }
}


/// A creature keeps its program and its kind for life.
pub proof fn lemma_act_keeps_program(creature: CreatureView, grid: GridView, draws: Seq<i32>, roll: int)
    ensures
        creature.act(grid, draws, roll).creature.program == creature.program,
        creature.act(grid, draws, roll).creature.creature_type == creature.creature_type,
{
    reveal(CreatureView::perform);
}

} // verus!
