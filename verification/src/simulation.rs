//! The simulation: a grid, a population of creatures, and the two programs
//! that drive them.
//!
//! A simulation is well formed when its creatures all have energy left and
//! stand on the grid, and the counters of every cell say what stands there.
//! Every operation keeps it so.

use std::rc::Rc;
use vstd::prelude::*;
use vstd::string::StringExecFns;
use crate::census::{
    all_live_on, census_of, counted, kind_count, lemma_act_counted, lemma_act_keeps_program,
    lemma_census_counts_live,
    lemma_census_kind_bounds, lemma_counted_roomy, lemma_created_counted, lemma_empty_counted,
    lemma_kind_count_none, lemma_kind_count_prefix, lemma_purge_counted, lemma_settled_prefix, live_count,
    settled, survivors,
};
use crate::compiler::compile;
use crate::creature::{creature_views, share, Creature, CreatureType, CreatureView, Turn, MARGIN};
use crate::diagnosis::{diagnose, diagnosis_of};
use crate::grid::{Grid, GridView};
use crate::program::{Program, StatementView};
use crate::random::random_below;

verus! {

/// A simulation as a mathematical value.
pub struct SimulationView {
    /// Where the program of the prey comes from, once that is known.
    pub prey_filename: Option<Seq<char>>,
    /// Where the program of the predators comes from, once that is known.
    pub pred_filename: Option<Seq<char>>,
    pub run: bool,
    pub valid_configuration: bool,
    pub creatures: Seq<CreatureView>,
    pub grid: GridView,
}

/// A tick in progress: the creatures, of which the first ones have acted, the
/// grid, and the creatures born so far.
pub struct Progress {
    pub creatures: Seq<CreatureView>,
    pub grid: GridView,
    pub newborn: Seq<CreatureView>,
}

impl SimulationView {
    /// The simulation as it is created: an empty grid and no creature.
    pub open spec fn initial(xsize: int, ysize: int) -> SimulationView {
        SimulationView {
            prey_filename: None,
            pred_filename: None,
            run: false,
            valid_configuration: false,
            creatures: Seq::empty(),
            grid: GridView::empty(xsize, ysize),
        }
    }

    /// The sizes of the grid fit the coordinates of a creature, the
    /// creatures all have energy left and stand on the grid, and the
    /// counters of every cell say what stands there.
    pub open spec fn wf(self) -> bool {
        &&& self.grid.wf()
        &&& self.grid.xsize <= i32::MAX
        &&& self.grid.ysize <= i32::MAX
        &&& all_live_on(self.creatures, self.grid)
        &&& counted(self.grid, self.creatures)
    }

    /// Machine integers can hold what one tick makes of the simulation: the
    /// population when every creature has bred, the energy and the time awake
    /// of every creature, and the marks of killed prey when every creature
    /// has killed.
    pub open spec fn roomy(self) -> bool {
        &&& 3 * self.creatures.len() + MARGIN <= i32::MAX
        &&& forall|i: int| 0 <= i < self.creatures.len() ==> (#[trigger] self.creatures[i]).fit()
        &&& forall|x: int, y: int|
            self.grid.contains(x, y) ==> (#[trigger] self.grid.at(x, y)).prey_kill + self.creatures.len() + MARGIN
                <= i32::MAX
    }

    /// Why the simulation cannot be configured, in the order in which the
    /// reasons are looked for; `None` where it can. A source that is `None`
    /// stands for a text that could not be read.
    pub open spec fn config_message(self, prey_source: Option<Seq<char>>, pred_source: Option<Seq<char>>) -> Option<
        Seq<char>,
    > {
        if self.prey_filename is None {
            Some("Invalid Prey Program Path"@)
        } else if self.pred_filename is None {
            Some("Invalid Predator Program Path"@)
        } else if prey_source is None {
            Some("Prey Program IO Error"@)
        } else if diagnosis_of(prey_source->Some_0) is Some {
            Some("Prey compiler error "@ + diagnosis_of(prey_source->Some_0)->Some_0.text())
        } else if pred_source is None {
            Some("Predator Program IO Error"@)
        } else if diagnosis_of(pred_source->Some_0) is Some {
            Some("Predator compiler error "@ + diagnosis_of(pred_source->Some_0)->Some_0.text())
        } else {
            None
        }
    }

    /// The simulation holds a fresh population of `n_pred` predators and
    /// `n_prey` prey, in that order, each as it is created, driven by the
    /// program of its kind and standing on some cell of the grid; and the
    /// grid is the empty grid after they have entered it one after the other.
    pub open spec fn populated(self, n_pred: nat, n_prey: nat, pred: StatementView, prey: StatementView) -> bool {
        &&& self.creatures.len() == n_pred + n_prey
        &&& forall|k: int|
            0 <= k < n_pred ==> (#[trigger] self.creatures[k]) == CreatureView::born(
                CreatureType::Predator,
                self.creatures[k].x,
                self.creatures[k].y,
                pred,
            )
        &&& forall|k: int|
            n_pred <= k < n_pred + n_prey ==> (#[trigger] self.creatures[k]) == CreatureView::born(
                CreatureType::Prey,
                self.creatures[k].x,
                self.creatures[k].y,
                prey,
            )
        &&& self.grid == settled(
            GridView::empty(self.grid.xsize, self.grid.ysize),
            self.creatures,
            self.creatures.len(),
        )
    }

    /// The tick after the first `n` creatures have acted, one after the
    /// other, each on the grid that the one before it has left. `chances[k]`
    /// is what chance contributes to the tick of creature `k`.
    pub open spec fn acted(self, chances: Seq<(Seq<i32>, int)>, n: nat) -> Progress
        decreases n,
    {
        if n == 0 {
            Progress { creatures: self.creatures, grid: self.grid, newborn: Seq::empty() }
        } else {
            let before = self.acted(chances, (n - 1) as nat);
            let turn = before.creatures[n - 1].act(before.grid, chances[n - 1].0, chances[n - 1].1);
            Progress {
                creatures: before.creatures.update(n - 1, turn.creature),
                grid: turn.grid,
                newborn: before.newborn + turn.offspring,
            }
        }
    }

    /// One tick: every creature acts, in the order of the population; then
    /// the creatures that have run out of energy leave the population, and
    /// the newborn join it at its end.
    pub open spec fn tick(self, chances: Seq<(Seq<i32>, int)>) -> SimulationView {
        let done = self.acted(chances, self.creatures.len());
        SimulationView {
            creatures: survivors(done.creatures, done.creatures.len()) + done.newborn,
            grid: done.grid,
            ..self
        }
    }

    /// For every creature, `chances` holds what chance may contribute to its
    /// tick.
    pub open spec fn chances_fit(self, chances: Seq<(Seq<i32>, int)>) -> bool {
        &&& chances.len() == self.creatures.len()
        &&& forall|k: int|
            0 <= k < self.creatures.len() ==> (#[trigger] self.creatures[k]).chance(chances[k].0, chances[k].1)
    }

    /// `after` is what one tick makes of the simulation for some numbers that
    /// chance may contribute.
    pub open spec fn ticks_to(self, after: SimulationView) -> bool {
        exists|chances: Seq<(Seq<i32>, int)>| self.chances_fit(chances) && #[trigger] self.tick(chances) == after
    }
}

/// The first `n` creatures act on the first `n` chances only.
pub proof fn lemma_acted_prefix(sim: SimulationView, a: Seq<(Seq<i32>, int)>, b: Seq<(Seq<i32>, int)>, n: nat)
    requires
        n <= a.len(),
        n <= b.len(),
        forall|k: int| 0 <= k < n ==> a[k] == b[k],
    ensures
        sim.acted(a, n) == sim.acted(b, n),
    decreases n,
{
    if n > 0 {
        lemma_acted_prefix(sim, a, b, (n - 1) as nat);
    }
}

impl SimulationView {
    /// What holds of a tick of a well-formed simulation after the first `n`
    /// creatures have acted: the population has its size and its programs,
    /// the creatures that have not acted are as they were, every creature
    /// stands on the grid, the newborn have energy left, at most two were
    /// born and at most one prey was marked for each creature that has
    /// acted, and the counters of every cell say what stands there.
    pub open spec fn in_progress(self, progress: Progress, n: nat) -> bool {
        &&& progress.creatures.len() == self.creatures.len()
        &&& self.grid.shaped_like(progress.grid)
        &&& forall|j: int|
            0 <= j < progress.creatures.len() ==> (#[trigger] progress.creatures[j]).on(progress.grid)
                && progress.creatures[j].program == self.creatures[j].program
        &&& forall|j: int| n <= j < progress.creatures.len() ==> #[trigger] progress.creatures[j] == self.creatures[j]
        &&& all_live_on(progress.newborn, progress.grid)
        &&& progress.newborn.len() <= 2 * n
        &&& counted(progress.grid, progress.creatures + progress.newborn)
        &&& forall|x: int, y: int|
            self.grid.contains(x, y) ==> (#[trigger] progress.grid.at(x, y)).prey_kill <= self.grid.at(x, y).prey_kill
                + n
    }
}

/// The counters stay with the population while the creatures of a
/// well-formed simulation act, whatever chance contributes.
pub proof fn lemma_acted_in_progress(sim: SimulationView, chances: Seq<(Seq<i32>, int)>, n: nat)
    requires
        sim.wf(),
        n <= sim.creatures.len(),
    ensures
        sim.in_progress(sim.acted(chances, n), n),
    decreases n,
{
    if n == 0 {
        assert(sim.creatures + Seq::<CreatureView>::empty() =~= sim.creatures);
    } else {
        lemma_acted_in_progress(sim, chances, (n - 1) as nat);
        let before = sim.acted(chances, (n - 1) as nat);
        let after = sim.acted(chances, n);
        let acting = before.creatures[n - 1];
        assert(acting == sim.creatures[n - 1]);
        lemma_act_counted(before.creatures, before.newborn, n - 1, before.grid, chances[n - 1].0, chances[n - 1].1);
        let turn = acting.act(before.grid, chances[n - 1].0, chances[n - 1].1);
        lemma_act_keeps_program(acting, before.grid, chances[n - 1].0, chances[n - 1].1);
        assert forall|j: int| 0 <= j < (before.newborn + turn.offspring).len() implies (#[trigger] (before.newborn
            + turn.offspring)[j]).on(turn.grid) && !(before.newborn + turn.offspring)[j].is_dead() by {
            if j < before.newborn.len() {
                assert((before.newborn + turn.offspring)[j] == before.newborn[j]);
            } else {
                assert((before.newborn + turn.offspring)[j] == turn.offspring[j - before.newborn.len()]);
            }
        }
        assert forall|x: int, y: int| sim.grid.contains(x, y) implies (#[trigger] after.grid.at(x, y)).prey_kill
            <= sim.grid.at(x, y).prey_kill + n by {
            assert(before.grid.at(x, y).prey_kill <= sim.grid.at(x, y).prey_kill + n - 1);
        }
    }
}

/// A tick of a well-formed simulation leaves a well-formed simulation,
/// whatever chance contributes: between two ticks the counters of every cell
/// say what stands there.
pub proof fn lemma_tick_keeps_wf(sim: SimulationView, chances: Seq<(Seq<i32>, int)>)
    requires
        sim.wf(),
    ensures
        sim.tick(chances).wf(),
{
    lemma_acted_in_progress(sim, chances, sim.creatures.len());
    let done = sim.acted(chances, sim.creatures.len());
    lemma_purge_counted(done.creatures, done.newborn, done.grid);
}

/// The predators that the counters of a cell count, visible and hidden, are
/// the live predators on the cell; likewise the prey.
pub proof fn lemma_counters_match_population(sim: SimulationView, x: int, y: int)
    requires
        sim.wf(),
        sim.grid.contains(x, y),
    ensures
        sim.grid.at(x, y).pred_num + sim.grid.at(x, y).pred_resting == live_count(
            sim.creatures,
            sim.creatures.len(),
            CreatureType::Predator,
            x,
            y,
        ),
        sim.grid.at(x, y).prey_num + sim.grid.at(x, y).prey_resting == live_count(
            sim.creatures,
            sim.creatures.len(),
            CreatureType::Prey,
            x,
            y,
        ),
{
    lemma_census_counts_live(sim.creatures, sim.creatures.len(), x, y);
    assert(sim.grid.at(x, y).census() == census_of(sim.creatures, sim.creatures.len(), x, y));
}

/// A simulation of predators and prey on a grid.
pub struct Simulation {
    prey_filename: Option<String>,
    pred_filename: Option<String>,
    run: bool,
    creatures: Vec<Creature>,
    valid_configuration: bool,
    grid: Grid,
}

impl View for Simulation {
    type V = SimulationView;

    closed spec fn view(&self) -> SimulationView {
        SimulationView {
            prey_filename: match self.prey_filename {
                Some(path) => Some(path@),
                None => None,
            },
            pred_filename: match self.pred_filename {
                Some(path) => Some(path@),
                None => None,
            },
            run: self.run,
            valid_configuration: self.valid_configuration,
            creatures: creature_views(self.creatures@),
            grid: self.grid@,
        }
    }
}

impl Simulation {
    /// The simulation is well formed.
    pub closed spec fn wf(&self) -> bool {
        self.grid.wf() && self@.wf()
    }

    /// The view of a well-formed simulation is well formed.
    pub proof fn lemma_wf(&self)
        requires
            self.wf(),
        ensures
            self@.wf(),
    {
    }

    /// Creates a simulation on an empty grid of the given sizes. It has no
    /// creatures and is not configured.
    pub fn new(xsize: usize, ysize: usize) -> (simulation: Simulation)
        requires
            xsize <= i32::MAX,
            ysize <= i32::MAX,
        ensures
            simulation.wf(),
            simulation@ == SimulationView::initial(xsize as int, ysize as int),
    {
        let simulation = Simulation {
            prey_filename: None,
            pred_filename: None,
            run: false,
            valid_configuration: false,
            creatures: Vec::new(),
            grid: Grid::new(xsize, ysize),
        };
        proof {
            assert(creature_views(simulation.creatures@) =~= Seq::<CreatureView>::empty());
            simulation.grid.lemma_view();
        }
        simulation
    }

    /// The grid, for a renderer to read.
    pub fn grid(&self) -> (grid: &Grid)
        requires
            self.wf(),
        ensures
            grid.wf(),
            grid@ == self@.grid,
    {
        &self.grid
    }

    /// The population, in the order in which the creatures act.
    pub fn creatures(&self) -> (creatures: &Vec<Creature>)
        ensures
            creature_views(creatures@) == self@.creatures,
    {
        &self.creatures
    }

    /// Whether the simulation is running.
    pub fn is_running(&self) -> (running: bool)
        ensures
            running == self@.run,
    {
        self.run
    }

    /// Whether the simulation has been configured.
    pub fn is_configured(&self) -> (configured: bool)
        ensures
            configured == self@.valid_configuration,
    {
        self.valid_configuration
    }

    /// Where the program of the prey comes from, once that is known.
    pub fn prey_filename(&self) -> (path: Option<&String>)
        ensures
            match path {
                Some(name) => self@.prey_filename == Some(name@),
                None => self@.prey_filename is None,
            },
    {
        self.prey_filename.as_ref()
    }

    /// Where the program of the predators comes from, once that is known.
    pub fn predator_filename(&self) -> (path: Option<&String>)
        ensures
            match path {
                Some(name) => self@.pred_filename == Some(name@),
                None => self@.pred_filename is None,
            },
    {
        self.pred_filename.as_ref()
    }

    /// Notes where the program of the prey comes from.
    pub fn set_prey_filename(&mut self, path: &str)
        requires
            old(self).wf(),
        ensures
            final(self).wf(),
            final(self)@ == (SimulationView { prey_filename: Some(path@), ..old(self)@ }),
    {
        self.prey_filename = Some(path.to_owned());
    }

    /// Notes where the program of the predators comes from.
    pub fn set_predator_filename(&mut self, path: &str)
        requires
            old(self).wf(),
        ensures
            final(self).wf(),
            final(self)@ == (SimulationView { pred_filename: Some(path@), ..old(self)@ }),
    {
        self.pred_filename = Some(path.to_owned());
    }

    /// Starts or stops the simulation. A simulation that is not configured
    /// does not start.
    pub fn set_run(&mut self, val: bool)
        requires
            old(self).wf(),
        ensures
            final(self).wf(),
            final(self)@ == (SimulationView { run: val && old(self)@.valid_configuration, ..old(self)@ }),
    {
        self.run = val && self.valid_configuration;
    }

    /// One tick of a running simulation: every creature acts, in the order
    /// of the population; then the creatures that have run out of energy
    /// leave the population and the newborn join it. A simulation that is
    /// not running stays as it is. Returns whether the simulation is
    /// running.
    pub fn iteration(&mut self) -> (running: bool)
        requires
            old(self).wf(),
            old(self)@.run ==> old(self)@.roomy(),
        ensures
            final(self).wf(),
            running == old(self)@.run,
            !old(self)@.run ==> final(self)@ == old(self)@,
            old(self)@.run ==> old(self)@.ticks_to(final(self)@),
    {
        if self.run {
            let ghost before = self@;
            let n = self.creatures.len();
            let mut new_creatures: Vec<Creature> = Vec::new();
            let ghost mut chances: Seq<(Seq<i32>, int)> = Seq::empty();
            let mut i: usize = 0;
            proof {
                assert(creature_views(new_creatures@) =~= Seq::<CreatureView>::empty());
            }
            while i < n
                invariant
                    i <= n,
                    n == self.creatures@.len(),
                    n == before.creatures.len(),
                    before.wf(),
                    before.roomy(),
                    self.grid.wf(),
                    self@ == (SimulationView {
                        creatures: creature_views(self.creatures@),
                        grid: self.grid@,
                        ..before
                    }),
                    chances.len() == i,
                    forall|k: int|
                        0 <= k < i ==> (#[trigger] before.creatures[k]).chance(chances[k].0, chances[k].1),
                    (Progress {
                        creatures: creature_views(self.creatures@),
                        grid: self.grid@,
                        newborn: creature_views(new_creatures@),
                    }) == before.acted(chances, i as nat),
                decreases n - i,
            {
                let ghost acting = self.creatures@[i as int]@;
                let ghost grid_before = self.grid@;
                let ghost views_before = creature_views(self.creatures@);
                let ghost newborn_before = creature_views(new_creatures@);
                proof {
                    lemma_acted_in_progress(before, chances, i as nat);
                    assert(acting == views_before[i as int]);
                    assert(acting == before.creatures[i as int]);
                    assert(acting.fit());
                    assert forall|x: int, y: int| grid_before.contains(x, y) implies (#[trigger] grid_before.at(
                        x,
                        y,
                    )).prey_kill + MARGIN <= i32::MAX by {
                        assert(before.grid.at(x, y).prey_kill + before.creatures.len() + MARGIN <= i32::MAX);
                    }
                    lemma_counted_roomy(grid_before, views_before + newborn_before, MARGIN as int);
                }
                let mut offspring = self.creatures[i].act(&mut self.grid);
                proof {
                    let turn = Turn {
                        creature: self.creatures@[i as int]@,
                        grid: self.grid@,
                        offspring: creature_views(offspring@),
                    };
                    let (draws, roll) = choose|draws: Seq<i32>, roll: int|
                        acting.chance(draws, roll) && #[trigger] acting.act(grid_before, draws, roll) == turn;
                    let longer = chances.push((draws, roll));
                    lemma_acted_prefix(before, chances, longer, i as nat);
                    assert(creature_views(self.creatures@) =~= views_before.update(i as int, turn.creature));
                    assert(creature_views(new_creatures@ + offspring@) =~= newborn_before + turn.offspring);
                    assert forall|k: int| 0 <= k < i + 1 implies (#[trigger] before.creatures[k]).chance(
                        longer[k].0,
                        longer[k].1,
                    ) by {
                        if k < i {
                            assert(longer[k] == chances[k]);
                        }
                    }
                    chances = longer;
                }
                new_creatures.append(&mut offspring);
                i += 1;
            }

            // The creatures that have run out of energy leave the population.
            let mut all: Vec<Creature> = Vec::new();
            core::mem::swap(&mut all, &mut self.creatures);
            let ghost done = creature_views(all@);
            let ghost all_before = all@;
            let ghost newborn = creature_views(new_creatures@);
            let ghost grid_after = self.grid@;
            proof {
                assert(creature_views(self.creatures@) =~= survivors(done, 0));
                assert(before.acted(chances, n as nat) == (Progress {
                    creatures: done,
                    grid: grid_after,
                    newborn,
                }));
                assert(before.chances_fit(chances));
                lemma_tick_keeps_wf(before, chances);
            }
            for creature in it: all
                invariant
                    it.seq() == all_before,
                    done == creature_views(all_before),
                    creature_views(self.creatures@) == survivors(done, it.index() as nat),
                    self@ == (SimulationView {
                        creatures: creature_views(self.creatures@),
                        grid: self.grid@,
                        ..before
                    }),
                    self.grid.wf(),
                    self.grid@ == grid_after,
            {
                let ghost kept = creature_views(self.creatures@);
                if !creature.is_dead() {
                    self.creatures.push(creature);
                    proof {
                        assert(creature_views(self.creatures@) =~= kept.push(creature@));
                    }
                }
            }
            let ghost alive = creature_views(self.creatures@);
            self.creatures.append(&mut new_creatures);
            proof {
                assert(creature_views(self.creatures@) =~= alive + newborn);
                assert(before.tick(chances) == self@);
            }
        }
        self.run
    }
}


/// The characters of a source text, where there is one.
pub open spec fn source_view(source: Option<&str>) -> Option<Seq<char>> {
    match source {
        Some(text) => Some(text@),
        None => None,
    }
}

/// `n` as a count: a negative number counts as 0.
pub open spec fn count_of(n: i32) -> nat {
    if n > 0 {
        n as nat
    } else {
        0
    }
}

impl Simulation {
    /// Creates `count` creatures of a kind on random cells of the grid and
    /// appends them to the population.
    fn place(&mut self, kind: CreatureType, count: i32, program: &Rc<Program>, Ghost(origin): Ghost<GridView>)
        requires
            old(self).grid.wf(),
            0 < old(self).grid@.xsize <= i32::MAX,
            0 < old(self).grid@.ysize <= i32::MAX,
            counted(old(self).grid@, creature_views(old(self).creatures@)),
            all_live_on(creature_views(old(self).creatures@), old(self).grid@),
            kind_count(creature_views(old(self).creatures@), old(self).creatures@.len(), kind) == 0,
            old(self).grid@ == settled(origin, creature_views(old(self).creatures@), old(self).creatures@.len()),
        ensures
            final(self).grid.wf(),
            old(self).grid@.shaped_like(final(self).grid@),
            counted(final(self).grid@, creature_views(final(self).creatures@)),
            all_live_on(creature_views(final(self).creatures@), final(self).grid@),
            final(self).grid@ == settled(
                origin,
                creature_views(final(self).creatures@),
                final(self).creatures@.len(),
            ),
            final(self).creatures@.len() == old(self).creatures@.len() + count_of(count),
            forall|k: int|
                0 <= k < old(self).creatures@.len() ==> (#[trigger] final(self).creatures@[k])@ == old(
                    self,
                ).creatures@[k]@,
            forall|k: int|
                old(self).creatures@.len() <= k < final(self).creatures@.len() ==> (
                #[trigger] final(self).creatures@[k])@ == CreatureView::born(
                    kind,
                    final(self).creatures@[k]@.x,
                    final(self).creatures@[k]@.y,
                    program@,
                ),
            final(self).prey_filename == old(self).prey_filename,
            final(self).pred_filename == old(self).pred_filename,
            final(self).run == old(self).run,
            final(self).valid_configuration == old(self).valid_configuration,
    {
        let ghost start = self.creatures@.len();
        let mut k: i32 = 0;
        proof {
            self.grid.lemma_view();
        }
        while k < count
            invariant
                0 <= k,
                k <= count || count < 0,
                k == 0 || k <= count,
                self.grid.wf(),
                0 < self.grid@.xsize <= i32::MAX,
                0 < self.grid@.ysize <= i32::MAX,
                old(self).grid@.shaped_like(self.grid@),
                counted(self.grid@, creature_views(self.creatures@)),
                all_live_on(creature_views(self.creatures@), self.grid@),
                kind_count(creature_views(self.creatures@), self.creatures@.len(), kind) == k,
                self.grid@ == settled(origin, creature_views(self.creatures@), self.creatures@.len()),
                start == old(self).creatures@.len(),
                self.creatures@.len() == start + k,
                forall|j: int| 0 <= j < start ==> (#[trigger] self.creatures@[j])@ == old(self).creatures@[j]@,
                forall|j: int|
                    start <= j < self.creatures@.len() ==> (#[trigger] self.creatures@[j])@ == CreatureView::born(
                        kind,
                        self.creatures@[j]@.x,
                        self.creatures@[j]@.y,
                        program@,
                    ),
                self.prey_filename == old(self).prey_filename,
                self.pred_filename == old(self).pred_filename,
                self.run == old(self).run,
                self.valid_configuration == old(self).valid_configuration,
            decreases count - k,
        {
            let x = random_below(self.grid.xsize() as i32);
            let y = random_below(self.grid.ysize() as i32);
            let ghost views = creature_views(self.creatures@);
            let ghost grid = self.grid@;
            proof {
                self.grid.lemma_view();
                lemma_census_kind_bounds(views, views.len(), x as int, y as int);
                assert(grid.at(x as int, y as int).census() == census_of(views, views.len(), x as int, y as int));
                assert(grid.at(x as int, y as int).within(i32::MIN as int, i32::MAX as int));
            }
            let creature = Creature::new(kind, x, y, share(program), &mut self.grid);
            proof {
                lemma_created_counted(grid, views, kind, x as int, y as int, program@);
            }
            self.creatures.push(creature);
            proof {
                let after = creature_views(self.creatures@);
                assert(after =~= views.push(creature@));
                lemma_kind_count_prefix(after, views, views.len(), kind);
                lemma_settled_prefix(origin, after, views, views.len());
                assert forall|j: int| 0 <= j < after.len() implies (#[trigger] after[j]).on(self.grid@)
                    && !after[j].is_dead() by {
                    if j < views.len() {
                        assert(after[j] == views[j]);
                    }
                }
            }
            k += 1;
        }
    }

    /// Configures the simulation with the texts of the two programs, as far
    /// as they could be read.
    ///
    /// Returns why the simulation cannot be configured, and leaves it as it
    /// is: a program whose origin was never set, a text that could not be
    /// read (`None`), or a text that is no program, with the error of the
    /// lexer or the parser and the place at which it arose. Otherwise both
    /// programs are compiled, the grid
    /// is emptied, the population is replaced by `n_pred` predators and
    /// `n_prey` prey on random cells, the simulation counts as configured,
    /// and `None` is returned.
    ///
    /// The grid must have cells for the creatures to be placed on.
    pub fn config(&mut self, n_pred: i32, n_prey: i32, prey_source: Option<&str>, pred_source: Option<&str>) -> (message:
        Option<String>)
        requires
            old(self).wf(),
            old(self)@.grid.xsize > 0,
            old(self)@.grid.ysize > 0,
        ensures
            final(self).wf(),
            match old(self)@.config_message(source_view(prey_source), source_view(pred_source)) {
                Some(text) => message matches Some(m) && m@ == text && final(self)@ == old(self)@,
                None => {
                    &&& message is None
                    &&& final(self)@.prey_filename == old(self)@.prey_filename
                    &&& final(self)@.pred_filename == old(self)@.pred_filename
                    &&& final(self)@.run == old(self)@.run
                    &&& final(self)@.valid_configuration
                    &&& old(self)@.grid.shaped_like(final(self)@.grid)
                    &&& final(self)@.populated(
                        count_of(n_pred),
                        count_of(n_prey),
                        compile(pred_source->Some_0@)->Ok_0,
                        compile(prey_source->Some_0@)->Ok_0,
                    )
                },
            },
    {
        if self.prey_filename.is_none() {
            return Some("Invalid Prey Program Path".to_owned());
        }
        if self.pred_filename.is_none() {
            return Some("Invalid Predator Program Path".to_owned());
        }
        let prey_contents = match prey_source {
            Some(text) => text,
            None => {
                return Some("Prey Program IO Error".to_owned());
            },
        };
        let prey_program = match diagnose(prey_contents) {
            Ok(program) => Rc::new(program),
            Err(diagnosis) => {
                let mut text = "Prey compiler error ".to_owned();
                text.append(diagnosis.to_string().as_str());
                return Some(text);
            },
        };
        let pred_contents = match pred_source {
            Some(text) => text,
            None => {
                return Some("Predator Program IO Error".to_owned());
            },
        };
        let pred_program = match diagnose(pred_contents) {
            Ok(program) => Rc::new(program),
            Err(diagnosis) => {
                let mut text = "Predator compiler error ".to_owned();
                text.append(diagnosis.to_string().as_str());
                return Some(text);
            },
        };

        // The old population leaves, and the grid with it.
        let xsize = self.grid.xsize();
        let ysize = self.grid.ysize();
        self.creatures = Vec::new();
        self.grid = Grid::new(xsize, ysize);
        let ghost origin = self.grid@;
        proof {
            assert(creature_views(self.creatures@) =~= Seq::<CreatureView>::empty());
            lemma_empty_counted(xsize as int, ysize as int);
        }
        self.place(CreatureType::Predator, n_pred, &pred_program, Ghost(origin));
        proof {
            lemma_kind_count_none(creature_views(self.creatures@), self.creatures@.len(), CreatureType::Prey);
        }
        self.place(CreatureType::Prey, n_prey, &prey_program, Ghost(origin));

        // The simulation is configured.
        self.valid_configuration = true;
        None
    }

    /// Tells whether machine integers can hold what one tick makes of the
    /// simulation: what [`Simulation::iteration`] asks of a running
    /// simulation.
    pub fn can_iterate(&self) -> (ok: bool)
        requires
            self.wf(),
        ensures
            ok == self@.roomy(),
    {
        let n = self.creatures.len();
        if n > ((i32::MAX - MARGIN) / 3) as usize {
            return false;
        }
        let mut i: usize = 0;
        while i < n
            invariant
                i <= n,
                n == self.creatures@.len(),
                forall|j: int| 0 <= j < i ==> (#[trigger] self@.creatures[j]).fit(),
            decreases n - i,
        {
            if !self.creatures[i].is_fit() {
                assert(!self@.creatures[i as int].fit());
                return false;
            }
            i += 1;
        }
        let limit: i32 = i32::MAX - MARGIN - (n as i32);
        let xsize = self.grid.xsize();
        let ysize = self.grid.ysize();
        let mut x: usize = 0;
        while x < xsize
            invariant
                x <= xsize,
                self.wf(),
                xsize == self@.grid.xsize,
                ysize == self@.grid.ysize,
                limit == i32::MAX - MARGIN - n,
                n == self@.creatures.len(),
                forall|a: int, b: int|
                    0 <= a < x && 0 <= b < ysize ==> (#[trigger] self@.grid.at(a, b)).prey_kill <= limit,
            decreases xsize - x,
        {
            let mut y: usize = 0;
            while y < ysize
                invariant
                    x < xsize,
                    y <= ysize,
                    self.wf(),
                    xsize == self@.grid.xsize,
                    ysize == self@.grid.ysize,
                    limit == i32::MAX - MARGIN - n,
                    n == self@.creatures.len(),
                    forall|a: int, b: int|
                        0 <= a < x && 0 <= b < ysize ==> (#[trigger] self@.grid.at(a, b)).prey_kill <= limit,
                    forall|b: int| 0 <= b < y ==> (#[trigger] self@.grid.at(x as int, b)).prey_kill <= limit,
                decreases ysize - y,
            {
                if self.grid.loc(x as i32, y as i32).killed_prey() > limit {
                    assert(self@.grid.contains(x as int, y as int));
                    assert(self@.grid.at(x as int, y as int).prey_kill + self@.creatures.len() + MARGIN
                        > i32::MAX);
                    return false;
                }
                y += 1;
            }
            x += 1;
        }
        true
    }
}

} // verus!
