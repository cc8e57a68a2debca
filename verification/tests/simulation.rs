use sim2::creature::{Creature, CreatureType};
use sim2::grid::{Grid, HasLocation};
use sim2::location::LocationStatus;
use sim2::simulation::Simulation;

const HUNTER: &str = "\
sim
   if (energy > 0) then
      if (awakeDaily > 16) then
         rest 8
      else
         if (energy > 100) then
            if (rand < 250) then breed N else
               if (rand < 333) then breed E else
                  if (rand < 500) then breed S else breed W end
               end
            end
         else
            if (rand < 250) then hunt N else
               if (rand < 333) then hunt E else
                  if (rand < 500) then hunt S else hunt W end
               end
            end
         end
      end
   end
end
";

const GRAZER: &str = "\
sim
   if (awakeDaily > 12) then
      rest 6
   else
      if (energy > 60) then
         if (rand < 500) then breed NE else breed SW end
      else
         if (rand < 500) then hunt NW else hunt SE end
      end
   end
end
";

fn configured(xsize: usize, ysize: usize, n_pred: i32, n_prey: i32) -> Simulation {
    let mut sim = Simulation::new(xsize, ysize);
    sim.set_prey_filename("prey.sim2");
    sim.set_predator_filename("predator.sim2");
    assert_eq!(sim.config(n_pred, n_prey, Some(GRAZER), Some(HUNTER)), None);
    sim
}

fn live(sim: &Simulation, kind: CreatureType, x: i32, y: i32, visible: Option<bool>) -> i32 {
    let mut n = 0;
    for c in sim.creatures() {
        if c.creature_type() == kind
            && c.xcoord() == x
            && c.ycoord() == y
            && !c.is_dead()
            && visible.map_or(true, |v| v == c.is_visible())
        {
            n += 1;
        }
    }
    n
}

fn breeders(sim: &Simulation, kind: CreatureType, x: i32, y: i32) -> i32 {
    let mut n = 0;
    for c in sim.creatures() {
        if c.creature_type() == kind && c.xcoord() == x && c.ycoord() == y && c.is_visible() && c.energy() > 25 {
            n += 1;
        }
    }
    n
}

fn assert_counters_match(sim: &Simulation) {
    let grid = sim.grid();
    for x in 0..grid.xsize() as i32 {
        for y in 0..grid.ysize() as i32 {
            let cell = grid.loc(x, y);
            assert_eq!(
                cell.predators() + cell.resting_predators(),
                live(sim, CreatureType::Predator, x, y, None)
            );
            assert_eq!(cell.prey() + cell.resting_prey(), live(sim, CreatureType::Prey, x, y, None));
            assert_eq!(cell.predators(), live(sim, CreatureType::Predator, x, y, Some(true)));
            assert_eq!(cell.prey(), live(sim, CreatureType::Prey, x, y, Some(true)));
            assert_eq!(cell.resting_predators(), live(sim, CreatureType::Predator, x, y, Some(false)));
            assert_eq!(cell.resting_prey(), live(sim, CreatureType::Prey, x, y, Some(false)));
            assert_eq!(cell.breeding_predators(), breeders(sim, CreatureType::Predator, x, y));
            assert_eq!(cell.breeding_prey(), breeders(sim, CreatureType::Prey, x, y));
            assert!(cell.killed_prey() >= 0);
        }
    }
    for c in sim.creatures() {
        assert!(!c.is_dead());
    }
}

#[test]
fn new_simulation_is_idle() {
    let sim = Simulation::new(7, 5);
    assert!(!sim.is_running());
    assert!(!sim.is_configured());
    assert!(sim.creatures().is_empty());
    assert_eq!(sim.prey_filename(), None);
    assert_eq!(sim.predator_filename(), None);
    assert_eq!(sim.grid().xsize(), 7);
    assert_eq!(sim.grid().ysize(), 5);
    for x in 0..7 {
        for y in 0..5 {
            assert_eq!(sim.grid().loc(x, y).status(), LocationStatus::NothingHere);
        }
    }
}

#[test]
fn set_run_needs_a_configuration() {
    let mut sim = Simulation::new(3, 3);
    sim.set_run(true);
    assert!(!sim.is_running());
    assert!(!sim.iteration());
    sim.set_prey_filename("a");
    sim.set_predator_filename("b");
    assert_eq!(sim.config(1, 1, Some("sim move E end"), Some("sim move W end")), None);
    assert!(sim.is_configured());
    assert!(!sim.is_running());
    sim.set_run(true);
    assert!(sim.is_running());
    assert!(sim.iteration());
    sim.set_run(false);
    assert!(!sim.is_running());
    assert!(!sim.iteration());
}

#[test]
fn filenames_are_kept() {
    let mut sim = Simulation::new(3, 3);
    sim.set_prey_filename("programs/prey.sim2");
    assert_eq!(sim.prey_filename(), Some(&"programs/prey.sim2".to_string()));
    assert_eq!(sim.predator_filename(), None);
    sim.set_predator_filename("programs/pred.sim2");
    sim.set_prey_filename("other");
    assert_eq!(sim.prey_filename(), Some(&"other".to_string()));
    assert_eq!(sim.predator_filename(), Some(&"programs/pred.sim2".to_string()));
}

#[test]
fn config_reports_what_is_missing_in_order() {
    let good = Some("sim move E end");
    let mut sim = Simulation::new(3, 3);
    assert_eq!(sim.config(1, 1, good, good), Some("Invalid Prey Program Path".to_string()));
    assert_eq!(sim.config(1, 1, None, None), Some("Invalid Prey Program Path".to_string()));
    sim.set_predator_filename("b");
    assert_eq!(sim.config(1, 1, good, good), Some("Invalid Prey Program Path".to_string()));
    let mut sim = Simulation::new(3, 3);
    sim.set_prey_filename("a");
    assert_eq!(sim.config(1, 1, None, None), Some("Invalid Predator Program Path".to_string()));
    sim.set_predator_filename("b");
    assert_eq!(sim.config(1, 1, None, None), Some("Prey Program IO Error".to_string()));
    assert_eq!(sim.config(1, 1, None, good), Some("Prey Program IO Error".to_string()));
    assert_eq!(
        sim.config(1, 1, Some("sim move"), None),
        Some("Prey compiler error C(MoveNotFollowedByDirection) at token 2".to_string())
    );
    assert_eq!(sim.config(1, 1, Some("sim % end"), good), Some("Prey compiler error L(InvalidCharType) at character 4".to_string()));
    assert_eq!(sim.config(1, 1, good, None), Some("Predator Program IO Error".to_string()));
    assert_eq!(
        sim.config(1, 1, good, Some("move E end")),
        Some("Predator compiler error C(NoSimKeyword) at token 0".to_string())
    );
    assert_eq!(
        sim.config(1, 1, good, Some("sim rest 1a end")),
        Some("Predator compiler error L(InvalidTransition) at character 10".to_string())
    );
    assert!(!sim.is_configured());
    assert!(sim.creatures().is_empty());
    assert_eq!(sim.config(1, 1, good, good), None);
    assert!(sim.is_configured());
}

#[test]
fn failed_config_keeps_the_simulation() {
    let mut sim = configured(4, 4, 3, 5);
    sim.set_run(true);
    let before: Vec<(i32, i32, i32)> = sim.creatures().iter().map(|c| (c.xcoord(), c.ycoord(), c.energy())).collect();
    assert_eq!(sim.config(9, 9, Some("sim"), Some(HUNTER)), Some("Prey compiler error C(ImproperStartOfStatment) at token 1".to_string()));
    let after: Vec<(i32, i32, i32)> = sim.creatures().iter().map(|c| (c.xcoord(), c.ycoord(), c.energy())).collect();
    assert_eq!(before, after);
    assert!(sim.is_configured());
    assert!(sim.is_running());
    assert_counters_match(&sim);
}

#[test]
fn config_places_the_population() {
    let sim = configured(6, 4, 7, 11);
    assert!(sim.is_configured());
    assert!(!sim.is_running());
    assert_eq!(sim.creatures().len(), 18);
    for (k, c) in sim.creatures().iter().enumerate() {
        let kind = if k < 7 { CreatureType::Predator } else { CreatureType::Prey };
        assert!(c.creature_type() == kind);
        assert_eq!(c.energy(), 100);
        assert_eq!(c.awake_daily(), 0);
        assert_eq!(c.count_down(), 0);
        assert!(c.is_visible());
        assert!(0 <= c.xcoord() && c.xcoord() < 6);
        assert!(0 <= c.ycoord() && c.ycoord() < 4);
        assert_eq!(c.program().draw_count(), if k < 7 { 6 } else { 2 });
    }
    assert_counters_match(&sim);
    assert!(sim.can_iterate());
}

#[test]
fn config_with_no_or_negative_counts() {
    assert!(configured(3, 3, 0, 0).creatures().is_empty());
    assert!(configured(3, 3, -4, -1).creatures().is_empty());
    assert_eq!(configured(3, 3, -4, 2).creatures().len(), 2);
}

#[test]
fn config_again_replaces_population_and_grid() {
    let mut sim = configured(3, 3, 20, 20);
    sim.set_run(true);
    for _ in 0..5 {
        assert!(sim.can_iterate());
        sim.iteration();
    }
    assert_eq!(sim.config(2, 1, Some("sim rest 8 end"), Some("sim rest 8 end")), None);
    assert_eq!(sim.creatures().len(), 3);
    assert!(sim.is_running());
    assert_counters_match(&sim);
    let grid = sim.grid();
    let mut total = 0;
    for x in 0..3 {
        for y in 0..3 {
            let cell = grid.loc(x, y);
            total += cell.predators() + cell.prey();
            assert_eq!(cell.resting_predators() + cell.resting_prey() + cell.killed_prey(), 0);
        }
    }
    assert_eq!(total, 3);
}

#[test]
fn config_spreads_over_the_grid() {
    let sim = configured(2, 3, 300, 300);
    let grid = sim.grid();
    for x in 0..2 {
        for y in 0..3 {
            assert!(grid.loc(x, y).predators() > 0);
            assert!(grid.loc(x, y).prey() > 0);
        }
    }
}

#[test]
fn iteration_moves_every_creature_once() {
    let mut sim = Simulation::new(5, 5);
    sim.set_prey_filename("a");
    sim.set_predator_filename("b");
    assert_eq!(sim.config(4, 6, Some("sim move E end"), Some("sim move S end")), None);
    sim.set_run(true);
    let before: Vec<(i32, i32)> = sim.creatures().iter().map(|c| (c.xcoord(), c.ycoord())).collect();
    assert!(sim.iteration());
    for (k, c) in sim.creatures().iter().enumerate() {
        let (x, y) = before[k];
        if k < 4 {
            assert_eq!((c.xcoord(), c.ycoord()), (x, (y + 1) % 5));
        } else {
            assert_eq!((c.xcoord(), c.ycoord()), ((x + 1) % 5, y));
        }
        assert_eq!(c.energy(), 99);
        assert_eq!(c.awake_daily(), 1);
    }
    assert_counters_match(&sim);
}

#[test]
fn iteration_appends_the_newborn() {
    let mut sim = Simulation::new(1, 1);
    sim.set_prey_filename("a");
    sim.set_predator_filename("b");
    assert_eq!(sim.config(2, 0, Some("sim move E end"), Some("sim breed E end")), None);
    sim.set_run(true);
    assert!(sim.iteration());
    // The first predator finds the second one in sight and breeds. It is out
    // of sight when the second one looks for a partner.
    assert_eq!(sim.creatures().len(), 4);
    let state: Vec<(i32, i32, bool)> =
        sim.creatures().iter().map(|c| (c.energy(), c.count_down(), c.is_visible())).collect();
    assert_eq!(state, vec![(74, 6, false), (99, 0, true), (99, 6, false), (99, 6, false)]);
    assert_counters_match(&sim);
    assert_eq!(sim.grid().loc(0, 0).predators(), 1);
    assert_eq!(sim.grid().loc(0, 0).resting_predators(), 3);
    assert!(sim.iteration());
    let state: Vec<(i32, i32, bool)> =
        sim.creatures().iter().map(|c| (c.energy(), c.count_down(), c.is_visible())).collect();
    assert_eq!(state, vec![(74, 5, false), (98, 0, true), (99, 5, false), (99, 5, false)]);
}

#[test]
fn iteration_purges_the_dead() {
    let mut sim = Simulation::new(2, 1);
    sim.set_prey_filename("a");
    sim.set_predator_filename("b");
    assert_eq!(sim.config(2, 3, Some("sim rest 24 end"), Some("sim move E end")), None);
    sim.set_run(true);
    // A rest of 24 ticks costs 5 units of energy: prey is gone after 20 rests.
    // A move costs 1 unit: the predators are gone after 100 ticks.
    let mut ticks = 0;
    while sim.creatures().len() == 5 {
        assert!(sim.iteration());
        assert_counters_match(&sim);
        ticks += 1;
        assert!(ticks <= 100);
    }
    assert_eq!(ticks, 100);
    assert_eq!(sim.creatures().len(), 3);
    for c in sim.creatures() {
        assert!(c.creature_type() == CreatureType::Prey);
        // Rests began in the ticks 1, 25, 49, 73 and 97.
        assert_eq!(c.energy(), 100 - 5 * 5);
    }
    while !sim.creatures().is_empty() {
        assert!(sim.iteration());
        assert_counters_match(&sim);
        ticks += 1;
        assert!(ticks <= 1000);
    }
    // The twentieth rest begins in tick 1 + 19 * 24.
    assert_eq!(ticks, 1 + 19 * 24);
    for x in 0..2 {
        assert_eq!(sim.grid().loc(x, 0).status(), LocationStatus::NothingHere);
    }
}

#[test]
fn stopped_simulation_does_not_change() {
    let mut sim = configured(4, 4, 5, 5);
    let before: Vec<(i32, i32, i32, i32)> =
        sim.creatures().iter().map(|c| (c.xcoord(), c.ycoord(), c.energy(), c.awake_daily())).collect();
    assert!(!sim.iteration());
    let after: Vec<(i32, i32, i32, i32)> =
        sim.creatures().iter().map(|c| (c.xcoord(), c.ycoord(), c.energy(), c.awake_daily())).collect();
    assert_eq!(before, after);
}

#[test]
fn counters_match_the_population_after_every_tick() {
    for (xsize, ysize, n_pred, n_prey) in [(10, 10, 20, 60), (3, 2, 10, 10), (1, 1, 3, 3), (8, 1, 0, 12), (2, 9, 9, 0)] {
        let mut sim = configured(xsize, ysize, n_pred, n_prey);
        assert_counters_match(&sim);
        sim.set_run(true);
        for _ in 0..120 {
            if sim.creatures().len() > 3000 {
                break;
            }
            assert!(sim.can_iterate());
            assert!(sim.iteration());
            assert_counters_match(&sim);
        }
    }
}

#[test]
fn can_iterate_refuses_a_worn_out_creature() {
    let mut sim = Simulation::new(2, 2);
    sim.set_prey_filename("a");
    sim.set_predator_filename("b");
    assert_eq!(sim.config(0, 1, Some("sim hunt E end"), Some("sim hunt E end")), None);
    assert!(sim.can_iterate());
    sim.set_run(true);
    assert!(sim.iteration());
    assert_eq!(sim.creatures()[0].energy(), 101);
    assert!(sim.can_iterate());
}

#[test]
fn grid_statuses_follow_the_population() {
    let mut sim = Simulation::new(3, 1);
    sim.set_prey_filename("a");
    sim.set_predator_filename("b");
    assert_eq!(sim.config(0, 1, Some("sim rest 2 end"), Some("sim rest 2 end")), None);
    let x = sim.creatures()[0].xcoord();
    assert_eq!(sim.grid().loc(x, 0).status(), LocationStatus::PreyHere);
    sim.set_run(true);
    sim.iteration();
    assert_eq!(sim.grid().loc(x, 0).status(), LocationStatus::PreyRestingHere);
    for other in 0..3 {
        if other != x {
            assert_eq!(sim.grid().loc(other, 0).status(), LocationStatus::NothingHere);
        }
    }
}

#[test]
fn creatures_can_be_made_outside_a_simulation() {
    let program = std::rc::Rc::new(sim2::compiler::get_program("sim move E end").unwrap());
    let mut grid = Grid::new(2, 2);
    let c = Creature::new(CreatureType::Prey, 1, 1, program, &mut grid);
    assert_eq!(grid.loc(1, 1).status(), LocationStatus::PreyHere);
    assert_eq!(c.xcoord(), 1);
}

#[test]
fn simulation_without_cells_stays_idle() {
    let mut sim = Simulation::new(0, 0);
    assert_eq!(sim.grid().xsize(), 0);
    sim.set_prey_filename("a");
    sim.set_run(true);
    assert!(!sim.is_running());
    assert!(!sim.iteration());
    assert!(sim.creatures().is_empty());
    assert!(sim.can_iterate());
}
