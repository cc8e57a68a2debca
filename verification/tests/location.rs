use sim2::compiler::get_program;
use sim2::creature::{Creature, CreatureType};
use sim2::grid::{Grid, HasLocation};
use sim2::location::{Location, LocationStatus, BREED_ENERGY_THRESHOLD};
use std::rc::Rc;

fn counters(l: &Location) -> [i32; 7] {
    [
        l.predators(),
        l.prey(),
        l.breeding_predators(),
        l.breeding_prey(),
        l.resting_predators(),
        l.resting_prey(),
        l.killed_prey(),
    ]
}

#[test]
fn new_location_is_empty() {
    let l = Location::new();
    assert_eq!(counters(&l), [0, 0, 0, 0, 0, 0, 0]);
    assert_eq!(l.status(), LocationStatus::NothingHere);
    assert!(!l.has_prey());
    assert!(!l.has_killed_prey());
    assert!(!l.prey_has_partner());
    assert!(!l.predator_has_partner());
}

#[test]
fn breed_threshold_is_exclusive() {
    assert_eq!(BREED_ENERGY_THRESHOLD, 25);
    let mut l = Location::new();
    l.add_predator(25);
    assert_eq!(counters(&l), [1, 0, 0, 0, 0, 0, 0]);
    l.add_predator(26);
    assert_eq!(counters(&l), [2, 0, 1, 0, 0, 0, 0]);
    l.add_prey(25);
    l.add_prey(26);
    assert_eq!(counters(&l), [2, 2, 1, 1, 0, 0, 0]);
    l.remove_predator(25);
    assert_eq!(counters(&l), [1, 2, 1, 1, 0, 0, 0]);
    l.remove_predator(100);
    assert_eq!(counters(&l), [0, 2, 0, 1, 0, 0, 0]);
    l.remove_prey(26);
    l.remove_prey(0);
    assert_eq!(counters(&l), [0, 0, 0, 0, 0, 0, 0]);
}

#[test]
fn partner_needs_two_breeders() {
    let mut l = Location::new();
    l.add_breeding_predator();
    assert!(!l.predator_has_partner());
    l.add_breeding_predator();
    assert!(l.predator_has_partner());
    assert!(!l.prey_has_partner());
    l.remove_breeding_predator();
    assert!(!l.predator_has_partner());
    l.add_breeding_prey();
    l.add_breeding_prey();
    assert!(l.prey_has_partner());
    l.remove_breeding_prey();
    assert!(!l.prey_has_partner());
    assert_eq!(counters(&l), [0, 0, 1, 1, 0, 0, 0]);
}

#[test]
fn rest_and_awake_move_between_counters() {
    let mut l = Location::new();
    l.add_predator(100);
    l.add_prey(10);
    l.rest_predator(100);
    assert_eq!(counters(&l), [0, 1, 0, 0, 1, 0, 0]);
    l.rest_prey(10);
    assert_eq!(counters(&l), [0, 0, 0, 0, 1, 1, 0]);
    l.awake_predator(20);
    assert_eq!(counters(&l), [1, 0, 0, 0, 0, 1, 0]);
    l.awake_prey(30);
    assert_eq!(counters(&l), [1, 1, 0, 1, 0, 0, 0]);
    l.add_resting_predator();
    l.add_resting_prey();
    assert_eq!(counters(&l), [1, 1, 0, 1, 1, 1, 0]);
    l.remove_resting_predator();
    l.remove_resting_prey();
    assert_eq!(counters(&l), [1, 1, 0, 1, 0, 0, 0]);
}

#[test]
fn killed_prey_is_deferred() {
    let mut l = Location::new();
    l.add_prey(100);
    l.add_prey(100);
    assert!(l.has_prey());
    assert!(!l.has_killed_prey());
    l.kill_prey();
    assert!(l.has_killed_prey());
    assert_eq!(counters(&l), [0, 2, 0, 2, 0, 0, 1]);
    l.remove_killed_prey();
    assert!(!l.has_killed_prey());
    assert_eq!(counters(&l), [0, 1, 0, 2, 0, 0, 0]);
}

#[test]
fn removing_from_empty_goes_negative() {
    let mut l = Location::new();
    l.remove_predator(100);
    assert_eq!(counters(&l), [-1, 0, -1, 0, 0, 0, 0]);
    assert_eq!(l.status(), LocationStatus::NothingHere);
}

#[test]
fn status_priority() {
    let mut l = Location::new();
    l.add_resting_prey();
    assert_eq!(l.status(), LocationStatus::PreyRestingHere);
    l.add_resting_predator();
    assert_eq!(l.status(), LocationStatus::PredRestingHere);
    l.add_prey(1);
    assert_eq!(l.status(), LocationStatus::PreyHere);
    l.add_predator(1);
    assert_eq!(l.status(), LocationStatus::PredHere);
    l.remove_prey(1);
    assert_eq!(l.status(), LocationStatus::PredHere);
    l.remove_predator(1);
    assert_eq!(l.status(), LocationStatus::PredRestingHere);
}

#[test]
fn is_within_checks_every_counter() {
    let mut l = Location::new();
    assert!(l.is_within(0, 0));
    l.kill_prey();
    assert!(!l.is_within(0, 0));
    assert!(l.is_within(0, 1));
    l.remove_resting_prey();
    assert!(!l.is_within(0, 1));
    assert!(l.is_within(-1, 1));
}

#[test]
fn grid_new_is_empty() {
    let grid = Grid::new(4, 3);
    assert_eq!(grid.xsize(), 4);
    assert_eq!(grid.ysize(), 3);
    for x in 0..4 {
        for y in 0..3 {
            assert_eq!(counters(grid.loc(x, y)), [0, 0, 0, 0, 0, 0, 0]);
        }
    }
    let none = Grid::new(0, 0);
    assert_eq!(none.xsize(), 0);
    assert_eq!(none.ysize(), 0);
}

#[test]
fn grid_location_changes_one_cell() {
    let program = Rc::new(get_program("sim move E end").unwrap());
    let mut grid = Grid::new(4, 3);
    let predator = Creature::new(CreatureType::Predator, 3, 2, program.clone(), &mut grid);
    let prey = Creature::new(CreatureType::Prey, 0, 1, program, &mut grid);
    assert_eq!((predator.xcoord(), predator.ycoord()), (3, 2));
    assert_eq!((prey.xcoord(), prey.ycoord()), (0, 1));
    grid.location(&predator).kill_prey();
    grid.location(&prey).add_resting_prey();
    for x in 0..4 {
        for y in 0..3 {
            let expected = if (x, y) == (3, 2) {
                [1, 0, 1, 0, 0, 0, 1]
            } else if (x, y) == (0, 1) {
                [0, 1, 0, 1, 0, 1, 0]
            } else {
                [0; 7]
            };
            assert_eq!(counters(grid.loc(x, y)), expected);
        }
    }
    assert_eq!(grid.loc(3, 2).status(), LocationStatus::PredHere);
    assert_eq!(grid.loc(0, 1).status(), LocationStatus::PreyHere);
    assert_eq!(grid.loc(1, 1).status(), LocationStatus::NothingHere);
}
