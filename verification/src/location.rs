//! Per-cell aggregate counters of the simulation grid.
//!
//! A [`Location`] does not know the creatures that stand on it. It only keeps
//! counts, and every count is moved by the creature that enters, leaves, rests,
//! wakes, is marked as killed or is consumed. Each method changes the counters
//! by exactly the amount its contract states, so callers can keep the counts
//! equal to the population they describe.

use vstd::prelude::*;

verus! {

/// A creature is eligible to breed while its energy is above this value.
pub const BREED_ENERGY_THRESHOLD: i32 = 25;

/// What a cell shows to a renderer.
#[derive(Clone, Copy, Debug, PartialEq, Eq, Structural)]
pub enum LocationStatus {
    PreyHere,
    PredHere,
    PreyRestingHere,
    PredRestingHere,
    NothingHere,
}

/// The counters of one cell as mathematical integers.
pub struct LocationView {
    /// Visible prey.
    pub prey_num: int,
    /// Visible predators.
    pub pred_num: int,
    /// Visible prey whose energy is above the breeding threshold.
    pub prey_breed: int,
    /// Visible predators whose energy is above the breeding threshold.
    pub pred_breed: int,
    /// Prey that are out of sight (resting or recovering from breeding).
    pub prey_resting: int,
    /// Predators that are out of sight.
    pub pred_resting: int,
    /// Prey marked as killed and not yet consumed.
    pub prey_kill: int,
}

impl LocationView {
    /// The cell on which nothing stands.
    pub open spec fn empty() -> LocationView {
        LocationView {
            prey_num: 0,
            pred_num: 0,
            prey_breed: 0,
            pred_breed: 0,
            prey_resting: 0,
            pred_resting: 0,
            prey_kill: 0,
        }
    }

    /// 1 where `energy` makes a creature eligible to breed, else 0.
    pub open spec fn breed_unit(energy: int) -> int {
        if energy > BREED_ENERGY_THRESHOLD {
            1
        } else {
            0
        }
    }

    /// One more of the visible predators may breed.
    pub open spec fn add_breeding_predator(self) -> LocationView {
        LocationView { pred_breed: self.pred_breed + 1, ..self }
    }

    /// One fewer of the visible predators may breed.
    pub open spec fn remove_breeding_predator(self) -> LocationView {
        LocationView { pred_breed: self.pred_breed - 1, ..self }
    }

    /// A visible predator with this energy enters the cell.
    pub open spec fn add_predator(self, energy: int) -> LocationView {
        LocationView {
            pred_num: self.pred_num + 1,
            pred_breed: self.pred_breed + Self::breed_unit(energy),
            ..self
        }
    }

    /// A visible predator with this energy leaves the cell.
    pub open spec fn remove_predator(self, energy: int) -> LocationView {
        LocationView {
            pred_num: self.pred_num - 1,
            pred_breed: self.pred_breed - Self::breed_unit(energy),
            ..self
        }
    }

    /// One more predator is out of sight.
    pub open spec fn add_resting_predator(self) -> LocationView {
        LocationView { pred_resting: self.pred_resting + 1, ..self }
    }

    /// One fewer predator is out of sight.
    pub open spec fn remove_resting_predator(self) -> LocationView {
        LocationView { pred_resting: self.pred_resting - 1, ..self }
    }

    /// A visible creature goes out of sight.
    pub open spec fn rest_predator(self, energy: int) -> LocationView {
        self.remove_predator(energy).add_resting_predator()
    }

    /// A creature that was out of sight becomes visible again.
    pub open spec fn awake_predator(self, energy: int) -> LocationView {
        self.add_predator(energy).remove_resting_predator()
    }

    /// One more of the visible prey may breed.
    pub open spec fn add_breeding_prey(self) -> LocationView {
        LocationView { prey_breed: self.prey_breed + 1, ..self }
    }

    /// One fewer of the visible prey may breed.
    pub open spec fn remove_breeding_prey(self) -> LocationView {
        LocationView { prey_breed: self.prey_breed - 1, ..self }
    }

    /// A visible prey with this energy enters the cell.
    pub open spec fn add_prey(self, energy: int) -> LocationView {
        LocationView {
            prey_num: self.prey_num + 1,
            prey_breed: self.prey_breed + Self::breed_unit(energy),
            ..self
        }
    }

    /// A visible prey with this energy leaves the cell.
    pub open spec fn remove_prey(self, energy: int) -> LocationView {
        LocationView {
            prey_num: self.prey_num - 1,
            prey_breed: self.prey_breed - Self::breed_unit(energy),
            ..self
        }
    }

    /// One more prey is out of sight.
    pub open spec fn add_resting_prey(self) -> LocationView {
        LocationView { prey_resting: self.prey_resting + 1, ..self }
    }

    /// One fewer prey is out of sight.
    pub open spec fn remove_resting_prey(self) -> LocationView {
        LocationView { prey_resting: self.prey_resting - 1, ..self }
    }

    /// A visible creature goes out of sight.
    pub open spec fn rest_prey(self, energy: int) -> LocationView {
        self.remove_prey(energy).add_resting_prey()
    }

    /// A creature that was out of sight becomes visible again.
    pub open spec fn awake_prey(self, energy: int) -> LocationView {
        self.add_prey(energy).remove_resting_prey()
    }

    /// One more prey is marked as killed.
    pub open spec fn kill_prey(self) -> LocationView {
        LocationView { prey_kill: self.prey_kill + 1, ..self }
    }

    /// A prey that was marked as killed is consumed: it leaves the visible
    /// prey and takes one mark with it.
    pub open spec fn remove_killed_prey(self) -> LocationView {
        LocationView { prey_num: self.prey_num - 1, prey_kill: self.prey_kill - 1, ..self }
    }

    /// Prey is in sight.
    pub open spec fn has_prey(self) -> bool {
        self.prey_num > 0
    }

    /// A prey is marked as killed.
    pub open spec fn has_killed_prey(self) -> bool {
        self.prey_kill > 0
    }

    /// Another prey that may breed stands here besides the one that asks.
    pub open spec fn prey_has_partner(self) -> bool {
        self.prey_breed > 1
    }

    /// Another predator that may breed stands here besides the one that asks.
    pub open spec fn predator_has_partner(self) -> bool {
        self.pred_breed > 1
    }

    /// The rendering class of the cell: a visible predator outranks visible
    /// prey, which outranks a resting predator, which outranks resting prey.
    pub open spec fn status(self) -> LocationStatus {
        if self.pred_num > 0 {
            LocationStatus::PredHere
        } else if self.prey_num > 0 {
            LocationStatus::PreyHere
        } else if self.pred_resting > 0 {
            LocationStatus::PredRestingHere
        } else if self.prey_resting > 0 {
            LocationStatus::PreyRestingHere
        } else {
            LocationStatus::NothingHere
        }
    }

    /// Every counter lies in `[lo, hi]`.
    pub open spec fn within(self, lo: int, hi: int) -> bool {
        &&& lo <= self.prey_num <= hi
        &&& lo <= self.pred_num <= hi
        &&& lo <= self.prey_breed <= hi
        &&& lo <= self.pred_breed <= hi
        &&& lo <= self.prey_resting <= hi
        &&& lo <= self.pred_resting <= hi
        &&& lo <= self.prey_kill <= hi
    }
}

/// The counters of one grid cell.
pub struct Location {
    prey_num: i32,
    pred_num: i32,
    prey_breed: i32,
    pred_breed: i32,
    prey_resting: i32,
    pred_resting: i32,
    prey_kill: i32,
}

impl View for Location {
    type V = LocationView;

    closed spec fn view(&self) -> LocationView {
        LocationView {
            prey_num: self.prey_num as int,
            pred_num: self.pred_num as int,
            prey_breed: self.prey_breed as int,
            pred_breed: self.pred_breed as int,
            prey_resting: self.prey_resting as int,
            pred_resting: self.pred_resting as int,
            prey_kill: self.prey_kill as int,
        }
    }
}

impl Location {
    /// The counters are machine integers.
    pub proof fn lemma_view_bounded(&self)
        ensures
            self@.within(i32::MIN as int, i32::MAX as int),
    {
    }

    /// The cell on which nothing stands.
    pub fn new() -> (loc: Location)
        ensures
            loc@ == LocationView::empty(),
    {
        Location {
            prey_num: 0,
            pred_num: 0,
            prey_breed: 0,
            pred_breed: 0,
            prey_resting: 0,
            pred_resting: 0,
            prey_kill: 0,
        }
    }

    /// Whether prey is in sight.
    pub fn has_prey(&self) -> (b: bool)
        ensures
            b == self@.has_prey(),
    {
        self.prey_num > 0
    }

    /// Whether a prey is marked as killed.
    pub fn has_killed_prey(&self) -> (b: bool)
        ensures
            b == self@.has_killed_prey(),
    {
        self.prey_kill > 0
    }

    /// Whether more than one of the visible prey may breed.
    pub fn prey_has_partner(&self) -> (b: bool)
        ensures
            b == self@.prey_has_partner(),
    {
        self.prey_breed > 1
    }

    /// Whether more than one of the visible predators may breed.
    pub fn predator_has_partner(&self) -> (b: bool)
        ensures
            b == self@.predator_has_partner(),
    {
        self.pred_breed > 1
    }

    /// Counts one more of the visible predators as a breeder.
    pub fn add_breeding_predator(&mut self)
        requires
            old(self)@.pred_breed < i32::MAX,
        ensures
            final(self)@ == old(self)@.add_breeding_predator(),
    {
        self.pred_breed += 1;
    }

    /// Counts one fewer of the visible predators as a breeder.
    pub fn remove_breeding_predator(&mut self)
        requires
            old(self)@.pred_breed > i32::MIN,
        ensures
            final(self)@ == old(self)@.remove_breeding_predator(),
    {
        self.pred_breed -= 1;
    }

    /// A visible predator with this energy enters the cell.
    pub fn add_predator(&mut self, energy: i32)
        requires
            old(self)@.pred_num < i32::MAX,
            energy > BREED_ENERGY_THRESHOLD ==> old(self)@.pred_breed < i32::MAX,
        ensures
            final(self)@ == old(self)@.add_predator(energy as int),
    {
        self.pred_num += 1;
        if energy > BREED_ENERGY_THRESHOLD {
            self.pred_breed += 1;
        }
    }

    /// A visible predator with this energy leaves the cell.
    pub fn remove_predator(&mut self, energy: i32)
        requires
            old(self)@.pred_num > i32::MIN,
            energy > BREED_ENERGY_THRESHOLD ==> old(self)@.pred_breed > i32::MIN,
        ensures
            final(self)@ == old(self)@.remove_predator(energy as int),
    {
        self.pred_num -= 1;
        if energy > BREED_ENERGY_THRESHOLD {
            self.pred_breed -= 1;
        }
    }

    /// Counts one more predator out of sight.
    pub fn add_resting_predator(&mut self)
        requires
            old(self)@.pred_resting < i32::MAX,
        ensures
            final(self)@ == old(self)@.add_resting_predator(),
    {
        self.pred_resting += 1;
    }

    /// Counts one fewer predator out of sight.
    pub fn remove_resting_predator(&mut self)
        requires
            old(self)@.pred_resting > i32::MIN,
        ensures
            final(self)@ == old(self)@.remove_resting_predator(),
    {
        self.pred_resting -= 1;
    }

    /// A visible predator with this energy goes out of sight.
    pub fn rest_predator(&mut self, energy: i32)
        requires
            old(self)@.pred_num > i32::MIN,
            energy > BREED_ENERGY_THRESHOLD ==> old(self)@.pred_breed > i32::MIN,
            old(self)@.pred_resting < i32::MAX,
        ensures
            final(self)@ == old(self)@.rest_predator(energy as int),
    {
        self.remove_predator(energy);
        self.add_resting_predator();
    }

    /// A predator with this energy that was out of sight becomes visible.
    pub fn awake_predator(&mut self, energy: i32)
        requires
            old(self)@.pred_num < i32::MAX,
            energy > BREED_ENERGY_THRESHOLD ==> old(self)@.pred_breed < i32::MAX,
            old(self)@.pred_resting > i32::MIN,
        ensures
            final(self)@ == old(self)@.awake_predator(energy as int),
    {
        self.add_predator(energy);
        self.remove_resting_predator();
    }

    /// Counts one more of the visible prey as a breeder.
    pub fn add_breeding_prey(&mut self)
        requires
            old(self)@.prey_breed < i32::MAX,
        ensures
            final(self)@ == old(self)@.add_breeding_prey(),
    {
        self.prey_breed += 1;
    }

    /// Counts one fewer of the visible prey as a breeder.
    pub fn remove_breeding_prey(&mut self)
        requires
            old(self)@.prey_breed > i32::MIN,
        ensures
            final(self)@ == old(self)@.remove_breeding_prey(),
    {
        self.prey_breed -= 1;
    }

    /// A visible prey with this energy enters the cell.
    pub fn add_prey(&mut self, energy: i32)
        requires
            old(self)@.prey_num < i32::MAX,
            energy > BREED_ENERGY_THRESHOLD ==> old(self)@.prey_breed < i32::MAX,
        ensures
            final(self)@ == old(self)@.add_prey(energy as int),
    {
        self.prey_num += 1;
        if energy > BREED_ENERGY_THRESHOLD {
            self.prey_breed += 1;
        }
    }

    /// A visible prey with this energy leaves the cell.
    pub fn remove_prey(&mut self, energy: i32)
        requires
            old(self)@.prey_num > i32::MIN,
            energy > BREED_ENERGY_THRESHOLD ==> old(self)@.prey_breed > i32::MIN,
        ensures
            final(self)@ == old(self)@.remove_prey(energy as int),
    {
        self.prey_num -= 1;
        if energy > BREED_ENERGY_THRESHOLD {
            self.prey_breed -= 1;
        }
    }

    /// Counts one more prey out of sight.
    pub fn add_resting_prey(&mut self)
        requires
            old(self)@.prey_resting < i32::MAX,
        ensures
            final(self)@ == old(self)@.add_resting_prey(),
    {
        self.prey_resting += 1;
    }

    /// Counts one fewer prey out of sight.
    pub fn remove_resting_prey(&mut self)
        requires
            old(self)@.prey_resting > i32::MIN,
        ensures
            final(self)@ == old(self)@.remove_resting_prey(),
    {
        self.prey_resting -= 1;
    }

    /// A visible prey with this energy goes out of sight.
    pub fn rest_prey(&mut self, energy: i32)
        requires
            old(self)@.prey_num > i32::MIN,
            energy > BREED_ENERGY_THRESHOLD ==> old(self)@.prey_breed > i32::MIN,
            old(self)@.prey_resting < i32::MAX,
        ensures
            final(self)@ == old(self)@.rest_prey(energy as int),
    {
        self.remove_prey(energy);
        self.add_resting_prey();
    }

    /// A prey with this energy that was out of sight becomes visible.
    pub fn awake_prey(&mut self, energy: i32)
        requires
            old(self)@.prey_num < i32::MAX,
            energy > BREED_ENERGY_THRESHOLD ==> old(self)@.prey_breed < i32::MAX,
            old(self)@.prey_resting > i32::MIN,
        ensures
            final(self)@ == old(self)@.awake_prey(energy as int),
    {
        self.add_prey(energy);
        self.remove_resting_prey();
    }

    /// Marks one prey of the cell as killed.
    pub fn kill_prey(&mut self)
        requires
            old(self)@.prey_kill < i32::MAX,
        ensures
            final(self)@ == old(self)@.kill_prey(),
    {
        self.prey_kill += 1
    }

    /// A prey that was marked as killed is consumed.
    pub fn remove_killed_prey(&mut self)
        requires
            old(self)@.prey_num > i32::MIN,
            old(self)@.prey_kill > i32::MIN,
        ensures
            final(self)@ == old(self)@.remove_killed_prey(),
    {
        self.prey_num -= 1;
        self.prey_kill -= 1;
    }

    /// The number of visible predators.
    pub fn predators(&self) -> (n: i32)
        ensures
            n == self@.pred_num,
    {
        self.pred_num
    }

    /// The number of visible prey.
    pub fn prey(&self) -> (n: i32)
        ensures
            n == self@.prey_num,
    {
        self.prey_num
    }

    /// The number of visible predators that may breed.
    pub fn breeding_predators(&self) -> (n: i32)
        ensures
            n == self@.pred_breed,
    {
        self.pred_breed
    }

    /// The number of visible prey that may breed.
    pub fn breeding_prey(&self) -> (n: i32)
        ensures
            n == self@.prey_breed,
    {
        self.prey_breed
    }

    /// The number of predators out of sight.
    pub fn resting_predators(&self) -> (n: i32)
        ensures
            n == self@.pred_resting,
    {
        self.pred_resting
    }

    /// The number of prey out of sight.
    pub fn resting_prey(&self) -> (n: i32)
        ensures
            n == self@.prey_resting,
    {
        self.prey_resting
    }

    /// The number of prey marked as killed and not yet consumed.
    pub fn killed_prey(&self) -> (n: i32)
        ensures
            n == self@.prey_kill,
    {
        self.prey_kill
    }

    /// Every counter lies in `[lo, hi]`.
    pub fn is_within(&self, lo: i32, hi: i32) -> (within: bool)
        ensures
            within == self@.within(lo as int, hi as int),
    {
        lo <= self.prey_num && self.prey_num <= hi && lo <= self.pred_num && self.pred_num <= hi && lo
            <= self.prey_breed && self.prey_breed <= hi && lo <= self.pred_breed && self.pred_breed <= hi && lo
            <= self.prey_resting && self.prey_resting <= hi && lo <= self.pred_resting && self.pred_resting <= hi
            && lo <= self.prey_kill && self.prey_kill <= hi
    }

    /// Classifies the cell for rendering.
    pub fn status(&self) -> (s: LocationStatus)
        ensures
            s == self@.status(),
    {
        if self.pred_num > 0 {
            return LocationStatus::PredHere;
        }
        if self.prey_num > 0 {
            return LocationStatus::PreyHere;
        }
        if self.pred_resting > 0 {
            return LocationStatus::PredRestingHere;
        }
        if self.prey_resting > 0 {
            return LocationStatus::PreyRestingHere;
        }
        LocationStatus::NothingHere
    }
}

} // verus!
