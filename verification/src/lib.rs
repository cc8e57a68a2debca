//! A predator/prey grid simulation whose creatures are driven by small
//! programs written in the `sim2` language.
//!
//! The library has three layers.
//!
//! - The language: [`lexer`] turns the text of a program into [`token`]s,
//!   [`compiler`] parses the tokens into a [`program`], and a program is run
//!   against the state of a creature to decide what the creature does.
//!   [`grammar`] states the grammar and shows that the parser accepts exactly
//!   its programs, and [`spelling`] that a program can be read back from its
//!   text; [`diagnosis`] says where a text that is no program goes wrong;
//!   [`render`] writes programs out; [`bindings`] holds the variables of a
//!   run.
//! - The world: a [`grid`] of [`location`]s, each of which counts what
//!   stands on it, and the [`creature`]s that move over it. [`census`] shows
//!   that the counters stay with the creatures.
//! - The [`simulation`], which holds a grid, a population and the two
//!   programs, and runs the population tick by tick.
//!
//! Chance enters through [`random`] and nowhere else. Whatever depends on it
//! is also offered as a function of the numbers drawn.

pub mod bindings;
pub mod census;
pub mod compiler;
pub mod creature;
pub mod diagnosis;
pub mod examples;
pub mod grammar;
pub mod grid;
pub mod lexer;
pub mod location;
pub mod program;
pub mod random;
pub mod render;
pub mod simulation;
pub mod spelling;
pub mod token;
