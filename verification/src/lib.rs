use vstd::prelude::*;

pub mod paths;
pub mod terminal;
pub mod text;
pub mod types;
pub mod filetype;
pub mod fs;
pub mod nav;
pub mod open;
pub mod ops;
pub mod keys;
pub mod actions;
pub mod config;
pub mod help;
pub mod plugin;
pub mod view;
pub mod state;
pub mod registry;
pub mod events;
pub mod intents;

verus! {

} // verus!
