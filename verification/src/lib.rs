//! Spear: the query logic of a desktop launcher — built-in search
//! providers, their result items, the routing of a query to providers and
//! the arithmetic-expression grammar of the calculator.
use vstd::prelude::*;

pub mod text;
pub mod laws;
pub mod math;
pub mod plugin_manager;
pub mod plugins;
pub mod settings;

verus! {
} // verus!
