//! Application domains: a tree of name registries with per-domain linear
//! memory, held in an index-addressed heap.

pub mod class;
pub mod domain;
pub mod font_object;
pub mod laws;
pub mod lookup;
pub mod memory;
pub mod names;
pub mod property_map;
pub mod registry;
pub mod textual;
