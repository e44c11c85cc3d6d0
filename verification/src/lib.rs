use vstd::prelude::*;

pub mod text;
pub mod layout;
pub mod compute;
pub mod trail;
pub mod registry;
pub mod shaders;
pub mod mesh_grid;
pub mod widgets;
pub mod galaxy;

verus! {
} // verus!
