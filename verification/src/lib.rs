use vstd::prelude::*;

pub mod dirty;
pub mod canvas;
pub mod graphics;
pub mod strings;
pub mod file_manager;
pub mod state;
pub mod input;
pub mod radiation;
pub mod desktop;
pub mod settings;

verus! {
} // verus!
