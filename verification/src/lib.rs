//! The `unitrait!` procedural macro's logic.
use vstd::prelude::*;

pub mod tokens;
pub mod syntax;
pub mod marker;
pub mod out;
pub mod attrs;
pub mod bounds;
pub mod input;
pub mod shape;
pub mod render;
pub mod bridge;
pub mod template;
pub mod expand;
pub mod laws;
