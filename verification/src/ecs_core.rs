//! Entity identifiers and the stores keyed by them.

pub mod component;
pub mod entity;
pub mod resource;
pub mod system;
