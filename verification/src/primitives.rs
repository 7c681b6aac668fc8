//! The objects of a package, as far as their fields are read.

pub mod materials;
pub mod reference;
