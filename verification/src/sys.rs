//! Conventions of the platforms that the search runs on.

pub mod windows;
