//! Conventions of Windows.

pub mod args;
