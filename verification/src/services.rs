//! Example services shipped with the framework.

pub mod argtest;
pub mod ping;
