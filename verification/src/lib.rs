//! An event-driven command-dispatch framework for chat bots.
//!
//! Inbound messages are matched against a registry of launch conditions;
//! every matching condition has its typed launch argument built and its
//! handler invoked against a platform control surface. Builders validate
//! condition and service declarations before they become live.

pub mod bot;
pub mod launch_arg;
pub mod launch_type;
pub mod pattern;
pub mod service;
pub mod service_info;
pub mod services;
pub mod structs;
pub mod text;
