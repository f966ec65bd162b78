//! Verified core of the `layanow` multiple-choice assistant: capture sessions,
//! quiz parsing, Laya input rendering, the overlay and worker state machines,
//! and the bundle integrity rules.

pub mod text;
pub mod capture;
pub mod render;
pub mod files;
pub mod control;
pub mod resolvers;
pub mod settings;
pub mod worker;
pub mod overlay;
pub mod platform;
pub mod assist;
pub mod bundle;
pub mod model;
