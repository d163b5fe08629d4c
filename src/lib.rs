//! Small system metrics ("gadgets") rendered as one status line.

pub mod collect;
pub mod gadget;
pub mod text;

pub use gadget::{Findings, Gadget, GadgetResult, Probe, ProbeMode};
