//! Password quality: composing candidate passwords under a policy,
//! rating the strength of any password, and deciding from single keystrokes
//! whether a weak password may still be kept.

pub mod charset;
pub mod gate;
pub mod generator;
pub mod policy;
pub mod record;
pub mod strength;
pub mod text;
