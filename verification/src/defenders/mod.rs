//! Baseline defender strategies: one that always lets a call through and one
//! that always refuses it.

pub mod denial;
pub mod permissive;

pub use denial::DefenderDenial;
pub use permissive::DefenderPermissive;
