//! Attacker strategies: a scripted replay attacker and one driven by the
//! register-script virtual machine.

pub mod fixed;
pub mod neural;

pub use fixed::AttackerFixed;
pub use neural::AttackerNeural;
