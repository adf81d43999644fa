//! The game-execution engine proper: the bit-policy language the defender
//! programs are written in, the strategy interfaces, and the call
//! interception controller that plays one game over an external executor.

pub mod bitwig;
pub mod inspector;
pub mod interfaces;
