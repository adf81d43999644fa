//! An adversarial simulation harness for smart-contract security research:
//! an attacker strategy and a defender strategy play a game over contracts
//! run by an external executor, and the harness reports the attacker's final
//! balance as the game's payoff.
//!
//! This crate holds the game-execution engine: the call-interception
//! controller, the attacker/defender strategy abstraction, and the two
//! bytecode virtual machines used to express defender policies and learned
//! attacker policies. Driving an actual executor, deploying contracts and
//! seeding balances are left to the surrounding program.

pub mod attackers;
pub mod bitops;
pub mod bitwig;
pub mod defenders;
pub mod environment;
pub mod interfaces;
pub mod types;

pub use types::Address;
pub use types::CallOutcome;
pub use types::CallRequest;
pub use types::CallResult;
pub use types::Uint256;
