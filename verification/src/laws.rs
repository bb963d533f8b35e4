//! What the operations are for, said of the operations themselves.
//!
//! Every law takes the arguments and the result of a call and says how they
//! relate. Where a call changes a value, `before` and `after` are that value
//! around the call.

pub mod casts;
pub mod choosing;
pub mod editing;
pub mod exchanges;
pub mod listings;
pub mod maps;
pub mod paths;
pub mod portals;
pub mod prompts;
pub mod secrets;
pub mod texts;
pub mod vaults;
pub mod wires;
