//! Lenient parser for LED commands received as ASCII bytes over a UART link.
//!
//! A command reads `esp <led> <state>`, where `<led>` is one of `led1` to
//! `led4` and `<state>` is `on` or `off`. Matching is lenient: a keyword is
//! recognised wherever it occurs as a contiguous run of bytes inside the
//! segment that is scanned for it.

pub mod command;
pub mod led;
mod literal;
pub mod locate;
pub mod state;
pub mod wire_format;

pub use command::{parse_uart, Command};
pub use led::Led;
pub use locate::{find_subsequence, split_after};
pub use state::LedState;
