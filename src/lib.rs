//! Random-encounter tables for tabletop play: a dice-notation evaluator, a
//! resolver that maps a roll to the first table entry claiming it, a parser
//! for the typed command language, and the session that carries commands out.
use vstd::prelude::*;

pub mod api;
pub mod command;
pub mod console;
pub mod dice;
pub mod report;
pub mod session;
pub mod table;
pub mod text;

pub use api::{roll, roll_on};
pub use command::{classify, parse_command, Command};
pub use console::{Wayline, Message};
pub use dice::{evaluate, parse_dice, DiceError};
pub use session::Session;
pub use table::{Entry, Table};

verus! {

} // verus!
