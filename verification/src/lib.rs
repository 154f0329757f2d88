//! Command logic of a Discord bot: replies, games, reminders and birthdays.
use vstd::prelude::*;

pub mod birthday;
pub mod calendar;
pub mod clock;
pub mod decimal;
pub mod random;
pub mod record;
pub mod remind;
pub mod replies;
pub mod rps;
pub mod weather;

verus! {

/// Per-bot data shared by every command invocation; the bot keeps none.
pub struct Data {}

} // verus!
