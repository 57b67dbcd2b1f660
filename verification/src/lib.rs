//! Logic of a Final Fantasy XIV free-company Discord bot: the Eorzean clock and
//! the gathering-node timetable, the free-company chest page, timed reminders and
//! the small decisions behind the bot's chat commands.

pub mod clock;
pub mod text;
pub mod nodes;
pub mod reminders;
pub mod discord;
pub mod chest;
