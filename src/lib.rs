//! Scheduled playback actions for a media player: time and volume values,
//! the schedule of timed actions, a per-media schedule cache and the
//! decisions taken on each poll of the player.

pub mod text;
pub mod time;
pub mod volume;
pub mod command;
pub mod cache;
pub mod player;
pub mod controller;

pub use cache::{schedule_path, CommandCache, LoadReport, ScheduleLoad};
pub use command::{decode_schedule, Command, CommandRecord, Field, FieldValue, ScheduleError};
pub use controller::{Control, Controller, Notice, Step, VOLUME_TOLERANCE};
pub use player::{Credentials, Meta, Status};
pub use text::FormatError;
pub use time::{difference, Time};
pub use volume::{abs_difference, Volume, PERCENT_SCALE, RAW_SCALE};
