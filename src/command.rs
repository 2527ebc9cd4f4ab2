use vstd::prelude::*;
use vstd::string::*;
use crate::text::FormatError;
use crate::time::{parse_time, Time};
use crate::volume::{parse_percent, scaled, Volume, PERCENT_SCALE, RAW_SCALE};

verus! {

/// A timed action of a schedule.
#[derive(Debug, Clone, Copy, PartialEq, Eq, Structural)]
pub enum Command {
    /// When the position enters `[start, end)`, seek to `end`.
    Skip { start: Time, end: Time },
    /// At `start`, remember the volume and silence the player; at `end`, restore it.
    Mute { start: Time, end: Time },
    /// At `at`, set the volume to `amount` unless it is already close to it.
    SetVolume { amount: Volume, at: Time },
}

/// A field of a schedule record as the document gives it.
#[derive(Debug, Clone)]
pub enum FieldValue {
    /// A non-negative integer.
    Number(u64),
    Text(String),
    /// Any other value: a negative or fractional number, a list, a map, ...
    Other,
}

/// One record of a schedule document: the action's name and the fields that
/// the record holds.
#[derive(Debug, Clone)]
pub struct CommandRecord {
    pub action: String,
    pub start: Option<FieldValue>,
    pub end: Option<FieldValue>,
    pub at: Option<FieldValue>,
    pub amount: Option<FieldValue>,
}

/// The fields that a record may hold.
#[derive(Debug, Clone, Copy, PartialEq, Eq, Structural)]
pub enum Field {
    Start,
    End,
    At,
    Amount,
}

/// Why a schedule record does not describe a command.
#[derive(Debug, Clone, Copy, PartialEq, Eq, Structural)]
pub enum ScheduleError {
    /// The action is none of `skip`, `mute` and `set_volume`.
    UnknownAction,
    /// The action needs this field and the record lacks it.
    Missing(Field),
    /// This field's text is not a valid value.
    Invalid(Field, FormatError),
}

/// A time field: a number is seconds, a text is read as `[H:]M:S`, anything
/// else is invalid.
pub open spec fn time_field(v: Option<FieldValue>, field: Field) -> Result<Time, ScheduleError> {
    match v {
        None => Err(ScheduleError::Missing(field)),
        Some(FieldValue::Number(n)) => Ok(Time((n % 0x1_0000_0000) as u32)),
        Some(FieldValue::Text(s)) => match parse_time(s@) {
            Ok(t) => Ok(t),
            Err(e) => Err(ScheduleError::Invalid(field, e)),
        },
        Some(FieldValue::Other) => Err(ScheduleError::Invalid(field, FormatError::Shape)),
    }
}

/// A volume field: a number is on the player's scale, a text is in percent,
/// anything else is invalid.
pub open spec fn volume_field(v: Option<FieldValue>, field: Field) -> Result<Volume, ScheduleError> {
    match v {
        None => Err(ScheduleError::Missing(field)),
        Some(FieldValue::Number(n)) => Ok(
            Volume(scaled((n % 0x1_0000_0000) as nat, RAW_SCALE as nat, PERCENT_SCALE as nat) as u32),
        ),
        Some(FieldValue::Text(s)) => match parse_percent(s@) {
            Ok(v) => Ok(v),
            Err(e) => Err(ScheduleError::Invalid(field, e)),
        },
        Some(FieldValue::Other) => Err(ScheduleError::Invalid(field, FormatError::Shape)),
    }
}

/// The command a record describes: the action is read first, then its fields
/// in the order `start`, `end` (skip and mute) or `amount`, `at` (set_volume).
pub open spec fn decode_record(r: CommandRecord) -> Result<Command, ScheduleError> {
    if r.action@ == "skip"@ || r.action@ == "mute"@ {
        match time_field(r.start, Field::Start) {
            Err(e) => Err(e),
            Ok(start) => match time_field(r.end, Field::End) {
                Err(e) => Err(e),
                Ok(end) => if r.action@ == "skip"@ {
                    Ok(Command::Skip { start, end })
                } else {
                    Ok(Command::Mute { start, end })
                },
            },
        }
    } else if r.action@ == "set_volume"@ {
        match volume_field(r.amount, Field::Amount) {
            Err(e) => Err(e),
            Ok(amount) => match time_field(r.at, Field::At) {
                Err(e) => Err(e),
                Ok(at) => Ok(Command::SetVolume { amount, at }),
            },
        }
    } else {
        Err(ScheduleError::UnknownAction)
    }
}

/// The commands of a list of records, or the error of its first bad record.
pub open spec fn decode_records(rs: Seq<CommandRecord>) -> Result<Seq<Command>, ScheduleError>
    decreases rs.len(),
{
    if rs.len() == 0 {
        Ok(Seq::empty())
    } else {
        match decode_records(rs.drop_last()) {
            Err(e) => Err(e),
            Ok(cs) => match decode_record(rs.last()) {
                Err(e) => Err(e),
                Ok(c) => Ok(cs.push(c)),
            },
        }
    }
}

fn read_time_field(v: &Option<FieldValue>, field: Field) -> (r: Result<Time, ScheduleError>)
    ensures
        r == time_field(*v, field),
{
    match v {
        None => Err(ScheduleError::Missing(field)),
        Some(FieldValue::Number(n)) => Ok(Time::from_numeric(*n)),
        Some(FieldValue::Text(s)) => match Time::from_text(s.as_str()) {
            Ok(t) => Ok(t),
            Err(e) => Err(ScheduleError::Invalid(field, e)),
        },
        Some(FieldValue::Other) => Err(ScheduleError::Invalid(field, FormatError::Shape)),
    }
}

fn read_volume_field(v: &Option<FieldValue>, field: Field) -> (r: Result<Volume, ScheduleError>)
    ensures
        r == volume_field(*v, field),
{
    match v {
        None => Err(ScheduleError::Missing(field)),
        Some(FieldValue::Number(n)) => Ok(Volume::from_numeric(*n)),
        Some(FieldValue::Text(s)) => match Volume::from_text(s.as_str()) {
            Ok(v) => Ok(v),
            Err(e) => Err(ScheduleError::Invalid(field, e)),
        },
        Some(FieldValue::Other) => Err(ScheduleError::Invalid(field, FormatError::Shape)),
    }
}

impl Command {
    /// The command that a schedule record describes.
    pub fn from_record(record: &CommandRecord) -> (r: Result<Command, ScheduleError>)
        ensures
            r == decode_record(*record),
    {
        let skip = String::from_str("skip");
        let mute = String::from_str("mute");
        let set_volume = String::from_str("set_volume");
        if record.action == skip || record.action == mute {
            let start = match read_time_field(&record.start, Field::Start) {
                Ok(t) => t,
                Err(e) => return Err(e),
            };
            let end = match read_time_field(&record.end, Field::End) {
                Ok(t) => t,
                Err(e) => return Err(e),
            };
            if record.action == skip {
                Ok(Command::Skip { start, end })
            } else {
                Ok(Command::Mute { start, end })
            }
        } else if record.action == set_volume {
            let amount = match read_volume_field(&record.amount, Field::Amount) {
                Ok(v) => v,
                Err(e) => return Err(e),
            };
            let at = match read_time_field(&record.at, Field::At) {
                Ok(t) => t,
                Err(e) => return Err(e),
            };
            Ok(Command::SetVolume { amount, at })
        } else {
            Err(ScheduleError::UnknownAction)
        }
    }
}

/// Once a prefix of the records fails, the whole list fails with its error.
proof fn lemma_first_error_stands(rs: Seq<CommandRecord>, j: int)
    requires
        0 <= j <= rs.len(),
        decode_records(rs.take(j)) is Err,
    ensures
        decode_records(rs) == decode_records(rs.take(j)),
    decreases rs.len(),
{
    if j < rs.len() {
        assert(rs.drop_last().take(j) =~= rs.take(j));
        lemma_first_error_stands(rs.drop_last(), j);
    } else {
        assert(rs.take(j) =~= rs);
    }
}

/// The commands of a schedule document's records, in order, or the error of
/// the first record that describes no command.
pub fn decode_schedule(records: &Vec<CommandRecord>) -> (r: Result<Vec<Command>, ScheduleError>)
    ensures
        r matches Ok(cs) ==> decode_records(records@) == Ok::<Seq<Command>, ScheduleError>(cs@),
        r matches Err(e) ==> decode_records(records@) == Err::<Seq<Command>, ScheduleError>(e),
{
    let mut commands: Vec<Command> = Vec::new();
    let mut i: usize = 0;
    while i < records.len()
        invariant
            i <= records@.len(),
            decode_records(records@.take(i as int)) == Ok::<Seq<Command>, ScheduleError>(commands@),
        decreases records@.len() - i,
    {
        assert(records@.take(i + 1).drop_last() =~= records@.take(i as int));
        match Command::from_record(&records[i]) {
            Ok(c) => {
                commands.push(c);
            },
            Err(e) => {
                proof {
                    lemma_first_error_stands(records@, i + 1);
                }
                return Err(e);
            },
        }
        i = i + 1;
    }
    assert(records@.take(records@.len() as int) =~= records@);
    Ok(commands)
}

} // verus!
