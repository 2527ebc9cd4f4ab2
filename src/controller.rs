use vstd::prelude::*;
use crate::command::Command;
use crate::time::{difference, seconds_between, Time};
use crate::player::Status;
use crate::volume::{abs_difference, volume_distance, Volume};

verus! {

/// How far the volume may be from a scheduled volume without being set again.
pub const VOLUME_TOLERANCE: u32 = 2;

/// A request to the player.
#[derive(Debug, Clone, Copy, PartialEq, Eq, Structural)]
pub enum Control {
    SeekTo(Time),
    SetVolume(Volume),
}

/// What is told to the user about a request.
#[derive(Debug, Clone, Copy, PartialEq, Eq, Structural)]
pub enum Notice {
    Skipping { seconds: u32 },
    Muting { seconds: u32 },
    Unmuting,
    ChangingVolume { from: Volume, to: Volume },
}

/// A request to send to the player, with what to tell the user about it.
#[derive(Debug, Clone, Copy, PartialEq, Eq, Structural)]
pub struct Step {
    pub control: Control,
    pub notice: Notice,
}

/// What one command does on a poll, given the volume remembered by an active
/// mute: the remembered volume afterwards, and the request to send, if any.
pub open spec fn decide(pre_mute: Option<Volume>, status: Status, command: Command) -> (Option<Volume>, Option<Step>) {
    match command {
        Command::Skip { start, end } => if start.0 <= status.time.0 && status.time.0 < end.0 {
            (
                pre_mute,
                Some(Step {
                    control: Control::SeekTo(end),
                    notice: Notice::Skipping { seconds: seconds_between(end, start) as u32 },
                }),
            )
        } else {
            (pre_mute, None)
        },
        Command::Mute { start, end } => if status.time == start && pre_mute is None {
            (
                Some(status.volume),
                Some(Step {
                    control: Control::SetVolume(Volume(0)),
                    notice: Notice::Muting { seconds: seconds_between(end, start) as u32 },
                }),
            )
        } else if status.time == end && pre_mute is Some {
            (None, Some(Step { control: Control::SetVolume(pre_mute->0), notice: Notice::Unmuting }))
        } else {
            (pre_mute, None)
        },
        Command::SetVolume { amount, at } => if status.time == at && volume_distance(status.volume, amount) > VOLUME_TOLERANCE {
            (
                pre_mute,
                Some(Step {
                    control: Control::SetVolume(amount),
                    notice: Notice::ChangingVolume { from: status.volume, to: amount },
                }),
            )
        } else {
            (pre_mute, None)
        },
    }
}

/// The memory that the decisions keep from one poll to the next.
pub struct Controller {
    pre_mute_volume: Option<Volume>,
}

impl View for Controller {
    type V = Option<Volume>;

    /// The volume to restore when the active mute ends; none while no mute is active.
    closed spec fn view(&self) -> Option<Volume> {
        self.pre_mute_volume
    }
}

impl Controller {
    pub fn new() -> (r: Controller)
        ensures
            r@ is None,
    {
        Controller { pre_mute_volume: None }
    }

    /// The volume to restore when the active mute ends.
    pub fn pre_mute_volume(&self) -> (r: Option<Volume>)
        ensures
            r == self@,
    {
        self.pre_mute_volume
    }

    /// Decides what `command` does on a poll that found the player at `status`,
    /// and updates the memory before the request is sent: a request that then
    /// fails leaves the memory as updated.
    pub fn evaluate(&mut self, status: Status, command: Command) -> (r: Option<Step>)
        ensures
            (final(self)@, r) == decide(old(self)@, status, command),
    {
        match command {
            Command::Skip { start, end } => {
                if start.0 <= status.time.0 && status.time.0 < end.0 {
                    Some(Step {
                        control: Control::SeekTo(end),
                        notice: Notice::Skipping { seconds: difference(end, start) },
                    })
                } else {
                    None
                }
            },
            Command::Mute { start, end } => {
                if status.time == start && self.pre_mute_volume.is_none() {
                    self.pre_mute_volume = Some(status.volume);
                    Some(Step {
                        control: Control::SetVolume(Volume::new(0)),
                        notice: Notice::Muting { seconds: difference(end, start) },
                    })
                } else if status.time == end && self.pre_mute_volume.is_some() {
                    let restore = self.pre_mute_volume.unwrap();
                    self.pre_mute_volume = None;
                    Some(Step { control: Control::SetVolume(restore), notice: Notice::Unmuting })
                } else {
                    None
                }
            },
            Command::SetVolume { amount, at } => {
                if status.time == at && abs_difference(status.volume, amount) > VOLUME_TOLERANCE {
                    Some(Step {
                        control: Control::SetVolume(amount),
                        notice: Notice::ChangingVolume { from: status.volume, to: amount },
                    })
                } else {
                    None
                }
            },
        }
    }
}

/// A mute window `[start, end)` with `start != end`: a poll at its start, with no
/// mute active, silences the player and remembers the volume; while it is
/// active, polls at any other time than its end send nothing and keep the
/// memory; a poll at its end restores the remembered volume and forgets it.
pub proof fn lemma_mute_window(start: Time, end: Time, volume: Volume, remembered: Volume, status: Status)
    requires
        start != end,
    ensures
        decide(None, Status { time: start, volume }, Command::Mute { start, end }) == (
            Some(volume),
            Some(Step {
                control: Control::SetVolume(Volume(0)),
                notice: Notice::Muting { seconds: seconds_between(end, start) as u32 },
            }),
        ),
        status.time != end ==> decide(Some(remembered), status, Command::Mute { start, end }) == (
            Some(remembered),
            None::<Step>,
        ),
        decide(Some(remembered), Status { time: end, volume }, Command::Mute { start, end }) == (
            None::<Volume>,
            Some(Step { control: Control::SetVolume(remembered), notice: Notice::Unmuting }),
        ),
{
}

} // verus!
