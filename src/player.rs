use vstd::prelude::*;
use crate::time::Time;
use crate::volume::Volume;

verus! {

/// What the player reports on each poll.
#[derive(Debug, Clone, Copy, PartialEq, Eq, Structural)]
pub struct Status {
    pub time: Time,
    pub volume: Volume,
}

/// The media item that is playing.
#[derive(Debug, Clone)]
pub struct Meta {
    pub name: String,
    pub uri: String,
    pub duration: Time,
}

/// What the player's control endpoint is reached with.
#[derive(Debug, Clone)]
pub struct Credentials {
    pub user: String,
    pub password: String,
}

} // verus!
