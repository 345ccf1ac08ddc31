//! The actor that owns the statistics.

use vstd::prelude::*;
use crate::tracker_objects::stats::{Stats, StatsEvent, counter, with_counter};

verus! {

/// A request to the statistics actor.
pub enum StatsRequest {
    Get,
    SetCounter { event: StatsEvent, value: i64 },
    Update { event: StatsEvent, value: i64 },
    Shutdown,
    /// An action the actor does not know.
    Unknown,
}

/// The action a reply names: the request's own, or an error.
#[derive(PartialEq, Eq, Structural, Clone, Copy, Debug)]
pub enum StatsAction {
    Get,
    SetCounter,
    Update,
    Shutdown,
    Error,
}

/// A reply of the statistics actor: the action, the statistics after it
/// (for a read, a set or an update), and whether the actor stops.
pub struct StatsReply {
    pub action: StatsAction,
    pub data: Option<Stats>,
    pub stop: bool,
}

/// The statistics that the actor owns.
pub struct StatsState {
    pub stats: Stats,
}

impl StatsState {
    /// Answers one request.
    pub fn handle(&mut self, request: StatsRequest) -> (r: StatsReply)
        requires
            request matches StatsRequest::Update { event, value } ==> i64::MIN <= counter(
                old(self).stats,
                event,
            ) + value <= i64::MAX,
        ensures
            r.stop == (request is Shutdown),
            match request {
                StatsRequest::Get => final(self).stats == old(self).stats && r.action == StatsAction::Get
                    && r.data == Some(old(self).stats),
                StatsRequest::SetCounter { event, value } => final(self).stats == with_counter(old(self).stats, event, value)
                    && r.action == StatsAction::SetCounter && r.data == Some(final(self).stats),
                StatsRequest::Update { event, value } => final(self).stats == with_counter(
                    old(self).stats,
                    event,
                    (counter(old(self).stats, event) + value) as i64,
                ) && r.action == StatsAction::Update && r.data == Some(final(self).stats),
                StatsRequest::Shutdown => final(self).stats == old(self).stats && r.action == StatsAction::Shutdown
                    && r.data is None,
                StatsRequest::Unknown => final(self).stats == old(self).stats && r.action == StatsAction::Error
                    && r.data is None,
            },
    {
        match request {
            StatsRequest::Get => StatsReply { action: StatsAction::Get, data: Some(self.stats), stop: false },
            StatsRequest::SetCounter { event, value } => {
                let s = self.stats.set(event, value);
                StatsReply { action: StatsAction::SetCounter, data: Some(s), stop: false }
            },
            StatsRequest::Update { event, value } => {
                let s = self.stats.update(event, value);
                StatsReply { action: StatsAction::Update, data: Some(s), stop: false }
            },
            StatsRequest::Shutdown => StatsReply { action: StatsAction::Shutdown, data: None, stop: true },
            StatsRequest::Unknown => StatsReply { action: StatsAction::Error, data: None, stop: false },
        }
    }
}

} // verus!
