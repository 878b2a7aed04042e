//! What the backend reports to its user.

use vstd::prelude::*;
use crate::json::types::VersionView;

verus! {

/// The versions that the device reports of itself.
#[derive(Debug, PartialEq, Eq)]
pub struct Version {
    pub project: String,
    pub version: String,
    pub esp_idf: String,
}

/// A step of a resync.
#[derive(Clone, Copy, Debug, PartialEq, Eq)]
pub enum Reload {
    /// The resync has begun.
    Start,
    /// The resync goes on. While metadata is fetched this carries the
    /// progress: files synchronized, and files to synchronize.
    Step(Option<(usize, usize)>),
    /// The resync is over, complete or given up.
    Stop,
}

/// An event for the user of the backend.
#[derive(Debug, PartialEq, Eq)]
pub enum Event {
    Connected,
    Disconnected,
    Version(Version),
    Reload(Reload),
    Error(String),
}

/// An event as the contracts see it.
pub enum EventView {
    Connected,
    Disconnected,
    Version(VersionView),
    Reload(Reload),
    Error(Seq<char>),
}

impl View for Version {
    type V = VersionView;

    open spec fn view(&self) -> VersionView {
        VersionView { project: self.project@, version: self.version@, esp_idf: self.esp_idf@ }
    }
}

impl View for Event {
    type V = EventView;

    open spec fn view(&self) -> EventView {
        match self {
            Event::Connected => EventView::Connected,
            Event::Disconnected => EventView::Disconnected,
            Event::Version(v) => EventView::Version(v@),
            Event::Reload(r) => EventView::Reload(*r),
            Event::Error(e) => EventView::Error(e@),
        }
    }
}

} // verus!
