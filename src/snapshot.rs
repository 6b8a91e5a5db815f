//! The snapshot: one slot per source holding its latest result, and the
//! read operations the user interface calls.
//!
//! A slot is only ever replaced whole. Shared between threads, the
//! snapshot sits behind a reader-writer lock that a writer holds only for
//! `store`, never while a collector runs.

use vstd::prelude::*;
use crate::containers::DockerContainer;
use crate::error::{ErrorKind, SourceError};
use crate::health::ServiceHealth;
use crate::issues::SentryIssue;
use crate::playback::SpotifyTrack;
use crate::tickets::JiraTicket;
use crate::usage::{CpuUsage, RamUsage};

verus! {

/// The latest result of each source.
pub struct Snapshot {
    pub ram: Result<RamUsage, SourceError>,
    pub cpu: Result<CpuUsage, SourceError>,
    pub docker: Result<Vec<DockerContainer>, SourceError>,
    pub spotify: Result<SpotifyTrack, SourceError>,
    pub jira: Result<Vec<JiraTicket>, SourceError>,
    pub health: Result<Vec<ServiceHealth>, SourceError>,
    pub sentry: Result<Vec<SentryIssue>, SourceError>,
}

/// A finished result for one slot.
pub enum SlotUpdate {
    Ram(Result<RamUsage, SourceError>),
    Cpu(Result<CpuUsage, SourceError>),
    Docker(Result<Vec<DockerContainer>, SourceError>),
    Spotify(Result<SpotifyTrack, SourceError>),
    Jira(Result<Vec<JiraTicket>, SourceError>),
    Health(Result<Vec<ServiceHealth>, SourceError>),
    Sentry(Result<Vec<SentryIssue>, SourceError>),
}

/// `r` is the stand-in of a slot that no poll has filled yet.
pub open spec fn is_placeholder<T>(r: Result<T, SourceError>, message: Seq<char>) -> bool {
    &&& r is Err
    &&& r->Err_0.kind == ErrorKind::Pending
    &&& r->Err_0.message@ == message
}

/// The snapshot after `u` is stored: its slot holds the new result whole,
/// every other slot is unchanged.
pub open spec fn stored(s: Snapshot, u: SlotUpdate) -> Snapshot {
    match u {
        SlotUpdate::Ram(v) => Snapshot { ram: v, ..s },
        SlotUpdate::Cpu(v) => Snapshot { cpu: v, ..s },
        SlotUpdate::Docker(v) => Snapshot { docker: v, ..s },
        SlotUpdate::Spotify(v) => Snapshot { spotify: v, ..s },
        SlotUpdate::Jira(v) => Snapshot { jira: v, ..s },
        SlotUpdate::Health(v) => Snapshot { health: v, ..s },
        SlotUpdate::Sentry(v) => Snapshot { sentry: v, ..s },
    }
}

/// Writes are never torn: after a store, each slot holds either its
/// previous result or the stored one, complete; only the stored slot
/// changes.
pub proof fn lemma_store_replaces_whole_slot(s: Snapshot, u: SlotUpdate)
    ensures
        stored(s, u).ram == match u {
            SlotUpdate::Ram(v) => v,
            _ => s.ram,
        },
        stored(s, u).cpu == match u {
            SlotUpdate::Cpu(v) => v,
            _ => s.cpu,
        },
        stored(s, u).docker == match u {
            SlotUpdate::Docker(v) => v,
            _ => s.docker,
        },
        stored(s, u).spotify == match u {
            SlotUpdate::Spotify(v) => v,
            _ => s.spotify,
        },
        stored(s, u).jira == match u {
            SlotUpdate::Jira(v) => v,
            _ => s.jira,
        },
        stored(s, u).health == match u {
            SlotUpdate::Health(v) => v,
            _ => s.health,
        },
        stored(s, u).sentry == match u {
            SlotUpdate::Sentry(v) => v,
            _ => s.sentry,
        },
{
}

fn pending<T>(message: &str) -> (r: Result<T, SourceError>)
    ensures
        is_placeholder(r, message@),
{
    Err(SourceError::from_text(ErrorKind::Pending, message))
}

impl Snapshot {
    /// The snapshot at start-up: every slot holds a placeholder.
    pub fn new() -> (r: Snapshot)
        ensures
            is_placeholder(r.ram, "Loading memory usage..."@),
            is_placeholder(r.cpu, "Loading CPU usage..."@),
            is_placeholder(r.docker, "Loading containers..."@),
            is_placeholder(r.spotify, "Loading Spotify data..."@),
            is_placeholder(r.jira, "Loading Jira tickets..."@),
            is_placeholder(r.health, "Loading service health..."@),
            is_placeholder(r.sentry, "Loading Sentry issues..."@),
    {
        Snapshot {
            ram: pending("Loading memory usage..."),
            cpu: pending("Loading CPU usage..."),
            docker: pending("Loading containers..."),
            spotify: pending("Loading Spotify data..."),
            jira: pending("Loading Jira tickets..."),
            health: pending("Loading service health..."),
            sentry: pending("Loading Sentry issues..."),
        }
    }

    /// Replaces one slot with a finished result.
    pub fn store(&mut self, update: SlotUpdate)
        ensures
            *final(self) == stored(*old(self), update),
    {
        match update {
            SlotUpdate::Ram(v) => self.ram = v,
            SlotUpdate::Cpu(v) => self.cpu = v,
            SlotUpdate::Docker(v) => self.docker = v,
            SlotUpdate::Spotify(v) => self.spotify = v,
            SlotUpdate::Jira(v) => self.jira = v,
            SlotUpdate::Health(v) => self.health = v,
            SlotUpdate::Sentry(v) => self.sentry = v,
        }
    }

    pub fn get_ram_usage(&self) -> (r: &Result<RamUsage, SourceError>)
        ensures
            *r == self.ram,
    {
        &self.ram
    }

    pub fn get_cpu_usage(&self) -> (r: &Result<CpuUsage, SourceError>)
        ensures
            *r == self.cpu,
    {
        &self.cpu
    }

    pub fn get_docker_containers(&self) -> (r: &Result<Vec<DockerContainer>, SourceError>)
        ensures
            *r == self.docker,
    {
        &self.docker
    }

    pub fn get_spotify_track(&self) -> (r: &Result<SpotifyTrack, SourceError>)
        ensures
            *r == self.spotify,
    {
        &self.spotify
    }

    pub fn get_jira_tickets(&self) -> (r: &Result<Vec<JiraTicket>, SourceError>)
        ensures
            *r == self.jira,
    {
        &self.jira
    }

    pub fn get_service_health(&self) -> (r: &Result<Vec<ServiceHealth>, SourceError>)
        ensures
            *r == self.health,
    {
        &self.health
    }

    pub fn get_sentry_issues(&self) -> (r: &Result<Vec<SentryIssue>, SourceError>)
        ensures
            *r == self.sentry,
    {
        &self.sentry
    }
}

/// The greeting echoed for `name`.
pub fn greet(name: &str) -> (r: String)
    ensures
        r@ == "Hello, "@ + name@ + "! You've been greeted from Rust!"@,
{
    let mut r = "Hello, ".to_owned();
    r.append(name);
    r.append("! You've been greeted from Rust!");
    r
}

} // verus!
