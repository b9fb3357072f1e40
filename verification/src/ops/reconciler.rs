//! Reading configuration: one snapshot per process, replaced as a whole by a
//! single reconciler. Wake-ups only tell when to look; the reload always goes by
//! the committed generation, and a periodic heal recovers a missed wake-up.

use crate::json::Json;
use crate::model::ConfigEntry;
use crate::ops::snapshot;
use crate::ops::snapshot::{Snapshot, Values};
use vstd::prelude::*;

verus! {

/// One generation of the configuration.
#[derive(Debug, Clone, PartialEq, Eq)]
pub struct ConfigSnapshot {
    pub generation: i64,
    pub entries: Snapshot,
}

impl Default for ConfigSnapshot {
    fn default() -> (r: Self)
        ensures
            r.generation == 0,
            r.entries@ == Map::<Seq<char>, crate::json::JsonView>::empty(),
    {
        ConfigSnapshot { generation: 0, entries: Snapshot::new() }
    }
}

/// What the process has of the configuration.
#[derive(Debug, PartialEq, Eq)]
pub struct ConfigWatch {
    current: ConfigSnapshot,
}

impl Default for ConfigWatch {
    fn default() -> (r: Self)
        ensures
            r.at() == 0,
            r.values() == Map::<Seq<char>, crate::json::JsonView>::empty(),
    {
        ConfigWatch::new()
    }
}

impl ConfigWatch {
    /// The generation that is installed.
    pub closed spec fn at(&self) -> i64 {
        self.current.generation
    }

    /// The values that are installed.
    pub closed spec fn values(&self) -> Values {
        self.current.entries@
    }

    /// Starts before the first generation, so that the first reload installs it.
    #[must_use]
    pub fn new() -> (r: Self)
        ensures
            r.at() == 0,
            r.values() == Map::<Seq<char>, crate::json::JsonView>::empty(),
    {
        ConfigWatch { current: ConfigSnapshot::default() }
    }

    #[must_use]
    pub fn generation(&self) -> (r: i64)
        ensures
            r == self.at(),
    {
        self.current.generation
    }

    /// The value under a key.
    #[must_use]
    pub fn value(&self, key: &str) -> (r: Option<Json>)
        ensures
            crate::json::option_view(r) == snapshot::value_at(self.values(), key@),
    {
        match self.current.entries.get(key) {
            Some(v) => Some(v.clone()),
            None => None,
        }
    }

    /// Replaces the snapshot as a whole.
    pub fn install(&mut self, replacement: ConfigSnapshot)
        ensures
            final(self).at() == replacement.generation,
            final(self).values() == replacement.entries@,
    {
        self.current = replacement;
    }
}

/// A fixed generation, for a process that never reloads: by default the one that
/// the first entries are stored under.
#[derive(Debug, Clone, Copy, PartialEq, Eq)]
pub struct StaticConfigReads(pub i64);

impl Default for StaticConfigReads {
    fn default() -> (r: Self)
        ensures
            r == StaticConfigReads(1),
    {
        StaticConfigReads(1)
    }
}

impl StaticConfigReads {
    #[must_use]
    pub fn current_generation(&self) -> (r: i64)
        ensures
            r == self.0,
    {
        self.0
    }
}

/// A reload is due: after a wake-up, or to heal.
pub open spec fn reload_due(woken: bool, heal: bool) -> bool {
    woken || heal
}

/// The reconciler of one process.
#[derive(Debug, PartialEq, Eq)]
pub struct Reconciler {
    pub watch: ConfigWatch,
}

impl Reconciler {
    /// Whether to reload this turn. Without a wake-up only a heal looks, so a
    /// missed wake-up delays a reload by one heal at most.
    pub fn tick(&self, woken: bool, heal: bool) -> (r: bool)
        ensures
            r == reload_due(woken, heal),
            r == (woken || heal),
    {
        woken || heal
    }

    /// Takes the committed configuration over where its generation is newer than
    /// the installed one. Says whether it did.
    pub fn reconcile(&mut self, generation: i64, entries: &[ConfigEntry]) -> (r: bool)
        ensures
            r == (generation > old(self).watch.at()),
            r ==> final(self).watch.at() == generation && final(self).watch.values()
                == crate::json::to_map(snapshot::entries_view(entries@)),
            !r ==> *final(self) == *old(self),
            final(self).watch.at() >= old(self).watch.at(),
    {
        if generation <= self.watch.generation() {
            return false;
        }
        self.watch.install(
            ConfigSnapshot { generation, entries: snapshot::snapshot_of(entries) },
        );
        true
    }

    /// Whether this poll heals: every `heal_every`-th one does, none where it is
    /// zero.
    pub fn heals(&self, polls: u32, heal_every: u32) -> (r: bool)
        ensures
            r == (heal_every != 0 && polls as int % heal_every as int == 0),
    {
        heal_every != 0 && polls % heal_every == 0
    }
}

} // verus!
