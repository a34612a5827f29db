//! The runtime configuration, its validated update, and the overview that
//! joins it with the library's counts.

use crate::library::{
    count_running, distinct_ids, entry_views, running_count, EntryState, LibraryApp, LibraryAppView,
};
use crate::models::{item_views, StoreItem};
use crate::store::{build_store_catalog, store_catalog};
use vstd::prelude::*;

verus! {

/// The shortest interval between syncs, in seconds.
pub const MIN_SYNC_INTERVAL_SEC: u32 = 5;

/// The longest interval between syncs, in seconds.
pub const MAX_SYNC_INTERVAL_SEC: u32 = 300;

/// The nearest interval that the configuration accepts.
pub open spec fn clamped_interval(seconds: u32) -> u32 {
    if seconds < MIN_SYNC_INTERVAL_SEC {
        MIN_SYNC_INTERVAL_SEC
    } else if seconds > MAX_SYNC_INTERVAL_SEC {
        MAX_SYNC_INTERVAL_SEC
    } else {
        seconds
    }
}

/// The nearest interval that the configuration accepts.
pub fn clamp_interval(seconds: u32) -> (clamped: u32)
    ensures
        clamped == clamped_interval(seconds),
        MIN_SYNC_INTERVAL_SEC <= clamped <= MAX_SYNC_INTERVAL_SEC,
{
    if seconds < MIN_SYNC_INTERVAL_SEC {
        MIN_SYNC_INTERVAL_SEC
    } else if seconds > MAX_SYNC_INTERVAL_SEC {
        MAX_SYNC_INTERVAL_SEC
    } else {
        seconds
    }
}

/// The runtime configuration. Its interval is always one that
/// [`clamp_interval`] gives; the only way to change a configuration is
/// [`runtime_update_config`].
#[derive(Clone, Copy, Debug)]
pub struct RuntimeConfig {
    low_resource_mode: bool,
    ingestion_enabled: bool,
    sync_interval_sec: u32,
}

/// What a request to update the configuration carries.
#[derive(Clone, Copy, Debug)]
pub struct RuntimeConfigUpdate {
    pub low_resource_mode: bool,
    pub ingestion_enabled: bool,
    pub sync_interval_sec: u32,
}

/// The configuration together with the library's counts.
#[derive(Clone, Copy, Debug, PartialEq, Eq, Structural)]
pub struct RuntimeOverview {
    pub low_resource_mode: bool,
    pub ingestion_enabled: bool,
    pub sync_interval_sec: u32,
    pub library_count: usize,
    pub running_count: usize,
}

/// A configuration is seen as the update that stores it.
impl View for RuntimeConfig {
    type V = RuntimeConfigUpdate;

    closed spec fn view(&self) -> RuntimeConfigUpdate {
        RuntimeConfigUpdate {
            low_resource_mode: self.low_resource_mode,
            ingestion_enabled: self.ingestion_enabled,
            sync_interval_sec: self.sync_interval_sec,
        }
    }
}

impl RuntimeConfig {
    #[verifier::type_invariant]
    spec fn interval_in_range(self) -> bool {
        MIN_SYNC_INTERVAL_SEC <= self.sync_interval_sec <= MAX_SYNC_INTERVAL_SEC
    }

    pub fn low_resource_mode(&self) -> (on: bool)
        ensures
            on == self@.low_resource_mode,
    {
        self.low_resource_mode
    }

    pub fn ingestion_enabled(&self) -> (on: bool)
        ensures
            on == self@.ingestion_enabled,
    {
        self.ingestion_enabled
    }

    pub fn sync_interval_sec(&self) -> (seconds: u32)
        ensures
            seconds == self@.sync_interval_sec,
            MIN_SYNC_INTERVAL_SEC <= seconds <= MAX_SYNC_INTERVAL_SEC,
    {
        proof {
            use_type_invariant(self);
        }
        self.sync_interval_sec
    }
}

impl Default for RuntimeConfig {
    /// The configuration a process starts with: low resource mode on,
    /// ingestion off, a sync every 30 seconds.
    fn default() -> (config: RuntimeConfig)
        ensures
            config@ == (RuntimeConfigUpdate {
                low_resource_mode: true,
                ingestion_enabled: false,
                sync_interval_sec: 30,
            }),
    {
        RuntimeConfig { low_resource_mode: true, ingestion_enabled: false, sync_interval_sec: 30 }
    }
}

/// What an update stores: the two switches as given, the interval clamped.
pub open spec fn stored(payload: RuntimeConfigUpdate) -> RuntimeConfigUpdate {
    RuntimeConfigUpdate {
        low_resource_mode: payload.low_resource_mode,
        ingestion_enabled: payload.ingestion_enabled,
        sync_interval_sec: clamped_interval(payload.sync_interval_sec),
    }
}

/// Updates the configuration: both switches are overwritten, the interval is
/// clamped into its range and stored. Hands back the configuration as
/// stored.
pub fn runtime_update_config(config: &mut RuntimeConfig, payload: RuntimeConfigUpdate) -> (now:
    RuntimeConfig)
    ensures
        final(config)@ == stored(payload),
        now@ == stored(payload),
{
    let updated = RuntimeConfig {
        low_resource_mode: payload.low_resource_mode,
        ingestion_enabled: payload.ingestion_enabled,
        sync_interval_sec: clamp_interval(payload.sync_interval_sec),
    };
    *config = updated;
    updated
}

/// The overview of a configuration and a library: the configuration's
/// fields, the number of entries and the number of running entries.
pub fn runtime_get_config(config: &RuntimeConfig, library: &Vec<LibraryApp>) -> (overview:
    RuntimeOverview)
    ensures
        overview.low_resource_mode == config@.low_resource_mode,
        overview.ingestion_enabled == config@.ingestion_enabled,
        overview.sync_interval_sec == config@.sync_interval_sec,
        MIN_SYNC_INTERVAL_SEC <= overview.sync_interval_sec <= MAX_SYNC_INTERVAL_SEC,
        overview.library_count == library@.len(),
        overview.running_count == running_count(entry_views(library@)),
        overview.running_count <= overview.library_count,
{
    proof {
        entry_views(library@).lemma_filter_len(
            |entry: LibraryAppView| entry.state == EntryState::Running,
        );
    }
    RuntimeOverview {
        low_resource_mode: config.low_resource_mode(),
        ingestion_enabled: config.ingestion_enabled(),
        sync_interval_sec: config.sync_interval_sec(),
        library_count: library.len(),
        running_count: count_running(library),
    }
}

/// The state of a process: the catalog snapshot, the library and the
/// configuration. The three are independent of each other; whoever shares
/// them between callers guards each on its own.
pub struct RuntimeState {
    pub store_catalog: Vec<StoreItem>,
    pub library_apps: Vec<LibraryApp>,
    pub runtime_config: RuntimeConfig,
}

impl Default for RuntimeState {
    /// The state a process starts with: the catalog built, the library
    /// empty, the configuration at its defaults.
    fn default() -> (state: RuntimeState)
        ensures
            item_views(state.store_catalog@) == store_catalog(),
            state.library_apps@.len() == 0,
            distinct_ids(entry_views(state.library_apps@)),
            state.runtime_config@ == (RuntimeConfigUpdate {
                low_resource_mode: true,
                ingestion_enabled: false,
                sync_interval_sec: 30,
            }),
    {
        RuntimeState {
            store_catalog: build_store_catalog(),
            library_apps: Vec::new(),
            runtime_config: RuntimeConfig::default(),
        }
    }
}

} // verus!
