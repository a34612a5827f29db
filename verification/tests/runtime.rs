use ed_forge::library::{launch_entry, save_entry, LibraryApp};
use ed_forge::runtime::{
    clamp_interval, runtime_get_config, runtime_update_config, RuntimeConfig, RuntimeConfigUpdate,
    RuntimeOverview, RuntimeState, MAX_SYNC_INTERVAL_SEC, MIN_SYNC_INTERVAL_SEC,
};
use ed_forge::store::build_store_catalog;

fn update_to(seconds: u32) -> u32 {
    let mut config = RuntimeConfig::default();
    let payload = RuntimeConfigUpdate {
        low_resource_mode: false,
        ingestion_enabled: true,
        sync_interval_sec: seconds,
    };
    let stored = runtime_update_config(&mut config, payload);
    assert_eq!(stored.sync_interval_sec(), config.sync_interval_sec());
    let library: Vec<LibraryApp> = Vec::new();
    let overview = runtime_get_config(&config, &library);
    assert_eq!(overview.sync_interval_sec, config.sync_interval_sec());
    overview.sync_interval_sec
}

#[test]
fn interval_below_the_range_becomes_five() {
    assert_eq!(update_to(1), 5);
    assert_eq!(update_to(0), 5);
    assert_eq!(update_to(4), 5);
}

#[test]
fn interval_above_the_range_becomes_three_hundred() {
    assert_eq!(update_to(1000), 300);
    assert_eq!(update_to(301), 300);
    assert_eq!(update_to(u32::MAX), 300);
}

#[test]
fn interval_within_the_range_is_stored_unchanged() {
    assert_eq!(update_to(42), 42);
    assert_eq!(update_to(5), 5);
    assert_eq!(update_to(300), 300);
}

#[test]
fn clamp_limits() {
    assert_eq!(MIN_SYNC_INTERVAL_SEC, 5);
    assert_eq!(MAX_SYNC_INTERVAL_SEC, 300);
    assert_eq!(clamp_interval(6), 6);
    assert_eq!(clamp_interval(299), 299);
}

#[test]
fn update_overwrites_both_switches() {
    let mut config = RuntimeConfig::default();
    assert!(config.low_resource_mode());
    assert!(!config.ingestion_enabled());
    assert_eq!(config.sync_interval_sec(), 30);
    runtime_update_config(
        &mut config,
        RuntimeConfigUpdate { low_resource_mode: false, ingestion_enabled: true, sync_interval_sec: 60 },
    );
    assert!(!config.low_resource_mode());
    assert!(config.ingestion_enabled());
    assert_eq!(config.sync_interval_sec(), 60);
    runtime_update_config(
        &mut config,
        RuntimeConfigUpdate { low_resource_mode: true, ingestion_enabled: true, sync_interval_sec: 2 },
    );
    assert!(config.low_resource_mode());
    assert!(config.ingestion_enabled());
    assert_eq!(config.sync_interval_sec(), 5);
}

#[test]
fn overview_joins_config_and_counts() {
    let catalog = build_store_catalog();
    let mut state = RuntimeState::default();
    assert_eq!(
        runtime_get_config(&state.runtime_config, &state.library_apps),
        RuntimeOverview {
            low_resource_mode: true,
            ingestion_enabled: false,
            sync_interval_sec: 30,
            library_count: 0,
            running_count: 0,
        }
    );
    save_entry(&mut state.library_apps, &catalog[0]);
    save_entry(&mut state.library_apps, &catalog[1]);
    save_entry(&mut state.library_apps, &catalog[2]);
    launch_entry(&mut state.library_apps, catalog[1].id.as_str(), "5".to_string());
    runtime_update_config(
        &mut state.runtime_config,
        RuntimeConfigUpdate { low_resource_mode: false, ingestion_enabled: true, sync_interval_sec: 900 },
    );
    assert_eq!(
        runtime_get_config(&state.runtime_config, &state.library_apps),
        RuntimeOverview {
            low_resource_mode: false,
            ingestion_enabled: true,
            sync_interval_sec: 300,
            library_count: 3,
            running_count: 1,
        }
    );
}
