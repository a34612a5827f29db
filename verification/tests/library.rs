use ed_forge::library::{
    count_running, launch_entry, library_launch_item, library_list_apps, library_remove_item,
    library_save_item, remove_entry, save_entry, EntryState, LibraryApp,
};
use ed_forge::notify::Notice;
use ed_forge::runtime::{runtime_get_config, RuntimeState};
use ed_forge::store::{build_store_catalog, store_get_item, store_list_providers};

fn same_entry(a: &LibraryApp, b: &LibraryApp) -> bool {
    a.id == b.id
        && a.name == b.name
        && a.category == b.category
        && a.provider_name == b.provider_name
        && a.version == b.version
        && a.state == b.state
        && a.last_launched == b.last_launched
}

#[test]
fn save_creates_a_ready_entry() {
    let catalog = build_store_catalog();
    let item = store_get_item(&catalog, "porofessor-rune-assist").expect("in the catalog");
    let mut library = Vec::new();
    let (entry, created) = save_entry(&mut library, &item);
    assert!(created);
    assert_eq!(entry.id, "porofessor-rune-assist");
    assert_eq!(entry.name, "Rune Assist Module");
    assert_eq!(entry.category, "Assistant");
    assert_eq!(entry.provider_name, "Porofessor");
    assert_eq!(entry.version, "1.0.0");
    assert_eq!(entry.state, EntryState::Ready);
    assert_eq!(entry.state.label(), "ready");
    assert_eq!(entry.last_launched, None);
    assert_eq!(library.len(), 1);
    assert!(same_entry(&library[0], &entry));
}

#[test]
fn saving_twice_yields_the_same_entry_and_length() {
    let catalog = build_store_catalog();
    let item = store_get_item(&catalog, "tftmeta-comp-scout").expect("in the catalog");
    let mut library = Vec::new();
    let (first, created_first) = save_entry(&mut library, &item);
    let (second, created_second) = save_entry(&mut library, &item);
    assert!(created_first);
    assert!(!created_second);
    assert!(same_entry(&first, &second));
    assert_eq!(library.len(), 1);
}

#[test]
fn saving_again_does_not_reset_a_running_entry() {
    let catalog = build_store_catalog();
    let item = store_get_item(&catalog, "tftmeta-comp-scout").expect("in the catalog");
    let mut library = Vec::new();
    save_entry(&mut library, &item);
    launch_entry(&mut library, "tftmeta-comp-scout", "1700000000".to_string());
    let (again, created) = save_entry(&mut library, &item);
    assert!(!created);
    assert_eq!(again.state, EntryState::Running);
    assert_eq!(again.last_launched.as_deref(), Some("1700000000"));
    assert_eq!(library.len(), 1);
}

#[test]
fn launch_runs_the_entry_and_stamps_it() {
    let catalog = build_store_catalog();
    let mut library = Vec::new();
    for id in ["tftmeta-comp-scout", "porofessor-rune-assist", "tftmeta-level-timer"] {
        save_entry(&mut library, &store_get_item(&catalog, id).expect("in the catalog"));
    }
    let launched = launch_entry(&mut library, "porofessor-rune-assist", "1234".to_string())
        .expect("the entry was saved");
    assert_eq!(launched.id, "porofessor-rune-assist");
    assert_eq!(launched.state, EntryState::Running);
    assert_eq!(launched.state.label(), "running");
    assert_eq!(launched.last_launched.as_deref(), Some("1234"));
    assert_eq!(library.len(), 3);
    assert_eq!(library[0].state, EntryState::Ready);
    assert_eq!(library[0].last_launched, None);
    assert!(same_entry(&library[1], &launched));
    assert_eq!(library[2].state, EntryState::Ready);
    assert_eq!(
        library.iter().map(|entry| entry.id.as_str()).collect::<Vec<_>>(),
        vec!["tftmeta-comp-scout", "porofessor-rune-assist", "tftmeta-level-timer"]
    );
}

#[test]
fn relaunch_refreshes_the_stamp() {
    let catalog = build_store_catalog();
    let mut library = Vec::new();
    save_entry(&mut library, &store_get_item(&catalog, "tftmeta-comp-scout").expect("present"));
    launch_entry(&mut library, "tftmeta-comp-scout", "10".to_string());
    let again = launch_entry(&mut library, "tftmeta-comp-scout", "20".to_string()).expect("saved");
    assert_eq!(again.state, EntryState::Running);
    assert_eq!(again.last_launched.as_deref(), Some("20"));
    assert_eq!(library[0].last_launched.as_deref(), Some("20"));
}

#[test]
fn launching_an_unknown_id_changes_nothing() {
    let catalog = build_store_catalog();
    let mut library = Vec::new();
    save_entry(&mut library, &store_get_item(&catalog, "tftmeta-comp-scout").expect("present"));
    let before = library_list_apps(&library);
    assert!(launch_entry(&mut library, "no-such-item", "99".to_string()).is_none());
    assert_eq!(library.len(), before.len());
    assert!(same_entry(&library[0], &before[0]));
    let (entry, notice) = library_launch_item(&mut library, "no-such-item");
    assert!(entry.is_none());
    assert_eq!(notice, None);
    assert!(same_entry(&library[0], &before[0]));
}

#[test]
fn launch_does_not_need_the_catalog() {
    let catalog = build_store_catalog();
    let mut library = Vec::new();
    save_entry(&mut library, &store_get_item(&catalog, "tftmeta-comp-scout").expect("present"));
    drop(catalog);
    let (entry, notice) = library_launch_item(&mut library, "tftmeta-comp-scout");
    let entry = entry.expect("the entry was saved");
    assert_eq!(notice, Some(Notice::LibraryUpdated));
    assert_eq!(entry.state, EntryState::Running);
    let stamp = entry.last_launched.expect("a launch leaves a stamp");
    let secs: u64 = stamp.parse().expect("the stamp is a decimal number");
    assert!(secs > 1_600_000_000);
    assert_eq!(secs.to_string(), stamp);
}

#[test]
fn remove_takes_a_present_entry_away() {
    let catalog = build_store_catalog();
    let mut library = Vec::new();
    for id in ["tftmeta-comp-scout", "porofessor-rune-assist", "tftmeta-level-timer"] {
        save_entry(&mut library, &store_get_item(&catalog, id).expect("in the catalog"));
    }
    assert!(remove_entry(&mut library, "porofessor-rune-assist"));
    assert_eq!(
        library.iter().map(|entry| entry.id.as_str()).collect::<Vec<_>>(),
        vec!["tftmeta-comp-scout", "tftmeta-level-timer"]
    );
}

#[test]
fn removing_an_absent_id_changes_nothing() {
    let catalog = build_store_catalog();
    let mut library = Vec::new();
    save_entry(&mut library, &store_get_item(&catalog, "tftmeta-comp-scout").expect("present"));
    assert!(!remove_entry(&mut library, "porofessor-rune-assist"));
    assert_eq!(library.len(), 1);
    assert_eq!(library[0].id, "tftmeta-comp-scout");
    let mut empty: Vec<LibraryApp> = Vec::new();
    assert!(!remove_entry(&mut empty, "tftmeta-comp-scout"));
    assert!(empty.is_empty());
}

#[test]
fn commands_ask_for_a_notice_only_on_change() {
    let catalog = build_store_catalog();
    let mut library = Vec::new();

    let (entry, notice) = library_save_item(&mut library, store_get_item(&catalog, "unknown"));
    assert!(entry.is_none());
    assert_eq!(notice, None);
    assert!(library.is_empty());

    let found = store_get_item(&catalog, "tftmeta-trait-tracker");
    let (entry, notice) = library_save_item(&mut library, found.clone());
    assert_eq!(entry.expect("saved").id, "tftmeta-trait-tracker");
    assert_eq!(notice, Some(Notice::LibraryUpdated));
    assert_eq!(Notice::LibraryUpdated.topic(), "library-updated");

    let (entry, notice) = library_save_item(&mut library, found);
    assert_eq!(entry.expect("held").id, "tftmeta-trait-tracker");
    assert_eq!(notice, None);
    assert_eq!(library.len(), 1);

    assert_eq!(library_remove_item(&mut library, "other"), (false, None));
    assert_eq!(
        library_remove_item(&mut library, "tftmeta-trait-tracker"),
        (true, Some(Notice::LibraryUpdated))
    );
    assert!(library.is_empty());
    assert_eq!(library_remove_item(&mut library, "tftmeta-trait-tracker"), (false, None));
}

#[test]
fn running_entries_are_counted() {
    let catalog = build_store_catalog();
    let mut library = Vec::new();
    assert_eq!(count_running(&library), 0);
    for item in &catalog {
        save_entry(&mut library, item);
    }
    assert_eq!(library.len(), 6);
    assert_eq!(count_running(&library), 0);
    launch_entry(&mut library, "tftmeta-comp-scout", "1".to_string());
    launch_entry(&mut library, "porofessor-session-recap", "2".to_string());
    launch_entry(&mut library, "tftmeta-comp-scout", "3".to_string());
    assert_eq!(count_running(&library), 2);
    remove_entry(&mut library, "tftmeta-comp-scout");
    assert_eq!(count_running(&library), 1);
}

#[test]
fn library_outlives_a_rebuilt_catalog() {
    let mut state = RuntimeState::default();
    let found = store_get_item(&state.store_catalog, "tftmeta-comp-scout");
    library_save_item(&mut state.library_apps, found);
    state.store_catalog = Vec::new();
    assert_eq!(state.library_apps.len(), 1);
    let (entry, _) = library_launch_item(&mut state.library_apps, "tftmeta-comp-scout");
    assert_eq!(entry.expect("still in the library").state, EntryState::Running);
}

#[test]
fn fresh_state_save_launch_overview() {
    let mut state = RuntimeState::default();
    assert!(state.library_apps.is_empty());
    assert_eq!(state.store_catalog.len(), 6);

    let providers = store_list_providers();
    assert_eq!(
        providers.iter().map(|provider| provider.id.as_str()).collect::<Vec<_>>(),
        vec!["tftmeta", "porofessor"]
    );

    let found = store_get_item(&state.store_catalog, "tftmeta-comp-scout");
    let (saved, notice) = library_save_item(&mut state.library_apps, found);
    let saved = saved.expect("the item is in the catalog");
    assert_eq!(saved.state, EntryState::Ready);
    assert_eq!(notice, Some(Notice::LibraryUpdated));

    let (launched, notice) = library_launch_item(&mut state.library_apps, "tftmeta-comp-scout");
    assert_eq!(launched.expect("the entry was saved").state, EntryState::Running);
    assert_eq!(notice, Some(Notice::LibraryUpdated));

    let overview = runtime_get_config(&state.runtime_config, &state.library_apps);
    assert_eq!(overview.library_count, 1);
    assert_eq!(overview.running_count, 1);
}
