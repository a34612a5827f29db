use std::collections::HashSet;

use ed_forge::adapters::porofessor::porofessor_items;
use ed_forge::adapters::tftmeta::tftmeta_items;
use ed_forge::models::{Binary64, StoreItem};
use ed_forge::notify::Notice;
use ed_forge::query::{filter_catalog, sort_by_rating};
use ed_forge::store::{
    build_store_catalog, store_get_item, store_list_items, store_list_providers, store_providers,
    store_refresh_cache,
};

fn rated(id: &str, name: &str, category: &str, provider_id: &str, rating: f64) -> StoreItem {
    StoreItem {
        id: id.to_string(),
        name: name.to_string(),
        category: category.to_string(),
        provider_id: provider_id.to_string(),
        provider_name: format!("{provider_id} Inc"),
        source_url: String::new(),
        price_usd: Binary64::from_bits(0.0f64.to_bits()),
        rating: Binary64::from_bits(rating.to_bits()),
        stock: 0,
    }
}

fn ids(items: &[StoreItem]) -> Vec<&str> {
    items.iter().map(|item| item.id.as_str()).collect()
}

#[test]
fn builds_unique_catalog_ids() {
    let catalog = build_store_catalog();
    let mut ids = HashSet::new();
    for item in &catalog {
        assert!(ids.insert(item.id.clone()));
    }
    assert_eq!(catalog.len(), 6);
}

#[test]
fn filters_by_provider_and_query() {
    let catalog = build_store_catalog();
    let filtered = filter_catalog(&catalog, "module", "porofessor");
    assert_eq!(filtered.len(), 1);
    assert_eq!(filtered[0].id, "porofessor-rune-assist");
}

#[test]
fn catalog_is_the_providers_items_in_registry_order() {
    let catalog = build_store_catalog();
    assert_eq!(
        ids(&catalog),
        vec![
            "tftmeta-comp-scout",
            "tftmeta-trait-tracker",
            "tftmeta-level-timer",
            "porofessor-match-insight",
            "porofessor-rune-assist",
            "porofessor-session-recap",
        ]
    );
    for item in &catalog {
        assert!(!item.id.is_empty());
        assert!(!item.name.is_empty());
        assert!(!item.provider_id.is_empty());
    }
}

#[test]
fn fixture_items_carry_their_decimal_values() {
    let tft = tftmeta_items();
    let expected_tft = [(2.49, 4.7, 150), (3.99, 4.5, 80), (1.99, 4.2, 210)];
    assert_eq!(tft.len(), 3);
    for (item, (price, rating, stock)) in tft.iter().zip(expected_tft) {
        assert_eq!(f64::from_bits(item.price_usd.to_bits()), price);
        assert_eq!(f64::from_bits(item.rating.to_bits()), rating);
        assert_eq!(item.stock, stock);
        assert_eq!(item.provider_id, "tftmeta");
        assert_eq!(item.provider_name, "TFTMeta");
        assert_eq!(item.source_url, "https://tftmeta.gg");
    }
    let poro = porofessor_items();
    let expected_poro = [(4.99, 4.8, 95), (2.99, 4.4, 180), (5.49, 4.6, 70)];
    assert_eq!(poro.len(), 3);
    for (item, (price, rating, stock)) in poro.iter().zip(expected_poro) {
        assert_eq!(f64::from_bits(item.price_usd.to_bits()), price);
        assert_eq!(f64::from_bits(item.rating.to_bits()), rating);
        assert_eq!(item.stock, stock);
        assert_eq!(item.provider_id, "porofessor");
        assert_eq!(item.provider_name, "Porofessor");
        assert_eq!(item.source_url, "https://porofessor.gg");
    }
    assert_eq!(tft[0].name, "Comp Scout Pack");
    assert_eq!(tft[0].category, "Team Comp");
    assert_eq!(tft[1].name, "Trait Tracker Widget");
    assert_eq!(tft[1].category, "Overlay Widget");
    assert_eq!(tft[2].name, "Level Timer HUD");
    assert_eq!(tft[2].category, "HUD");
    assert_eq!(poro[0].name, "Match Insight Panel");
    assert_eq!(poro[0].category, "Analysis");
    assert_eq!(poro[1].name, "Rune Assist Module");
    assert_eq!(poro[1].category, "Assistant");
    assert_eq!(poro[2].name, "Session Recap Exporter");
    assert_eq!(poro[2].category, "Reporting");
}

#[test]
fn empty_filters_list_everything_by_rating() {
    let catalog = build_store_catalog();
    let listed = filter_catalog(&catalog, "", "");
    assert_eq!(
        ids(&listed),
        vec![
            "porofessor-match-insight",
            "tftmeta-comp-scout",
            "porofessor-session-recap",
            "tftmeta-trait-tracker",
            "porofessor-rune-assist",
            "tftmeta-level-timer",
        ]
    );
}

#[test]
fn equal_ratings_keep_catalog_order() {
    let catalog = vec![
        rated("a", "A", "x", "p", 3.0),
        rated("b", "B", "x", "p", 5.0),
        rated("c", "C", "x", "p", 3.0),
        rated("d", "D", "x", "p", 5.0),
        rated("e", "E", "x", "p", 3.0),
    ];
    let listed = filter_catalog(&catalog, "", "");
    assert_eq!(ids(&listed), vec!["b", "d", "a", "c", "e"]);
}

#[test]
fn sort_orders_every_rating() {
    let items = vec![
        rated("nan", "n", "x", "p", f64::NAN),
        rated("minus-zero", "n", "x", "p", -0.0),
        rated("zero", "n", "x", "p", 0.0),
        rated("minus-one", "n", "x", "p", -1.0),
        rated("infinity", "n", "x", "p", f64::INFINITY),
        rated("minus-infinity", "n", "x", "p", f64::NEG_INFINITY),
        rated("one", "n", "x", "p", 1.0),
        rated("minus-nan", "n", "x", "p", -f64::NAN),
    ];
    let mut expected: Vec<(String, f64)> = items
        .iter()
        .map(|item| (item.id.clone(), f64::from_bits(item.rating.to_bits())))
        .collect();
    expected.sort_by(|a, b| b.1.total_cmp(&a.1));
    let sorted = sort_by_rating(items);
    let expected_ids: Vec<&str> = expected.iter().map(|(id, _)| id.as_str()).collect();
    assert_eq!(ids(&sorted), expected_ids);
    assert_eq!(
        ids(&sorted),
        vec![
            "nan",
            "infinity",
            "one",
            "zero",
            "minus-zero",
            "minus-one",
            "minus-infinity",
            "minus-nan",
        ]
    );
}

#[test]
fn total_order_of_bit_patterns_agrees_with_total_cmp() {
    let values = [
        f64::NAN,
        -f64::NAN,
        f64::INFINITY,
        f64::NEG_INFINITY,
        f64::MAX,
        f64::MIN,
        f64::MIN_POSITIVE,
        -f64::MIN_POSITIVE,
        0.0,
        -0.0,
        4.7,
        4.8,
        -4.7,
        5e-324,
        -5e-324,
    ];
    for a in values {
        for b in values {
            let left = Binary64::from_bits(a.to_bits());
            let right = Binary64::from_bits(b.to_bits());
            assert_eq!(left.total_lt(&right), a.total_cmp(&b) == std::cmp::Ordering::Less);
        }
    }
}

#[test]
fn query_matches_name_category_or_provider_name() {
    let catalog = vec![
        rated("by-name", "Needle Finder", "x", "p", 1.0),
        rated("by-category", "A", "Sharp needles", "p", 2.0),
        rated("by-provider", "B", "x", "needleworks", 3.0),
        rated("none", "C", "x", "p", 4.0),
    ];
    let listed = filter_catalog(&catalog, "needle", "");
    assert_eq!(ids(&listed), vec!["by-provider", "by-category", "by-name"]);
}

#[test]
fn query_ignores_case_on_both_sides() {
    let catalog = build_store_catalog();
    assert_eq!(ids(&filter_catalog(&catalog, "MODULE", "")), vec!["porofessor-rune-assist"]);
    assert_eq!(ids(&filter_catalog(&catalog, "hud", "")), vec!["tftmeta-level-timer"]);
    assert_eq!(
        ids(&filter_catalog(&catalog, "TfTmEtA", "")),
        vec!["tftmeta-comp-scout", "tftmeta-trait-tracker", "tftmeta-level-timer"]
    );
}

#[test]
fn provider_filter_is_exact() {
    let catalog = build_store_catalog();
    assert_eq!(filter_catalog(&catalog, "", "tftmeta").len(), 3);
    assert_eq!(filter_catalog(&catalog, "", "tft").len(), 0);
    assert_eq!(filter_catalog(&catalog, "", "TFTMeta").len(), 0);
    assert_eq!(filter_catalog(&catalog, "module", "tftmeta").len(), 0);
}

#[test]
fn list_items_takes_absent_filters_as_empty() {
    let catalog = build_store_catalog();
    assert_eq!(store_list_items(&catalog, None, None).len(), 6);
    assert_eq!(store_list_items(&catalog, Some(String::new()), Some(String::new())).len(), 6);
    let listed = store_list_items(&catalog, Some("Module".to_string()), Some("porofessor".to_string()));
    assert_eq!(ids(&listed), vec!["porofessor-rune-assist"]);
    let by_provider = store_list_items(&catalog, None, Some("tftmeta".to_string()));
    assert_eq!(
        ids(&by_provider),
        vec!["tftmeta-comp-scout", "tftmeta-trait-tracker", "tftmeta-level-timer"]
    );
}

#[test]
fn list_items_matches_the_provider_as_given() {
    let catalog = build_store_catalog();
    assert!(store_list_items(&catalog, None, Some("POROFESSOR".to_string())).is_empty());
    assert!(store_list_items(&catalog, None, Some("TFTMETA".to_string())).is_empty());
    assert!(store_list_items(&catalog, None, Some("Porofessor".to_string())).is_empty());
    assert!(store_list_items(&catalog, Some("module".to_string()), Some("Porofessor".to_string()))
        .is_empty());
    assert_eq!(store_list_items(&catalog, None, Some("porofessor".to_string())).len(), 3);
}

#[test]
fn get_item_finds_by_id_or_nothing() {
    let catalog = build_store_catalog();
    let found = store_get_item(&catalog, "tftmeta-level-timer").expect("the item is in the catalog");
    assert_eq!(found.name, "Level Timer HUD");
    assert_eq!(found.stock, 210);
    assert!(store_get_item(&catalog, "tftmeta-level").is_none());
    assert!(store_get_item(&catalog, "").is_none());
    assert!(store_get_item(&[], "tftmeta-level-timer").is_none());
}

#[test]
fn get_item_takes_the_first_of_equal_ids() {
    let catalog = vec![rated("x", "first", "c", "p", 1.0), rated("x", "second", "c", "p", 2.0)];
    assert_eq!(store_get_item(&catalog, "x").expect("present").name, "first");
}

#[test]
fn providers_are_the_configured_two() {
    let providers = store_providers();
    assert_eq!(providers.len(), 2);
    assert_eq!(providers[0].id, "tftmeta");
    assert_eq!(providers[0].name, "TFTMeta");
    assert_eq!(providers[0].region, "Global");
    assert_eq!(providers[0].source_url, "https://tftmeta.gg");
    assert_eq!(providers[1].id, "porofessor");
    assert_eq!(providers[1].name, "Porofessor");
    assert_eq!(providers[1].region, "Global");
    assert_eq!(providers[1].source_url, "https://porofessor.gg");
    let listed = store_list_providers();
    assert_eq!(listed.len(), 2);
    assert_eq!(listed[0].id, "tftmeta");
    assert_eq!(listed[1].id, "porofessor");
}

#[test]
fn refresh_rebuilds_and_reports() {
    let (catalog, result, notice) = store_refresh_cache();
    assert_eq!(catalog.len(), 6);
    assert_eq!(result.items, 6);
    assert_eq!(result.providers, 2);
    assert_eq!(notice, Notice::CatalogRefreshed);
    assert_eq!(notice.topic(), "catalog-refreshed");
}
