//! The catalog snapshot: how it is built, looked up and queried.

use crate::adapters::porofessor::{porofessor_catalog, porofessor_provider};
use crate::adapters::tftmeta::{tftmeta_catalog, tftmeta_provider};
use crate::adapters::{
    all_have_required_fields, are_catalogs_of, batch_views, catalog_from_adapters,
    configured_adapters, first_wins, has_id, lemma_configured_adapter_yields,
    lemma_sources_have_required_fields, merged, providers_from_adapters, unique_ids,
    CatalogAdapter, ConfiguredAdapter,
};
use crate::models::{item_views, provider_views, StoreItem, StoreItemView, StoreProvider};
use crate::notify::Notice;
use crate::query::{filter_catalog, is_rating_sort_of, query_filter};
use vstd::prelude::*;

verus! {

/// The providers of the configured adapters, in registry order.
pub fn store_providers() -> (providers: Vec<StoreProvider>)
    ensures
        provider_views(providers@) == seq![tftmeta_provider(), porofessor_provider()],
{
    let adapters = configured_adapters();
    let providers = providers_from_adapters(adapters.as_slice());
    proof {
        assert(call_ensures(ConfiguredAdapter::provider, (&adapters@[0],), providers@[0]));
        assert(call_ensures(ConfiguredAdapter::provider, (&adapters@[1],), providers@[1]));
        assert(provider_views(providers@) =~= seq![tftmeta_provider(), porofessor_provider()]);
    }
    providers
}

/// The catalog that the configured adapters' sources merge into.
pub open spec fn store_catalog() -> Seq<StoreItemView> {
    tftmeta_catalog() + porofessor_catalog()
}

/// The configured adapters' sources hold no id twice, so merging them
/// drops nothing; and every item of them has its required fields.
pub proof fn lemma_store_catalog_merge()
    ensures
        merged(seq![tftmeta_catalog(), porofessor_catalog()]) == store_catalog(),
        unique_ids(store_catalog()),
        all_have_required_fields(store_catalog()),
{
    reveal_strlit("tftmeta-comp-scout");
    reveal_strlit("tftmeta-trait-tracker");
    reveal_strlit("tftmeta-level-timer");
    reveal_strlit("porofessor-match-insight");
    reveal_strlit("porofessor-rune-assist");
    reveal_strlit("porofessor-session-recap");
    lemma_sources_have_required_fields();
    let all = store_catalog();
    let batches = seq![tftmeta_catalog(), porofessor_catalog()];
    assert(batches.flatten() =~= all) by {
        assert(batches =~= seq![tftmeta_catalog()].push(porofessor_catalog()));
        seq![tftmeta_catalog()].lemma_flatten_push(porofessor_catalog());
        seq![tftmeta_catalog()].lemma_flatten_singleton();
    }
    assert(all.len() == 6);
    assert(unique_ids(all)) by {
        assert(all[0].id.len() == 18);
        assert(all[1].id.len() == 21);
        assert(all[2].id.len() == 19);
        assert(all[3].id.len() == 24);
        assert(all[4].id.len() == 22);
        assert(all[5].id.len() == 24);
        assert(all[3].id[11] == 'm');
        assert(all[5].id[11] == 's');
    }
    assert(all_have_required_fields(all)) by {
        assert forall|i: int| 0 <= i < all.len() implies (#[trigger] all[i]).has_required_fields() by {
            if i < 3 {
                assert(all[i] == tftmeta_catalog()[i]);
            } else {
                assert(all[i] == porofessor_catalog()[i - 3]);
            }
        }
    }
    lemma_first_wins_of_unique(all);
}

/// Merging items that hold no id twice drops nothing.
pub proof fn lemma_first_wins_of_unique(items: Seq<StoreItemView>)
    requires
        unique_ids(items),
    ensures
        first_wins(items) == items,
    decreases items.len(),
{
    if items.len() > 0 {
        let earlier = items.drop_last();
        lemma_first_wins_of_unique(earlier);
        assert(!has_id(earlier, items.last().id)) by {
            if has_id(earlier, items.last().id) {
                let j = choose|j: int|
                    0 <= j < earlier.len() && (#[trigger] earlier[j]).id == items.last().id;
                assert(items[j].id == items[items.len() - 1].id);
            }
        }
        assert(earlier.push(items.last()) =~= items);
    } else {
        assert(items =~= Seq::<StoreItemView>::empty());
    }
}

/// Builds the catalog snapshot: the merged catalog of the configured
/// adapters.
pub fn build_store_catalog() -> (catalog: Vec<StoreItem>)
    ensures
        item_views(catalog@) == store_catalog(),
        unique_ids(item_views(catalog@)),
        all_have_required_fields(item_views(catalog@)),
{
    let adapters = configured_adapters();
    let catalog = catalog_from_adapters(adapters.as_slice());
    proof {
        let batches = choose|batches: Seq<Vec<StoreItem>>| #[trigger]
            are_catalogs_of(adapters@, batches) && item_views(catalog@) == merged(
                batch_views(batches),
            );
        lemma_configured_adapter_yields(adapters@[0], batches[0]@);
        lemma_configured_adapter_yields(adapters@[1], batches[1]@);
        assert(batch_views(batches) =~= seq![tftmeta_catalog(), porofessor_catalog()]);
        lemma_store_catalog_merge();
    }
    catalog
}

/// The providers that the store lists.
pub fn store_list_providers() -> (providers: Vec<StoreProvider>)
    ensures
        provider_views(providers@) == seq![tftmeta_provider(), porofessor_provider()],
{
    store_providers()
}

/// The text of an optional filter: an absent filter is the empty one.
pub open spec fn filter_text(filter: Option<String>) -> Seq<char> {
    match filter {
        Some(text) => text@,
        None => Seq::empty(),
    }
}

/// Lists the items of a catalog snapshot that pass the given filters, by
/// rating, highest first. An absent filter is the empty one and passes every
/// item. The query is matched without regard to case; the provider filter
/// is matched exactly, as it is given.
pub fn store_list_items(catalog: &[StoreItem], query: Option<String>, provider: Option<
    String,
>) -> (listed: Vec<StoreItem>)
    ensures
        is_rating_sort_of(
            item_views(catalog@).filter(query_filter(filter_text(query), filter_text(provider))),
            item_views(listed@),
        ),
{
    let query_text: String = match query {
        Some(text) => text,
        None => String::new(),
    };
    let provider_text: String = match provider {
        Some(text) => text,
        None => String::new(),
    };
    assert(provider_text@ =~= filter_text(provider));
    assert(query_text@ =~= filter_text(query));
    filter_catalog(catalog, query_text.as_str(), provider_text.as_str())
}

/// Whether `i` is the position of the first item with this id.
pub open spec fn is_first_item_with(catalog: Seq<StoreItemView>, id: Seq<char>, i: int) -> bool {
    &&& 0 <= i < catalog.len()
    &&& catalog[i].id == id
    &&& forall|j: int| 0 <= j < i ==> (#[trigger] catalog[j]).id != id
}

/// Looks an item up by its id: the first item of the snapshot with the id,
/// or nothing where the snapshot has none.
pub fn store_get_item(catalog: &[StoreItem], item: &str) -> (found: Option<StoreItem>)
    ensures
        found is Some == has_id(item_views(catalog@), item@),
        found matches Some(it) ==> exists|i: int|
            is_first_item_with(item_views(catalog@), item@, i) && it@ == #[trigger] item_views(
                catalog@,
            )[i],
{
    let wanted: String = item.to_string();
    let ghost items = item_views(catalog@);
    let mut i: usize = 0;
    while i < catalog.len()
        invariant
            i <= catalog.len(),
            items == item_views(catalog@),
            wanted@ == item@,
            forall|j: int| 0 <= j < i ==> (#[trigger] items[j]).id != item@,
        decreases catalog.len() - i,
    {
        if catalog[i].id == wanted {
            let found = catalog[i].clone();
            assert(items[i as int].id == item@);
            assert(is_first_item_with(items, item@, i as int) && found@ == items[i as int]);
            return Some(found);
        }
        i += 1;
    }
    None
}

/// What a refresh reports: how many items the new snapshot holds, and how
/// many providers the store lists.
#[derive(Clone, Copy, Debug, PartialEq, Eq, Structural)]
pub struct StoreRefreshResult {
    pub items: usize,
    pub providers: usize,
}

/// Rebuilds the catalog: hands back the new snapshot, to replace the old one
/// as a whole, with what to report of it and the notice that is due. The
/// library is not touched by a refresh.
pub fn store_refresh_cache() -> (refreshed: (Vec<StoreItem>, StoreRefreshResult, Notice))
    ensures
        item_views(refreshed.0@) == store_catalog(),
        refreshed.1 == (StoreRefreshResult { items: 6, providers: 2 }),
        refreshed.1.items == refreshed.0@.len(),
        refreshed.2 == Notice::CatalogRefreshed,
{
    let listed = store_providers();
    let providers = listed.len();
    let catalog = build_store_catalog();
    let result = StoreRefreshResult { items: catalog.len(), providers };
    proof {
        assert(provider_views(listed@).len() == listed@.len());
        assert(store_catalog().len() == 6);
        assert(item_views(catalog@).len() == catalog@.len());
    }
    (catalog, result, Notice::CatalogRefreshed)
}

} // verus!
