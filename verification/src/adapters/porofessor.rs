//! The Porofessor provider, served from fixed data.

use crate::adapters::CatalogAdapter;
use crate::models::{
    item_views, Binary64, StoreItem, StoreItemView, StoreProvider, StoreProviderView,
};
use vstd::prelude::*;

verus! {

pub struct PorofessorAdapter;

/// The Porofessor provider.
pub open spec fn porofessor_provider() -> StoreProviderView {
    StoreProviderView {
        id: "porofessor"@,
        name: "Porofessor"@,
        region: "Global"@,
        source_url: "https://porofessor.gg"@,
    }
}

/// A Porofessor item with the given own fields.
pub open spec fn porofessor_item(
    id: Seq<char>,
    name: Seq<char>,
    category: Seq<char>,
    price_usd: u64,
    rating: u64,
    stock: u32,
) -> StoreItemView {
    StoreItemView {
        id,
        name,
        category,
        provider_id: "porofessor"@,
        provider_name: "Porofessor"@,
        source_url: "https://porofessor.gg"@,
        price_usd: Binary64 { bits: price_usd },
        rating: Binary64 { bits: rating },
        stock,
    }
}

/// The items Porofessor offers. Prices and ratings are binary64 bit patterns;
/// the decimal each stands for is noted beside it.
pub open spec fn porofessor_catalog() -> Seq<StoreItemView> {
    seq![
        porofessor_item(
            "porofessor-match-insight"@,
            "Match Insight Panel"@,
            "Analysis"@,
            0x4013_F5C2_8F5C_28F6,  // 4.99
            0x4013_3333_3333_3333,  // 4.8
            95,
        ),
        porofessor_item(
            "porofessor-rune-assist"@,
            "Rune Assist Module"@,
            "Assistant"@,
            0x4007_EB85_1EB8_51EC,  // 2.99
            0x4011_9999_9999_999A,  // 4.4
            180,
        ),
        porofessor_item(
            "porofessor-session-recap"@,
            "Session Recap Exporter"@,
            "Reporting"@,
            0x4015_F5C2_8F5C_28F6,  // 5.49
            0x4012_6666_6666_6666,  // 4.6
            70,
        ),
    ]
}

fn item(id: &str, name: &str, category: &str, price_usd: u64, rating: u64, stock: u32) -> (item:
    StoreItem)
    ensures
        item@ == porofessor_item(id@, name@, category@, price_usd, rating, stock),
{
    StoreItem {
        id: id.to_string(),
        name: name.to_string(),
        category: category.to_string(),
        provider_id: "porofessor".to_string(),
        provider_name: "Porofessor".to_string(),
        source_url: "https://porofessor.gg".to_string(),
        price_usd: Binary64::from_bits(price_usd),
        rating: Binary64::from_bits(rating),
        stock,
    }
}

/// The items Porofessor offers.
pub fn porofessor_items() -> (items: Vec<StoreItem>)
    ensures
        item_views(items@) == porofessor_catalog(),
{
    let mut items: Vec<StoreItem> = Vec::new();
    items.push(
        item(
            "porofessor-match-insight",
            "Match Insight Panel",
            "Analysis",
            0x4013_F5C2_8F5C_28F6,
            0x4013_3333_3333_3333,
            95,
        ),
    );
    items.push(
        item(
            "porofessor-rune-assist",
            "Rune Assist Module",
            "Assistant",
            0x4007_EB85_1EB8_51EC,
            0x4011_9999_9999_999A,
            180,
        ),
    );
    items.push(
        item(
            "porofessor-session-recap",
            "Session Recap Exporter",
            "Reporting",
            0x4015_F5C2_8F5C_28F6,
            0x4012_6666_6666_6666,
            70,
        ),
    );
    assert(item_views(items@) =~= porofessor_catalog());
    items
}

impl CatalogAdapter for PorofessorAdapter {
    fn provider(&self) -> (provider: StoreProvider)
        ensures
            provider@ == porofessor_provider(),
    {
        StoreProvider {
            id: "porofessor".to_string(),
            name: "Porofessor".to_string(),
            region: "Global".to_string(),
            source_url: "https://porofessor.gg".to_string(),
        }
    }

    fn fetch_raw(&self) -> (raw: Vec<StoreItem>)
        ensures
            item_views(raw@) == porofessor_catalog(),
    {
        porofessor_items()
    }
}

} // verus!
