//! The TFTMeta provider, served from fixed data.

use crate::adapters::CatalogAdapter;
use crate::models::{
    item_views, Binary64, StoreItem, StoreItemView, StoreProvider, StoreProviderView,
};
use vstd::prelude::*;

verus! {

pub struct TftMetaAdapter;

/// The TFTMeta provider.
pub open spec fn tftmeta_provider() -> StoreProviderView {
    StoreProviderView {
        id: "tftmeta"@,
        name: "TFTMeta"@,
        region: "Global"@,
        source_url: "https://tftmeta.gg"@,
    }
}

/// A TFTMeta item with the given own fields.
pub open spec fn tftmeta_item(
    id: Seq<char>,
    name: Seq<char>,
    category: Seq<char>,
    price_usd: u64,
    rating: u64,
    stock: u32,
) -> StoreItemView {
    StoreItemView {
        id,
        name,
        category,
        provider_id: "tftmeta"@,
        provider_name: "TFTMeta"@,
        source_url: "https://tftmeta.gg"@,
        price_usd: Binary64 { bits: price_usd },
        rating: Binary64 { bits: rating },
        stock,
    }
}

/// The items TFTMeta offers. Prices and ratings are binary64 bit patterns;
/// the decimal each stands for is noted beside it.
pub open spec fn tftmeta_catalog() -> Seq<StoreItemView> {
    seq![
        tftmeta_item(
            "tftmeta-comp-scout"@,
            "Comp Scout Pack"@,
            "Team Comp"@,
            0x4003_EB85_1EB8_51EC,  // 2.49
            0x4012_CCCC_CCCC_CCCD,  // 4.7
            150,
        ),
        tftmeta_item(
            "tftmeta-trait-tracker"@,
            "Trait Tracker Widget"@,
            "Overlay Widget"@,
            0x400F_EB85_1EB8_51EC,  // 3.99
            0x4012_0000_0000_0000,  // 4.5
            80,
        ),
        tftmeta_item(
            "tftmeta-level-timer"@,
            "Level Timer HUD"@,
            "HUD"@,
            0x3FFF_D70A_3D70_A3D7,  // 1.99
            0x4010_CCCC_CCCC_CCCD,  // 4.2
            210,
        ),
    ]
}

fn item(id: &str, name: &str, category: &str, price_usd: u64, rating: u64, stock: u32) -> (item:
    StoreItem)
    ensures
        item@ == tftmeta_item(id@, name@, category@, price_usd, rating, stock),
{
    StoreItem {
        id: id.to_string(),
        name: name.to_string(),
        category: category.to_string(),
        provider_id: "tftmeta".to_string(),
        provider_name: "TFTMeta".to_string(),
        source_url: "https://tftmeta.gg".to_string(),
        price_usd: Binary64::from_bits(price_usd),
        rating: Binary64::from_bits(rating),
        stock,
    }
}

/// The items TFTMeta offers.
pub fn tftmeta_items() -> (items: Vec<StoreItem>)
    ensures
        item_views(items@) == tftmeta_catalog(),
{
    let mut items: Vec<StoreItem> = Vec::new();
    items.push(
        item(
            "tftmeta-comp-scout",
            "Comp Scout Pack",
            "Team Comp",
            0x4003_EB85_1EB8_51EC,
            0x4012_CCCC_CCCC_CCCD,
            150,
        ),
    );
    items.push(
        item(
            "tftmeta-trait-tracker",
            "Trait Tracker Widget",
            "Overlay Widget",
            0x400F_EB85_1EB8_51EC,
            0x4012_0000_0000_0000,
            80,
        ),
    );
    items.push(
        item(
            "tftmeta-level-timer",
            "Level Timer HUD",
            "HUD",
            0x3FFF_D70A_3D70_A3D7,
            0x4010_CCCC_CCCC_CCCD,
            210,
        ),
    );
    assert(item_views(items@) =~= tftmeta_catalog());
    items
}

impl CatalogAdapter for TftMetaAdapter {
    fn provider(&self) -> (provider: StoreProvider)
        ensures
            provider@ == tftmeta_provider(),
    {
        StoreProvider {
            id: "tftmeta".to_string(),
            name: "TFTMeta".to_string(),
            region: "Global".to_string(),
            source_url: "https://tftmeta.gg".to_string(),
        }
    }

    fn fetch_raw(&self) -> (raw: Vec<StoreItem>)
        ensures
            item_views(raw@) == tftmeta_catalog(),
    {
        tftmeta_items()
    }
}

} // verus!
