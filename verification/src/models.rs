//! The canonical catalog model: providers and items.

use vstd::prelude::*;

verus! {

/// A binary64 number carried by its IEEE 754 bit pattern.
///
/// The library never computes with the number; it only carries it and orders
/// by it. The order is the IEEE 754 `totalOrder` predicate, which on bit
/// patterns is the order of [`Binary64::order_key`].
#[derive(Clone, Copy, Debug)]
pub struct Binary64 {
    pub bits: u64,
}

impl Binary64 {
    /// The position of the number in the total order: patterns with the sign
    /// bit clear count upwards from zero by magnitude, patterns with the sign
    /// bit set count downwards from minus one by magnitude.
    pub open spec fn order_key(self) -> int {
        if self.bits < 0x8000_0000_0000_0000 {
            self.bits as int
        } else {
            -1 - (self.bits - 0x8000_0000_0000_0000)
        }
    }

    pub fn from_bits(bits: u64) -> (n: Binary64)
        ensures
            n.bits == bits,
    {
        Binary64 { bits }
    }

    pub fn to_bits(&self) -> (bits: u64)
        ensures
            bits == self.bits,
    {
        self.bits
    }

    /// Whether `self` comes strictly before `other` in the total order.
    pub fn total_lt(&self, other: &Binary64) -> (lt: bool)
        ensures
            lt == (self.order_key() < other.order_key()),
    {
        let self_negative: bool = self.bits >= 0x8000_0000_0000_0000;
        let other_negative: bool = other.bits >= 0x8000_0000_0000_0000;
        if self_negative {
            !other_negative || self.bits > other.bits
        } else {
            !other_negative && self.bits < other.bits
        }
    }
}

/// A source of catalog items. Its identity is its `id`.
#[derive(Debug)]
pub struct StoreProvider {
    pub id: String,
    pub name: String,
    pub region: String,
    pub source_url: String,
}

/// What a [`StoreProvider`] holds, as mathematical values.
pub struct StoreProviderView {
    pub id: Seq<char>,
    pub name: Seq<char>,
    pub region: Seq<char>,
    pub source_url: Seq<char>,
}

impl View for StoreProvider {
    type V = StoreProviderView;

    open spec fn view(&self) -> StoreProviderView {
        StoreProviderView {
            id: self.id@,
            name: self.name@,
            region: self.region@,
            source_url: self.source_url@,
        }
    }
}

impl Clone for StoreProvider {
    fn clone(&self) -> (copy: Self)
        ensures
            copy == *self,
    {
        StoreProvider {
            id: self.id.clone(),
            name: self.name.clone(),
            region: self.region.clone(),
            source_url: self.source_url.clone(),
        }
    }
}

/// One add-on offered by a provider.
#[derive(Debug)]
pub struct StoreItem {
    pub id: String,
    pub name: String,
    pub category: String,
    pub provider_id: String,
    pub provider_name: String,
    pub source_url: String,
    pub price_usd: Binary64,
    pub rating: Binary64,
    pub stock: u32,
}

/// What a [`StoreItem`] holds, as mathematical values.
pub struct StoreItemView {
    pub id: Seq<char>,
    pub name: Seq<char>,
    pub category: Seq<char>,
    pub provider_id: Seq<char>,
    pub provider_name: Seq<char>,
    pub source_url: Seq<char>,
    pub price_usd: Binary64,
    pub rating: Binary64,
    pub stock: u32,
}

impl StoreItemView {
    /// The fields without which an item is not admitted into any catalog.
    pub open spec fn has_required_fields(self) -> bool {
        self.id.len() > 0 && self.name.len() > 0 && self.provider_id.len() > 0
    }
}

impl View for StoreItem {
    type V = StoreItemView;

    open spec fn view(&self) -> StoreItemView {
        StoreItemView {
            id: self.id@,
            name: self.name@,
            category: self.category@,
            provider_id: self.provider_id@,
            provider_name: self.provider_name@,
            source_url: self.source_url@,
            price_usd: self.price_usd,
            rating: self.rating,
            stock: self.stock,
        }
    }
}

impl Clone for StoreItem {
    fn clone(&self) -> (copy: Self)
        ensures
            copy == *self,
    {
        StoreItem {
            id: self.id.clone(),
            name: self.name.clone(),
            category: self.category.clone(),
            provider_id: self.provider_id.clone(),
            provider_name: self.provider_name.clone(),
            source_url: self.source_url.clone(),
            price_usd: self.price_usd,
            rating: self.rating,
            stock: self.stock,
        }
    }
}

impl StoreItem {
    /// Whether the fields that every catalog requires are present.
    pub fn has_required_fields(&self) -> (ok: bool)
        ensures
            ok == self@.has_required_fields(),
    {
        !self.id.as_str().is_empty() && !self.name.as_str().is_empty()
            && !self.provider_id.as_str().is_empty()
    }
}

/// The views of a sequence of providers, in order.
pub open spec fn provider_views(providers: Seq<StoreProvider>) -> Seq<StoreProviderView> {
    providers.map_values(|p: StoreProvider| p@)
}

/// The views of a sequence of items, in order.
pub open spec fn item_views(items: Seq<StoreItem>) -> Seq<StoreItemView> {
    items.map_values(|i: StoreItem| i@)
}

} // verus!
