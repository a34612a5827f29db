//! Provider adapters and the registry that merges their catalogs.

use crate::models::{item_views, StoreItem, StoreItemView, StoreProvider, StoreProviderView};
use crate::adapters::porofessor::{porofessor_catalog, porofessor_provider, PorofessorAdapter};
use crate::adapters::tftmeta::{tftmeta_catalog, tftmeta_provider, TftMetaAdapter};
use vstd::prelude::*;

pub mod porofessor;
pub mod tftmeta;

verus! {

/// A source of one provider's items.
///
/// A catalog is produced in three stages that always run in this order: the
/// raw items are fetched, then normalized, then validated. Validation sees
/// normalized items, so an adapter can repair a malformed raw record before
/// validation would reject it.
pub trait CatalogAdapter: Send + Sync {
    /// The provider this adapter stands for.
    fn provider(&self) -> StoreProvider;

    /// Retrieves the provider's items as the source has them.
    fn fetch_raw(&self) -> Vec<StoreItem>;

    /// Reshapes raw items into the canonical model. Unless an adapter says
    /// otherwise, raw items already are canonical.
    fn normalize(&self, raw: Vec<StoreItem>) -> (normalized: Vec<StoreItem>)
        default_ensures
            normalized == raw,
    {
        raw
    }

    /// Whether a normalized item is admitted. An adapter may be stricter than
    /// the default, never laxer: an admitted item has its required fields.
    fn validate(&self, item: &StoreItem) -> (admitted: bool)
        ensures
            admitted ==> item@.has_required_fields(),
        default_ensures
            admitted == item@.has_required_fields(),
    {
        item.has_required_fields()
    }

    /// The adapter's catalog: what validation admits of the normalized raw
    /// items, in their order.
    ///
    /// The contract says that the catalog comes of one run of the three
    /// stages, in the words of [`is_pipeline_run`]. It is written out here
    /// because a trait cannot speak through functions that are generic over
    /// it.
    fn fetch_catalog(&self) -> (catalog: Vec<StoreItem>)
        ensures
            exists|raw: Vec<StoreItem>, normalized: Vec<StoreItem>, verdicts: Seq<bool>|
                {
                    &&& call_ensures(Self::fetch_raw, (self,), raw)
                    &&& call_ensures(Self::normalize, (self, raw), normalized)
                    &&& verdicts.len() == normalized@.len()
                    &&& forall|i: int|
                        0 <= i < normalized@.len() ==> call_ensures(
                            Self::validate,
                            (self, &normalized@[i]),
                            #[trigger] verdicts[i],
                        )
                    &&& catalog@ == admitted_by(verdicts, normalized@)
                },
            all_have_required_fields(item_views(catalog@)),
    {
        let raw = self.fetch_raw();
        let ghost fetched = raw;
        let normalized = self.normalize(raw);
        let ghost reshaped = normalized;
        let ghost mut verdicts: Seq<bool> = Seq::empty();
        let mut catalog: Vec<StoreItem> = Vec::new();
        for item in it: normalized
            invariant
                it.seq() == reshaped@,
                verdicts.len() == it.index(),
                forall|i: int|
                    0 <= i < it.index() ==> call_ensures(
                        Self::validate,
                        (self, &reshaped@[i]),
                        #[trigger] verdicts[i],
                    ),
                catalog@ == admitted_by(verdicts, reshaped@.take(it.index())),
                all_have_required_fields(item_views(catalog@)),
        {
            let ghost seen = reshaped@.take(it.index());
            let admitted = self.validate(&item);
            proof {
                assert(reshaped@.take(it.index() + 1) =~= seen.push(item));
                assert(seen.push(item).drop_last() =~= seen);
                assert(verdicts.push(admitted).drop_last() =~= verdicts);
                verdicts = verdicts.push(admitted);
            }
            if admitted {
                let ghost before = catalog@;
                catalog.push(item);
                assert(item_views(catalog@) =~= item_views(before).push(item@));
            }
        }
        proof {
            assert(reshaped@.take(reshaped@.len() as int) =~= reshaped@);
            assert(call_ensures(Self::normalize, (self, fetched), reshaped));
            assert(catalog@ == admitted_by(verdicts, reshaped@));
        }
        catalog
    }
}

/// The items that were admitted: those of `normalized` whose verdict, at
/// the same position of `verdicts`, is to admit, in their order.
pub open spec fn admitted_by(verdicts: Seq<bool>, normalized: Seq<StoreItem>) -> Seq<StoreItem>
    decreases normalized.len(),
{
    if normalized.len() == 0 || verdicts.len() != normalized.len() {
        Seq::empty()
    } else {
        let earlier = admitted_by(verdicts.drop_last(), normalized.drop_last());
        if verdicts.last() {
            earlier.push(normalized.last())
        } else {
            earlier
        }
    }
}

/// Whether `verdicts` holds, for each normalized item, a verdict that the
/// adapter's validation can give on it.
pub open spec fn is_validation_of<A: CatalogAdapter + ?Sized>(
    adapter: &A,
    normalized: Seq<StoreItem>,
    verdicts: Seq<bool>,
) -> bool {
    &&& verdicts.len() == normalized.len()
    &&& forall|i: int|
        0 <= i < normalized.len() ==> call_ensures(
            A::validate,
            (adapter, &normalized[i]),
            #[trigger] verdicts[i],
        )
}

/// Whether the values are those of one run of the adapter's three stages:
/// `raw` is what the fetch can return, `normalized` what normalizing `raw`
/// can return, `verdicts` what validation can say of the normalized items,
/// and `catalog` the items so admitted.
pub open spec fn is_pipeline_run<A: CatalogAdapter + ?Sized>(
    adapter: &A,
    raw: Vec<StoreItem>,
    normalized: Vec<StoreItem>,
    verdicts: Seq<bool>,
    catalog: Seq<StoreItem>,
) -> bool {
    &&& call_ensures(A::fetch_raw, (adapter,), raw)
    &&& call_ensures(A::normalize, (adapter, raw), normalized)
    &&& is_validation_of(adapter, normalized@, verdicts)
    &&& catalog == admitted_by(verdicts, normalized@)
}

/// Whether `catalog` can be the adapter's catalog: the outcome of some run
/// of its three stages.
pub open spec fn may_yield<A: CatalogAdapter + ?Sized>(adapter: &A, catalog: Seq<StoreItem>) -> bool {
    exists|raw: Vec<StoreItem>, normalized: Vec<StoreItem>, verdicts: Seq<bool>|
        is_pipeline_run(adapter, raw, normalized, verdicts, catalog)
}

/// Every item has the fields without which none is admitted into a catalog.
pub open spec fn all_have_required_fields(items: Seq<StoreItemView>) -> bool {
    forall|i: int| 0 <= i < items.len() ==> (#[trigger] items[i]).has_required_fields()
}

/// Whether some item of `items` carries `id`.
pub open spec fn has_id(items: Seq<StoreItemView>, id: Seq<char>) -> bool {
    exists|i: int| 0 <= i < items.len() && (#[trigger] items[i]).id == id
}

/// No two items carry the same id.
pub open spec fn unique_ids(items: Seq<StoreItemView>) -> bool {
    forall|i: int, j: int|
        0 <= i < j < items.len() ==> (#[trigger] items[i]).id != (#[trigger] items[j]).id
}

/// The items of `items` whose id no earlier item carries, in their order:
/// of several items with one id, the first wins.
pub open spec fn first_wins(items: Seq<StoreItemView>) -> Seq<StoreItemView>
    decreases items.len(),
{
    if items.len() == 0 {
        Seq::empty()
    } else {
        let earlier = items.drop_last();
        if has_id(earlier, items.last().id) {
            first_wins(earlier)
        } else {
            first_wins(earlier).push(items.last())
        }
    }
}

/// The views of a sequence of per-adapter catalogs.
pub open spec fn batch_views(batches: Seq<Vec<StoreItem>>) -> Seq<Seq<StoreItemView>> {
    batches.map_values(|batch: Vec<StoreItem>| item_views(batch@))
}

/// The merged catalog of per-adapter catalogs given in registry order.
pub open spec fn merged(batches: Seq<Seq<StoreItemView>>) -> Seq<StoreItemView> {
    first_wins(batches.flatten())
}

/// An id occurs after a push if it occurred before or the pushed item
/// carries it.
pub proof fn lemma_has_id_push(items: Seq<StoreItemView>, item: StoreItemView, id: Seq<char>)
    ensures
        has_id(items.push(item), id) == (has_id(items, id) || item.id == id),
{
    let pushed = items.push(item);
    if has_id(items, id) {
        let i = choose|i: int| 0 <= i < items.len() && (#[trigger] items[i]).id == id;
        assert(pushed[i].id == id);
    }
    if item.id == id {
        assert(pushed[items.len() as int].id == id);
    }
    if has_id(pushed, id) {
        let i = choose|i: int| 0 <= i < pushed.len() && (#[trigger] pushed[i]).id == id;
        if i < items.len() {
            assert(items[i].id == id);
        }
    }
}

/// First-wins keeps exactly the ids that went in.
pub proof fn lemma_first_wins_ids(items: Seq<StoreItemView>, id: Seq<char>)
    ensures
        has_id(first_wins(items), id) == has_id(items, id),
    decreases items.len(),
{
    if items.len() > 0 {
        let earlier = items.drop_last();
        let last = items.last();
        assert(items =~= earlier.push(last));
        lemma_first_wins_ids(earlier, id);
        lemma_first_wins_ids(earlier, last.id);
        lemma_has_id_push(earlier, last, id);
        lemma_has_id_push(first_wins(earlier), last, id);
    }
}

/// A first-wins merge holds no id twice.
pub proof fn lemma_first_wins_unique(items: Seq<StoreItemView>)
    ensures
        unique_ids(first_wins(items)),
    decreases items.len(),
{
    if items.len() > 0 {
        let earlier = items.drop_last();
        lemma_first_wins_unique(earlier);
        lemma_first_wins_ids(earlier, items.last().id);
    }
}

/// Of the items that carry one id, a first-wins merge holds the first: an
/// item that no earlier item shares its id with is kept as it is.
pub proof fn lemma_first_occurrence_wins(items: Seq<StoreItemView>, i: int)
    requires
        0 <= i < items.len(),
        forall|j: int| 0 <= j < i ==> (#[trigger] items[j]).id != items[i].id,
    ensures
        first_wins(items).contains(items[i]),
    decreases items.len(),
{
    let earlier = items.drop_last();
    if i < items.len() - 1 {
        lemma_first_occurrence_wins(earlier, i);
        let k = choose|k: int|
            0 <= k < first_wins(earlier).len() && first_wins(earlier)[k] == earlier[i];
        assert(first_wins(items)[k] == items[i]);
    } else {
        assert(!has_id(earlier, items[i].id)) by {
            if has_id(earlier, items[i].id) {
                let j = choose|j: int|
                    0 <= j < earlier.len() && (#[trigger] earlier[j]).id == items[i].id;
                assert(items[j].id == items[i].id);
            }
        }
        assert(first_wins(items)[first_wins(earlier).len() as int] == items[i]);
    }
}

/// A first-wins merge holds only items that went in.
pub proof fn lemma_first_wins_from_input(items: Seq<StoreItemView>, k: int)
    requires
        0 <= k < first_wins(items).len(),
    ensures
        items.contains(first_wins(items)[k]),
    decreases items.len(),
{
    let earlier = items.drop_last();
    if k < first_wins(earlier).len() {
        lemma_first_wins_from_input(earlier, k);
        let i = choose|i: int| 0 <= i < earlier.len() && earlier[i] == first_wins(earlier)[k];
        assert(items[i] == first_wins(items)[k]);
    } else {
        assert(items[items.len() - 1] == first_wins(items)[k]);
    }
}

/// Merging to the end of what was merged so far changes nothing of it: the
/// merge of `earlier` opens the merge of `earlier + later`, and what
/// follows it comes from `later` and carries ids that `earlier` lacks.
pub proof fn lemma_first_wins_extends(earlier: Seq<StoreItemView>, later: Seq<StoreItemView>)
    ensures
        first_wins(earlier).is_prefix_of(first_wins(earlier + later)),
        forall|k: int|
            first_wins(earlier).len() <= k < first_wins(earlier + later).len() ==> {
                &&& later.contains(#[trigger] first_wins(earlier + later)[k])
                &&& !has_id(earlier, first_wins(earlier + later)[k].id)
            },
    decreases later.len(),
{
    if later.len() == 0 {
        assert(earlier + later =~= earlier);
    } else {
        let shorter = later.drop_last();
        let last = later.last();
        lemma_first_wins_extends(earlier, shorter);
        assert(earlier + later =~= (earlier + shorter).push(last));
        lemma_first_wins_push(earlier + shorter, last);
        lemma_first_wins_ids(earlier + shorter, last.id);
        let before = first_wins(earlier + shorter);
        let after = first_wins(earlier + later);
        assert forall|k: int| first_wins(earlier).len() <= k < after.len() implies {
            &&& later.contains(#[trigger] after[k])
            &&& !has_id(earlier, after[k].id)
        } by {
            if k < before.len() {
                assert(shorter.contains(before[k]));
                let i = choose|i: int| 0 <= i < shorter.len() && shorter[i] == before[k];
                assert(later[i] == after[k]);
            } else {
                assert(after[k] == last);
                assert(later[later.len() - 1] == last);
                if has_id(earlier, last.id) {
                    let j = choose|j: int|
                        0 <= j < earlier.len() && (#[trigger] earlier[j]).id == last.id;
                    assert((earlier + shorter)[j].id == last.id);
                }
            }
        }
    }
}

/// Merge precedence: registering one more adapter behind the others leaves
/// every item merged so far in its place. Of the new adapter's catalog only
/// items with ids that no earlier adapter emitted are added.
pub proof fn lemma_merge_precedence(batches: Seq<Seq<StoreItemView>>, late: Seq<StoreItemView>)
    ensures
        merged(batches).is_prefix_of(merged(batches.push(late))),
        forall|k: int|
            merged(batches).len() <= k < merged(batches.push(late)).len() ==> {
                &&& late.contains(#[trigger] merged(batches.push(late))[k])
                &&& !has_id(batches.flatten(), merged(batches.push(late))[k].id)
            },
{
    batches.lemma_flatten_push(late);
    lemma_first_wins_extends(batches.flatten(), late);
}

/// A merged catalog holds no id twice.
pub proof fn lemma_merged_unique(batches: Seq<Seq<StoreItemView>>)
    ensures
        unique_ids(merged(batches)),
{
    lemma_first_wins_unique(batches.flatten());
}

/// Where every adapter's catalog holds only items with their required
/// fields, so does the merged catalog.
pub proof fn lemma_merged_required_fields(batches: Seq<Seq<StoreItemView>>)
    requires
        forall|b: int| 0 <= b < batches.len() ==> all_have_required_fields(#[trigger] batches[b]),
    ensures
        all_have_required_fields(merged(batches)),
{
    let flat = batches.flatten();
    assert(all_have_required_fields(flat)) by {
        lemma_flatten_required_fields(batches);
    }
    assert forall|k: int| 0 <= k < merged(batches).len() implies (#[trigger] merged(
        batches,
    )[k]).has_required_fields() by {
        lemma_first_wins_from_input(flat, k);
        let i = choose|i: int| 0 <= i < flat.len() && flat[i] == merged(batches)[k];
        assert(flat[i].has_required_fields());
    }
}

proof fn lemma_flatten_required_fields(batches: Seq<Seq<StoreItemView>>)
    requires
        forall|b: int| 0 <= b < batches.len() ==> all_have_required_fields(#[trigger] batches[b]),
    ensures
        all_have_required_fields(batches.flatten()),
    decreases batches.len(),
{
    if batches.len() > 0 {
        let rest = batches.drop_first();
        assert forall|b: int| 0 <= b < rest.len() implies all_have_required_fields(
            #[trigger] rest[b],
        ) by {
            assert(rest[b] == batches[b + 1]);
        }
        lemma_flatten_required_fields(rest);
        assert(all_have_required_fields(batches[0]));
    }
}

fn contains_id(items: &Vec<StoreItem>, id: &String) -> (found: bool)
    ensures
        found == has_id(item_views(items@), id@),
{
    let mut i: usize = 0;
    while i < items.len()
        invariant
            i <= items.len(),
            forall|j: int| 0 <= j < i ==> (#[trigger] item_views(items@)[j]).id != id@,
        decreases items.len() - i,
    {
        if items[i].id == *id {
            assert(item_views(items@)[i as int].id == id@);
            return true;
        }
        i += 1;
    }
    false
}

/// Taking one more item into a first-wins merge.
pub proof fn lemma_first_wins_push(items: Seq<StoreItemView>, item: StoreItemView)
    ensures
        first_wins(items.push(item)) == if has_id(first_wins(items), item.id) {
            first_wins(items)
        } else {
            first_wins(items).push(item)
        },
{
    assert(items.push(item).drop_last() =~= items);
    lemma_first_wins_ids(items, item.id);
}

/// Merges per-adapter catalogs, given in registry order, into one catalog in
/// which every id occurs once: an item is taken unless an item taken before
/// it carries the same id.
pub fn merge_catalogs(batches: Vec<Vec<StoreItem>>) -> (items: Vec<StoreItem>)
    ensures
        item_views(items@) == merged(batch_views(batches@)),
{
    let mut items: Vec<StoreItem> = Vec::new();
    let ghost all = batch_views(batches@);
    assert(all.take(0).flatten() =~= Seq::<StoreItemView>::empty());
    for batch in outer: batches
        invariant
            batch_views(outer.seq()) == all,
            item_views(items@) == first_wins(all.take(outer.index()).flatten()),
    {
        let ghost done = all.take(outer.index()).flatten();
        let ghost current = item_views(batch@);
        assert(current == all[outer.index()]);
        assert(current.take(0) =~= Seq::<StoreItemView>::empty());
        assert(done + current.take(0) =~= done);
        for item in inner: batch
            invariant
                item_views(inner.seq()) == current,
                item_views(items@) == first_wins(done + current.take(inner.index())),
        {
            proof {
                lemma_first_wins_push(done + current.take(inner.index()), item@);
                assert(current.take(inner.index() + 1) =~= current.take(inner.index()).push(
                    item@,
                ));
                assert(done + current.take(inner.index() + 1) =~= (done + current.take(
                    inner.index(),
                )).push(item@));
            }
            if !contains_id(&items, &item.id) {
                let ghost before = items@;
                items.push(item);
                assert(item_views(items@) =~= item_views(before).push(item@));
            }
        }
        proof {
            assert(current.take(current.len() as int) =~= current);
            assert(all.take(outer.index() + 1) =~= all.take(outer.index()).push(current));
            all.take(outer.index()).lemma_flatten_push(current);
        }
    }
    assert(all.take(all.len() as int) =~= all);
    items
}

/// The adapters this build is configured with.
pub enum ConfiguredAdapter {
    TftMeta(TftMetaAdapter),
    Porofessor(PorofessorAdapter),
}

impl ConfiguredAdapter {
    /// The provider that the adapter stands for.
    pub open spec fn identity(self) -> StoreProviderView {
        match self {
            ConfiguredAdapter::TftMeta(_) => tftmeta_provider(),
            ConfiguredAdapter::Porofessor(_) => porofessor_provider(),
        }
    }

    /// The items that the adapter's source holds.
    pub open spec fn source(self) -> Seq<StoreItemView> {
        match self {
            ConfiguredAdapter::TftMeta(_) => tftmeta_catalog(),
            ConfiguredAdapter::Porofessor(_) => porofessor_catalog(),
        }
    }
}

impl CatalogAdapter for ConfiguredAdapter {
    fn provider(&self) -> (provider: StoreProvider)
        ensures
            provider@ == self.identity(),
    {
        match self {
            ConfiguredAdapter::TftMeta(adapter) => adapter.provider(),
            ConfiguredAdapter::Porofessor(adapter) => adapter.provider(),
        }
    }

    fn fetch_raw(&self) -> (raw: Vec<StoreItem>)
        ensures
            item_views(raw@) == self.source(),
    {
        match self {
            ConfiguredAdapter::TftMeta(adapter) => adapter.fetch_raw(),
            ConfiguredAdapter::Porofessor(adapter) => adapter.fetch_raw(),
        }
    }

    fn normalize(&self, raw: Vec<StoreItem>) -> (normalized: Vec<StoreItem>)
        ensures
            normalized == raw,
    {
        match self {
            ConfiguredAdapter::TftMeta(adapter) => adapter.normalize(raw),
            ConfiguredAdapter::Porofessor(adapter) => adapter.normalize(raw),
        }
    }

    fn validate(&self, item: &StoreItem) -> (admitted: bool)
        ensures
            admitted == item@.has_required_fields(),
    {
        match self {
            ConfiguredAdapter::TftMeta(adapter) => adapter.validate(item),
            ConfiguredAdapter::Porofessor(adapter) => adapter.validate(item),
        }
    }
}

/// The configured adapters, in the order that decides which of two items
/// with one id is kept.
pub fn configured_adapters() -> (adapters: Vec<ConfiguredAdapter>)
    ensures
        adapters@ == seq![
            ConfiguredAdapter::TftMeta(TftMetaAdapter),
            ConfiguredAdapter::Porofessor(PorofessorAdapter),
        ],
{
    let mut adapters: Vec<ConfiguredAdapter> = Vec::new();
    adapters.push(ConfiguredAdapter::TftMeta(TftMetaAdapter));
    adapters.push(ConfiguredAdapter::Porofessor(PorofessorAdapter));
    assert(adapters@ =~= seq![
        ConfiguredAdapter::TftMeta(TftMetaAdapter),
        ConfiguredAdapter::Porofessor(PorofessorAdapter),
    ]);
    adapters
}

/// Whether `providers` holds, for each adapter in order, a provider that the
/// adapter can name as its own.
pub open spec fn are_providers_of<A: CatalogAdapter>(
    adapters: Seq<A>,
    providers: Seq<StoreProvider>,
) -> bool {
    &&& providers.len() == adapters.len()
    &&& forall|i: int|
        0 <= i < adapters.len() ==> call_ensures(
            A::provider,
            (&adapters[i],),
            #[trigger] providers[i],
        )
}

/// One provider per adapter, in the adapters' order. Two adapters that name
/// the same provider are listed twice.
pub fn providers_from_adapters<A: CatalogAdapter>(adapters: &[A]) -> (providers: Vec<StoreProvider>)
    ensures
        are_providers_of(adapters@, providers@),
{
    let mut providers: Vec<StoreProvider> = Vec::new();
    let mut i: usize = 0;
    while i < adapters.len()
        invariant
            i <= adapters.len(),
            are_providers_of(adapters@.take(i as int), providers@),
        decreases adapters.len() - i,
    {
        let provider = adapters[i].provider();
        providers.push(provider);
        i += 1;
    }
    assert(adapters@.take(i as int) =~= adapters@);
    providers
}

/// Whether `batches` holds, for each adapter in order, a catalog that the
/// adapter can yield.
pub open spec fn are_catalogs_of<A: CatalogAdapter>(
    adapters: Seq<A>,
    batches: Seq<Vec<StoreItem>>,
) -> bool {
    &&& batches.len() == adapters.len()
    &&& forall|b: int|
        0 <= b < adapters.len() ==> {
            &&& may_yield(&adapters[b], (#[trigger] batches[b])@)
            &&& all_have_required_fields(item_views(batches[b]@))
        }
}

/// The merged catalog of the given adapters: each adapter's catalog is
/// fetched, in order, and the catalogs are merged, the first item with an id
/// winning over later ones. What an adapter yields is the adapter's to
/// decide; the result is the merge of one catalog from each. It holds no id
/// twice, and only items with their required fields.
pub fn catalog_from_adapters<A: CatalogAdapter>(adapters: &[A]) -> (items: Vec<StoreItem>)
    ensures
        exists|batches: Seq<Vec<StoreItem>>| #[trigger]
            are_catalogs_of(adapters@, batches) && item_views(items@) == merged(
                batch_views(batches),
            ),
        unique_ids(item_views(items@)),
        all_have_required_fields(item_views(items@)),
{
    let mut batches: Vec<Vec<StoreItem>> = Vec::new();
    let mut i: usize = 0;
    while i < adapters.len()
        invariant
            i <= adapters.len(),
            are_catalogs_of(adapters@.take(i as int), batches@),
        decreases adapters.len() - i,
    {
        let ghost fetched = batches@;
        let batch = adapters[i].fetch_catalog();
        proof {
            let adapter = &adapters[i as int];
            let (raw, normalized, verdicts) = choose|
                raw: Vec<StoreItem>,
                normalized: Vec<StoreItem>,
                verdicts: Seq<bool>,
            |
                {
                    &&& call_ensures(A::fetch_raw, (adapter,), raw)
                    &&& call_ensures(A::normalize, (adapter, raw), normalized)
                    &&& verdicts.len() == normalized@.len()
                    &&& forall|i: int|
                        0 <= i < normalized@.len() ==> call_ensures(
                            A::validate,
                            (adapter, &normalized@[i]),
                            #[trigger] verdicts[i],
                        )
                    &&& batch@ == admitted_by(verdicts, normalized@)
                };
            assert(is_pipeline_run(adapter, raw, normalized, verdicts, batch@));
        }
        batches.push(batch);
        i += 1;
        proof {
            let taken = adapters@.take(i as int);
            assert forall|b: int| 0 <= b < taken.len() implies {
                &&& may_yield(&taken[b], (#[trigger] batches@[b])@)
                &&& all_have_required_fields(item_views(batches@[b]@))
            } by {
                if b < i - 1 {
                    assert(adapters@.take(i - 1)[b] == taken[b]);
                    assert(fetched[b] == batches@[b]);
                }
            }
        }
    }
    proof {
        assert(adapters@.take(i as int) =~= adapters@);
        let views = batch_views(batches@);
        assert forall|b: int| 0 <= b < views.len() implies all_have_required_fields(
            #[trigger] views[b],
        ) by {
            assert(all_have_required_fields(item_views(batches@[b]@)));
        }
        lemma_merged_unique(views);
        lemma_merged_required_fields(views);
    }
    merge_catalogs(batches)
}

/// What a configured adapter yields is what its source holds: its stages
/// are the default ones, and every item of its source has its required
/// fields.
pub proof fn lemma_configured_adapter_yields(adapter: ConfiguredAdapter, catalog: Seq<StoreItem>)
    requires
        may_yield(&adapter, catalog),
    ensures
        item_views(catalog) == adapter.source(),
{
    let (raw, normalized, verdicts) = choose|
        raw: Vec<StoreItem>,
        normalized: Vec<StoreItem>,
        verdicts: Seq<bool>,
    | is_pipeline_run(&adapter, raw, normalized, verdicts, catalog);
    lemma_sources_have_required_fields();
    assert forall|i: int| 0 <= i < normalized@.len() implies #[trigger] verdicts[i] by {
        assert(item_views(normalized@)[i] == adapter.source()[i]);
    }
    lemma_all_admitted(verdicts, normalized@);
}

/// Every item that the configured adapters' sources hold has its required
/// fields.
pub proof fn lemma_sources_have_required_fields()
    ensures
        all_have_required_fields(tftmeta_catalog()),
        all_have_required_fields(porofessor_catalog()),
{
    reveal_strlit("tftmeta");
    reveal_strlit("porofessor");
    reveal_strlit("tftmeta-comp-scout");
    reveal_strlit("tftmeta-trait-tracker");
    reveal_strlit("tftmeta-level-timer");
    reveal_strlit("porofessor-match-insight");
    reveal_strlit("porofessor-rune-assist");
    reveal_strlit("porofessor-session-recap");
    reveal_strlit("Comp Scout Pack");
    reveal_strlit("Trait Tracker Widget");
    reveal_strlit("Level Timer HUD");
    reveal_strlit("Match Insight Panel");
    reveal_strlit("Rune Assist Module");
    reveal_strlit("Session Recap Exporter");
}

/// Where every verdict is to admit, every item is admitted.
pub proof fn lemma_all_admitted(verdicts: Seq<bool>, normalized: Seq<StoreItem>)
    requires
        verdicts.len() == normalized.len(),
        forall|i: int| 0 <= i < verdicts.len() ==> #[trigger] verdicts[i],
    ensures
        admitted_by(verdicts, normalized) == normalized,
    decreases normalized.len(),
{
    if normalized.len() > 0 {
        lemma_all_admitted(verdicts.drop_last(), normalized.drop_last());
        assert(verdicts[verdicts.len() - 1]);
        assert(normalized.drop_last().push(normalized.last()) =~= normalized);
    } else {
        assert(normalized =~= Seq::<StoreItem>::empty());
    }
}

} // verus!
