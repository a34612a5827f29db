//! The catalog query engine: a filter by provider and text, and a stable
//! sort by rating, highest first.

use crate::models::{item_views, StoreItem, StoreItemView};
use crate::text::{contains, lowercase_of, occurs_in, to_lowercase};
use vstd::prelude::*;

verus! {

/// Whether an item passes the provider filter: the empty filter passes every
/// item, any other passes the items of exactly that provider id.
pub open spec fn matches_provider(item: StoreItemView, provider: Seq<char>) -> bool {
    provider.len() == 0 || item.provider_id == provider
}

/// Whether the lowercase `needle` stands in the lowercase of the item's
/// name, category or provider name.
pub open spec fn matches_text(item: StoreItemView, needle: Seq<char>) -> bool {
    ||| occurs_in(needle, lowercase_of(item.name))
    ||| occurs_in(needle, lowercase_of(item.category))
    ||| occurs_in(needle, lowercase_of(item.provider_name))
}

/// Whether an item passes both filters. The empty query passes every item;
/// any other is matched without regard to case.
pub open spec fn matches_query(item: StoreItemView, query: Seq<char>, provider: Seq<char>) -> bool {
    &&& matches_provider(item, provider)
    &&& query.len() == 0 || matches_text(item, lowercase_of(query))
}

/// The filter that a query and a provider id stand for.
pub open spec fn query_filter(query: Seq<char>, provider: Seq<char>) -> spec_fn(
    StoreItemView,
) -> bool {
    |item: StoreItemView| matches_query(item, query, provider)
}

/// Whether the item at `i` is listed before the item at `j`: the higher
/// rating first, and of equal ratings the one that stood first.
pub open spec fn ranks_before(items: Seq<StoreItemView>, i: int, j: int) -> bool {
    let left = items[i].rating.order_key();
    let right = items[j].rating.order_key();
    left > right || (left == right && i < j)
}

/// Whether `picks` lists every position of `items` once, in ranking order.
pub open spec fn is_ranking(items: Seq<StoreItemView>, picks: Seq<int>) -> bool {
    &&& picks.len() == items.len()
    &&& forall|k: int| 0 <= k < picks.len() ==> 0 <= #[trigger] picks[k] < items.len()
    &&& forall|k: int, l: int|
        0 <= k < l < picks.len() ==> ranks_before(items, #[trigger] picks[k], #[trigger] picks[l])
}

/// The items at the picked positions, in the order of the picks.
pub open spec fn picked(items: Seq<StoreItemView>, picks: Seq<int>) -> Seq<StoreItemView> {
    picks.map_values(|i: int| items[i])
}

/// Whether `sorted` holds the items of `items` by rating, highest first,
/// items of equal rating in the order they had.
pub open spec fn is_rating_sort_of(items: Seq<StoreItemView>, sorted: Seq<StoreItemView>) -> bool {
    exists|picks: Seq<int>| #[trigger] is_ranking(items, picks) && sorted == picked(items, picks)
}

/// Sorts items by rating, highest first. The sort is stable: items of equal
/// rating keep their order. Ratings are compared in the total order of
/// binary64, so every two ratings compare.
pub fn sort_by_rating(items: Vec<StoreItem>) -> (sorted: Vec<StoreItem>)
    ensures
        is_rating_sort_of(item_views(items@), item_views(sorted@)),
{
    let ghost input = item_views(items@);
    let ghost mut picks: Seq<int> = Seq::empty();
    let mut sorted: Vec<StoreItem> = Vec::new();
    for item in it: items
        invariant
            item_views(it.seq()) == input,
            is_ranking(input.take(it.index()), picks),
            item_views(sorted@) == picked(input, picks),
    {
        let ghost n = it.index();
        assert(sorted.len() == picks.len()) by {
            assert(item_views(sorted@).len() == picked(input, picks).len());
        }
        let mut at: usize = sorted.len();
        while at > 0 && sorted[at - 1].rating.total_lt(&item.rating)
            invariant
                at <= sorted.len(),
                sorted.len() == picks.len(),
                item_views(sorted@) == picked(input, picks),
                forall|l: int|
                    at <= l < sorted.len() ==> (#[trigger] sorted[l]).rating.order_key()
                        < item.rating.order_key(),
            decreases at,
        {
            at -= 1;
        }
        proof {
            let before = picks;
            let after = picks.insert(at as int, n);
            assert(item@ == input[n]);
            assert forall|k: int| 0 <= k < before.len() implies input[#[trigger] before[k]]
                == sorted[k]@ by {
                assert(item_views(sorted@)[k] == picked(input, before)[k]);
            }
            assert forall|k: int, l: int| 0 <= k < l < after.len() implies ranks_before(
                input.take(n + 1),
                #[trigger] after[k],
                #[trigger] after[l],
            ) by {
                let a = if k < at { k } else { k - 1 };
                let b = if l < at { l } else { l - 1 };
                if k != at && l != at {
                    assert(ranks_before(input.take(n), before[a], before[b]));
                } else if l == at {
                    assert(at > 0);
                    if k < at - 1 {
                        assert(ranks_before(input.take(n), before[k], before[at - 1]));
                    }
                    assert(input[before[at - 1]] == sorted[at - 1]@);
                } else {
                    assert(input[before[b]] == sorted[b]@);
                }
            }
            picks = after;
        }
        let ghost old_sorted = sorted@;
        sorted.insert(at, item);
        assert(item_views(sorted@) =~= picked(input, picks)) by {
            assert forall|k: int| 0 <= k < sorted.len() implies item_views(sorted@)[k] == picked(
                input,
                picks,
            )[k] by {
                if k < at {
                    assert(item_views(old_sorted)[k] == sorted[k]@);
                } else if k > at {
                    assert(item_views(old_sorted)[k - 1] == sorted[k]@);
                }
            }
        }
    }
    assert(input.take(input.len() as int) =~= input);
    sorted
}

fn item_matches(item: &StoreItem, has_query: bool, needle: &str, provider: &String) -> (keep:
    bool)
    ensures
        keep == (matches_provider(item@, provider@) && (!has_query || matches_text(
            item@,
            needle@,
        ))),
{
    if !(provider.as_str().is_empty() || item.provider_id == *provider) {
        return false;
    }
    if !has_query {
        return true;
    }
    let name = to_lowercase(item.name.as_str());
    if contains(name.as_str(), needle) {
        return true;
    }
    let category = to_lowercase(item.category.as_str());
    if contains(category.as_str(), needle) {
        return true;
    }
    let provider_name = to_lowercase(item.provider_name.as_str());
    contains(provider_name.as_str(), needle)
}

/// The items of a catalog that pass the filters, by rating, highest first.
///
/// `provider` selects the items of exactly that provider id, and `query` the
/// items in whose name, category or provider name it stands, without regard
/// to case; an empty filter selects every item. Items of equal rating keep
/// the order they have in the catalog.
pub fn filter_catalog(catalog: &[StoreItem], query: &str, provider: &str) -> (listed: Vec<
    StoreItem,
>)
    ensures
        is_rating_sort_of(
            item_views(catalog@).filter(query_filter(query@, provider@)),
            item_views(listed@),
        ),
        query@.len() == 0 && provider@.len() == 0 ==> is_rating_sort_of(
            item_views(catalog@),
            item_views(listed@),
        ),
{
    proof {
        if query@.len() == 0 && provider@.len() == 0 {
            assert(query@ =~= Seq::<char>::empty() && provider@ =~= Seq::<char>::empty());
            lemma_empty_filters_keep_all(item_views(catalog@));
        }
    }
    let ghost keep = query_filter(query@, provider@);
    let has_query = !query.is_empty();
    let needle = to_lowercase(query);
    let wanted: String = provider.to_string();
    let mut kept: Vec<StoreItem> = Vec::new();
    let mut i: usize = 0;
    assert(item_views(catalog@.take(0)).filter(keep) =~= Seq::<StoreItemView>::empty()) by {
        reveal(Seq::filter);
    }
    while i < catalog.len()
        invariant
            i <= catalog.len(),
            keep == query_filter(query@, provider@),
            has_query == (query@.len() > 0),
            needle@ == lowercase_of(query@),
            wanted@ == provider@,
            item_views(kept@) == item_views(catalog@.take(i as int)).filter(keep),
        decreases catalog.len() - i,
    {
        proof {
            let done = item_views(catalog@.take(i as int));
            assert(item_views(catalog@.take(i + 1)) =~= done.push(catalog[i as int]@));
            done.lemma_filter_push(catalog[i as int]@, keep);
        }
        if item_matches(&catalog[i], has_query, needle.as_str(), &wanted) {
            let ghost before = kept@;
            kept.push(catalog[i].clone());
            assert(item_views(kept@) =~= item_views(before).push(catalog[i as int]@));
        }
        i += 1;
    }
    assert(catalog@.take(i as int) =~= catalog@);
    sort_by_rating(kept)
}

/// The filter of the empty query and the empty provider id passes every
/// item: such a listing is the whole catalog, sorted.
pub proof fn lemma_empty_filters_keep_all(catalog: Seq<StoreItemView>)
    ensures
        catalog.filter(query_filter(Seq::empty(), Seq::empty())) == catalog,
    decreases catalog.len(),
{
    reveal(Seq::filter);
    let keep = query_filter(Seq::empty(), Seq::empty());
    if catalog.len() > 0 {
        lemma_empty_filters_keep_all(catalog.drop_last());
        assert(keep(catalog.last()));
        assert(catalog.drop_last().push(catalog.last()) =~= catalog);
    }
}

/// A sort by rating holds as many items as went in, and no item of it has a
/// lower rating than an item behind it.
pub proof fn lemma_rating_sort_descends(items: Seq<StoreItemView>, sorted: Seq<StoreItemView>)
    requires
        is_rating_sort_of(items, sorted),
    ensures
        sorted.len() == items.len(),
        forall|k: int, l: int|
            0 <= k < l < sorted.len() ==> (#[trigger] sorted[k]).rating.order_key() >= (
            #[trigger] sorted[l]).rating.order_key(),
{
    let picks = choose|picks: Seq<int>| #[trigger]
        is_ranking(items, picks) && sorted == picked(items, picks);
    assert forall|k: int, l: int| 0 <= k < l < sorted.len() implies (
    #[trigger] sorted[k]).rating.order_key() >= (#[trigger] sorted[l]).rating.order_key() by {
        assert(ranks_before(items, picks[k], picks[l]));
    }
}

/// The order in which positions are ranked.
pub open spec fn ranking_order(items: Seq<StoreItemView>) -> spec_fn(int, int) -> bool {
    |i: int, j: int| i == j || ranks_before(items, i, j)
}

/// A ranking lists every position.
proof fn lemma_ranking_lists_all(items: Seq<StoreItemView>, picks: Seq<int>)
    requires
        is_ranking(items, picks),
    ensures
        picks.no_duplicates(),
        picks.to_set() == vstd::set_lib::set_int_range(0, items.len() as int),
{
    assert(picks.no_duplicates()) by {
        assert forall|k: int, l: int| 0 <= k < picks.len() && 0 <= l < picks.len() && k != l
            implies picks[k] != picks[l] by {
            if k < l {
                assert(ranks_before(items, picks[k], picks[l]));
            } else {
                assert(ranks_before(items, picks[l], picks[k]));
            }
        }
    }
    let range = vstd::set_lib::set_int_range(0, items.len() as int);
    vstd::set_lib::lemma_int_range(0, items.len() as int);
    picks.unique_seq_to_set();
    assert(picks.to_set().subset_of(range)) by {
        assert forall|x: int| picks.to_set().contains(x) implies range.contains(x) by {
            let k = choose|k: int| 0 <= k < picks.len() && picks[k] == x;
            assert(0 <= picks[k] < items.len());
        }
    }
    vstd::set_lib::lemma_subset_equality(picks.to_set(), range);
}

/// The sort is a function of its input: two rankings of the same items are
/// the same ranking, so two sorts of the same items agree.
pub proof fn lemma_rating_sort_unique(
    items: Seq<StoreItemView>,
    first: Seq<StoreItemView>,
    second: Seq<StoreItemView>,
)
    requires
        is_rating_sort_of(items, first),
        is_rating_sort_of(items, second),
    ensures
        first == second,
{
    let a = choose|picks: Seq<int>| #[trigger] is_ranking(items, picks) && first == picked(items, picks);
    let b = choose|picks: Seq<int>| #[trigger]
        is_ranking(items, picks) && second == picked(items, picks);
    lemma_ranking_unique(items, a, b);
}

/// Two rankings of the same items are equal.
pub proof fn lemma_ranking_unique(items: Seq<StoreItemView>, a: Seq<int>, b: Seq<int>)
    requires
        is_ranking(items, a),
        is_ranking(items, b),
    ensures
        a == b,
{
    let leq = ranking_order(items);
    lemma_ranking_lists_all(items, a);
    lemma_ranking_lists_all(items, b);
    assert(vstd::relations::total_ordering(leq));
    assert(vstd::relations::sorted_by(a, leq));
    assert(vstd::relations::sorted_by(b, leq));
    assert(a.to_multiset() =~= b.to_multiset()) by {
        a.lemma_multiset_has_no_duplicates();
        b.lemma_multiset_has_no_duplicates();
        broadcast use vstd::seq_lib::group_to_multiset_ensures;
        assert forall|x: int| a.to_multiset().count(x) == b.to_multiset().count(x) by {
            assert(a.to_set().contains(x) == b.to_set().contains(x));
            assert(a.contains(x) == b.contains(x));
        }
    }
    vstd::seq_lib::lemma_sorted_unique(a, b, leq);
}

} // verus!
