//! The merge of all sources into one capped list, newest item first, and the
//! cap on the list of one source.

use crate::model::{item_views, source_views, FeedData, FeedItem, ItemView, SourceView};
use crate::order::{
    is_sorted_desc, lemma_sort_concat, lemma_sort_len, lemma_sort_map, lemma_sort_of_sorted,
    lemma_sort_sorted, merge_desc, sort_desc,
};
use vstd::prelude::*;

verus! {

/// The key by which items are ordered: the position of their publication
/// instant on the time line.
pub open spec fn date_key() -> spec_fn(ItemView) -> int {
    |item: ItemView| item.pub_date.rank()
}

/// The items ordered newest first; items of the same instant keep the order
/// that they have in `items`.
pub open spec fn newest_first(items: Seq<ItemView>) -> Seq<ItemView> {
    sort_desc(items, date_key())
}

/// The first `cap` elements of `items`, or all of them where `cap` is zero
/// or not below their number.
pub open spec fn capped<T>(items: Seq<T>, cap: nat) -> Seq<T> {
    if cap > 0 && items.len() > cap {
        items.take(cap as int)
    } else {
        items
    }
}

/// The items of all sources, source after source, each in its own order.
pub open spec fn all_items(sources: Seq<SourceView>) -> Seq<ItemView>
    decreases sources.len(),
{
    if sources.len() == 0 {
        Seq::empty()
    } else {
        all_items(sources.drop_last()) + sources.last().items
    }
}

/// The master list: the items of all sources, newest first, capped.
pub open spec fn aggregated(sources: Seq<SourceView>, cap: nat) -> Seq<ItemView> {
    capped(newest_first(all_items(sources)), cap)
}

/// The positions `lo` to `hi - 1`, in order.
pub open spec fn positions(lo: int, hi: int) -> Seq<usize> {
    Seq::new((hi - lo) as nat, |i: int| (lo + i) as usize)
}

/// The key of a position: that of the item that stands there.
pub open spec fn position_key(items: Seq<ItemView>) -> spec_fn(usize) -> int {
    |p: usize| items[p as int].pub_date.rank()
}

/// Whether every element of `order` is a position in a sequence of `n`
/// elements.
pub open spec fn in_bounds(order: Seq<usize>, n: int) -> bool {
    forall|i: int| 0 <= i < order.len() ==> #[trigger] order[i] < n
}

/// Merges two runs of positions, each ordered newest first.
fn merge_positions(items: &Vec<&FeedItem>, left: &Vec<usize>, right: &Vec<usize>) -> (merged: Vec<
    usize,
>)
    requires
        in_bounds(left@, items@.len() as int),
        in_bounds(right@, items@.len() as int),
        left@.len() + right@.len() <= usize::MAX,
    ensures
        merged@ == merge_desc(left@, right@, position_key(ref_views(items@))),
        in_bounds(merged@, items@.len() as int),
{
    let ghost key = position_key(ref_views(items@));
    let mut merged: Vec<usize> = Vec::new();
    let mut i: usize = 0;
    let mut j: usize = 0;
    assert(left@.skip(0) =~= left@ && right@.skip(0) =~= right@);
    while i < left.len() || j < right.len()
        invariant
            i <= left.len(),
            j <= right.len(),
            key == position_key(ref_views(items@)),
            in_bounds(left@, items@.len() as int),
            in_bounds(right@, items@.len() as int),
            in_bounds(merged@, items@.len() as int),
            merged@ + merge_desc(left@.skip(i as int), right@.skip(j as int), key) == merge_desc(
                left@,
                right@,
                key,
            ),
        decreases left.len() - i + right.len() - j,
    {
        let ghost a = left@.skip(i as int);
        let ghost b = right@.skip(j as int);
        let take_left = if i == left.len() {
            false
        } else if j == right.len() {
            true
        } else {
            items[left[i]].pub_date.is_at_or_after(&items[right[j]].pub_date)
        };
        if take_left {
            assert(merge_desc(a, b, key) =~= seq![a.first()] + merge_desc(a.drop_first(), b, key));
            assert(a.drop_first() =~= left@.skip(i + 1));
            assert(merged@.push(left@[i as int]) + merge_desc(left@.skip(i + 1), b, key)
                =~= merged@ + merge_desc(a, b, key));
            merged.push(left[i]);
            i += 1;
        } else {
            assert(merge_desc(a, b, key) =~= seq![b.first()] + merge_desc(a, b.drop_first(), key));
            assert(b.drop_first() =~= right@.skip(j + 1));
            assert(merged@.push(right@[j as int]) + merge_desc(a, right@.skip(j + 1), key)
                =~= merged@ + merge_desc(a, b, key));
            merged.push(right[j]);
            j += 1;
        }
    }
    assert(merged@ + merge_desc(left@.skip(i as int), right@.skip(j as int), key) =~= merged@);
    merged
}

/// The views of the items that a sequence of references points to.
pub open spec fn ref_views(items: Seq<&FeedItem>) -> Seq<ItemView> {
    items.map_values(|item: &FeedItem| item@)
}

/// Orders the positions `lo` to `hi - 1` of `items`, newest item first.
fn sort_positions(items: &Vec<&FeedItem>, lo: usize, hi: usize) -> (order: Vec<usize>)
    requires
        lo <= hi <= items@.len(),
    ensures
        order@ == sort_desc(positions(lo as int, hi as int), position_key(ref_views(items@))),
        in_bounds(order@, items@.len() as int),
    decreases hi - lo,
{
    let ghost key = position_key(ref_views(items@));
    if hi - lo == 0 {
        let order: Vec<usize> = Vec::new();
        assert(positions(lo as int, hi as int) =~= order@);
        order
    } else if hi - lo == 1 {
        let mut order: Vec<usize> = Vec::new();
        order.push(lo);
        assert(positions(lo as int, hi as int) =~= order@);
        assert(order@.drop_last() =~= Seq::<usize>::empty());
        assert(sort_desc(order@, key) =~= order@) by {
            assert(sort_desc(order@.drop_last(), key) =~= Seq::<usize>::empty());
        }
        order
    } else {
        let mid: usize = lo + (hi - lo) / 2;
        let left = sort_positions(items, lo, mid);
        let right = sort_positions(items, mid, hi);
        proof {
            lemma_sort_len(positions(lo as int, mid as int), key);
            lemma_sort_len(positions(mid as int, hi as int), key);
            assert(positions(lo as int, hi as int) =~= positions(lo as int, mid as int)
                + positions(mid as int, hi as int));
            lemma_sort_concat(positions(lo as int, mid as int), positions(mid as int, hi as int), key);
        }
        merge_positions(items, &left, &right)
    }
}

/// Truncates `items` to its first `cap` items where `cap` is positive and
/// below their number. The items are not reordered.
pub fn cap_items(items: Vec<FeedItem>, cap: usize) -> (kept: Vec<FeedItem>)
    ensures
        item_views(kept@) == capped(item_views(items@), cap as nat),
{
    let mut kept = items;
    if cap > 0 && kept.len() > cap {
        kept.truncate(cap);
        assert(item_views(kept@) =~= item_views(items@).take(cap as int));
    }
    kept
}

/// The feed with its items capped, each source on its own and in the order
/// in which its feed listed them.
pub fn cap_feed(feed: FeedData, cap: usize) -> (kept: FeedData)
    ensures
        kept@ == (SourceView {
            title: feed@.title,
            url: feed@.url,
            items: capped(feed@.items, cap as nat),
        }),
{
    FeedData { title: feed.title, url: feed.url, items: cap_items(feed.items, cap) }
}

/// References to the items of all sources, source after source.
fn collect_items(sources: &Vec<FeedData>) -> (all: Vec<&FeedItem>)
    ensures
        ref_views(all@) == all_items(source_views(sources@)),
{
    let mut all: Vec<&FeedItem> = Vec::new();
    let mut s: usize = 0;
    assert(source_views(sources@).take(0) =~= Seq::<SourceView>::empty());
    while s < sources.len()
        invariant
            s <= sources.len(),
            ref_views(all@) == all_items(source_views(sources@).take(s as int)),
        decreases sources.len() - s,
    {
        let feed = &sources[s];
        let ghost before = ref_views(all@);
        let mut k: usize = 0;
        while k < feed.items.len()
            invariant
                k <= feed.items.len(),
                ref_views(all@) == before + item_views(feed.items@).take(k as int),
            decreases feed.items.len() - k,
        {
            let ghost so_far = all@;
            all.push(&feed.items[k]);
            assert(ref_views(all@) =~= ref_views(so_far).push(feed.items@[k as int]@));
            assert(item_views(feed.items@).take(k + 1) =~= item_views(feed.items@).take(
                k as int,
            ).push(feed.items@[k as int]@));
            k += 1;
        }
        assert(item_views(feed.items@).take(k as int) =~= feed@.items);
        assert(source_views(sources@).take(s + 1).drop_last() =~= source_views(sources@).take(
            s as int,
        ));
        s += 1;
    }
    assert(source_views(sources@).take(s as int) =~= source_views(sources@));
    all
}

/// The master list of the sources: all their items, newest first, with
/// items of the same instant in the order in which the sources list them,
/// and cut to the first `cap` where `cap` is positive. A `cap` of zero keeps
/// all.
pub fn aggregate(sources: &Vec<FeedData>, cap: usize) -> (master: Vec<FeedItem>)
    ensures
        item_views(master@) == aggregated(source_views(sources@), cap as nat),
{
    let all = collect_items(sources);
    let order = sort_positions(&all, 0, all.len());
    let ghost views = ref_views(all@);
    let ghost sorted = newest_first(views);
    proof {
        let pick = |p: usize| views[p as int];
        let every = positions(0, all@.len() as int);
        assert(every.map_values(pick) =~= views);
        lemma_sort_map(every, pick, position_key(views), date_key());
        lemma_sort_len(every, position_key(views));
        assert(order@.map_values(pick) == sorted);
    }
    let keep: usize = if cap > 0 && order.len() > cap {
        cap
    } else {
        order.len()
    };
    let mut master: Vec<FeedItem> = Vec::new();
    let mut k: usize = 0;
    while k < keep
        invariant
            k <= keep <= order@.len(),
            in_bounds(order@, all@.len() as int),
            views == ref_views(all@),
            sorted.len() == order@.len(),
            forall|i: int| 0 <= i < order@.len() ==> sorted[i] == views[order@[i] as int],
            master@.len() == k,
            forall|i: int| 0 <= i < k ==> master@[i]@ == sorted[i],
        decreases keep - k,
    {
        master.push(all[order[k]].clone());
        k += 1;
    }
    assert(item_views(master@) =~= capped(sorted, cap as nat));
    master
}

/// The number of items of all sources together.
pub open spec fn total_items(sources: Seq<SourceView>) -> nat
    decreases sources.len(),
{
    if sources.len() == 0 {
        0
    } else {
        total_items(sources.drop_last()) + sources.last().items.len()
    }
}

/// `all_items` holds every item of every source.
pub proof fn lemma_all_items_len(sources: Seq<SourceView>)
    ensures
        all_items(sources).len() == total_items(sources),
    decreases sources.len(),
{
    if sources.len() > 0 {
        lemma_all_items_len(sources.drop_last());
    }
}

/// The length of the master list: with a positive cap the smaller of the cap
/// and the number of items, with a cap of zero the number of items.
pub proof fn lemma_aggregated_len(sources: Seq<SourceView>, cap: nat)
    ensures
        cap > 0 ==> aggregated(sources, cap).len() == if cap < total_items(sources) {
            cap
        } else {
            total_items(sources)
        },
        cap == 0 ==> aggregated(sources, cap).len() == total_items(sources),
{
    lemma_all_items_len(sources);
    lemma_sort_len(all_items(sources), date_key());
}

/// The master list is ordered: no item is older than the one behind it, nor
/// than any item further behind.
pub proof fn lemma_aggregated_ordered(sources: Seq<SourceView>, cap: nat)
    ensures
        is_sorted_desc(aggregated(sources, cap), date_key()),
        forall|i: int|
            0 <= i && i + 1 < aggregated(sources, cap).len() ==> (#[trigger] aggregated(
                sources,
                cap,
            )[i]).pub_date.at_or_after(aggregated(sources, cap)[i + 1].pub_date),
{
    let sorted = newest_first(all_items(sources));
    let master = aggregated(sources, cap);
    lemma_sort_sorted(all_items(sources), date_key());
    assert forall|i: int, j: int| #![trigger master[i], master[j]] 0 <= i <= j
        < master.len() implies date_key()(master[i]) >= date_key()(master[j]) by {
        assert(date_key()(sorted[i]) >= date_key()(sorted[j]));
    }
    assert forall|i: int| 0 <= i && i + 1 < master.len() implies (#[trigger] master[i]).pub_date.at_or_after(
    master[i + 1].pub_date) by {
        assert(date_key()(master[i]) >= date_key()(master[i + 1]));
    }
}

/// Aggregating is idempotent: the master list, taken as the items of one
/// source and aggregated again under the same cap, is the master list.
pub proof fn lemma_aggregate_idempotent(
    sources: Seq<SourceView>,
    cap: nat,
    title: Seq<char>,
    url: Seq<char>,
)
    ensures
        aggregated(seq![SourceView { title, url, items: aggregated(sources, cap) }], cap)
            == aggregated(sources, cap),
{
    let master = aggregated(sources, cap);
    let again = seq![SourceView { title, url, items: master }];
    lemma_aggregated_ordered(sources, cap);
    assert(again.drop_last() =~= Seq::<SourceView>::empty());
    assert(all_items(again) =~= master) by {
        assert(all_items(again.drop_last()) =~= Seq::<ItemView>::empty());
    }
    lemma_sort_of_sorted(master, date_key());
}

/// The master list without a cap holds exactly the items of the sources,
/// each as often as the sources hold it.
pub proof fn lemma_aggregated_keeps_items(sources: Seq<SourceView>)
    ensures
        aggregated(sources, 0).to_multiset() == all_items(sources).to_multiset(),
{
    crate::order::lemma_sort_permutes(all_items(sources), date_key());
}

/// Items of the same instant stand in the uncapped master list in the order
/// in which the sources list them.
pub proof fn lemma_aggregated_stable(sources: Seq<SourceView>, rank: int)
    ensures
        crate::order::with_key(aggregated(sources, 0), rank, date_key()) == crate::order::with_key(
            all_items(sources),
            rank,
            date_key(),
        ),
{
    crate::order::lemma_sort_stable(all_items(sources), rank, date_key());
}

/// What the cap drops is not newer than what it keeps.
pub proof fn lemma_cap_keeps_newest(sources: Seq<SourceView>, cap: nat, kept: int, dropped: int)
    requires
        0 <= kept < aggregated(sources, cap).len(),
        aggregated(sources, cap).len() <= dropped < total_items(sources),
    ensures
        aggregated(sources, cap)[kept] == aggregated(sources, 0)[kept],
        aggregated(sources, cap)[kept].pub_date.at_or_after(
            aggregated(sources, 0)[dropped].pub_date,
        ),
{
    lemma_all_items_len(sources);
    lemma_sort_len(all_items(sources), date_key());
    lemma_sort_sorted(all_items(sources), date_key());
    let sorted = newest_first(all_items(sources));
    assert(date_key()(sorted[kept]) >= date_key()(sorted[dropped]));
}

} // verus!
