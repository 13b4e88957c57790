//! From a parsed feed to the aggregator's own records.

use crate::model::{
    clone_text, item_views, FeedData, FeedItem, ItemView, RawEntry, RawEntryView, RawFeed,
    RawFeedView, SourceView,
};
use crate::time::Timestamp;
use vstd::prelude::*;

verus! {

/// The title given to an entry that has none.
pub open spec fn untitled() -> Seq<char> {
    "No title"@
}

/// The publication instant of an entry: its published instant, else its
/// updated instant, else the instant of the fetch.
pub open spec fn entry_instant(entry: RawEntryView, fetch_time: Timestamp) -> Timestamp {
    match entry.published {
        Some(t) => t,
        None => match entry.updated {
            Some(t) => t,
            None => fetch_time,
        },
    }
}

/// The item that an entry becomes.
pub open spec fn normalized_entry(entry: RawEntryView, fetch_time: Timestamp) -> ItemView {
    ItemView {
        title: match entry.title {
            Some(t) => t,
            None => untitled(),
        },
        link: if entry.links.len() > 0 {
            entry.links[0]
        } else {
            Seq::empty()
        },
        description: entry.summary,
        pub_date: entry_instant(entry, fetch_time),
    }
}

/// The record that a parsed feed becomes: the feed's title, or the source
/// address where it has none, and one item per entry, in the feed's order.
pub open spec fn normalized(raw: RawFeedView, url: Seq<char>, fetch_time: Timestamp) -> SourceView {
    SourceView {
        title: match raw.title {
            Some(t) => t,
            None => url,
        },
        url,
        items: raw.entries.map_values(|entry: RawEntryView| normalized_entry(entry, fetch_time)),
    }
}

/// Turns one parsed entry into an item.
pub fn normalize_entry(entry: &RawEntry, fetch_time: Timestamp) -> (item: FeedItem)
    ensures
        item@ == normalized_entry(entry@, fetch_time),
{
    let pub_date = match entry.published {
        Some(t) => t,
        None => match entry.updated {
            Some(t) => t,
            None => fetch_time,
        },
    };
    let link = if entry.links.len() > 0 {
        entry.links[0].clone()
    } else {
        String::new()
    };
    let title = match &entry.title {
        Some(t) => t.clone(),
        None => "No title".to_owned(),
    };
    FeedItem { title, link, description: clone_text(&entry.summary), pub_date }
}

/// Turns a parsed feed into the record of its source.
pub fn normalize(raw: &RawFeed, url: String, fetch_time: Timestamp) -> (feed: FeedData)
    ensures
        feed@ == normalized(raw@, url@, fetch_time),
{
    let title = match &raw.title {
        Some(t) => t.clone(),
        None => url.clone(),
    };
    let mut items: Vec<FeedItem> = Vec::new();
    let mut i: usize = 0;
    while i < raw.entries.len()
        invariant
            i <= raw.entries.len(),
            items@.len() == i,
            forall|j: int|
                0 <= j < i ==> items@[j]@ == normalized_entry(raw.entries@[j]@, fetch_time),
        decreases raw.entries.len() - i,
    {
        items.push(normalize_entry(&raw.entries[i], fetch_time));
        i += 1;
    }
    assert(item_views(items@) =~= normalized(raw@, url@, fetch_time).items);
    FeedData { title, url, items }
}

} // verus!
