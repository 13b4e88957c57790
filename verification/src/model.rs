//! The records that flow through the aggregator, and their mathematical views.

use crate::time::Timestamp;
use vstd::prelude::*;

verus! {

/// The characters of an optional text.
pub open spec fn text_of(text: Option<String>) -> Option<Seq<char>> {
    match text {
        Some(s) => Some(s@),
        None => None,
    }
}

/// The characters of each text of a sequence.
pub open spec fn texts_of(texts: Seq<String>) -> Seq<Seq<char>> {
    texts.map_values(|s: String| s@)
}

/// Copies an optional text.
pub fn clone_text(text: &Option<String>) -> (copy: Option<String>)
    ensures
        text_of(copy) == text_of(*text),
{
    match text {
        Some(s) => Some(s.clone()),
        None => None,
    }
}

/// One syndicated entry, normalized.
#[derive(Debug, PartialEq, Eq)]
pub struct FeedItem {
    pub title: String,
    pub link: String,
    pub description: Option<String>,
    pub pub_date: Timestamp,
}

/// What a `FeedItem` holds.
pub struct ItemView {
    pub title: Seq<char>,
    pub link: Seq<char>,
    pub description: Option<Seq<char>>,
    pub pub_date: Timestamp,
}

impl View for FeedItem {
    type V = ItemView;

    open spec fn view(&self) -> ItemView {
        ItemView {
            title: self.title@,
            link: self.link@,
            description: text_of(self.description),
            pub_date: self.pub_date,
        }
    }
}

impl Clone for FeedItem {
    fn clone(&self) -> (copy: Self)
        ensures
            copy@ == self@,
    {
        FeedItem {
            title: self.title.clone(),
            link: self.link.clone(),
            description: clone_text(&self.description),
            pub_date: self.pub_date,
        }
    }
}

/// The views of a sequence of items, in order.
pub open spec fn item_views(items: Seq<FeedItem>) -> Seq<ItemView> {
    items.map_values(|item: FeedItem| item@)
}

/// One fetched feed: its title, the address it came from, and its items in
/// the order in which the feed listed them.
#[derive(Debug, PartialEq, Eq)]
pub struct FeedData {
    pub title: String,
    pub url: String,
    pub items: Vec<FeedItem>,
}

/// What a `FeedData` holds.
pub struct SourceView {
    pub title: Seq<char>,
    pub url: Seq<char>,
    pub items: Seq<ItemView>,
}

impl View for FeedData {
    type V = SourceView;

    open spec fn view(&self) -> SourceView {
        SourceView { title: self.title@, url: self.url@, items: item_views(self.items@) }
    }
}

/// The views of a sequence of feeds, in order.
pub open spec fn source_views(feeds: Seq<FeedData>) -> Seq<SourceView> {
    feeds.map_values(|feed: FeedData| feed@)
}

/// Copies the items of `items`, in order.
pub fn clone_items(items: &Vec<FeedItem>) -> (copy: Vec<FeedItem>)
    ensures
        item_views(copy@) == item_views(items@),
{
    let mut copy: Vec<FeedItem> = Vec::new();
    let mut i: usize = 0;
    while i < items.len()
        invariant
            i <= items.len(),
            copy@.len() == i,
            forall|j: int| 0 <= j < i ==> copy@[j]@ == items@[j]@,
        decreases items.len() - i,
    {
        copy.push(items[i].clone());
        i += 1;
    }
    assert(item_views(copy@) =~= item_views(items@));
    copy
}

impl Clone for FeedData {
    fn clone(&self) -> (copy: Self)
        ensures
            copy@ == self@,
    {
        FeedData {
            title: self.title.clone(),
            url: self.url.clone(),
            items: clone_items(&self.items),
        }
    }
}

/// One entry of a feed as the feed parser delivers it: every field that the
/// feed may leave out is optional.
#[derive(Debug, PartialEq, Eq)]
pub struct RawEntry {
    pub title: Option<String>,
    pub links: Vec<String>,
    pub summary: Option<String>,
    pub published: Option<Timestamp>,
    pub updated: Option<Timestamp>,
}

/// What a `RawEntry` holds.
pub struct RawEntryView {
    pub title: Option<Seq<char>>,
    pub links: Seq<Seq<char>>,
    pub summary: Option<Seq<char>>,
    pub published: Option<Timestamp>,
    pub updated: Option<Timestamp>,
}

impl View for RawEntry {
    type V = RawEntryView;

    open spec fn view(&self) -> RawEntryView {
        RawEntryView {
            title: text_of(self.title),
            links: texts_of(self.links@),
            summary: text_of(self.summary),
            published: self.published,
            updated: self.updated,
        }
    }
}

/// A parsed feed before normalization.
#[derive(Debug, PartialEq, Eq)]
pub struct RawFeed {
    pub title: Option<String>,
    pub entries: Vec<RawEntry>,
}

/// What a `RawFeed` holds.
pub struct RawFeedView {
    pub title: Option<Seq<char>>,
    pub entries: Seq<RawEntryView>,
}

impl View for RawFeed {
    type V = RawFeedView;

    open spec fn view(&self) -> RawFeedView {
        RawFeedView {
            title: text_of(self.title),
            entries: self.entries@.map_values(|entry: RawEntry| entry@),
        }
    }
}

} // verus!
