//! The documents that the aggregator writes: the feed document of one
//! source, the master feed document, and the index of all sources.

use crate::model::{clone_text, item_views, text_of, FeedData, FeedItem, ItemView, SourceView};
use crate::naming::archive_name;
use crate::time::Timestamp;
use vstd::prelude::*;
use vstd::string::StringExecFns;

verus! {

/// One item of a feed document.
#[derive(Debug, PartialEq, Eq)]
pub struct DocumentItem {
    pub title: String,
    pub link: String,
    pub description: Option<String>,
    /// The publication date as the feed format writes it.
    pub pub_date: String,
}

/// What a `DocumentItem` holds.
pub struct DocumentItemView {
    pub title: Seq<char>,
    pub link: Seq<char>,
    pub description: Option<Seq<char>>,
    pub pub_date: Seq<char>,
}

impl View for DocumentItem {
    type V = DocumentItemView;

    open spec fn view(&self) -> DocumentItemView {
        DocumentItemView {
            title: self.title@,
            link: self.link@,
            description: text_of(self.description),
            pub_date: self.pub_date@,
        }
    }
}

/// A feed document: a channel with a title, a link, a description and items.
#[derive(Debug, PartialEq, Eq)]
pub struct FeedDocument {
    pub title: String,
    pub link: String,
    pub description: String,
    pub items: Vec<DocumentItem>,
}

/// What a `FeedDocument` holds.
pub struct DocumentView {
    pub title: Seq<char>,
    pub link: Seq<char>,
    pub description: Seq<char>,
    pub items: Seq<DocumentItemView>,
}

impl View for FeedDocument {
    type V = DocumentView;

    open spec fn view(&self) -> DocumentView {
        DocumentView {
            title: self.title@,
            link: self.link@,
            description: self.description@,
            items: self.items@.map_values(|item: DocumentItem| item@),
        }
    }
}

/// The date of an instant in the form of RFC 2822, at the offset `+0000`.
pub uninterp spec fn rfc2822_of(secs: int, nanos: int) -> Seq<char>;

/// Writes an instant as an RFC 2822 date with `chrono`: `DateTime::from_timestamp`,
/// then `DateTime::to_rfc2822` at offset zero. Trusted: the text depends on
/// the instant alone, so it is `rfc2822_of` of its two parts. The instant has
/// to lie in the years 0 to 9999: outside them `to_rfc2822` panics.
#[verifier::external_body]
fn rfc2822_text(secs: i64, nanos: u32) -> (text: String)
    requires
        (Timestamp { secs, nanos }).has_four_digit_year(),
    ensures
        text@ == rfc2822_of(secs as int, nanos as int),
{
    chrono::DateTime::from_timestamp(secs, nanos).unwrap().fixed_offset().to_rfc2822()
}

/// Where the archive document of a name is published.
pub open spec fn archive_url(repo: Seq<char>, name: Seq<char>) -> Seq<char> {
    "https://raw.githubusercontent.com/"@ + repo + "/refs/heads/main/feeds/"@ + name + ".xml"@
}

/// The item of a feed document that stands for an item.
pub open spec fn document_item(item: ItemView) -> DocumentItemView {
    DocumentItemView {
        title: item.title,
        link: item.link,
        description: item.description,
        pub_date: rfc2822_of(item.pub_date.secs as int, item.pub_date.nanos as int),
    }
}

/// The items of a feed document that stand for `items`, in order.
pub open spec fn document_items(items: Seq<ItemView>) -> Seq<DocumentItemView> {
    items.map_values(|item: ItemView| document_item(item))
}

/// The archive document of a source: the source's title, the address at
/// which the archive is published, a description that names the source's
/// address, and the source's items.
pub open spec fn source_document(feed: SourceView, repo: Seq<char>, name: Seq<char>) -> DocumentView {
    DocumentView {
        title: feed.title,
        link: archive_url(repo, name),
        description: "Archived feed from "@ + feed.url,
        items: document_items(feed.items),
    }
}

/// The stem of the master feed's file name.
pub open spec fn master_name() -> Seq<char> {
    "master"@
}

/// The master feed document: fixed title and description, a link to the
/// place where the master feed is published, and the given items.
pub open spec fn master_document(items: Seq<ItemView>, repo: Seq<char>) -> DocumentView {
    DocumentView {
        title: "Master RSS Feed"@,
        link: archive_url(repo, master_name()),
        description: "Aggregated RSS feed"@,
        items: document_items(items),
    }
}

/// Whether every item has a date that a feed document can hold.
pub open spec fn all_printable(items: Seq<ItemView>) -> bool {
    forall|i: int| 0 <= i < items.len() ==> (#[trigger] items[i]).pub_date.has_four_digit_year()
}

/// Tests `all_printable`.
pub fn items_are_printable(items: &Vec<FeedItem>) -> (r: bool)
    ensures
        r == all_printable(item_views(items@)),
{
    let mut i: usize = 0;
    while i < items.len()
        invariant
            i <= items.len(),
            forall|j: int| 0 <= j < i ==> (#[trigger] item_views(items@)[j]).pub_date.has_four_digit_year(),
        decreases items.len() - i,
    {
        if !items[i].pub_date.fits_four_digit_year() {
            assert(!item_views(items@)[i as int].pub_date.has_four_digit_year());
            return false;
        }
        i += 1;
    }
    true
}

/// The address at which the archive document `name` of the repository
/// `repo_name` is published.
pub fn archive_address(repo_name: &str, name: &str) -> (url: String)
    ensures
        url@ == archive_url(repo_name@, name@),
{
    let mut url = "https://raw.githubusercontent.com/".to_owned();
    url.append(repo_name);
    url.append("/refs/heads/main/feeds/");
    url.append(name);
    url.append(".xml");
    url
}

/// The item of a feed document for `item`, with `date` as the text of its
/// publication date.
pub fn dated_document_item(item: &FeedItem, date: String) -> (out: DocumentItem)
    ensures
        out@ == (DocumentItemView {
            title: item@.title,
            link: item@.link,
            description: item@.description,
            pub_date: date@,
        }),
{
    DocumentItem {
        title: item.title.clone(),
        link: item.link.clone(),
        description: clone_text(&item.description),
        pub_date: date,
    }
}

/// The items of a feed document for `items`.
fn build_document_items(items: &Vec<FeedItem>) -> (out: Vec<DocumentItem>)
    requires
        all_printable(item_views(items@)),
    ensures
        out@.map_values(|item: DocumentItem| item@) == document_items(item_views(items@)),
{
    let mut out: Vec<DocumentItem> = Vec::new();
    let mut i: usize = 0;
    while i < items.len()
        invariant
            i <= items.len(),
            all_printable(item_views(items@)),
            out@.len() == i,
            forall|j: int| 0 <= j < i ==> out@[j]@ == document_item(items@[j]@),
        decreases items.len() - i,
    {
        let item = &items[i];
        assert(item_views(items@)[i as int].pub_date.has_four_digit_year());
        let date = rfc2822_text(item.pub_date.secs, item.pub_date.nanos);
        out.push(dated_document_item(item, date));
        i += 1;
    }
    assert(out@.map_values(|item: DocumentItem| item@) =~= document_items(item_views(items@)));
    out
}

/// The archive document of one source. `filename` is the archive name of
/// the source.
pub fn build_individual_feed(feed_data: &FeedData, repo_name: &str, filename: &str) -> (document:
    FeedDocument)
    requires
        all_printable(feed_data@.items),
    ensures
        document@ == source_document(feed_data@, repo_name@, filename@),
{
    let mut description = "Archived feed from ".to_owned();
    description.append(feed_data.url.as_str());
    FeedDocument {
        title: feed_data.title.clone(),
        link: archive_address(repo_name, filename),
        description,
        items: build_document_items(&feed_data.items),
    }
}

/// The master feed document for the items of the master list.
pub fn build_master_feed(items: &Vec<FeedItem>, repo_name: &str) -> (document: FeedDocument)
    requires
        all_printable(item_views(items@)),
    ensures
        document@ == master_document(item_views(items@), repo_name@),
{
    FeedDocument {
        title: "Master RSS Feed".to_owned(),
        link: archive_address(repo_name, "master"),
        description: "Aggregated RSS feed".to_owned(),
        items: build_document_items(items),
    }
}

/// The XML text of a feed document, as the `rss` crate writes a channel.
pub uninterp spec fn channel_xml_of(document: DocumentView) -> Seq<char>;

/// Builds an `rss::Channel` with `rss::ChannelBuilder` and `rss::ItemBuilder`
/// from the fields of the document, one for one, and writes it with the
/// channel's `to_string`. Trusted: the text depends on the document alone, so
/// it is `channel_xml_of` of it.
#[verifier::external_body]
fn channel_xml(document: &FeedDocument) -> (xml: String)
    ensures
        xml@ == channel_xml_of(document@),
{
    let items: Vec<rss::Item> = document.items.iter().map(|item| {
        rss::ItemBuilder::default().title(item.title.clone()).link(item.link.clone())
            .description(item.description.clone()).pub_date(item.pub_date.clone()).build()
    }).collect();
    rss::ChannelBuilder::default().title(document.title.clone()).link(document.link.clone())
        .description(document.description.clone()).items(items).build().to_string()
}

/// The XML text of the archive document of one source.
pub fn archive_xml(feed_data: &FeedData, repo_name: &str, filename: &str) -> (xml: String)
    requires
        all_printable(feed_data@.items),
    ensures
        xml@ == channel_xml_of(source_document(feed_data@, repo_name@, filename@)),
{
    let document = build_individual_feed(feed_data, repo_name, filename);
    channel_xml(&document)
}

/// The XML text of the master feed document.
pub fn master_xml(items: &Vec<FeedItem>, repo_name: &str) -> (xml: String)
    requires
        all_printable(item_views(items@)),
    ensures
        xml@ == channel_xml_of(master_document(item_views(items@), repo_name@)),
{
    let document = build_master_feed(items, repo_name);
    channel_xml(&document)
}

} // verus!
