use rss_aggregator::model::{FeedData, FeedItem};
use rss_aggregator::render::{
    archive_address, archive_xml, build_individual_feed, build_master_feed, dated_document_item,
    items_are_printable, master_xml, DocumentItem,
};
use rss_aggregator::time::{Timestamp, YEAR_9999_END};

fn sample() -> FeedData {
    FeedData {
        title: "A <Blog> & more".to_string(),
        url: "http://a.example/feed".to_string(),
        items: vec![
            FeedItem {
                title: "First".to_string(),
                link: "http://a.example/1".to_string(),
                description: Some("About <one>".to_string()),
                pub_date: Timestamp::new(1_704_067_200, 0),
            },
            FeedItem {
                title: "Second".to_string(),
                link: "".to_string(),
                description: None,
                pub_date: Timestamp::new(1_057_056_757, 999),
            },
        ],
    }
}

#[test]
fn archive_address_is_built_from_repository_and_name() {
    assert_eq!(
        archive_address("me/repo", "a-blog-1a2b3c4d"),
        "https://raw.githubusercontent.com/me/repo/refs/heads/main/feeds/a-blog-1a2b3c4d.xml"
    );
    assert_eq!(archive_address("", ""), "https://raw.githubusercontent.com//refs/heads/main/feeds/.xml");
}

#[test]
fn source_document_holds_title_link_description_and_items() {
    let document = build_individual_feed(&sample(), "me/repo", "a-blog-1a2b3c4d");
    assert_eq!(document.title, "A <Blog> & more");
    assert_eq!(
        document.link,
        "https://raw.githubusercontent.com/me/repo/refs/heads/main/feeds/a-blog-1a2b3c4d.xml"
    );
    assert_eq!(document.description, "Archived feed from http://a.example/feed");
    assert_eq!(document.items.len(), 2);
    assert_eq!(document.items[0].title, "First");
    assert_eq!(document.items[0].link, "http://a.example/1");
    assert_eq!(document.items[0].description, Some("About <one>".to_string()));
    assert_eq!(document.items[0].pub_date, "Mon, 1 Jan 2024 00:00:00 +0000");
    assert_eq!(document.items[1].title, "Second");
    assert_eq!(document.items[1].link, "");
    assert_eq!(document.items[1].description, None);
    assert_eq!(document.items[1].pub_date, "Tue, 1 Jul 2003 10:52:37 +0000");
}

#[test]
fn dates_at_the_ends_of_the_range_can_be_written() {
    let mut feed = sample();
    feed.items[0].pub_date = Timestamp::new(-62_167_219_200, 0);
    feed.items[1].pub_date = Timestamp::new(YEAR_9999_END, 999_999_999);
    assert!(items_are_printable(&feed.items));
    let document = build_individual_feed(&feed, "r", "n");
    assert_eq!(document.items[0].pub_date, "Sat, 1 Jan 0000 00:00:00 +0000");
    assert_eq!(document.items[1].pub_date, "Fri, 31 Dec 9999 23:59:59 +0000");
}

#[test]
fn a_leap_second_is_written_as_second_sixty() {
    let mut feed = sample();
    feed.items.truncate(1);
    feed.items[0].pub_date = Timestamp::new(1_483_228_799, 1_000_000_000);
    assert!(items_are_printable(&feed.items));
    assert_eq!(build_individual_feed(&feed, "r", "n").items[0].pub_date, "Sat, 31 Dec 2016 23:59:60 +0000");
}

#[test]
fn items_outside_the_four_digit_years_are_not_printable() {
    let mut feed = sample();
    assert!(items_are_printable(&feed.items));
    feed.items[1].pub_date = Timestamp::new(YEAR_9999_END + 1, 0);
    assert!(!items_are_printable(&feed.items));
    feed.items[1].pub_date = Timestamp::new(0, 2_000_000_000);
    assert!(!items_are_printable(&feed.items));
    assert!(items_are_printable(&vec![]));
}

#[test]
fn master_document_has_fixed_title_and_description() {
    let document = build_master_feed(&sample().items, "me/repo");
    assert_eq!(document.title, "Master RSS Feed");
    assert_eq!(document.description, "Aggregated RSS feed");
    assert_eq!(document.link, "https://raw.githubusercontent.com/me/repo/refs/heads/main/feeds/master.xml");
    assert_eq!(document.items.len(), 2);
    assert_eq!(document.items[0].title, "First");
    let empty = build_master_feed(&vec![], "me/repo");
    assert!(empty.items.is_empty());
    assert_eq!(empty.title, "Master RSS Feed");
}

#[test]
fn archive_xml_reads_back_as_the_same_channel() {
    let xml = archive_xml(&sample(), "me/repo", "a-blog-1a2b3c4d");
    let channel = rss::Channel::read_from(xml.as_bytes()).unwrap();
    assert_eq!(channel.title(), "A <Blog> & more");
    assert_eq!(
        channel.link(),
        "https://raw.githubusercontent.com/me/repo/refs/heads/main/feeds/a-blog-1a2b3c4d.xml"
    );
    assert_eq!(channel.description(), "Archived feed from http://a.example/feed");
    assert_eq!(channel.items().len(), 2);
    assert_eq!(channel.items()[0].title(), Some("First"));
    assert_eq!(channel.items()[0].link(), Some("http://a.example/1"));
    assert_eq!(channel.items()[0].description(), Some("About <one>"));
    assert_eq!(channel.items()[0].pub_date(), Some("Mon, 1 Jan 2024 00:00:00 +0000"));
    assert_eq!(channel.items()[1].title(), Some("Second"));
    assert_eq!(channel.items()[1].description(), None);
    assert_eq!(channel.items()[1].pub_date(), Some("Tue, 1 Jul 2003 10:52:37 +0000"));
}

#[test]
fn archive_xml_is_what_the_channel_builder_writes() {
    let feed = sample();
    let items: Vec<rss::Item> = feed
        .items
        .iter()
        .map(|fi| {
            let mut builder = rss::ItemBuilder::default();
            builder.title(fi.title.clone());
            builder.link(fi.link.clone());
            if let Some(desc) = &fi.description {
                builder.description(desc.clone());
            }
            let date = chrono::DateTime::from_timestamp(fi.pub_date.secs, fi.pub_date.nanos).unwrap();
            builder.pub_date(date.fixed_offset().to_rfc2822());
            builder.build()
        })
        .collect();
    let expected = rss::ChannelBuilder::default()
        .title(feed.title.clone())
        .link("https://raw.githubusercontent.com/me/repo/refs/heads/main/feeds/name.xml".to_string())
        .description(format!("Archived feed from {}", feed.url))
        .items(items)
        .build()
        .to_string();
    assert_eq!(archive_xml(&feed, "me/repo", "name"), expected);
}

#[test]
fn master_xml_of_no_items_is_an_empty_channel() {
    let xml = master_xml(&vec![], "me/repo");
    let channel = rss::Channel::read_from(xml.as_bytes()).unwrap();
    assert_eq!(channel.title(), "Master RSS Feed");
    assert_eq!(channel.description(), "Aggregated RSS feed");
    assert!(channel.items().is_empty());
    let full = master_xml(&sample().items, "me/repo");
    assert_eq!(rss::Channel::read_from(full.as_bytes()).unwrap().items().len(), 2);
}

#[test]
fn a_document_item_takes_the_date_text_it_is_given() {
    let feed = sample();
    assert_eq!(
        dated_document_item(&feed.items[0], "some day".to_string()),
        DocumentItem {
            title: "First".to_string(),
            link: "http://a.example/1".to_string(),
            description: Some("About <one>".to_string()),
            pub_date: "some day".to_string(),
        }
    );
}
