use rss_aggregator::fetch::{
    collect_outcomes, outcome_from, source_from_parse, split_outcomes, FetchError, Response,
};
use rss_aggregator::model::{RawEntry, RawFeed};
use rss_aggregator::time::Timestamp;

const RSS: &str = r#"<?xml version="1.0" encoding="UTF-8"?>
<rss version="2.0">
  <channel>
    <title>A Blog</title>
    <link>http://a.example/</link>
    <description>Posts</description>
    <item>
      <title>First post</title>
      <link>http://a.example/1</link>
      <description>About one</description>
      <pubDate>Mon, 01 Jan 2024 00:00:00 +0000</pubDate>
    </item>
    <item>
      <link>http://a.example/2</link>
    </item>
  </channel>
</rss>"#;

const ATOM: &str = r#"<?xml version="1.0" encoding="utf-8"?>
<feed xmlns="http://www.w3.org/2005/Atom">
  <id>urn:feed</id>
  <updated>2024-01-03T00:00:00Z</updated>
  <entry>
    <id>urn:entry</id>
    <title>Only updated</title>
    <updated>2024-01-02T10:20:30.5Z</updated>
    <link href="http://b.example/e"/>
    <link href="http://b.example/alt"/>
  </entry>
</feed>"#;

fn instant(date: chrono::DateTime<chrono::Utc>) -> Timestamp {
    Timestamp::new(date.timestamp(), date.timestamp_subsec_nanos())
}

fn parse(text: &str) -> Result<RawFeed, String> {
    match feed_rs::parser::parse(text.as_bytes()) {
        Ok(feed) => Ok(RawFeed {
            title: feed.title.map(|t| t.content),
            entries: feed
                .entries
                .into_iter()
                .map(|e| RawEntry {
                    title: e.title.map(|t| t.content),
                    links: e.links.into_iter().map(|l| l.href).collect(),
                    summary: e.summary.map(|s| s.content),
                    published: e.published.map(instant),
                    updated: e.updated.map(instant),
                })
                .collect(),
        }),
        Err(e) => Err(e.to_string()),
    }
}

fn fetched(body: Result<&str, &str>) -> Result<Result<RawFeed, String>, String> {
    match body {
        Ok(text) => Ok(parse(text)),
        Err(cause) => Err(cause.to_string()),
    }
}

fn response(url: &str, body: Result<&str, &str>) -> Response {
    Response { url: url.to_string(), fetched: fetched(body) }
}

fn fetch_outcome(response: Response, fetch_time: Timestamp) -> Result<rss_aggregator::model::FeedData, FetchError> {
    outcome_from(response.url, response.fetched, fetch_time)
}

#[test]
fn a_fetched_rss_document_becomes_a_feed() {
    let now = Timestamp::new(1_800_000_000, 42);
    let feed = fetch_outcome(response("http://a.example/feed", Ok(RSS)), now).unwrap();
    assert_eq!(feed.title, "A Blog");
    assert_eq!(feed.url, "http://a.example/feed");
    assert_eq!(feed.items.len(), 2);
    assert_eq!(feed.items[0].title, "First post");
    assert_eq!(feed.items[0].link, "http://a.example/1");
    assert_eq!(feed.items[0].description, Some("About one".to_string()));
    assert_eq!(feed.items[0].pub_date, Timestamp::new(1_704_067_200, 0));
    assert_eq!(feed.items[1].title, "No title");
    assert_eq!(feed.items[1].link, "http://a.example/2");
    assert_eq!(feed.items[1].description, None);
    assert_eq!(feed.items[1].pub_date, now);
}

#[test]
fn a_feed_without_title_and_an_entry_with_updated_only() {
    let now = Timestamp::new(1_800_000_000, 0);
    let feed = fetch_outcome(response("http://b.example/atom", Ok(ATOM)), now).unwrap();
    assert_eq!(feed.title, "http://b.example/atom");
    assert_eq!(feed.items.len(), 1);
    assert_eq!(feed.items[0].title, "Only updated");
    assert_eq!(feed.items[0].link, "http://b.example/e");
    assert_eq!(feed.items[0].pub_date, Timestamp::new(1_704_190_830, 500_000_000));
}

#[test]
fn a_transport_failure_carries_address_and_cause() {
    let outcome = fetch_outcome(response("http://down.example/", Err("connection refused")), Timestamp::new(0, 0));
    assert_eq!(
        outcome,
        Err(FetchError::Transport {
            url: "http://down.example/".to_string(),
            cause: "connection refused".to_string()
        })
    );
    assert_eq!(outcome.unwrap_err().url(), "http://down.example/");
}

#[test]
fn a_body_that_is_no_feed_gives_a_parse_error() {
    let outcome = fetch_outcome(response("http://html.example/", Ok("<html><body>hi</body></html>")), Timestamp::new(0, 0));
    match outcome {
        Err(FetchError::Parse { url, cause }) => {
            assert_eq!(url, "http://html.example/");
            assert!(!cause.is_empty());
        }
        other => panic!("expected a parse error, got {:?}", other),
    }
    let empty = fetch_outcome(response("http://empty.example/", Ok("")), Timestamp::new(0, 0));
    assert!(matches!(empty, Err(FetchError::Parse { .. })));
}

#[test]
fn the_outcome_follows_the_parser_result() {
    let raw = RawFeed {
        title: Some("T".to_string()),
        entries: vec![RawEntry { title: None, links: vec![], summary: None, published: None, updated: None }],
    };
    let feed = source_from_parse("http://x/".to_string(), Ok(raw), Timestamp::new(3, 4)).unwrap();
    assert_eq!(feed.title, "T");
    assert_eq!(feed.url, "http://x/");
    assert_eq!(feed.items[0].pub_date, Timestamp::new(3, 4));
    assert_eq!(
        source_from_parse("http://x/".to_string(), Err("bad".to_string()), Timestamp::new(3, 4)),
        Err(FetchError::Parse { url: "http://x/".to_string(), cause: "bad".to_string() })
    );
}

#[test]
fn one_outcome_per_source_and_a_failure_changes_no_other() {
    let now = Timestamp::new(1_800_000_000, 0);
    let good = vec![response("http://a.example/feed", Ok(RSS)), response("http://b.example/atom", Ok(ATOM))];
    let with_failure = vec![response("http://a.example/feed", Err("timeout")), response("http://b.example/atom", Ok(ATOM))];
    let first = collect_outcomes(good, now);
    let second = collect_outcomes(with_failure, now);
    assert_eq!(first.len(), 2);
    assert_eq!(second.len(), 2);
    assert!(first[0].is_ok());
    assert!(second[0].is_err());
    assert!(first[1].is_ok());
    assert_eq!(first[1], second[1]);
    assert!(collect_outcomes(vec![], now).is_empty());
}

#[test]
fn outcomes_part_into_feeds_and_errors_in_order() {
    let now = Timestamp::new(1_800_000_000, 0);
    let responses = vec![
        response("http://1.example/", Err("refused")),
        response("http://a.example/feed", Ok(RSS)),
        response("http://2.example/", Ok("not a feed")),
        response("http://b.example/atom", Ok(ATOM)),
    ];
    let (feeds, errors) = split_outcomes(collect_outcomes(responses, now));
    assert_eq!(feeds.len(), 2);
    assert_eq!(feeds[0].url, "http://a.example/feed");
    assert_eq!(feeds[1].url, "http://b.example/atom");
    assert_eq!(errors.len(), 2);
    assert_eq!(errors[0].url(), "http://1.example/");
    assert_eq!(errors[1].url(), "http://2.example/");
}

#[test]
fn when_every_source_fails_there_is_no_feed() {
    let responses = vec![response("http://1.example/", Err("a")), response("http://2.example/", Err("b"))];
    let (feeds, errors) = split_outcomes(collect_outcomes(responses, Timestamp::new(0, 0)));
    assert!(feeds.is_empty());
    assert_eq!(errors.len(), 2);
    let (no_feeds, no_errors) = split_outcomes(vec![]);
    assert!(no_feeds.is_empty());
    assert!(no_errors.is_empty());
}

#[test]
fn the_outcome_is_decided_by_what_the_request_brought() {
    let now = Timestamp::new(5, 6);
    let raw = RawFeed { title: None, entries: vec![] };
    let feed = outcome_from("http://x/".to_string(), Ok(Ok(raw)), now).unwrap();
    assert_eq!(feed.title, "http://x/");
    assert_eq!(feed.url, "http://x/");
    assert!(feed.items.is_empty());
    assert_eq!(
        outcome_from("http://x/".to_string(), Ok(Err("no root element".to_string())), now),
        Err(FetchError::Parse { url: "http://x/".to_string(), cause: "no root element".to_string() })
    );
    assert_eq!(
        outcome_from("http://x/".to_string(), Err("dns".to_string()), now),
        Err(FetchError::Transport { url: "http://x/".to_string(), cause: "dns".to_string() })
    );
}
