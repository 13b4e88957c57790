use rss_aggregator::aggregate::{aggregate, cap_feed, cap_items};
use rss_aggregator::model::{FeedData, FeedItem};
use rss_aggregator::naming::generate_unique_filename_for_feed;
use rss_aggregator::time::Timestamp;

const DAY: i64 = 86_400;
const JAN_1_2024: i64 = 1_704_067_200;

fn item(title: &str, secs: i64) -> FeedItem {
    FeedItem {
        title: title.to_string(),
        link: format!("http://example/{}", title),
        description: None,
        pub_date: Timestamp::new(secs, 0),
    }
}

fn feed(title: &str, url: &str, items: Vec<FeedItem>) -> FeedData {
    FeedData { title: title.to_string(), url: url.to_string(), items }
}

fn titles(items: &[FeedItem]) -> Vec<String> {
    items.iter().map(|i| i.title.clone()).collect()
}

#[test]
fn master_list_of_two_sources_capped_at_two() {
    let a = feed(
        "A Blog",
        "http://a.example/feed",
        vec![item("a1", JAN_1_2024), item("a2", JAN_1_2024 + DAY), item("a3", JAN_1_2024 + 2 * DAY)],
    );
    let b = feed("", "http://b.example/feed", vec![item("b1", JAN_1_2024 + 4 * DAY)]);
    let sources = vec![a, b];
    let master = aggregate(&sources, 2);
    assert_eq!(titles(&master), vec!["b1", "a3"]);
    assert_eq!(master[0].pub_date, Timestamp::new(JAN_1_2024 + 4 * DAY, 0));
    assert_eq!(master[1].pub_date, Timestamp::new(JAN_1_2024 + 2 * DAY, 0));
    let name = generate_unique_filename_for_feed(&sources[1].url, &sources[1].title);
    assert!(name.starts_with("b-example-"));
    assert_eq!(name.len(), "b-example-".len() + 8);
}

#[test]
fn a_cap_of_zero_truncates_nothing() {
    let many: Vec<FeedItem> = (0..500).map(|i| item(&format!("n{}", i), i)).collect();
    let sources = vec![feed("Many", "http://many.example/", many.clone()), feed("One", "http://one.example/", vec![item("x", 7)])];
    assert_eq!(aggregate(&sources, 0).len(), 501);
    assert_eq!(cap_items(many.clone(), 0).len(), 500);
    assert_eq!(cap_feed(feed("Many", "http://many.example/", many), 0).items.len(), 500);
}

#[test]
fn master_list_is_newest_first() {
    let sources = vec![
        feed("A", "http://a/", vec![item("a", 5), item("b", 50), item("c", 20)]),
        feed("B", "http://b/", vec![item("d", 30), item("e", 1), item("f", 40)]),
    ];
    let master = aggregate(&sources, 0);
    assert_eq!(titles(&master), vec!["b", "f", "d", "c", "a", "e"]);
    for pair in master.windows(2) {
        assert!(pair[0].pub_date.is_at_or_after(&pair[1].pub_date));
    }
}

#[test]
fn items_of_one_instant_keep_the_order_of_the_sources() {
    let sources = vec![
        feed("A", "http://a/", vec![item("a1", 10), item("a2", 20), item("a3", 10)]),
        feed("B", "http://b/", vec![item("b1", 20), item("b2", 10), item("b3", 30)]),
        feed("C", "http://c/", vec![item("c1", 10)]),
    ];
    let master = aggregate(&sources, 0);
    assert_eq!(titles(&master), vec!["b3", "a2", "b1", "a1", "a3", "b2", "c1"]);
}

#[test]
fn nanoseconds_decide_between_items_of_one_second() {
    let mut early = item("early", 100);
    early.pub_date = Timestamp::new(100, 1);
    let mut late = item("late", 100);
    late.pub_date = Timestamp::new(100, 2);
    let sources = vec![feed("A", "http://a/", vec![early, late])];
    assert_eq!(titles(&aggregate(&sources, 0)), vec!["late", "early"]);
}

#[test]
fn length_is_the_smaller_of_cap_and_total() {
    let sources = vec![
        feed("A", "http://a/", vec![item("a", 1), item("b", 2), item("c", 3)]),
        feed("B", "http://b/", vec![item("d", 4), item("e", 5)]),
    ];
    assert_eq!(aggregate(&sources, 0).len(), 5);
    assert_eq!(aggregate(&sources, 1).len(), 1);
    assert_eq!(aggregate(&sources, 4).len(), 4);
    assert_eq!(aggregate(&sources, 5).len(), 5);
    assert_eq!(aggregate(&sources, 6).len(), 5);
    assert_eq!(aggregate(&sources, usize::MAX).len(), 5);
    assert_eq!(titles(&aggregate(&sources, 3)), vec!["e", "d", "c"]);
}

#[test]
fn no_sources_and_empty_sources_give_an_empty_master_list() {
    assert!(aggregate(&vec![], 300).is_empty());
    assert!(aggregate(&vec![feed("A", "http://a/", vec![])], 0).is_empty());
}

#[test]
fn aggregating_the_master_list_again_changes_nothing() {
    let sources = vec![
        feed("A", "http://a/", vec![item("a", 5), item("b", 50), item("c", 20), item("g", 20)]),
        feed("B", "http://b/", vec![item("d", 30), item("e", 20), item("f", 40)]),
    ];
    for cap in [0usize, 1, 3, 7, 10] {
        let once = aggregate(&sources, cap);
        let again = aggregate(&vec![feed("Master", "http://m/", once.clone())], cap);
        assert_eq!(again, once);
    }
}

#[test]
fn items_come_out_with_all_their_fields() {
    let full = FeedItem {
        title: "Full".to_string(),
        link: "http://a/full".to_string(),
        description: Some("All of it".to_string()),
        pub_date: Timestamp::new(9, 9),
    };
    let master = aggregate(&vec![feed("A", "http://a/", vec![item("x", 1), full.clone()])], 1);
    assert_eq!(master, vec![full]);
}

#[test]
fn a_large_input_is_sorted_like_a_stable_sort() {
    let mut state: u64 = 12345;
    let mut all: Vec<FeedItem> = Vec::new();
    let mut sources: Vec<FeedData> = Vec::new();
    for s in 0..20 {
        let mut items = Vec::new();
        for k in 0..53 {
            state = state.wrapping_mul(6364136223846793005).wrapping_add(1442695040888963407);
            let secs = ((state >> 33) % 97) as i64;
            items.push(item(&format!("s{}k{}", s, k), secs));
        }
        all.extend(items.clone());
        sources.push(feed("S", "http://s/", items));
    }
    let mut expected = all.clone();
    expected.sort_by(|a, b| (b.pub_date.secs, b.pub_date.nanos).cmp(&(a.pub_date.secs, a.pub_date.nanos)));
    assert_eq!(aggregate(&sources, 0), expected);
    expected.truncate(300);
    assert_eq!(aggregate(&sources, 300), expected);
}

#[test]
fn the_cap_on_one_source_keeps_the_order_of_the_feed() {
    let items = vec![item("old", 1), item("new", 100), item("mid", 50)];
    assert_eq!(titles(&cap_items(items.clone(), 2)), vec!["old", "new"]);
    assert_eq!(titles(&cap_items(items.clone(), 3)), vec!["old", "new", "mid"]);
    assert_eq!(titles(&cap_items(items.clone(), 4)), vec!["old", "new", "mid"]);
    assert_eq!(titles(&cap_items(items.clone(), 1)), vec!["old"]);
    let kept = cap_feed(feed("A", "http://a/", items), 2);
    assert_eq!(kept.title, "A");
    assert_eq!(kept.url, "http://a/");
    assert_eq!(titles(&kept.items), vec!["old", "new"]);
}
