use rss_aggregator::config::{parse_feed_urls, Config, Settings, DEFAULT_MAX_ITEMS};
use rss_aggregator::text::{trim_matches, CharClass};

#[test]
fn missing_settings_take_their_defaults() {
    let settings = Config { max_items: None, repo_name: None }.settings();
    assert_eq!(settings, Settings { max_items: 300, repo_name: "xavwe/rss-aggregator".to_string() });
    assert_eq!(DEFAULT_MAX_ITEMS, 300);
}

#[test]
fn configured_settings_are_kept() {
    let settings = Config { max_items: Some(0), repo_name: Some("me/repo".to_string()) }.settings();
    assert_eq!(settings, Settings { max_items: 0, repo_name: "me/repo".to_string() });
    let mixed = Config { max_items: Some(12), repo_name: None }.settings();
    assert_eq!(mixed, Settings { max_items: 12, repo_name: "xavwe/rss-aggregator".to_string() });
}

#[test]
fn one_address_per_line() {
    assert_eq!(
        parse_feed_urls("http://a.example/feed\nhttp://b.example/feed\n"),
        vec!["http://a.example/feed", "http://b.example/feed"]
    );
    assert_eq!(parse_feed_urls("http://a.example/feed"), vec!["http://a.example/feed"]);
}

#[test]
fn blank_lines_and_surrounding_white_space_are_ignored() {
    let text = "\n  http://a.example/feed \t\r\n\r\n   \n\u{3000}http://b.example/feed\u{a0}\n\n";
    assert_eq!(parse_feed_urls(text), vec!["http://a.example/feed", "http://b.example/feed"]);
    assert!(parse_feed_urls("").is_empty());
    assert!(parse_feed_urls("\n\n  \n\t").is_empty());
    assert_eq!(parse_feed_urls("a b\n"), vec!["a b"]);
}

#[test]
fn address_list_is_read_like_lines_trimmed_and_filtered() {
    for text in [
        "",
        "\n",
        "a",
        "a\n",
        "\na",
        "a\r\nb\r\n",
        "a\rb\n",
        " a \n\n b\n c",
        "\r\n\r\n",
        "x\n\n\ny \n",
        "\u{2028}u\u{2029}\n\u{85}v",
        "é\n ü \n",
    ] {
        let expected: Vec<String> = text
            .lines()
            .map(|line| line.trim())
            .filter(|line| !line.is_empty())
            .map(|s| s.to_string())
            .collect();
        assert_eq!(parse_feed_urls(text), expected);
    }
}

#[test]
fn white_space_is_the_unicode_property() {
    for code in 0..=0x10FFFFu32 {
        if let Some(c) = char::from_u32(code) {
            assert_eq!(CharClass::Whitespace.has(c), c.is_whitespace());
            assert_eq!(CharClass::Hyphen.has(c), c == '-');
        }
    }
}

#[test]
fn trimming_takes_the_class_off_both_ends_only() {
    assert_eq!(trim_matches("  a b  ", CharClass::Whitespace), "a b");
    assert_eq!(trim_matches("--a-b--", CharClass::Hyphen), "a-b");
    assert_eq!(trim_matches("  a b  ", CharClass::Hyphen), "  a b  ");
    assert_eq!(trim_matches("   ", CharClass::Whitespace), "");
    assert_eq!(trim_matches("", CharClass::Whitespace), "");
    assert_eq!(trim_matches("\u{2003}é\u{2003}", CharClass::Whitespace), "é");
}
