//! The inputs of a run: the settings with their defaults, and the list of
//! source addresses.

use crate::model::texts_of;
use crate::text::{chars_of, trim_bounds, trimmed, CharClass};
use vstd::prelude::*;

verus! {

/// The cap on the number of items that holds where none is configured.
pub const DEFAULT_MAX_ITEMS: usize = 300;

/// The repository that holds where none is configured.
pub open spec fn default_repo_name() -> Seq<char> {
    "xavwe/rss-aggregator"@
}

/// The configuration as it is read: every setting may be missing.
#[derive(Debug, PartialEq, Eq)]
pub struct Config {
    pub max_items: Option<usize>,
    pub repo_name: Option<String>,
}

/// The settings of a run.
#[derive(Debug, PartialEq, Eq)]
pub struct Settings {
    /// The cap on the master list and on the list of each source; zero
    /// stands for no cap.
    pub max_items: usize,
    /// The repository under which the archives are published.
    pub repo_name: String,
}

impl Config {
    /// The settings that the configuration gives, with the default for each
    /// one that is missing.
    pub fn settings(self) -> (settings: Settings)
        ensures
            settings.max_items == match self.max_items {
                Some(cap) => cap,
                None => DEFAULT_MAX_ITEMS,
            },
            settings.repo_name@ == match self.repo_name {
                Some(name) => name@,
                None => default_repo_name(),
            },
    {
        Settings {
            max_items: match self.max_items {
                Some(cap) => cap,
                None => DEFAULT_MAX_ITEMS,
            },
            repo_name: match self.repo_name {
                Some(name) => name,
                None => "xavwe/rss-aggregator".to_owned(),
            },
        }
    }
}

/// The lines of a text: what stands between its line feeds. A text without
/// a line feed is one line, and a text that ends in a line feed ends in an
/// empty line.
pub open spec fn lines_of(text: Seq<char>) -> Seq<Seq<char>>
    decreases text.len(),
{
    if text.len() == 0 {
        seq![Seq::empty()]
    } else {
        let before = lines_of(text.drop_last());
        if text.last() == '\n' {
            before.push(Seq::empty())
        } else {
            before.drop_last().push(before.last().push(text.last()))
        }
    }
}

/// The lines trimmed of white space, without those that are then empty.
pub open spec fn kept_lines(lines: Seq<Seq<char>>) -> Seq<Seq<char>> {
    lines.map_values(|line: Seq<char>| trimmed(line, CharClass::Whitespace)).filter(
        |line: Seq<char>| line.len() > 0,
    )
}

/// The source addresses that a list holds: one per line, trimmed of white
/// space, blank lines left out.
pub open spec fn url_lines(text: Seq<char>) -> Seq<Seq<char>> {
    kept_lines(lines_of(text))
}

/// What one more line adds to the kept lines.
proof fn lemma_kept_push(lines: Seq<Seq<char>>, line: Seq<char>)
    ensures
        kept_lines(lines.push(line)) == if trimmed(line, CharClass::Whitespace).len() > 0 {
            kept_lines(lines).push(trimmed(line, CharClass::Whitespace))
        } else {
            kept_lines(lines)
        },
{
    reveal(Seq::filter);
    let trim = |l: Seq<char>| trimmed(l, CharClass::Whitespace);
    assert(lines.push(line).map_values(trim).drop_last() =~= lines.map_values(trim));
}

/// Reads the list of source addresses: one address per line; white space
/// around an address and blank lines are ignored.
pub fn parse_feed_urls(contents: &str) -> (urls: Vec<String>)
    ensures
        texts_of(urls@) == url_lines(contents@),
{
    let chars = chars_of(contents);
    let n = chars.len();
    let mut urls: Vec<String> = Vec::new();
    let mut start: usize = 0;
    let mut i: usize = 0;
    let ghost mut done: Seq<Seq<char>> = Seq::empty();
    proof {
        reveal(Seq::filter);
        assert(contents@.take(0) =~= Seq::<char>::empty());
        assert(done.push(contents@.subrange(0, 0)) =~= seq![Seq::<char>::empty()]);
        assert(texts_of(urls@) =~= kept_lines(done));
    }
    while i < n
        invariant
            start <= i <= n,
            n == chars@.len(),
            chars@ == contents@,
            lines_of(contents@.take(i as int)) == done.push(
                contents@.subrange(start as int, i as int),
            ),
            texts_of(urls@) == kept_lines(done),
        decreases n - i,
    {
        let ghost line = contents@.subrange(start as int, i as int);
        proof {
            assert(contents@.take(i + 1).drop_last() =~= contents@.take(i as int));
            assert(done.push(line).drop_last() =~= done);
        }
        if chars[i] == '\n' {
            let (from, to) = trim_bounds(&chars, start, i, CharClass::Whitespace);
            if to > from {
                let ghost so_far = urls@;
                urls.push(contents.substring_char(from, to).to_owned());
                assert(texts_of(urls@) =~= texts_of(so_far).push(
                    trimmed(line, CharClass::Whitespace),
                ));
            }
            proof {
                lemma_kept_push(done, line);
                done = done.push(line);
                assert(contents@.subrange(i + 1, i + 1) =~= Seq::<char>::empty());
            }
            start = i + 1;
        } else {
            assert(line.push(contents@[i as int]) =~= contents@.subrange(start as int, i + 1));
        }
        i += 1;
    }
    let ghost line = contents@.subrange(start as int, n as int);
    let (from, to) = trim_bounds(&chars, start, n, CharClass::Whitespace);
    if to > from {
        let ghost so_far = urls@;
        urls.push(contents.substring_char(from, to).to_owned());
        assert(texts_of(urls@) =~= texts_of(so_far).push(trimmed(line, CharClass::Whitespace)));
    }
    proof {
        lemma_kept_push(done, line);
        assert(contents@.take(n as int) =~= contents@);
    }
    urls
}

} // verus!
