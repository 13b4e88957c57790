//! Reconciliation of the output directory: which of the files found there
//! belong to no current source and have to go.

use crate::model::{source_views, texts_of, FeedData, SourceView};
use crate::naming::{archive_name, generate_unique_filename_for_feed};
use crate::text::{chars_of, matches_at, occurs_at};
use vstd::prelude::*;
use vstd::string::StringExecFns;

verus! {

/// The extension of the files that the aggregator manages.
pub open spec fn managed_extension() -> Seq<char> {
    ".xml"@
}

/// The name of the index file, which is never deleted.
pub open spec fn index_file_name() -> Seq<char> {
    "master.opml"@
}

/// The name of the file that keeps an empty directory in place, which is
/// never deleted.
pub open spec fn keep_file_name() -> Seq<char> {
    ".gitkeep"@
}

/// The file name of the archive document with the given archive name.
pub open spec fn archive_file_name(name: Seq<char>) -> Seq<char> {
    name + managed_extension()
}

/// The file name of the archive document of a source.
pub open spec fn archive_file_of(feed: SourceView) -> Seq<char> {
    archive_file_name(archive_name(feed.url, feed.title))
}

/// Whether `name` is the archive file of one of the sources.
pub open spec fn is_archive_of_some(name: Seq<char>, feeds: Seq<SourceView>) -> bool {
    exists|i: int| 0 <= i < feeds.len() && name == archive_file_of(#[trigger] feeds[i])
}

/// Whether `name` is a file that the current sources account for: the
/// archive of one of them, the index, or the keep file.
pub open spec fn is_expected(name: Seq<char>, feeds: Seq<SourceView>) -> bool {
    is_archive_of_some(name, feeds) || name == index_file_name() || name == keep_file_name()
}

/// Whether `s` ends in `suffix`.
pub open spec fn has_suffix(s: Seq<char>, suffix: Seq<char>) -> bool {
    occurs_at(s, suffix, s.len() - suffix.len())
}

/// Whether a file has to go: it has the managed extension and the current
/// sources do not account for it.
pub open spec fn is_stale(name: Seq<char>, feeds: Seq<SourceView>) -> bool {
    has_suffix(name, managed_extension()) && !is_expected(name, feeds)
}

/// The files to delete, in the order in which the directory lists them.
pub open spec fn stale_names(existing: Seq<Seq<char>>, feeds: Seq<SourceView>) -> Seq<Seq<char>> {
    existing.filter(|name: Seq<char>| is_stale(name, feeds))
}

/// The names of the files that the current sources account for: one archive
/// per source, in the order of the sources, then the index and the keep
/// file.
pub open spec fn expected_names(feeds: Seq<SourceView>) -> Seq<Seq<char>> {
    feeds.map_values(|feed: SourceView| archive_file_of(feed)) + seq![
        index_file_name(),
        keep_file_name(),
    ]
}

/// `expected_names` lists exactly the expected files.
pub proof fn lemma_expected_names(feeds: Seq<SourceView>, name: Seq<char>)
    ensures
        expected_names(feeds).contains(name) <==> is_expected(name, feeds),
{
    let archives = feeds.map_values(|feed: SourceView| archive_file_of(feed));
    let fixed = seq![index_file_name(), keep_file_name()];
    let all = expected_names(feeds);
    if all.contains(name) {
        let i = choose|i: int| 0 <= i < all.len() && all[i] == name;
        if i < archives.len() {
            assert(name == archive_file_of(feeds[i]));
        } else {
            assert(name == fixed[i - archives.len()]);
        }
    }
    if is_expected(name, feeds) {
        if is_archive_of_some(name, feeds) {
            let i = choose|i: int| 0 <= i < feeds.len() && name == archive_file_of(#[trigger] feeds[i]);
            assert(all[i] == name);
        } else if name == index_file_name() {
            assert(all[archives.len() as int] == name);
        } else {
            assert(all[archives.len() as int + 1] == name);
        }
    }
}

/// The file name of the archive document of `feed`.
pub fn archive_file_for(feed: &FeedData) -> (name: String)
    ensures
        name@ == archive_file_of(feed@),
{
    let mut name = generate_unique_filename_for_feed(feed.url.as_str(), feed.title.as_str());
    name.append(".xml");
    name
}

/// The names of the files that the current sources account for.
pub fn expected_filenames(current_feeds: &Vec<FeedData>) -> (names: Vec<String>)
    ensures
        texts_of(names@) == expected_names(source_views(current_feeds@)),
{
    let mut names: Vec<String> = Vec::new();
    let mut i: usize = 0;
    while i < current_feeds.len()
        invariant
            i <= current_feeds.len(),
            names@.len() == i,
            forall|j: int| 0 <= j < i ==> names@[j]@ == archive_file_of(current_feeds@[j]@),
        decreases current_feeds.len() - i,
    {
        names.push(archive_file_for(&current_feeds[i]));
        i += 1;
    }
    names.push("master.opml".to_owned());
    names.push(".gitkeep".to_owned());
    assert(texts_of(names@) =~= expected_names(source_views(current_feeds@)));
    names
}

/// Tests whether `text` ends in `suffix`.
pub fn ends_with(text: &str, suffix: &str) -> (r: bool)
    ensures
        r == has_suffix(text@, suffix@),
{
    let chars = chars_of(text);
    let tail = chars_of(suffix);
    if tail.len() > chars.len() {
        return false;
    }
    matches_at(&chars, &tail, chars.len() - tail.len())
}

/// Tests whether `names` holds `name`.
pub fn holds_name(names: &Vec<String>, name: &String) -> (r: bool)
    ensures
        r == texts_of(names@).contains(name@),
{
    let mut i: usize = 0;
    while i < names.len()
        invariant
            i <= names.len(),
            forall|j: int| 0 <= j < i ==> texts_of(names@)[j] != name@,
        decreases names.len() - i,
    {
        if names[i] == *name {
            assert(texts_of(names@)[i as int] == name@);
            return true;
        }
        i += 1;
    }
    false
}

/// The files of `existing` to delete, given the current sources: every file
/// with the managed extension that is neither the archive of a current
/// source nor a file that is always kept. The result keeps the order of
/// `existing`.
pub fn stale_files(existing: &Vec<String>, current_feeds: &Vec<FeedData>) -> (stale: Vec<String>)
    ensures
        texts_of(stale@) == stale_names(texts_of(existing@), source_views(current_feeds@)),
{
    let expected = expected_filenames(current_feeds);
    let ghost feeds = source_views(current_feeds@);
    let ghost names = texts_of(existing@);
    let ghost pred = |name: Seq<char>| is_stale(name, feeds);
    let mut stale: Vec<String> = Vec::new();
    let mut i: usize = 0;
    proof {
        reveal(Seq::filter);
        assert(names.take(0) =~= Seq::<Seq<char>>::empty());
    }
    while i < existing.len()
        invariant
            i <= existing.len(),
            feeds == source_views(current_feeds@),
            names == texts_of(existing@),
            pred == |name: Seq<char>| is_stale(name, feeds),
            texts_of(expected@) == expected_names(feeds),
            texts_of(stale@) == names.take(i as int).filter(pred),
        decreases existing.len() - i,
    {
        let name = &existing[i];
        proof {
            reveal(Seq::filter);
            lemma_expected_names(feeds, name@);
            assert(names.take(i + 1).drop_last() =~= names.take(i as int));
            assert(names.take(i + 1).last() == name@);
        }
        if ends_with(name.as_str(), ".xml") && !holds_name(&expected, name) {
            let ghost so_far = stale@;
            stale.push(name.clone());
            assert(texts_of(stale@) =~= texts_of(so_far).push(name@));
        }
        i += 1;
    }
    assert(names.take(i as int) =~= names);
    stale
}

/// Reconciliation keeps what is accounted for and removes the rest: a file
/// is deleted only if the directory holds it; no file that the current
/// sources account for is deleted, so neither the archive of a current
/// source nor the index nor the keep file; and every file with the managed
/// extension that stays is accounted for.
pub proof fn lemma_reconciled(existing: Seq<Seq<char>>, feeds: Seq<SourceView>, name: Seq<char>)
    ensures
        stale_names(existing, feeds).contains(name) ==> existing.contains(name),
        is_expected(name, feeds) ==> !stale_names(existing, feeds).contains(name),
        existing.contains(name) && has_suffix(name, managed_extension()) && !stale_names(
            existing,
            feeds,
        ).contains(name) ==> is_expected(name, feeds),
{
    let pred = |n: Seq<char>| is_stale(n, feeds);
    let stale = existing.filter(pred);
    #[allow(deprecated)]
    existing.filter_lemma(pred);
    if stale.contains(name) {
        existing.lemma_filter_contains_rev(pred, name);
        let i = choose|i: int| 0 <= i < stale.len() && stale[i] == name;
        assert(pred(stale[i]));
    }
    if existing.contains(name) && has_suffix(name, managed_extension()) && !stale.contains(name) {
        let i = choose|i: int| 0 <= i < existing.len() && existing[i] == name;
        if pred(existing[i]) {
            assert(stale.contains(existing[i]));
        }
    }
}

/// The name under which a master feed document would stand in the directory.
pub open spec fn master_feed_file_name() -> Seq<char> {
    "master.xml"@
}

/// No source has `master.xml` as its archive, so a file of that name is
/// always stale.
pub proof fn lemma_master_feed_file_is_stale(feeds: Seq<SourceView>)
    ensures
        is_stale(master_feed_file_name(), feeds),
{
    reveal_strlit("master.xml");
    reveal_strlit(".xml");
    reveal_strlit("master.opml");
    reveal_strlit(".gitkeep");
    let name = master_feed_file_name();
    assert(has_suffix(name, managed_extension()));
    assert forall|i: int| 0 <= i < feeds.len() implies name != archive_file_of(
        #[trigger] feeds[i],
    ) by {
        crate::naming::lemma_archive_name_chars(feeds[i].url, feeds[i].title);
        assert(archive_file_of(feeds[i]).len() >= 13);
    }
}

} // verus!
