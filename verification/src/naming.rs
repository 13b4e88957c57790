//! Archive names: the stable file name stem of a source, made of a readable
//! slug and a hash of the source's address.

use crate::text::{
    chars_of, find_from, first_occurrence, first_occurrence_from, lemma_first_occurrence,
    matches_at, occurs_at, trim_matches, trimmed, CharClass,
};
use std::collections::hash_map::DefaultHasher;
use std::hash::Hasher;
use vstd::prelude::*;
use vstd::std_specs::hash::DefaultHasherAdditionalSpecFns;
use vstd::string::StringExecFns;
use vstd::utf8::encode_utf8;

verus! {

/// Whether `c` is an ASCII letter or digit.
pub open spec fn is_ascii_alnum(c: char) -> bool {
    ('a' <= c && c <= 'z') || ('A' <= c && c <= 'Z') || ('0' <= c && c <= '9')
}

/// `s` with every maximal run of characters other than ASCII letters and
/// digits replaced by one hyphen.
pub open spec fn hyphenated(s: Seq<char>) -> Seq<char>
    decreases s.len(),
{
    if s.len() == 0 {
        s
    } else if is_ascii_alnum(s.last()) {
        hyphenated(s.drop_last()).push(s.last())
    } else if s.len() >= 2 && !is_ascii_alnum(s[s.len() - 2]) {
        hyphenated(s.drop_last())
    } else {
        hyphenated(s.drop_last()).push('-')
    }
}

/// `s` without the hyphens at its start and at its end.
pub open spec fn trim_hyphens(s: Seq<char>) -> Seq<char> {
    trimmed(s, CharClass::Hyphen)
}

/// The lowercase form of a text, as the standard library's Unicode mapping
/// gives it.
pub uninterp spec fn lowercased(text: Seq<char>) -> Seq<char>;

/// The slug of an already lowercased text: runs of other characters than
/// ASCII letters and digits become one hyphen each, and the hyphens at both
/// ends go.
pub open spec fn slug_of(lower: Seq<char>) -> Seq<char> {
    trim_hyphens(hyphenated(lower))
}

/// The slug of a text.
pub open spec fn kebab(text: Seq<char>) -> Seq<char> {
    slug_of(lowercased(text))
}

/// Calls `str::to_lowercase`. Trusted: the result depends on the text alone,
/// so it is `lowercased` of it.
#[verifier::external_body]
fn lowercase(text: &str) -> (lower: String)
    ensures
        lower@ == lowercased(text@),
{
    text.to_lowercase()
}

/// The regular expression for a run of characters other than ASCII letters
/// and digits.
pub open spec fn non_alnum_run_pattern() -> Seq<char> {
    "[^a-zA-Z0-9]+"@
}

/// Compiles `pattern` with `regex::Regex::new` and calls
/// `regex::Regex::replace_all` on `text`. Trusted, for the one pattern and
/// the one replacement that `requires` admits: the pattern is valid; it
/// matches the maximal runs of characters other than ASCII letters and
/// digits, leftmost first and without overlap; and each match is replaced by
/// the one hyphen, which holds no reference to a group.
#[verifier::external_body]
fn replace_all(pattern: &str, text: &str, replacement: &str) -> (replaced: String)
    requires
        pattern@ == non_alnum_run_pattern(),
        replacement@ == seq!['-'],
    ensures
        replaced@ == hyphenated(text@),
{
    regex::Regex::new(pattern).unwrap().replace_all(text, replacement).into_owned()
}

/// Removes the hyphens at the start and at the end of `text`.
pub fn strip_hyphens(text: &str) -> (stripped: String)
    ensures
        stripped@ == trim_hyphens(text@),
{
    trim_matches(text, CharClass::Hyphen)
}

/// The slug of an already lowercased text.
pub fn slug_of_lowercase(lower: &str) -> (slug: String)
    ensures
        slug@ == slug_of(lower@),
{
    proof {
        reveal_strlit("-");
    }
    assert("-"@ =~= seq!['-']);
    let replaced = replace_all("[^a-zA-Z0-9]+", lower, "-");
    strip_hyphens(replaced.as_str())
}

/// The slug of `input`: lowercase, with every maximal run of characters
/// other than ASCII letters and digits replaced by one hyphen, and without
/// hyphens at its ends.
pub fn to_kebab_case(input: &str) -> (slug: String)
    ensures
        slug@ == kebab(input@),
{
    let lower = lowercase(input);
    slug_of_lowercase(lower.as_str())
}

/// The separator between the scheme of an address and the rest.
pub open spec fn scheme_separator() -> Seq<char> {
    seq![':', '/', '/']
}

/// The prefix that is taken off a host name.
pub open spec fn www_prefix() -> Seq<char> {
    seq!['w', 'w', 'w', '.']
}

/// The host of an address: what stands between the first `://` and the next
/// `/`, or the end where no `/` follows, without a leading `www.`. An address
/// without `://` has none.
pub open spec fn host_of(url: Seq<char>) -> Option<Seq<char>> {
    match first_occurrence(url, scheme_separator()) {
        None => None,
        Some(at) => {
            let rest = url.skip(at + 3);
            let host = match first_occurrence(rest, seq!['/']) {
                Some(end) => rest.take(end),
                None => rest,
            };
            if occurs_at(host, www_prefix(), 0) {
                Some(host.skip(4))
            } else {
                Some(host)
            }
        },
    }
}

/// The slug of the host of an address.
pub open spec fn domain_slug(url: Seq<char>) -> Option<Seq<char>> {
    match host_of(url) {
        Some(host) => Some(kebab(host)),
        None => None,
    }
}

/// The host of `url`, as a range of character positions.
fn host_range(chars: &Vec<char>) -> (range: Option<(usize, usize)>)
    ensures
        match range {
            Some((start, end)) => start <= end <= chars@.len() && host_of(chars@) == Some(
                chars@.subrange(start as int, end as int),
            ),
            None => host_of(chars@) is None,
        },
{
    let separator: Vec<char> = vec![':', '/', '/'];
    let slash: Vec<char> = vec!['/'];
    let www: Vec<char> = vec!['w', 'w', 'w', '.'];
    assert(separator@ =~= scheme_separator());
    assert(slash@ =~= seq!['/']);
    assert(www@ =~= www_prefix());
    match find_from(chars, &separator, 0) {
        None => None,
        Some(at) => {
            proof {
                lemma_first_occurrence(chars@, separator@, 0);
                assert(separator@.len() == 3);
                assert(at + 3 <= chars.len());
            }
            let begin: usize = at + 3;
            let ghost rest = chars@.skip(begin as int);
            let end: usize = match find_from(chars, &slash, begin) {
                Some(end) => end,
                None => chars.len(),
            };
            proof {
                lemma_first_occurrence(chars@, slash@, begin as int);
                lemma_occurrence_after_skip(chars@, slash@, begin as int, begin as int);
            }
            let ghost host = chars@.subrange(begin as int, end as int);
            assert(host =~= match first_occurrence(rest, seq!['/']) {
                Some(e) => rest.take(e),
                None => rest,
            });
            if end - begin >= 4 && matches_at(chars, &www, begin) {
                assert(occurs_at(host, www_prefix(), 0));
                assert(host.skip(4) =~= chars@.subrange(begin + 4, end as int));
                Some((begin + 4, end))
            } else {
                assert(!occurs_at(host, www_prefix(), 0));
                Some((begin, end))
            }
        },
    }
}

/// Searching the part of `s` that follows `skipped` characters finds what
/// searching `s` from there finds, counted from there.
pub proof fn lemma_occurrence_after_skip(s: Seq<char>, pattern: Seq<char>, skipped: int, from: int)
    requires
        0 <= skipped <= from,
        skipped <= s.len(),
    ensures
        first_occurrence_from(s.skip(skipped), pattern, from - skipped) == match first_occurrence_from(
            s,
            pattern,
            from,
        ) {
            Some(at) => Some(at - skipped),
            None => None,
        },
    decreases s.len() - from,
{
    let t = s.skip(skipped);
    if from + pattern.len() > s.len() {
    } else {
        assert(occurs_at(s, pattern, from) <==> occurs_at(t, pattern, from - skipped));
        if !occurs_at(s, pattern, from) {
            lemma_occurrence_after_skip(s, pattern, skipped, from + 1);
        }
    }
}

/// The slug of the host of `url`, where `url` has a scheme separator.
pub fn extract_domain_from_url(url: &str) -> (domain: Option<String>)
    ensures
        crate::model::text_of(domain) == domain_slug(url@),
{
    let chars = chars_of(url);
    match host_range(&chars) {
        Some((start, end)) => Some(to_kebab_case(url.substring_char(start, end))),
        None => None,
    }
}

/// The hash of an address: the standard library's default hasher, fed the
/// UTF-8 bytes of the address and the byte that ends a text.
pub open spec fn url_hash(url: Seq<char>) -> u64 {
    DefaultHasher::spec_finish(seq![encode_utf8(url), seq![0xffu8]])
}

/// The lowercase hexadecimal digit for a value below 16.
pub open spec fn hex_digit(n: int) -> char {
    if n == 0 {
        '0'
    } else if n == 1 {
        '1'
    } else if n == 2 {
        '2'
    } else if n == 3 {
        '3'
    } else if n == 4 {
        '4'
    } else if n == 5 {
        '5'
    } else if n == 6 {
        '6'
    } else if n == 7 {
        '7'
    } else if n == 8 {
        '8'
    } else if n == 9 {
        '9'
    } else if n == 10 {
        'a'
    } else if n == 11 {
        'b'
    } else if n == 12 {
        'c'
    } else if n == 13 {
        'd'
    } else if n == 14 {
        'e'
    } else {
        'f'
    }
}

/// The eight lowercase hexadecimal digits of a value below 2^32, the most
/// significant first.
pub open spec fn hex8(x: int) -> Seq<char> {
    seq![
        hex_digit(x / 0x1000_0000 % 16),
        hex_digit(x / 0x100_0000 % 16),
        hex_digit(x / 0x10_0000 % 16),
        hex_digit(x / 0x1_0000 % 16),
        hex_digit(x / 0x1000 % 16),
        hex_digit(x / 0x100 % 16),
        hex_digit(x / 0x10 % 16),
        hex_digit(x % 16),
    ]
}

/// The slug that stands for a source that has neither a usable title nor a
/// host.
pub open spec fn fallback_slug() -> Seq<char> {
    seq!['f', 'e', 'e', 'd']
}

/// The readable part of an archive name: the slug of the title, or, where
/// that has fewer than three characters, the slug of the address's host, or
/// `feed` where the address has no scheme separator.
pub open spec fn slug_base(url: Seq<char>, title: Seq<char>) -> Seq<char> {
    let from_title = kebab(title);
    if from_title.len() < 3 {
        match domain_slug(url) {
            Some(domain) => domain,
            None => fallback_slug(),
        }
    } else {
        from_title
    }
}

/// The archive name of a source: its readable slug, a hyphen, and the low 32
/// bits of the hash of its address in eight hexadecimal digits.
pub open spec fn archive_name(url: Seq<char>, title: Seq<char>) -> Seq<char> {
    slug_base(url, title) + seq!['-'] + hex8(url_hash(url) as int % 0x1_0000_0000)
}

/// The text of one hexadecimal digit.
fn hex_digit_text(n: u32) -> (text: &'static str)
    requires
        n < 16,
    ensures
        text@ == seq![hex_digit(n as int)],
{
    proof {
        reveal_strlit("0");
        reveal_strlit("1");
        reveal_strlit("2");
        reveal_strlit("3");
        reveal_strlit("4");
        reveal_strlit("5");
        reveal_strlit("6");
        reveal_strlit("7");
        reveal_strlit("8");
        reveal_strlit("9");
        reveal_strlit("a");
        reveal_strlit("b");
        reveal_strlit("c");
        reveal_strlit("d");
        reveal_strlit("e");
        reveal_strlit("f");
    }
    let text = match n {
        0 => "0",
        1 => "1",
        2 => "2",
        3 => "3",
        4 => "4",
        5 => "5",
        6 => "6",
        7 => "7",
        8 => "8",
        9 => "9",
        10 => "a",
        11 => "b",
        12 => "c",
        13 => "d",
        14 => "e",
        _ => "f",
    };
    assert(text@ =~= seq![hex_digit(n as int)]);
    text
}

/// Writes `x` in eight lowercase hexadecimal digits.
pub fn hex8_text(x: u32) -> (text: String)
    ensures
        text@ == hex8(x as int),
{
    let mut text = String::new();
    text.append(hex_digit_text(x / 0x1000_0000 % 16));
    text.append(hex_digit_text(x / 0x100_0000 % 16));
    text.append(hex_digit_text(x / 0x10_0000 % 16));
    text.append(hex_digit_text(x / 0x1_0000 % 16));
    text.append(hex_digit_text(x / 0x1000 % 16));
    text.append(hex_digit_text(x / 0x100 % 16));
    text.append(hex_digit_text(x / 0x10 % 16));
    text.append(hex_digit_text(x % 16));
    assert(text@ =~= hex8(x as int));
    text
}

/// The archive name of the source at `url` with the title `title`. It
/// depends on the two texts alone: the same source has the same name in
/// every run.
pub fn generate_unique_filename_for_feed(url: &str, title: &str) -> (name: String)
    ensures
        name@ == archive_name(url@, title@),
{
    let mut hasher = DefaultHasher::new();
    hasher.write(url.as_bytes());
    let terminator: Vec<u8> = vec![0xffu8];
    assert(terminator@ =~= seq![0xffu8]);
    hasher.write(terminator.as_slice());
    assert(hasher@ =~= seq![encode_utf8(url@), seq![0xffu8]]);
    let url_hash = hasher.finish();
    let base_title = to_kebab_case(title);
    let mut name = if base_title.as_str().unicode_len() < 3 {
        match extract_domain_from_url(url) {
            Some(domain) => domain,
            None => {
                proof {
                    reveal_strlit("feed");
                }
                let fallback = "feed".to_owned();
                assert(fallback@ =~= fallback_slug());
                fallback
            },
        }
    } else {
        base_title
    };
    proof {
        reveal_strlit("-");
    }
    name.append("-");
    assert("-"@ =~= seq!['-']);
    let low: u32 = (url_hash % 0x1_0000_0000) as u32;
    let digits = hex8_text(low);
    name.append(digits.as_str());
    name
}

/// Archive names are stable: equal addresses and titles give equal names.
pub proof fn lemma_archive_name_stable(
    url: Seq<char>,
    title: Seq<char>,
    other_url: Seq<char>,
    other_title: Seq<char>,
)
    requires
        url == other_url,
        title == other_title,
    ensures
        archive_name(url, title) == archive_name(other_url, other_title),
{
}

/// Whether `c` may stand in an archive name: an ASCII letter, a digit or a
/// hyphen.
pub open spec fn is_name_char(c: char) -> bool {
    is_ascii_alnum(c) || c == '-'
}

/// Whether `s` is made of characters that may stand in an archive name.
pub open spec fn all_name_chars(s: Seq<char>) -> bool {
    forall|i: int| 0 <= i < s.len() ==> is_name_char(#[trigger] s[i])
}

/// Replacing the runs of other characters leaves letters, digits and hyphens.
proof fn lemma_hyphenated_chars(s: Seq<char>)
    ensures
        all_name_chars(hyphenated(s)),
    decreases s.len(),
{
    if s.len() > 0 {
        lemma_hyphenated_chars(s.drop_last());
    }
}

/// Trimming keeps a part of the text, so it keeps what holds of every
/// character of it.
proof fn lemma_trimmed_chars(s: Seq<char>, class: CharClass)
    requires
        all_name_chars(s),
    ensures
        all_name_chars(trimmed(s, class)),
{
    lemma_without_leading_chars(s, class);
    lemma_without_trailing_chars(crate::text::without_leading(s, class), class);
}

proof fn lemma_without_leading_chars(s: Seq<char>, class: CharClass)
    requires
        all_name_chars(s),
    ensures
        all_name_chars(crate::text::without_leading(s, class)),
    decreases s.len(),
{
    if s.len() > 0 && class.holds(s.first()) {
        let rest = s.drop_first();
        assert forall|i: int| 0 <= i < rest.len() implies is_name_char(#[trigger] rest[i]) by {
            assert(rest[i] == s[i + 1]);
        }
        lemma_without_leading_chars(rest, class);
    }
}

proof fn lemma_without_trailing_chars(s: Seq<char>, class: CharClass)
    requires
        all_name_chars(s),
    ensures
        all_name_chars(crate::text::without_trailing(s, class)),
    decreases s.len(),
{
    if s.len() > 0 && class.holds(s.last()) {
        let rest = s.drop_last();
        assert forall|i: int| 0 <= i < rest.len() implies is_name_char(#[trigger] rest[i]) by {
            assert(rest[i] == s[i]);
        }
        lemma_without_trailing_chars(rest, class);
    }
}

/// A slug is made of ASCII letters, digits and hyphens.
pub proof fn lemma_kebab_chars(text: Seq<char>)
    ensures
        all_name_chars(kebab(text)),
{
    lemma_hyphenated_chars(lowercased(text));
    lemma_trimmed_chars(hyphenated(lowercased(text)), CharClass::Hyphen);
}

/// Archive names are safe as file names: they are made of ASCII letters,
/// digits and hyphens, and they end in a hyphen and eight hexadecimal digits.
pub proof fn lemma_archive_name_chars(url: Seq<char>, title: Seq<char>)
    ensures
        all_name_chars(archive_name(url, title)),
        archive_name(url, title).len() == slug_base(url, title).len() + 9,
        archive_name(url, title)[archive_name(url, title).len() - 9] == '-',
{
    let base = slug_base(url, title);
    lemma_kebab_chars(title);
    match host_of(url) {
        Some(host) => {
            lemma_kebab_chars(host);
        },
        None => {},
    }
    assert(all_name_chars(base));
    let digits = hex8(url_hash(url) as int % 0x1_0000_0000);
    assert(all_name_chars(digits)) by {
        assert forall|i: int| 0 <= i < digits.len() implies is_name_char(#[trigger] digits[i]) by {
            assert(forall|n: int| is_name_char(#[trigger] hex_digit(n)));
        }
    }
    let name = archive_name(url, title);
    assert forall|i: int| 0 <= i < name.len() implies is_name_char(#[trigger] name[i]) by {
        if i < base.len() {
            assert(name[i] == base[i]);
        } else if i == base.len() {
            assert(name[i] == '-');
        } else {
            assert(name[i] == digits[i - base.len() - 1]);
        }
    }
}

} // verus!
