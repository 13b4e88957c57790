//! The index of all sources: an OPML document with one outline per source,
//! which gives the source's title, the address of its archive and its own
//! address.

use crate::model::{source_views, FeedData, SourceView};
use crate::naming::{archive_name, generate_unique_filename_for_feed};
use crate::render::{archive_address, archive_url};
use crate::time::Timestamp;
use vstd::prelude::*;
use vstd::string::StringExecFns;

verus! {

/// The error of the standard library's writers.
#[verifier::external_type_specification]
#[verifier::external_body]
pub struct ExIoError(std::io::Error);

/// Why a document could not be written.
#[derive(Clone, Copy, Debug, PartialEq, Eq, Structural)]
pub enum RenderError {
    /// The XML writer reported a failure. A writer into memory reports none.
    WriteFailed,
}

/// What stands in a document for the character `c`. In an attribute value
/// the line feed and the tabulator are escaped too.
pub open spec fn escaped_char(c: char, in_attribute: bool) -> Seq<char> {
    if c == '<' {
        "&lt;"@
    } else if c == '>' {
        "&gt;"@
    } else if c == '&' {
        "&amp;"@
    } else if c == '\'' {
        "&apos;"@
    } else if c == '"' {
        "&quot;"@
    } else if c == '\r' {
        "&#13;"@
    } else if in_attribute && c == '\n' {
        "&#10;"@
    } else if in_attribute && c == '\t' {
        "&#9;"@
    } else {
        seq![c]
    }
}

/// `s` with every character that XML reserves replaced by its escape.
pub open spec fn escaped(s: Seq<char>, in_attribute: bool) -> Seq<char>
    decreases s.len(),
{
    if s.len() == 0 {
        Seq::empty()
    } else {
        escaped(s.drop_last(), in_attribute) + escaped_char(s.last(), in_attribute)
    }
}

/// One attribute as it stands in a tag: a space, the name, and the escaped
/// value in double quotes.
pub open spec fn attribute_text(name: Seq<char>, value: Seq<char>) -> Seq<char> {
    seq![' '] + name + seq!['=', '"'] + escaped(value, true) + seq!['"']
}

/// The attributes of a tag, in order.
pub open spec fn attributes_text(attributes: Seq<(Seq<char>, Seq<char>)>) -> Seq<char>
    decreases attributes.len(),
{
    if attributes.len() == 0 {
        Seq::empty()
    } else {
        attributes_text(attributes.drop_last()) + attribute_text(
            attributes.last().0,
            attributes.last().1,
        )
    }
}

/// The XML declaration.
pub open spec fn declaration(version: Seq<char>, encoding: Seq<char>) -> Seq<char> {
    "<?xml version=\""@ + version + "\" encoding=\""@ + encoding + "\"?>"@
}

/// An opening tag.
pub open spec fn start_tag(name: Seq<char>, attributes: Seq<(Seq<char>, Seq<char>)>) -> Seq<char> {
    seq!['<'] + name + attributes_text(attributes) + seq!['>']
}

/// A closing tag.
pub open spec fn end_tag(name: Seq<char>) -> Seq<char> {
    seq!['<', '/'] + name + seq!['>']
}

/// The tag of an element without content.
pub open spec fn empty_tag(name: Seq<char>, attributes: Seq<(Seq<char>, Seq<char>)>) -> Seq<char> {
    seq!['<'] + name + attributes_text(attributes) + seq!['/', '>']
}

/// An element that holds a text and has no attributes.
pub open spec fn text_element(name: Seq<char>, content: Seq<char>) -> Seq<char> {
    start_tag(name, Seq::empty()) + escaped(content, false) + end_tag(name)
}

/// The names and values of a list of attributes.
pub open spec fn attribute_views(attributes: Seq<(String, String)>) -> Seq<(Seq<char>, Seq<char>)> {
    attributes.map_values(|pair: (String, String)| (pair.0@, pair.1@))
}

/// Writes an `Event::Decl` made by `BytesDecl::new` with
/// `quick_xml::Writer::write_event` into an empty buffer and hands out what
/// was written. Trusted: the writer puts the declaration between `<?` and
/// `?>`, with the version and the encoding in double quotes. It succeeds:
/// the buffer is a `Vec<u8>`, to which every write appends, and what was
/// written is the UTF-8 of texts.
#[verifier::external_body]
fn xml_declaration(version: &str, encoding: &str) -> (written: Result<String, std::io::Error>)
    ensures
        written is Ok,
        written matches Ok(text) ==> text@ == declaration(version@, encoding@),
{
    let mut writer = quick_xml::Writer::new(Vec::new());
    let decl = quick_xml::events::BytesDecl::new(version, Some(encoding), None);
    writer.write_event(quick_xml::events::Event::Decl(decl))?;
    String::from_utf8(writer.into_inner()).map_err(std::io::Error::other)
}

/// Writes an `Event::Start` with `quick_xml::Writer::write_event`, the
/// attributes added by `BytesStart::push_attribute`. Trusted: the writer puts
/// the name and the attributes between `<` and `>`; each attribute is a
/// space, the name, and the value in double quotes, escaped as
/// `escaped(.., true)` says. It succeeds, as the declaration does.
#[verifier::external_body]
fn xml_start(name: &str, attributes: &Vec<(String, String)>) -> (written: Result<
    String,
    std::io::Error,
>)
    ensures
        written is Ok,
        written matches Ok(text) ==> text@ == start_tag(name@, attribute_views(attributes@)),
{
    let mut element = quick_xml::events::BytesStart::new(name);
    for (key, value) in attributes {
        element.push_attribute((key.as_str(), value.as_str()));
    }
    let mut writer = quick_xml::Writer::new(Vec::new());
    writer.write_event(quick_xml::events::Event::Start(element))?;
    String::from_utf8(writer.into_inner()).map_err(std::io::Error::other)
}

/// Writes an `Event::Empty` with `quick_xml::Writer::write_event`, the
/// attributes added by `BytesStart::push_attribute`. Trusted: as for an
/// opening tag, but the tag ends in `/>`.
#[verifier::external_body]
fn xml_empty(name: &str, attributes: &Vec<(String, String)>) -> (written: Result<
    String,
    std::io::Error,
>)
    ensures
        written is Ok,
        written matches Ok(text) ==> text@ == empty_tag(name@, attribute_views(attributes@)),
{
    let mut element = quick_xml::events::BytesStart::new(name);
    for (key, value) in attributes {
        element.push_attribute((key.as_str(), value.as_str()));
    }
    let mut writer = quick_xml::Writer::new(Vec::new());
    writer.write_event(quick_xml::events::Event::Empty(element))?;
    String::from_utf8(writer.into_inner()).map_err(std::io::Error::other)
}

/// Writes an `Event::End` with `quick_xml::Writer::write_event`. Trusted:
/// the writer puts the name between `</` and `>`. It succeeds, as the
/// declaration does.
#[verifier::external_body]
fn xml_end(name: &str) -> (written: Result<String, std::io::Error>)
    ensures
        written is Ok,
        written matches Ok(text) ==> text@ == end_tag(name@),
{
    let mut writer = quick_xml::Writer::new(Vec::new());
    let element = quick_xml::events::BytesEnd::new(name);
    writer.write_event(quick_xml::events::Event::End(element))?;
    String::from_utf8(writer.into_inner()).map_err(std::io::Error::other)
}

/// Writes an `Event::Text` made by `BytesText::new` with
/// `quick_xml::Writer::write_event`. Trusted: the writer puts the content,
/// escaped as `escaped(.., false)` says. It succeeds, as the declaration
/// does.
#[verifier::external_body]
fn xml_text(content: &str) -> (written: Result<String, std::io::Error>)
    ensures
        written is Ok,
        written matches Ok(text) ==> text@ == escaped(content@, false),
{
    let mut writer = quick_xml::Writer::new(Vec::new());
    let text = quick_xml::events::BytesText::new(content);
    writer.write_event(quick_xml::events::Event::Text(text))?;
    String::from_utf8(writer.into_inner()).map_err(std::io::Error::other)
}

/// The date of an instant in the form that the index uses: the day of the
/// week, the day, the month, the year, the time of day and `GMT`.
pub uninterp spec fn index_date_of(secs: int, nanos: int) -> Seq<char>;

/// The pattern of the dates in the index.
pub open spec fn index_date_pattern() -> Seq<char> {
    "%a, %d %b %Y %H:%M:%S GMT"@
}

/// Writes an instant with `chrono`: `DateTime::from_timestamp`, then
/// `DateTime::format` with `pattern`. Trusted, for the one pattern that
/// `requires` admits: the pattern is valid, and the text depends on the
/// instant alone, so it is `index_date_of` of its two parts. The instant has
/// to be one that `from_timestamp` accepts.
#[verifier::external_body]
fn format_instant(secs: i64, nanos: u32, pattern: &str) -> (text: String)
    requires
        (Timestamp { secs, nanos }).is_calendar_time(),
        pattern@ == index_date_pattern(),
    ensures
        text@ == index_date_of(secs as int, nanos as int),
{
    chrono::DateTime::from_timestamp(secs, nanos).unwrap().format(pattern).to_string()
}

/// The attributes of the outline of a source: its title as text and as
/// title, the type, the address of its archive, and its own address.
pub open spec fn outline_attributes(feed: SourceView, repo: Seq<char>) -> Seq<
    (Seq<char>, Seq<char>),
> {
    seq![
        ("text"@, feed.title),
        ("title"@, feed.title),
        ("type"@, "rss"@),
        ("xmlUrl"@, archive_url(repo, archive_name(feed.url, feed.title))),
        ("htmlUrl"@, feed.url),
    ]
}

/// The outline of a source.
pub open spec fn outline(feed: SourceView, repo: Seq<char>) -> Seq<char> {
    empty_tag("outline"@, outline_attributes(feed, repo))
}

/// The outlines of the sources, in order.
pub open spec fn outlines(feeds: Seq<SourceView>, repo: Seq<char>) -> Seq<char>
    decreases feeds.len(),
{
    if feeds.len() == 0 {
        Seq::empty()
    } else {
        outlines(feeds.drop_last(), repo) + outline(feeds.last(), repo)
    }
}

/// The head of the index: its title and the date, given as the date of
/// creation and as that of the last change.
pub open spec fn index_head(date: Seq<char>) -> Seq<char> {
    start_tag("head"@, Seq::empty()) + text_element("title"@, "RSS Feed Collection"@)
        + text_element("dateCreated"@, date) + text_element("dateModified"@, date) + end_tag(
        "head"@,
    )
}

/// The index document.
pub open spec fn index_document(feeds: Seq<SourceView>, repo: Seq<char>, date: Seq<char>) -> Seq<
    char,
> {
    declaration("1.0"@, "UTF-8"@) + start_tag("opml"@, seq![("version"@, "2.0"@)]) + index_head(
        date,
    ) + start_tag("body"@, Seq::empty()) + outlines(feeds, repo) + end_tag("body"@) + end_tag(
        "opml"@,
    )
}

/// Takes a piece from the writer, or the writer's failure as this library's
/// error.
fn piece(written: Result<String, std::io::Error>) -> (taken: Result<String, RenderError>)
    ensures
        match written {
            Ok(text) => taken == Ok::<String, RenderError>(text),
            Err(_) => taken == Err::<String, RenderError>(RenderError::WriteFailed),
        },
{
    match written {
        Ok(text) => Ok(text),
        Err(_) => Err(RenderError::WriteFailed),
    }
}

/// Writes an element that holds a text: its opening tag, the text and its
/// closing tag.
fn write_text_element(name: &str, content: &str) -> (written: Result<String, RenderError>)
    ensures
        written is Ok,
        written matches Ok(text) ==> text@ == text_element(name@, content@),
{
    let no_attributes: Vec<(String, String)> = Vec::new();
    assert(attribute_views(no_attributes@) =~= Seq::empty());
    let mut out = piece(xml_start(name, &no_attributes))?;
    let content = piece(xml_text(content))?;
    out.append(content.as_str());
    let end = piece(xml_end(name))?;
    out.append(end.as_str());
    Ok(out)
}

/// Writes the head of the index: the title of the index and the date, once
/// as the date of creation and once as that of the last change.
fn write_index_head(date: &str) -> (written: Result<String, RenderError>)
    ensures
        written is Ok,
        written matches Ok(text) ==> text@ == index_head(date@),
{
    let no_attributes: Vec<(String, String)> = Vec::new();
    assert(attribute_views(no_attributes@) =~= Seq::empty());
    let mut out = piece(xml_start("head", &no_attributes))?;
    let title = write_text_element("title", "RSS Feed Collection")?;
    out.append(title.as_str());
    let created = write_text_element("dateCreated", date)?;
    out.append(created.as_str());
    let modified = write_text_element("dateModified", date)?;
    out.append(modified.as_str());
    let end = piece(xml_end("head"))?;
    out.append(end.as_str());
    Ok(out)
}

/// Writes the outline of one source: an element without content whose
/// attributes give the source's title, the address of its archive and its
/// own address.
fn write_outline(feed: &FeedData, repo_name: &str) -> (written: Result<String, RenderError>)
    ensures
        written is Ok,
        written matches Ok(text) ==> text@ == outline(feed@, repo_name@),
{
    let name = generate_unique_filename_for_feed(feed.url.as_str(), feed.title.as_str());
    let archive = archive_address(repo_name, name.as_str());
    let attributes: Vec<(String, String)> = vec![
        ("text".to_owned(), feed.title.clone()),
        ("title".to_owned(), feed.title.clone()),
        ("type".to_owned(), "rss".to_owned()),
        ("xmlUrl".to_owned(), archive),
        ("htmlUrl".to_owned(), feed.url.clone()),
    ];
    assert(attribute_views(attributes@) =~= outline_attributes(feed@, repo_name@));
    piece(xml_empty("outline", &attributes))
}

/// The index of the sources as an OPML document, dated `now`. Each source
/// is listed under the archive name that `generate_unique_filename_for_feed`
/// gives it. The one date stands in the document as the date of creation
/// and as that of the last change. The index is always written.
pub fn build_opml_feed_list(feeds: &Vec<FeedData>, repo_name: &str, now: &Timestamp) -> (written:
    Result<String, RenderError>)
    requires
        now.is_calendar_time(),
    ensures
        written is Ok,
        written matches Ok(text) ==> text@ == index_document(
            source_views(feeds@),
            repo_name@,
            index_date_of(now.secs as int, now.nanos as int),
        ),
{
    let date = format_instant(now.secs, now.nanos, "%a, %d %b %Y %H:%M:%S GMT");
    write_index(feeds, repo_name, date.as_str())
}

/// The index of the sources as an OPML document that carries the date text
/// `date`: the declaration, the head, and in the body one outline per source,
/// in the order of the sources. The index is always written.
pub fn write_index(feeds: &Vec<FeedData>, repo_name: &str, date: &str) -> (written: Result<
    String,
    RenderError,
>)
    ensures
        written is Ok,
        written matches Ok(text) ==> text@ == index_document(
            source_views(feeds@),
            repo_name@,
            date@,
        ),
{
    let no_attributes: Vec<(String, String)> = Vec::new();
    assert(attribute_views(no_attributes@) =~= Seq::empty());
    let version: Vec<(String, String)> = vec![("version".to_owned(), "2.0".to_owned())];
    assert(attribute_views(version@) =~= seq![("version"@, "2.0"@)]);
    let mut out = piece(xml_declaration("1.0", "UTF-8"))?;
    let root = piece(xml_start("opml", &version))?;
    out.append(root.as_str());
    let head = write_index_head(date)?;
    out.append(head.as_str());
    let body = piece(xml_start("body", &no_attributes))?;
    out.append(body.as_str());
    let ghost before = out@;
    let mut i: usize = 0;
    assert(source_views(feeds@).take(0) =~= Seq::<SourceView>::empty());
    assert(out@ =~= before + outlines(source_views(feeds@).take(0), repo_name@));
    while i < feeds.len()
        invariant
            i <= feeds.len(),
            out@ == before + outlines(source_views(feeds@).take(i as int), repo_name@),
        decreases feeds.len() - i,
    {
        let entry = write_outline(&feeds[i], repo_name)?;
        out.append(entry.as_str());
        proof {
            let done = source_views(feeds@).take(i as int);
            let next = source_views(feeds@).take(i + 1);
            assert(next.drop_last() =~= done);
            assert(next.last() == feeds@[i as int]@);
            assert(out@ =~= before + outlines(next, repo_name@));
        }
        i += 1;
    }
    assert(source_views(feeds@).take(i as int) =~= source_views(feeds@));
    let body_end = piece(xml_end("body"))?;
    out.append(body_end.as_str());
    let root_end = piece(xml_end("opml"))?;
    out.append(root_end.as_str());
    Ok(out)
}

} // verus!
