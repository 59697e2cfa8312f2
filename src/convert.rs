use vstd::prelude::*;
use crate::error::RepubError;
use crate::package::{Item, Items};
use crate::text::push_char;
use crate::toc::{HeadingRecord, opt_view, vertical_link, clone_opt};

verus! {

/// A heading element found in a document: tag name, first text run, and the id
/// of the first identified anchor inside it.
pub struct RawHeading {
    pub tag: String,
    pub text: Option<String>,
    pub anchor: Option<String>,
}

/// A file of the working tree: its name inside its directory, and its text.
pub struct TreeFile {
    pub name: String,
    pub contents: String,
}

pub open spec fn raw_view(h: RawHeading) -> (Seq<char>, Option<Seq<char>>, Option<Seq<char>>) {
    (h.tag@, opt_view(h.text), opt_view(h.anchor))
}

pub open spec fn raw_views(v: Option<Vec<RawHeading>>) -> Option<
    Seq<(Seq<char>, Option<Seq<char>>, Option<Seq<char>>)>,
> {
    match v {
        Some(hs) => Some(hs@.map_values(|h: RawHeading| raw_view(h))),
        None => None,
    }
}

/// The HTML that comrak renders from Markdown `md`, with heading anchors
/// prefixed by `header_prefix` and soft breaks made hard when `hardbreaks`.
pub uninterp spec fn markdown_html(md: Seq<char>, header_prefix: Seq<char>, hardbreaks: bool) -> Seq<char>;

/// The elements of `html` that scraper selects with `heading_query`, each with
/// its tag name, first text run and the id of its first descendant matching
/// `anchor_query`; none when a query does not parse.
pub uninterp spec fn headings_in(
    html: Seq<char>,
    heading_query: Seq<char>,
    anchor_query: Seq<char>,
) -> Option<Seq<(Seq<char>, Option<Seq<char>>, Option<Seq<char>>)>>;

/// Relies on comrak's `markdown_to_html`, which renders Markdown to an HTML
/// fragment as a function of the text and the options alone.
#[verifier::external_body]
fn render_markdown(md: &str, header_prefix: &str, hardbreaks: bool) -> (r: String)
    ensures
        r@ == markdown_html(md@, header_prefix@, hardbreaks),
{
    let options = comrak::ComrakOptions {
        ext_header_ids: Some(header_prefix.to_string()),
        hardbreaks,
        ..comrak::ComrakOptions::default()
    };
    comrak::markdown_to_html(md, &options)
}

/// Relies on scraper's `Selector::parse`, `Html::parse_document` and
/// `select`: the elements a query selects in a parsed document, in document order.
#[verifier::external_body]
fn select_headings(html: &str, heading_query: &str, anchor_query: &str) -> (r: Option<Vec<RawHeading>>)
    ensures
        raw_views(r) == headings_in(html@, heading_query@, anchor_query@),
{
    let headings = scraper::Selector::parse(heading_query).ok()?;
    let anchors = scraper::Selector::parse(anchor_query).ok()?;
    let dom = scraper::Html::parse_document(html);
    let found = dom.select(&headings).map(|h| RawHeading {
        tag: h.value().name().to_string(),
        text: h.text().next().map(|t| t.to_string()),
        anchor: h.select(&anchors).next().and_then(|a| a.value().id()).map(|i| i.to_string()),
    });
    Some(found.collect())
}

pub open spec fn heading_query() -> Seq<char> {
    "h1,h2,h3,h4,h5"@
}

pub open spec fn anchor_query() -> Seq<char> {
    "a[id]"@
}

pub open spec fn header_prefix() -> Seq<char> {
    "header-"@
}

/// Title given to a heading whose text could not be read.
pub open spec fn missing_title() -> Seq<char> {
    "UNWRAP ERROR: HEADER TEXT"@
}

/// Level of a heading tag: 1 to 5 for `h1` to `h5`, 6 for any other tag.
pub open spec fn tag_level(tag: Seq<char>) -> u8 {
    if tag.len() == 2 && tag[0] == 'h' {
        if tag[1] == '1' {
            1
        } else if tag[1] == '2' {
            2
        } else if tag[1] == '3' {
            3
        } else if tag[1] == '4' {
            4
        } else if tag[1] == '5' {
            5
        } else {
            6
        }
    } else {
        6
    }
}

/// `r` is the record of heading `h` of the document named `filename`.
pub open spec fn is_record_of(
    r: HeadingRecord,
    h: (Seq<char>, Option<Seq<char>>, Option<Seq<char>>),
    filename: Seq<char>,
) -> bool {
    &&& r.filename@ == filename
    &&& opt_view(r.id) == h.2
    &&& r.title@ == match h.1 {
        Some(t) => t,
        None => missing_title(),
    }
    &&& r.level == tag_level(h.0)
}

pub open spec fn are_records_of(
    rs: Seq<HeadingRecord>,
    hs: Seq<(Seq<char>, Option<Seq<char>>, Option<Seq<char>>)>,
    filename: Seq<char>,
) -> bool {
    &&& rs.len() == hs.len()
    &&& forall|i: int| 0 <= i < rs.len() ==> is_record_of(#[trigger] rs[i], hs[i], filename)
}

/// Index of the last `.` in `s`, or -1.
pub open spec fn last_dot(s: Seq<char>) -> int
    decreases s.len(),
{
    if s.len() == 0 {
        -1
    } else if s.last() == '.' {
        s.len() - 1
    } else {
        last_dot(s.drop_last())
    }
}

/// File name without its extension; a name whose only dot leads it is kept whole.
pub open spec fn file_stem(s: Seq<char>) -> Seq<char> {
    if last_dot(s) <= 0 {
        s
    } else {
        s.take(last_dot(s))
    }
}

pub open spec fn underscored(s: Seq<char>) -> Seq<char> {
    s.map_values(|c: char| if c == ' ' { '_' } else { c })
}

/// Name a document is known by: its file stem, spaces made underscores.
pub open spec fn document_name(file_name: Seq<char>) -> Seq<char> {
    underscored(file_stem(file_name))
}

/// The XHTML document around a rendered body.
pub open spec fn document_xhtml(vertical: bool, title: Seq<char>, body: Seq<char>) -> Seq<char> {
    "<?xml version=\"1.0\" encoding=\"UTF-8\"?>\n<!DOCTYPE html>\n<html xmlns=\"http://www.w3.org/1999/xhtml\" xmlns:epub=\"http://www.idpf.org/2007/ops\">\n<head>\n<meta charset=\"UTF-8\" />\n<link type=\"text/css\" rel=\"stylesheet\" href=\"styles/custom.css\" />\n"@
        + (if vertical {
        vertical_link()
    } else {
        Seq::empty()
    }) + "\n<title>"@ + title + "</title>\n</head>\n<body>\n"@ + body + "\n</body>\n</html>\n"@
}

/// The level of a heading tag.
pub fn level_of_tag(tag: &str) -> (r: u8)
    ensures
        r == tag_level(tag@),
{
    let n = tag.unicode_len();
    if n != 2 || tag.get_char(0) != 'h' {
        return 6;
    }
    let c = tag.get_char(1);
    if c == '1' {
        1
    } else if c == '2' {
        2
    } else if c == '3' {
        3
    } else if c == '4' {
        4
    } else if c == '5' {
        5
    } else {
        6
    }
}

/// The heading records of the headings found in the document named `filename`.
pub fn records_from_headings(headings: &Vec<RawHeading>, filename: &str) -> (r: Vec<HeadingRecord>)
    ensures
        are_records_of(r@, headings@.map_values(|h: RawHeading| raw_view(h)), filename@),
{
    let mut r: Vec<HeadingRecord> = Vec::new();
    let mut i: usize = 0;
    while i < headings.len()
        invariant
            i <= headings@.len(),
            are_records_of(r@, headings@.map_values(|h: RawHeading| raw_view(h)).take(i as int), filename@),
        decreases headings@.len() - i,
    {
        let h = &headings[i];
        let title = match &h.text {
            Some(t) => t.clone(),
            None => String::from_str("UNWRAP ERROR: HEADER TEXT"),
        };
        let record = HeadingRecord {
            filename: String::from_str(filename),
            id: clone_opt(&h.anchor),
            title,
            level: level_of_tag(h.tag.as_str()),
        };
        r.push(record);
        i = i + 1;
        assert forall|j: int| 0 <= j < r@.len() implies is_record_of(
            #[trigger] r@[j],
            headings@.map_values(|h: RawHeading| raw_view(h)).take(i as int)[j],
            filename@,
        ) by {
            if j < i - 1 {
                assert(headings@.map_values(|h: RawHeading| raw_view(h)).take(i as int)[j]
                    == headings@.map_values(|h: RawHeading| raw_view(h)).take(i - 1)[j]);
            }
        }
    }
    assert(headings@.map_values(|h: RawHeading| raw_view(h)).take(i as int) =~= headings@.map_values(
        |h: RawHeading| raw_view(h),
    ));
    r
}

/// Extracts the `h1` to `h5` headings of an XHTML document, in document order.
pub fn toc_from_dom(html: &str, filename: &str) -> (r: Result<Vec<HeadingRecord>, RepubError>)
    ensures
        match headings_in(html@, heading_query(), anchor_query()) {
            None => r == Err::<Vec<HeadingRecord>, RepubError>(RepubError::MalformedHeadingQuery),
            Some(hs) => r is Ok && are_records_of(r->Ok_0@, hs, filename@),
        },
{
    match select_headings(html, "h1,h2,h3,h4,h5", "a[id]") {
        None => Err(RepubError::MalformedHeadingQuery),
        Some(headings) => Ok(records_from_headings(&headings, filename)),
    }
}

/// The name a document is known by inside the book.
pub fn document_name_of(file_name: &str) -> (r: String)
    ensures
        r@ == document_name(file_name@),
{
    let n = file_name.unicode_len();
    let mut last: usize = 0;
    let mut found = false;
    let mut i: usize = 0;
    while i < n
        invariant
            n == file_name@.len(),
            i <= n,
            found ==> last == last_dot(file_name@.take(i as int)) && last < i,
            !found ==> last_dot(file_name@.take(i as int)) == -1,
        decreases n - i,
    {
        assert(file_name@.take(i as int + 1).drop_last() =~= file_name@.take(i as int));
        assert(file_name@.take(i as int + 1).last() == file_name@[i as int]);
        if file_name.get_char(i) == '.' {
            last = i;
            found = true;
        }
        i = i + 1;
    }
    assert(file_name@.take(n as int) =~= file_name@);
    let end: usize = if !found || last == 0 {
        n
    } else {
        last
    };
    let ghost stem = file_stem(file_name@);
    assert(stem =~= file_name@.take(end as int));
    let mut r = String::new();
    let mut j: usize = 0;
    while j < end
        invariant
            end <= n,
            n == file_name@.len(),
            stem == file_name@.take(end as int),
            j <= end,
            r@ == underscored(stem.take(j as int)),
        decreases end - j,
    {
        let c = file_name.get_char(j);
        push_char(&mut r, if c == ' ' { '_' } else { c });
        j = j + 1;
        assert(r@ =~= underscored(stem.take(j as int)));
    }
    assert(stem.take(end as int) =~= stem);
    r
}

/// Converts one Markdown document: renders it, wraps it in the XHTML template,
/// records its headings and its manifest entry, and returns the file to write.
pub fn convert(
    file_name: &str,
    markdown: &str,
    items: &mut Items,
    toc_items: &mut Vec<HeadingRecord>,
    vertical: bool,
) -> (r: Result<TreeFile, RepubError>)
    ensures
        ({
            let xhtml = document_xhtml(
                vertical,
                file_name@,
                markdown_html(markdown@, header_prefix(), true),
            );
            let name = document_name(file_name@);
            let href = name + ".xhtml"@;
            match headings_in(xhtml, heading_query(), anchor_query()) {
                None => r == Err::<TreeFile, RepubError>(RepubError::MalformedHeadingQuery)
                    && final(items).items@ == old(items).items@ && final(toc_items)@ == old(toc_items)@,
                Some(hs) => r is Ok && r->Ok_0.name@ == href && r->Ok_0.contents@ == xhtml
                    && final(items).items@.len() == old(items).items@.len() + 1
                    && final(items).items@.drop_last() == old(items).items@
                    && final(items).items@.last().href@ == href
                    && final(items).items@.last().media_type@ == "application/xhtml+xml"@
                    && final(toc_items)@.len() >= old(toc_items)@.len()
                    && final(toc_items)@.take(old(toc_items)@.len() as int) == old(toc_items)@
                    && are_records_of(final(toc_items)@.skip(old(toc_items)@.len() as int), hs, name),
            }
        }),
{
    let body = render_markdown(markdown, "header-", true);
    let mut html = String::new();
    html.append("<?xml version=\"1.0\" encoding=\"UTF-8\"?>\n<!DOCTYPE html>\n<html xmlns=\"http://www.w3.org/1999/xhtml\" xmlns:epub=\"http://www.idpf.org/2007/ops\">\n<head>\n<meta charset=\"UTF-8\" />\n<link type=\"text/css\" rel=\"stylesheet\" href=\"styles/custom.css\" />\n");
    if vertical {
        html.append("<link type=\"text/css\" rel=\"stylesheet\" href=\"styles/vertical.css\" />");
    }
    html.append("\n<title>");
    html.append(file_name);
    html.append("</title>\n</head>\n<body>\n");
    html.append(body.as_str());
    html.append("\n</body>\n</html>\n");
    let name = document_name_of(file_name);
    let records = match toc_from_dom(html.as_str(), name.as_str()) {
        Ok(records) => records,
        Err(e) => {
            return Err(e);
        },
    };
    let mut records = records;
    let ghost added = records@;
    toc_items.append(&mut records);
    assert(toc_items@.take(old(toc_items)@.len() as int) =~= old(toc_items)@);
    assert(toc_items@.skip(old(toc_items)@.len() as int) =~= added);
    let mut href = name;
    href.append(".xhtml");
    let item = Item::new(href.clone());
    items.items.push(item);
    assert(items.items@.drop_last() =~= old(items).items@);
    Ok(TreeFile { name: href, contents: html })
}

} // verus!
