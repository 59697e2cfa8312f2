use vstd::prelude::*;
use chrono::{Datelike, Timelike};
use crate::text::{push_char, decimal, padded_decimal, push_decimal, push_padded_decimal, lemma_decimal_injective, lemma_decimal_digits, lemma_padded_decimal_digits, is_digit_char};

verus! {

/// A content document of the book.
pub struct Item {
    /// Path of the document, relative to the package description.
    pub href: String,
    /// Media type of the document.
    pub media_type: String,
}

/// The content documents of the book, in reading order.
pub struct Items {
    pub items: Vec<Item>,
}

/// Identity of the book.
pub struct MetaData {
    pub title: String,
    pub creator: String,
    pub language: String,
    pub id: String,
}

/// A point in time, in UTC, as calendar fields.
#[derive(Clone, Copy)]
pub struct Timestamp {
    pub year: i32,
    pub month: u32,
    pub day: u32,
    pub hour: u32,
    pub minute: u32,
    pub second: u32,
}

/// The package description of a book: identity and content documents.
pub struct Package {
    pub metadata: MetaData,
    pub items: Items,
}

impl Timestamp {
    pub open spec fn wf(self) -> bool {
        &&& 1 <= self.month <= 12
        &&& 1 <= self.day <= 31
        &&& self.hour < 24
        &&& self.minute < 60
        &&& self.second < 60
    }
}

pub open spec fn abs_int(x: int) -> nat {
    if x < 0 {
        (-x) as nat
    } else {
        x as nat
    }
}

/// The year as a calendar writes it: four digits at least, with a sign outside
/// the years 0 to 9999.
pub open spec fn year_text(y: int) -> Seq<char> {
    if y < 0 {
        seq!['-'] + padded_decimal(abs_int(y), 4)
    } else if y > 9999 {
        seq!['+'] + decimal(y as nat)
    } else {
        padded_decimal(y as nat, 4)
    }
}

/// `YYYY-MM-DDThh:mm:ssZ`.
pub open spec fn timestamp_text(t: Timestamp) -> Seq<char> {
    year_text(t.year as int) + seq!['-'] + padded_decimal(t.month as nat, 2) + seq!['-']
        + padded_decimal(t.day as nat, 2) + seq!['T'] + padded_decimal(t.hour as nat, 2) + seq![':']
        + padded_decimal(t.minute as nat, 2) + seq![':'] + padded_decimal(t.second as nat, 2)
        + seq!['Z']
}

/// The metadata block of the package description.
pub open spec fn metadata_block(
    title: Seq<char>,
    language: Seq<char>,
    creator: Seq<char>,
    id: Seq<char>,
    modified: Seq<char>,
) -> Seq<char> {
    "<metadata xmlns:dc=\"http://purl.org/dc/elements/1.1/\">\n<dc:title>"@ + title
        + "</dc:title>\n<dc:language>"@ + language + "</dc:language>\n<dc:creator>"@ + creator
        + "</dc:creator>\n<dc:identifier id=\"BookId\">"@ + id
        + "</dc:identifier>\n<meta property=\"dcterms:modified\">"@ + modified
        + "</meta>\n</metadata>\n"@
}

/// Identifier of the content document at position `i`.
pub open spec fn item_id(i: nat) -> Seq<char> {
    "book_"@ + decimal(i)
}

/// A manifest entry: identifier, path, media type and extra attributes.
pub type ManifestEntry = (Seq<char>, Seq<char>, Seq<char>, Seq<char>);

/// One manifest line.
pub open spec fn manifest_line(e: ManifestEntry) -> Seq<char> {
    "<item id=\""@ + e.0 + "\" href=\""@ + e.1 + "\" media-type=\""@ + e.2 + "\""@ + e.3 + " />"@
}

/// The manifest entry of the content document at position `i`.
pub open spec fn item_entry(item: Item, i: nat) -> ManifestEntry {
    (item_id(i), item.href@, item.media_type@, Seq::empty())
}

/// The spine entry that refers to `id`.
pub open spec fn spine_line(id: Seq<char>) -> Seq<char> {
    "<itemref idref=\""@ + id + "\" />"@
}

/// The fixed resources: the navigation document and the two stylesheets.
pub open spec fn fixed_resources() -> Seq<ManifestEntry> {
    seq![
        ("navigation"@, "navigation.xhtml"@, "application/xhtml+xml"@, " properties=\"nav\""@),
        ("vertical"@, "styles/vertical.css"@, "text/css"@, ""@),
        ("custom"@, "styles/custom.css"@, "text/css"@, ""@),
    ]
}

/// Every manifest entry, in manifest order: the fixed resources, then the
/// content documents.
pub open spec fn manifest_entries(items: Seq<Item>) -> Seq<ManifestEntry> {
    fixed_resources() + Seq::new(items.len(), |i: int| item_entry(items[i], i as nat))
}

/// Identifiers of every manifest entry, in manifest order.
pub open spec fn manifest_ids(items: Seq<Item>) -> Seq<Seq<char>> {
    manifest_entries(items).map_values(|e: ManifestEntry| e.0)
}

/// Identifiers the spine refers to, in reading order.
pub open spec fn spine_refs(n: nat) -> Seq<Seq<char>> {
    seq!["navigation"@] + Seq::new(n, |i: int| item_id(i as nat))
}

/// Manifest lines, one per entry.
pub open spec fn manifest_lines(es: Seq<ManifestEntry>) -> Seq<char>
    decreases es.len(),
{
    if es.len() == 0 {
        Seq::empty()
    } else {
        manifest_lines(es.drop_last()) + manifest_line(es.last()) + "\n"@
    }
}

/// Spine lines, one per identifier referred to.
pub open spec fn spine_lines(refs: Seq<Seq<char>>) -> Seq<char>
    decreases refs.len(),
{
    if refs.len() == 0 {
        Seq::empty()
    } else {
        spine_lines(refs.drop_last()) + spine_line(refs.last()) + "\n"@
    }
}

/// The manifest block, written from `manifest_entries`.
pub open spec fn manifest_block(items: Seq<Item>) -> Seq<char> {
    "<manifest>\n"@ + manifest_lines(manifest_entries(items)) + "</manifest>\n"@
}

/// The spine block, written from `spine_refs`.
pub open spec fn spine_block(n: nat, vertical: bool) -> Seq<char> {
    (if vertical {
        "<spine page-progression-direction=\"rtl\">\n"@
    } else {
        "<spine>\n"@
    }) + spine_lines(spine_refs(n)) + "</spine>\n"@
}

pub open spec fn package_document(metadata: Seq<char>, items: Seq<Item>, vertical: bool) -> Seq<
    char,
> {
    "<?xml version=\"1.0\" encoding=\"UTF-8\"?>\n<package xmlns=\"http://www.idpf.org/2007/opf\" version=\"3.0\" unique-identifier=\"BookId\">\n"@
        + metadata + manifest_block(items) + spine_block(items.len(), vertical) + "</package>\n"@
}

proof fn lemma_lines_take<A>(s: Seq<A>, i: int)
    requires
        0 <= i < s.len(),
    ensures
        s.take(i + 1).drop_last() == s.take(i),
        s.take(i + 1).last() == s[i],
{
    assert(s.take(i + 1).drop_last() =~= s.take(i));
}

/// Appends one manifest line and a line break.
fn push_manifest_line(r: &mut String, id: &str, href: &str, media_type: &str, extra: &str)
    ensures
        final(r)@ == old(r)@ + manifest_line((id@, href@, media_type@, extra@)) + "\n"@,
{
    r.append("<item id=\"");
    r.append(id);
    r.append("\" href=\"");
    r.append(href);
    r.append("\" media-type=\"");
    r.append(media_type);
    r.append("\"");
    r.append(extra);
    r.append(" />");
    r.append("\n");
    assert(r@ =~= old(r)@ + manifest_line((id@, href@, media_type@, extra@)) + "\n"@);
}

pub open spec fn default_media_type() -> Seq<char> {
    "application/xhtml+xml"@
}

impl Item {
    /// A content document with the XHTML media type.
    pub fn new(href: String) -> (r: Item)
        ensures
            r.href@ == href@,
            r.media_type@ == default_media_type(),
    {
        Item { href, media_type: String::from_str("application/xhtml+xml") }
    }

    /// The manifest entry of this document at position `id`.
    pub fn to_manifest(&self, id: usize) -> (r: String)
        ensures
            r@ == manifest_line(item_entry(*self, id as nat)),
    {
        let mut r = String::new();
        r.append("<item id=\"");
        r.append("book_");
        push_decimal(&mut r, id as u64);
        r.append("\" href=\"");
        r.append(self.href.as_str());
        r.append("\" media-type=\"");
        r.append(self.media_type.as_str());
        r.append("\"");
        r.append(" />");
        assert(r@ =~= manifest_line(item_entry(*self, id as nat)));
        r
    }

    /// The spine entry of the document at position `id`.
    pub fn to_spine(&self, id: usize) -> (r: String)
        ensures
            r@ == spine_line(item_id(id as nat)),
    {
        let mut r = String::new();
        r.append("<itemref idref=\"");
        r.append("book_");
        push_decimal(&mut r, id as u64);
        r.append("\" />");
        r
    }
}

impl Items {
    pub fn new() -> (r: Items)
        ensures
            r.items@.len() == 0,
    {
        Items { items: Vec::new() }
    }

    /// The manifest block: the fixed resources, then one entry per document.
    pub fn to_manifest(&self) -> (r: String)
        ensures
            r@ == manifest_block(self.items@),
    {
        let ghost es = manifest_entries(self.items@);
        let mut r = String::new();
        r.append("<manifest>\n");
        let ghost start = r@;
        push_manifest_line(&mut r, "navigation", "navigation.xhtml", "application/xhtml+xml", " properties=\"nav\"");
        push_manifest_line(&mut r, "vertical", "styles/vertical.css", "text/css", "");
        push_manifest_line(&mut r, "custom", "styles/custom.css", "text/css", "");
        proof {
            let f = fixed_resources();
            assert(es[0] == f[0] && es[1] == f[1] && es[2] == f[2]);
            assert(es.take(0) =~= Seq::<ManifestEntry>::empty());
            lemma_lines_take(es, 0);
            lemma_lines_take(es, 1);
            lemma_lines_take(es, 2);
            assert(manifest_lines(es.take(1)) == manifest_lines(es.take(0)) + manifest_line(es[0]) + "\n"@);
            assert(manifest_lines(es.take(2)) == manifest_lines(es.take(1)) + manifest_line(es[1]) + "\n"@);
            assert(manifest_lines(es.take(3)) == manifest_lines(es.take(2)) + manifest_line(es[2]) + "\n"@);
            assert(r@ =~= start + manifest_lines(es.take(3)));
        }
        let mut i: usize = 0;
        while i < self.items.len()
            invariant
                i <= self.items@.len(),
                es == manifest_entries(self.items@),
                r@ == start + manifest_lines(es.take(3 + i)),
                start == "<manifest>\n"@,
            decreases self.items@.len() - i,
        {
            let line = self.items[i].to_manifest(i);
            r.append(line.as_str());
            r.append("\n");
            proof {
                lemma_lines_take(es, 3 + i);
                assert(es[3 + i] == item_entry(self.items@[i as int], i as nat));
            }
            i = i + 1;
            assert(r@ =~= start + manifest_lines(es.take(3 + i)));
        }
        assert(es.take(3 + i) =~= es);
        r.append("</manifest>\n");
        r
    }

    /// The spine block: the navigation document, then the documents in manifest
    /// order; right-to-left page progression when `vertical`.
    pub fn to_spine(&self, vertical: bool) -> (r: String)
        ensures
            r@ == spine_block(self.items@.len(), vertical),
    {
        let ghost refs = spine_refs(self.items@.len());
        let mut items = String::new();
        items.append("<itemref idref=\"");
        items.append("navigation");
        items.append("\" />");
        items.append("\n");
        proof {
            assert(refs.take(0) =~= Seq::<Seq<char>>::empty());
            lemma_lines_take(refs, 0);
            assert(refs[0] == "navigation"@);
            assert(spine_lines(refs.take(1)) == spine_lines(refs.take(0)) + spine_line(refs[0]) + "\n"@);
            assert(items@ =~= spine_lines(refs.take(1)));
        }
        let mut i: usize = 0;
        while i < self.items.len()
            invariant
                i <= self.items@.len(),
                refs == spine_refs(self.items@.len()),
                items@ == spine_lines(refs.take(1 + i)),
            decreases self.items@.len() - i,
        {
            let line = self.items[i].to_spine(i);
            items.append(line.as_str());
            items.append("\n");
            proof {
                lemma_lines_take(refs, 1 + i);
                assert(refs[1 + i] == item_id(i as nat));
            }
            i = i + 1;
            assert(items@ =~= spine_lines(refs.take(1 + i)));
        }
        assert(refs.take(1 + i) =~= refs);
        let mut r = String::new();
        if vertical {
            r.append("<spine page-progression-direction=\"rtl\">\n");
        } else {
            r.append("<spine>\n");
        }
        r.append(items.as_str());
        r.append("</spine>\n");
        r
    }
}

/// Relies on chrono's `Utc::now` with its `Datelike` and `Timelike` accessors:
/// the current UTC time, month 1 to 12, day 1 to 31, hour 0 to 23, minute and
/// second 0 to 59.
#[verifier::external_body]
fn utc_now() -> (t: Timestamp)
    ensures
        t.wf(),
{
    let now = chrono::Utc::now();
    Timestamp {
        year: now.year(),
        month: now.month(),
        day: now.day(),
        hour: now.hour(),
        minute: now.minute(),
        second: now.second(),
    }
}

impl Timestamp {
    /// The current time.
    pub fn now() -> (t: Timestamp)
        ensures
            t.wf(),
    {
        utc_now()
    }

    /// The time as `YYYY-MM-DDThh:mm:ssZ`, seconds precision, UTC.
    pub fn to_text(&self) -> (r: String)
        ensures
            r@ == timestamp_text(*self),
    {
        let mut r = String::new();
        if self.year < 0 {
            push_char(&mut r, '-');
            let y: i64 = self.year as i64;
            push_padded_decimal(&mut r, (-y) as u64, 4);
        } else if self.year > 9999 {
            push_char(&mut r, '+');
            push_decimal(&mut r, self.year as u64);
        } else {
            push_padded_decimal(&mut r, self.year as u64, 4);
        }
        push_char(&mut r, '-');
        push_padded_decimal(&mut r, self.month as u64, 2);
        push_char(&mut r, '-');
        push_padded_decimal(&mut r, self.day as u64, 2);
        push_char(&mut r, 'T');
        push_padded_decimal(&mut r, self.hour as u64, 2);
        push_char(&mut r, ':');
        push_padded_decimal(&mut r, self.minute as u64, 2);
        push_char(&mut r, ':');
        push_padded_decimal(&mut r, self.second as u64, 2);
        push_char(&mut r, 'Z');
        assert(r@ =~= timestamp_text(*self));
        r
    }
}

impl MetaData {
    /// The metadata block, with `modified` as the time of last modification.
    pub fn to_xml_at(&self, modified: &Timestamp) -> (r: String)
        ensures
            r@ == metadata_block(
                self.title@,
                self.language@,
                self.creator@,
                self.id@,
                timestamp_text(*modified),
            ),
    {
        let stamp = modified.to_text();
        let mut r = String::new();
        r.append("<metadata xmlns:dc=\"http://purl.org/dc/elements/1.1/\">\n<dc:title>");
        r.append(self.title.as_str());
        r.append("</dc:title>\n<dc:language>");
        r.append(self.language.as_str());
        r.append("</dc:language>\n<dc:creator>");
        r.append(self.creator.as_str());
        r.append("</dc:creator>\n<dc:identifier id=\"BookId\">");
        r.append(self.id.as_str());
        r.append("</dc:identifier>\n<meta property=\"dcterms:modified\">");
        r.append(stamp.as_str());
        r.append("</meta>\n</metadata>\n");
        r
    }

    /// The metadata block, modified now.
    pub fn to_xml(&self) -> (r: String)
        ensures
            exists|t: Timestamp|
                t.wf() && r@ == metadata_block(
                    self.title@,
                    self.language@,
                    self.creator@,
                    self.id@,
                    timestamp_text(t),
                ),
    {
        let now = Timestamp::now();
        self.to_xml_at(&now)
    }
}

impl Package {
    /// The package description, modified at `modified`.
    pub fn to_opf_at(&self, vertical: bool, modified: &Timestamp) -> (r: String)
        ensures
            r@ == package_document(
                metadata_block(
                    self.metadata.title@,
                    self.metadata.language@,
                    self.metadata.creator@,
                    self.metadata.id@,
                    timestamp_text(*modified),
                ),
                self.items.items@,
                vertical,
            ),
    {
        let metadata = self.metadata.to_xml_at(modified);
        let manifest = self.items.to_manifest();
        let spine = self.items.to_spine(vertical);
        let mut r = String::new();
        r.append("<?xml version=\"1.0\" encoding=\"UTF-8\"?>\n<package xmlns=\"http://www.idpf.org/2007/opf\" version=\"3.0\" unique-identifier=\"BookId\">\n");
        r.append(metadata.as_str());
        r.append(manifest.as_str());
        r.append(spine.as_str());
        r.append("</package>\n");
        r
    }

    /// The package description, modified now.
    pub fn to_opf(&self, vertical: bool) -> (r: String)
        ensures
            exists|t: Timestamp|
                t.wf() && r@ == package_document(
                    metadata_block(
                        self.metadata.title@,
                        self.metadata.language@,
                        self.metadata.creator@,
                        self.metadata.id@,
                        timestamp_text(t),
                    ),
                    self.items.items@,
                    vertical,
                ),
    {
        let now = Timestamp::now();
        self.to_opf_at(vertical, &now)
    }
}

/// Position in the manifest of the entry that the `k`-th spine reference names.
pub open spec fn manifest_position(k: int) -> int {
    if k == 0 {
        0
    } else {
        k + 2
    }
}

proof fn lemma_item_id_injective(a: nat, b: nat)
    requires
        item_id(a) == item_id(b),
    ensures
        a == b,
{
    reveal_strlit("book_");
    assert(item_id(a).subrange(5, item_id(a).len() as int) =~= decimal(a));
    assert(item_id(b).subrange(5, item_id(b).len() as int) =~= decimal(b));
    lemma_decimal_injective(a, b);
}

proof fn lemma_fixed_ids_differ(i: nat)
    ensures
        item_id(i) != "navigation"@,
        item_id(i) != "vertical"@,
        item_id(i) != "custom"@,
{
    reveal_strlit("book_");
    reveal_strlit("navigation");
    reveal_strlit("vertical");
    reveal_strlit("custom");
    assert(item_id(i)[0] == 'b');
}

/// The spine lists the navigation document and then every content document in
/// manifest order (`spine_block` is written from `spine_refs`, `manifest_block`
/// from the entries whose identifiers are `manifest_ids`), and each identifier it refers to names a manifest entry;
/// manifest identifiers are pairwise distinct, so that entry is the only one.
pub proof fn spine_follows_manifest(items: Seq<Item>)
    ensures
        spine_refs(items.len()).len() == items.len() + 1,
        forall|i: nat|
            i < items.len() ==> spine_refs(items.len())[i + 1int] == #[trigger] item_id(i)
                && manifest_ids(items)[i + 3int] == item_id(i),
        forall|k: int|
            0 <= k < spine_refs(items.len()).len() ==> 0 <= manifest_position(k) < manifest_ids(
                items,
            ).len() && manifest_ids(items)[manifest_position(k)] == #[trigger] spine_refs(
                items.len(),
            )[k],
        forall|j1: int, j2: int|
            0 <= j1 < manifest_ids(items).len() && 0 <= j2 < manifest_ids(items).len() && j1 != j2
                ==> #[trigger] manifest_ids(items)[j1] != #[trigger] manifest_ids(items)[j2],
{
    let n = items.len();
    let ids = manifest_ids(items);
    let refs = spine_refs(n);
    reveal_strlit("navigation");
    reveal_strlit("vertical");
    reveal_strlit("custom");
    assert(ids.len() == n + 3);
    assert forall|i: nat| i < n implies refs[i + 1int] == #[trigger] item_id(i) && ids[i + 3int]
        == item_id(i) by {
        assert(refs[i + 1int] == item_id(i));
        assert(ids[i + 3int] == item_id(i));
    }
    assert forall|k: int| 0 <= k < refs.len() implies 0 <= manifest_position(k) < ids.len()
        && ids[manifest_position(k)] == #[trigger] refs[k] by {
        if k == 0 {
            assert(ids[0] == "navigation"@);
            assert(refs[0] == "navigation"@);
            assert(ids[0] == refs[0]);
        } else {
            assert(refs[k] == item_id((k - 1) as nat));
            assert(ids[k + 2] == item_id((k - 1) as nat));
            assert(ids[k + 2] == refs[k]);
        }
    }
    assert forall|j1: int, j2: int|
        0 <= j1 < ids.len() && 0 <= j2 < ids.len() && j1 != j2 implies #[trigger] ids[j1]
            != #[trigger] ids[j2] by {
        assert(ids[0] == "navigation"@);
        assert(ids[1] == "vertical"@);
        assert(ids[2] == "custom"@);
        assert("navigation"@ != "vertical"@ && "navigation"@ != "custom"@ && "vertical"@ != "custom"@) by {
            assert("navigation"@[0] != "vertical"@[0]);
            assert("navigation"@[0] != "custom"@[0]);
            assert("vertical"@[0] != "custom"@[0]);
        }
        if j1 >= 3 {
            lemma_fixed_ids_differ((j1 - 3) as nat);
            assert(ids[j1] == item_id((j1 - 3) as nat));
        }
        if j2 >= 3 {
            lemma_fixed_ids_differ((j2 - 3) as nat);
            assert(ids[j2] == item_id((j2 - 3) as nat));
        }
        if j1 >= 3 && j2 >= 3 && ids[j1] == ids[j2] {
            lemma_item_id_injective((j1 - 3) as nat, (j2 - 3) as nat);
        }
    }
}

/// The manifest holds one entry per content document plus one for each fixed
/// resource: the navigation document and the two stylesheets.
pub proof fn manifest_counts_documents_and_fixed_resources(items: Seq<Item>)
    ensures
        manifest_ids(items).len() == items.len() + fixed_resources().len(),
        fixed_resources().len() == 3,
{
}

/// A modification time is written with digits and `-`, `+`, `T`, `:`, `Z`
/// alone: never a quote character.
pub proof fn timestamp_has_no_quotes(t: Timestamp)
    ensures
        !timestamp_text(t).contains('"'),
{
    let y = t.year as int;
    lemma_padded_decimal_digits(abs_int(y), 4);
    lemma_decimal_digits(y as nat);
    lemma_padded_decimal_digits(y as nat, 4);
    lemma_padded_decimal_digits(t.month as nat, 2);
    lemma_padded_decimal_digits(t.day as nat, 2);
    lemma_padded_decimal_digits(t.hour as nat, 2);
    lemma_padded_decimal_digits(t.minute as nat, 2);
    lemma_padded_decimal_digits(t.second as nat, 2);
    let s = timestamp_text(t);
    assert forall|i: int| 0 <= i < s.len() implies s[i] != '"' by {
        let yt = year_text(y);
        assert(forall|k: int| 0 <= k < yt.len() ==> yt[k] != '"') by {
            if y < 0 {
                assert forall|k: int| 0 <= k < yt.len() implies yt[k] != '"' by {
                    if k > 0 {
                        assert(yt[k] == padded_decimal(abs_int(y), 4)[k - 1]);
                    }
                }
            } else if y > 9999 {
                assert forall|k: int| 0 <= k < yt.len() implies yt[k] != '"' by {
                    if k > 0 {
                        assert(yt[k] == decimal(y as nat)[k - 1]);
                    }
                }
            }
        }
    }
}

} // verus!
