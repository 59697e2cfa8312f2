use vstd::prelude::*;
use rand::Rng;
use crate::archive::{WorkingTree, archive_plan, dir_entries, file_entry, tree_fits, zip_bytes};
use crate::convert::{
    TreeFile, anchor_query, are_records_of, convert, document_name, document_xhtml, header_prefix,
    heading_query, headings_in, markdown_html,
};
use crate::error::RepubError;
use crate::sources::{lex_lt, markdown_sources, markdown_sources_sorted};
use crate::package::{
    Item, Items, MetaData, Package, Timestamp, manifest_counts_documents_and_fixed_resources, manifest_ids,
    metadata_block, package_document, timestamp_text,
};
use crate::text::push_char;
use crate::toc::{HeadingRecord, ToC, build_forest, nav_document, opt_view};

verus! {

/// Parts of the working tree a build has laid out, by path.
pub struct TmpFiles {
    pub mimetype: Option<String>,
    pub meta_inf: Option<String>,
    pub oebps: Option<String>,
}

/// Settings of one book and the record of what its build laid out.
pub struct RepubBuilder {
    pub source_file: String,
    pub tmp_files: TmpFiles,
    pub style: Option<String>,
    pub title: String,
    pub creator: String,
    pub language: String,
    pub id: String,
    pub vertical: bool,
    pub toc_level: u8,
    pub save_tmp_files: bool,
}

/// A Markdown document to convert: its file name and its text.
pub struct SourceDocument {
    pub file_name: String,
    pub markdown: String,
}

/// A built book: the working tree and the archive packed from it.
pub struct Book {
    pub tree: WorkingTree,
    pub archive: Vec<u8>,
}

pub open spec fn is_alphanumeric(c: char) -> bool {
    ('a' <= c && c <= 'z') || ('A' <= c && c <= 'Z') || ('0' <= c && c <= '9')
}

/// Length of a generated book identifier.
pub const BOOK_ID_LEN: usize = 30;

/// Collapse level used when none, or an unusable one, is given.
pub const DEFAULT_TOC_LEVEL: u8 = 2;

/// Relies on rand's `Alphanumeric` distribution, drawn with `thread_rng`: one
/// character out of A-Z, a-z and 0-9.
#[verifier::external_body]
fn random_alphanumeric() -> (c: char)
    ensures
        is_alphanumeric(c),
{
    rand::thread_rng().sample(rand::distributions::Alphanumeric)
}

/// A fresh book identifier: thirty random letters and digits.
pub fn generate_book_id() -> (r: String)
    ensures
        r@.len() == BOOK_ID_LEN,
        forall|i: int| 0 <= i < r@.len() ==> is_alphanumeric(#[trigger] r@[i]),
{
    let mut r = String::new();
    let mut i: usize = 0;
    while i < BOOK_ID_LEN
        invariant
            i <= BOOK_ID_LEN,
            r@.len() == i,
            forall|k: int| 0 <= k < r@.len() ==> is_alphanumeric(#[trigger] r@[k]),
        decreases BOOK_ID_LEN - i,
    {
        let c = random_alphanumeric();
        push_char(&mut r, c);
        i = i + 1;
    }
    r
}

pub open spec fn mimetype_text() -> Seq<char> {
    "application/epub+zip"@
}

pub open spec fn container_xml() -> Seq<char> {
    "<?xml version=\"1.0\" encoding=\"UTF-8\"?>\n<container version=\"1.0\" xmlns=\"urn:oasis:names:tc:opendocument:xmlns:container\">\n<rootfiles>\n<rootfile full-path=\"OEBPS/package.opf\" media-type=\"application/oebps-package+xml\" />\n</rootfiles>\n</container>\n"@
}

pub open spec fn vertical_css() -> Seq<char> {
    "html {\n-epub-writing-mode: vertical-rl;\n-webkit-writing-mode: vertical-rl;\nwriting-mode: vertical-rl;\n}\n"@
}

/// Title of the navigation document.
pub open spec fn toc_title() -> Seq<char> {
    "目次"@
}

/// The XHTML a source becomes.
pub open spec fn source_xhtml(s: SourceDocument, vertical: bool) -> Seq<char> {
    document_xhtml(vertical, s.file_name@, markdown_html(s.markdown@, header_prefix(), true))
}

/// Path of the XHTML a source becomes, inside `OEBPS/`.
pub open spec fn source_href(s: SourceDocument) -> Seq<char> {
    document_name(s.file_name@) + ".xhtml"@
}

pub open spec fn source_headings(s: SourceDocument, vertical: bool) -> Option<
    Seq<(Seq<char>, Option<Seq<char>>, Option<Seq<char>>)>,
> {
    headings_in(source_xhtml(s, vertical), heading_query(), anchor_query())
}

/// Number of headings the sources hold, document after document.
pub open spec fn records_count(srcs: Seq<SourceDocument>, vertical: bool) -> nat
    decreases srcs.len(),
{
    if srcs.len() == 0 {
        0
    } else {
        records_count(srcs.drop_last(), vertical) + match source_headings(srcs.last(), vertical) {
            Some(hs) => hs.len(),
            None => 0,
        }
    }
}

/// `rs` are the heading records of the sources, document after document.
pub open spec fn doc_records(rs: Seq<HeadingRecord>, srcs: Seq<SourceDocument>, vertical: bool) -> bool
    decreases srcs.len(),
{
    if srcs.len() == 0 {
        rs.len() == 0
    } else {
        let k = records_count(srcs.drop_last(), vertical);
        &&& k <= rs.len()
        &&& doc_records(rs.take(k as int), srcs.drop_last(), vertical)
        &&& match source_headings(srcs.last(), vertical) {
            Some(hs) => are_records_of(rs.skip(k as int), hs, document_name(srcs.last().file_name@)),
            None => false,
        }
    }
}

proof fn lemma_doc_records_len(rs: Seq<HeadingRecord>, srcs: Seq<SourceDocument>, vertical: bool)
    requires
        doc_records(rs, srcs, vertical),
    ensures
        rs.len() == records_count(srcs, vertical),
    decreases srcs.len(),
{
    if srcs.len() > 0 {
        let k = records_count(srcs.drop_last(), vertical);
        lemma_doc_records_len(rs.take(k as int), srcs.drop_last(), vertical);
    }
}

/// `its` are the manifest items of the sources, in order.
pub open spec fn source_items(its: Seq<Item>, srcs: Seq<SourceDocument>) -> bool {
    &&& its.len() == srcs.len()
    &&& forall|i: int|
        0 <= i < its.len() ==> (#[trigger] its[i]).href@ == source_href(srcs[i])
            && its[i].media_type@ == "application/xhtml+xml"@
}

/// The working tree of a book whose every source converts.
pub open spec fn is_book_tree(
    t: WorkingTree,
    b: RepubBuilder,
    srcs: Seq<SourceDocument>,
    custom_css: Seq<char>,
    modified: Timestamp,
) -> bool {
    let n = srcs.len();
    &&& t.mimetype@ == mimetype_text()
    &&& t.meta_inf@.len() == 1
    &&& t.meta_inf@[0].name@ == "container.xml"@
    &&& t.meta_inf@[0].contents@ == container_xml()
    &&& t.styles@.len() == 2
    &&& t.styles@[0].name@ == "vertical.css"@
    &&& t.styles@[0].contents@ == vertical_css()
    &&& t.styles@[1].name@ == "custom.css"@
    &&& t.styles@[1].contents@ == custom_css
    &&& t.oebps@.len() == n + 2
    &&& forall|i: int|
        0 <= i < n ==> (#[trigger] t.oebps@[i]).name@ == source_href(srcs[i])
            && t.oebps@[i].contents@ == source_xhtml(srcs[i], b.vertical)
    &&& t.oebps@[n as int].name@ == "package.opf"@
    &&& exists|its: Seq<Item>|
        source_items(its, srcs) && t.oebps@[n as int].contents@ == #[trigger] package_document(
            metadata_block(b.title@, b.language@, b.creator@, b.id@, timestamp_text(modified)),
            its,
            b.vertical,
        )
    &&& t.oebps@[n + 1int].name@ == "navigation.xhtml"@
    &&& exists|rs: Seq<HeadingRecord>|
        doc_records(rs, srcs, b.vertical) && t.oebps@[n + 1int].contents@ == #[trigger] nav_document(
            build_forest(rs),
            b.toc_level as nat,
            b.vertical,
            toc_title(),
        )
}

pub open spec fn all_convert(srcs: Seq<SourceDocument>, vertical: bool) -> bool {
    forall|i: int| 0 <= i < srcs.len() ==> (#[trigger] source_headings(srcs[i], vertical)) is Some
}

pub open spec fn css_text(css: Option<String>) -> Seq<char> {
    match css {
        Some(c) => c@,
        None => Seq::empty(),
    }
}

fn text_file(name: &str, contents: String) -> (r: TreeFile)
    ensures
        r.name@ == name@,
        r.contents == contents,
{
    TreeFile { name: String::from_str(name), contents }
}

impl RepubBuilder {
    /// A builder for the book made of `source_file`, with a fresh identifier,
    /// empty title, creator and language, and the default collapse level.
    pub fn new(source_file: &str) -> (r: RepubBuilder)
        ensures
            r.source_file@ == source_file@,
            r.title@.len() == 0,
            r.creator@.len() == 0,
            r.language@.len() == 0,
            r.id@.len() == BOOK_ID_LEN,
            forall|i: int| 0 <= i < r.id@.len() ==> is_alphanumeric(#[trigger] r.id@[i]),
            r.style is None,
            !r.vertical,
            r.toc_level == DEFAULT_TOC_LEVEL,
            !r.save_tmp_files,
            r.tmp_files.mimetype is None && r.tmp_files.meta_inf is None && r.tmp_files.oebps is None,
    {
        RepubBuilder {
            source_file: String::from_str(source_file),
            tmp_files: TmpFiles { mimetype: None, meta_inf: None, oebps: None },
            style: None,
            title: String::new(),
            creator: String::new(),
            language: String::new(),
            id: generate_book_id(),
            vertical: false,
            toc_level: DEFAULT_TOC_LEVEL,
            save_tmp_files: false,
        }
    }

    pub fn titled(&mut self, title: &str) -> (r: &mut Self)
        ensures
            (*r).title@ == title@,
            *r == (RepubBuilder { title: (*r).title, ..*old(self) }),
            *final(self) == *final(r),
    {
        self.title = String::from_str(title);
        self
    }

    pub fn creator(&mut self, creator: &str) -> (r: &mut Self)
        ensures
            (*r).creator@ == creator@,
            *r == (RepubBuilder { creator: (*r).creator, ..*old(self) }),
            *final(self) == *final(r),
    {
        self.creator = String::from_str(creator);
        self
    }

    pub fn language(&mut self, language: &str) -> (r: &mut Self)
        ensures
            (*r).language@ == language@,
            *r == (RepubBuilder { language: (*r).language, ..*old(self) }),
            *final(self) == *final(r),
    {
        self.language = String::from_str(language);
        self
    }

    /// Sets the path of the stylesheet copied in as the custom stylesheet.
    pub fn style(&mut self, style: String) -> (r: &mut Self)
        ensures
            *r == (RepubBuilder { style: Some(style), ..*old(self) }),
            *final(self) == *final(r),
    {
        self.style = Some(style);
        self
    }

    pub fn book_id(&mut self, book_id: &str) -> (r: &mut Self)
        ensures
            (*r).id@ == book_id@,
            *r == (RepubBuilder { id: (*r).id, ..*old(self) }),
            *final(self) == *final(r),
    {
        self.id = String::from_str(book_id);
        self
    }

    pub fn vertical(&mut self, vertical: bool)
        ensures
            *final(self) == (RepubBuilder { vertical, ..*old(self) }),
    {
        self.vertical = vertical;
    }

    pub fn save_tmp_files(&mut self, save: bool)
        ensures
            *final(self) == (RepubBuilder { save_tmp_files: save, ..*old(self) }),
    {
        self.save_tmp_files = save;
    }

    /// Sets the collapse level of the table of contents from its command-line
    /// form, a level of 1 or more counted from 1; anything else leaves the
    /// default in place and returns `false`.
    pub fn toc_level(&mut self, arg: &str) -> (accepted: bool)
        ensures
            accepted <==> parsed_level(arg@) is Some,
            accepted ==> final(self).toc_level == parsed_level(arg@)->Some_0 - 1,
            !accepted ==> final(self).toc_level == DEFAULT_TOC_LEVEL,
            *final(self) == (RepubBuilder { toc_level: final(self).toc_level, ..*old(self) }),
    {
        match parse_level(arg) {
            Some(level) => {
                self.toc_level = level - 1;
                true
            },
            None => {
                self.toc_level = DEFAULT_TOC_LEVEL;
                false
            },
        }
    }

    /// Lays out the `mimetype` file.
    fn add_mimetype(&mut self, tree: &mut WorkingTree)
        ensures
            final(tree).mimetype@ == mimetype_text(),
            final(tree).meta_inf == old(tree).meta_inf,
            final(tree).oebps == old(tree).oebps,
            final(tree).styles == old(tree).styles,
            opt_view(final(self).tmp_files.mimetype) == Some("mimetype"@),
            *final(self) == (RepubBuilder {
                tmp_files: TmpFiles { mimetype: final(self).tmp_files.mimetype, ..old(self).tmp_files },
                ..*old(self)
            }),
    {
        tree.mimetype = String::from_str("application/epub+zip");
        self.tmp_files.mimetype = Some(String::from_str("mimetype"));
    }

    /// Lays out `META-INF/` with its container descriptor.
    fn add_meta_inf(&mut self, tree: &mut WorkingTree)
        ensures
            final(tree).meta_inf@.len() == 1,
            final(tree).meta_inf@[0].name@ == "container.xml"@,
            final(tree).meta_inf@[0].contents@ == container_xml(),
            final(tree).mimetype == old(tree).mimetype,
            final(tree).oebps == old(tree).oebps,
            final(tree).styles == old(tree).styles,
            opt_view(final(self).tmp_files.meta_inf) == Some("META-INF"@),
            *final(self) == (RepubBuilder {
                tmp_files: TmpFiles { meta_inf: final(self).tmp_files.meta_inf, ..old(self).tmp_files },
                ..*old(self)
            }),
    {
        let container = text_file("container.xml", String::from_str("<?xml version=\"1.0\" encoding=\"UTF-8\"?>\n<container version=\"1.0\" xmlns=\"urn:oasis:names:tc:opendocument:xmlns:container\">\n<rootfiles>\n<rootfile full-path=\"OEBPS/package.opf\" media-type=\"application/oebps-package+xml\" />\n</rootfiles>\n</container>\n"));
        tree.meta_inf = vec![container];
        self.tmp_files.meta_inf = Some(String::from_str("META-INF"));
    }

    /// Lays out `OEBPS/styles/` with the vertical-writing stylesheet and the
    /// custom stylesheet, empty unless one is given.
    fn add_oebps(&mut self, tree: &mut WorkingTree, custom_css: Option<String>)
        ensures
            final(tree).styles@.len() == 2,
            final(tree).styles@[0].name@ == "vertical.css"@,
            final(tree).styles@[0].contents@ == vertical_css(),
            final(tree).styles@[1].name@ == "custom.css"@,
            final(tree).styles@[1].contents@ == css_text(custom_css),
            final(tree).mimetype == old(tree).mimetype,
            final(tree).meta_inf == old(tree).meta_inf,
            final(tree).oebps == old(tree).oebps,
            opt_view(final(self).tmp_files.oebps) == Some("OEBPS"@),
            *final(self) == (RepubBuilder {
                tmp_files: TmpFiles { oebps: final(self).tmp_files.oebps, ..old(self).tmp_files },
                ..*old(self)
            }),
    {
        let vertical = text_file("vertical.css", String::from_str("html {\n-epub-writing-mode: vertical-rl;\n-webkit-writing-mode: vertical-rl;\nwriting-mode: vertical-rl;\n}\n"));
        let css = match custom_css {
            Some(c) => c,
            None => String::new(),
        };
        let custom = text_file("custom.css", css);
        tree.styles = vec![vertical, custom];
        self.tmp_files.oebps = Some(String::from_str("OEBPS"));
    }

    /// Paths of the working tree to remove once the build is over, whether it
    /// succeeded or not: none when intermediate files are kept, else those
    /// laid out, `mimetype` first.
    pub fn remove_tmp_files(&self) -> (r: Vec<String>)
        ensures
            self.save_tmp_files ==> r@.len() == 0,
            !self.save_tmp_files ==> r@ == tmp_paths(self.tmp_files),
            !self.save_tmp_files && laid_out(self.tmp_files) ==> r@.map_values(|p: String| p@) == seq![
                "mimetype"@,
                "META-INF"@,
                "OEBPS"@,
            ],
    {
        let mut r: Vec<String> = Vec::new();
        if self.save_tmp_files {
            return r;
        }
        match &self.tmp_files.mimetype {
            Some(p) => r.push(p.clone()),
            None => {},
        }
        match &self.tmp_files.meta_inf {
            Some(p) => r.push(p.clone()),
            None => {},
        }
        match &self.tmp_files.oebps {
            Some(p) => r.push(p.clone()),
            None => {},
        }
        assert(r@ =~= tmp_paths(self.tmp_files));
        assert(laid_out(self.tmp_files) ==> r@.map_values(|p: String| p@) =~= seq![
            "mimetype"@,
            "META-INF"@,
            "OEBPS"@,
        ]);
        r
    }

    /// Builds the working tree of the book from its sources, with `modified`
    /// as the time of last modification.
    pub fn build_core_at(
        &mut self,
        sources: &Vec<SourceDocument>,
        custom_css: Option<String>,
        modified: &Timestamp,
    ) -> (r: Result<WorkingTree, RepubError>)
        requires
            sources@.len() + 2 <= usize::MAX,
        ensures
            r is Ok <==> all_convert(sources@, old(self).vertical),
            r is Err ==> r == Err::<WorkingTree, RepubError>(RepubError::MalformedHeadingQuery),
            r is Ok ==> is_book_tree(r->Ok_0, *old(self), sources@, css_text(custom_css), *modified),
            laid_out(final(self).tmp_files),
            *final(self) == (RepubBuilder { tmp_files: final(self).tmp_files, ..*old(self) }),
    {
        let mut tree = WorkingTree {
            mimetype: String::new(),
            meta_inf: Vec::new(),
            oebps: Vec::new(),
            styles: Vec::new(),
        };
        self.add_mimetype(&mut tree);
        self.add_meta_inf(&mut tree);
        self.add_oebps(&mut tree, custom_css);
        let mut items = Items::new();
        let mut toc_items: Vec<HeadingRecord> = Vec::new();
        let ghost srcs = sources@;
        let vertical = self.vertical;
        let mut i: usize = 0;
        assert(srcs.take(0) =~= Seq::<SourceDocument>::empty());
        while i < sources.len()
            invariant
                srcs == sources@,
                vertical == self.vertical,
                vertical == old(self).vertical,
                i <= srcs.len(),
                srcs.len() + 2 <= usize::MAX,
                tree.oebps@.len() == i,
                tree.mimetype@ == mimetype_text(),
                tree.meta_inf@.len() == 1,
                tree.meta_inf@[0].name@ == "container.xml"@,
                tree.meta_inf@[0].contents@ == container_xml(),
                tree.styles@.len() == 2,
                tree.styles@[0].name@ == "vertical.css"@,
                tree.styles@[0].contents@ == vertical_css(),
                tree.styles@[1].name@ == "custom.css"@,
                tree.styles@[1].contents@ == css_text(custom_css),
                forall|j: int|
                    0 <= j < i ==> (#[trigger] tree.oebps@[j]).name@ == source_href(srcs[j])
                        && tree.oebps@[j].contents@ == source_xhtml(srcs[j], vertical),
                source_items(items.items@, srcs.take(i as int)),
                doc_records(toc_items@, srcs.take(i as int), vertical),
                all_convert(srcs.take(i as int), vertical),
                laid_out(self.tmp_files),
                *self == (RepubBuilder { tmp_files: self.tmp_files, ..*old(self) }),
            decreases srcs.len() - i,
        {
            let src = &sources[i];
            let ghost old_toc = toc_items@;
            let ghost old_items = items.items@;
            let converted = convert(
                src.file_name.as_str(),
                src.markdown.as_str(),
                &mut items,
                &mut toc_items,
                vertical,
            );
            let file = match converted {
                Ok(file) => file,
                Err(e) => {
                    assert(source_headings(srcs[i as int], vertical) is None);
                    assert(!all_convert(srcs, vertical));
                    return Err(e);
                },
            };
            tree.oebps.push(file);
            proof {
                let next = srcs.take(i as int + 1);
                assert(next.drop_last() =~= srcs.take(i as int));
                assert(next.last() == srcs[i as int]);
                assert(toc_items@.take(old_toc.len() as int) == old_toc);
                assert(doc_records(toc_items@.take(old_toc.len() as int), next.drop_last(), vertical));
                assert(source_headings(next.last(), vertical) is Some);
                assert(are_records_of(
                    toc_items@.skip(old_toc.len() as int),
                    source_headings(next.last(), vertical)->Some_0,
                    document_name(next.last().file_name@),
                ));
                let k = old_toc.len() as int;
                lemma_doc_records_len(old_toc, srcs.take(i as int), vertical);
                assert(0 <= k <= toc_items@.len());
                assert(doc_records(toc_items@, next, vertical));
            }
            proof {
                let next = srcs.take(i as int + 1);
                assert forall|j: int| 0 <= j < i + 1 implies (#[trigger] items.items@[j]).href@
                    == source_href(next[j]) && items.items@[j].media_type@ == "application/xhtml+xml"@ by {
                    if j < i {
                        assert(items.items@[j] == old_items[j]);
                        assert(old_items[j] == items.items@.drop_last()[j]);
                    }
                }
                assert forall|j: int| 0 <= j < i + 1 implies (#[trigger] source_headings(next[j], vertical)) is Some by {
                    if j < i {
                        assert(next[j] == srcs.take(i as int)[j]);
                    }
                }
            }
            i = i + 1;
        }
        assert(srcs.take(i as int) =~= srcs);
        let metadata = MetaData {
            title: self.title.clone(),
            creator: self.creator.clone(),
            language: self.language.clone(),
            id: self.id.clone(),
        };
        let package = Package { metadata, items };
        let ghost docs = tree.oebps@;
        let opf = package.to_opf_at(vertical, modified);
        tree.oebps.push(text_file("package.opf", opf));
        let toc = ToC::new(&toc_items);
        let nav = toc.to_nav(self.toc_level, vertical, Some(String::from_str("目次")));
        tree.oebps.push(text_file("navigation.xhtml", nav));
        assert(nav@ == nav_document(build_forest(toc_items@), self.toc_level as nat, vertical, toc_title()));
        assert(tree.oebps@ == docs.push(tree.oebps@[i as int]).push(tree.oebps@[i + 1]));
        assert forall|j: int| 0 <= j < i implies (#[trigger] tree.oebps@[j]).name@ == source_href(
            srcs[j],
        ) && tree.oebps@[j].contents@ == source_xhtml(srcs[j], vertical) by {
            assert(tree.oebps@[j] == docs[j]);
        }
        Ok(tree)
    }

    /// Builds the book from its sources: the working tree, modified now, and
    /// the archive packed from it.
    pub fn build(&mut self, sources: &Vec<SourceDocument>, custom_css: Option<String>) -> (r: Result<Book, RepubError>)
        requires
            sources@.len() + 2 <= usize::MAX,
        ensures
            r == Err::<Book, RepubError>(RepubError::MalformedHeadingQuery) <==> !all_convert(
                sources@,
                old(self).vertical,
            ),
            r is Ok ==> exists|t: Timestamp|
                t.wf() && is_book_tree(#[trigger] r->Ok_0.tree, *old(self), sources@, css_text(custom_css), t),
            r is Ok ==> r->Ok_0.archive@ == zip_bytes(archive_plan(r->Ok_0.tree)),
            r == Err::<Book, RepubError>(RepubError::ArchiveFailure) ==> exists|tree: WorkingTree, t: Timestamp|
                t.wf() && #[trigger] is_book_tree(tree, *old(self), sources@, css_text(custom_css), t)
                    && !tree_fits(tree),
            r is Err ==> r == Err::<Book, RepubError>(RepubError::MalformedHeadingQuery) || r
                == Err::<Book, RepubError>(RepubError::ArchiveFailure),
            laid_out(final(self).tmp_files),
            *final(self) == (RepubBuilder { tmp_files: final(self).tmp_files, ..*old(self) }),
    {
        let now = Timestamp::now();
        let tree = self.build_core_at(sources, custom_css, &now)?;
        let archive = match tree.pack() {
            Ok(bytes) => bytes,
            Err(e) => {
                return Err(e);
            },
        };
        let book = Book { tree, archive };
        Ok(book)
    }
}

impl Default for RepubBuilder {
    /// A builder with no source, a fresh identifier and default settings.
    fn default() -> (r: RepubBuilder)
        ensures
            r.source_file@.len() == 0,
            r.title@.len() == 0,
            r.creator@.len() == 0,
            r.language@.len() == 0,
            r.id@.len() == BOOK_ID_LEN,
            forall|i: int| 0 <= i < r.id@.len() ==> is_alphanumeric(#[trigger] r.id@[i]),
            r.style is None,
            !r.vertical,
            r.toc_level == DEFAULT_TOC_LEVEL,
            !r.save_tmp_files,
            r.tmp_files.mimetype is None && r.tmp_files.meta_inf is None && r.tmp_files.oebps is None,
    {
        proof {
            reveal_strlit("");
        }
        RepubBuilder::new("")
    }
}

/// The working tree has been laid out: `mimetype`, `META-INF` and `OEBPS`.
pub open spec fn laid_out(t: TmpFiles) -> bool {
    &&& opt_view(t.mimetype) == Some("mimetype"@)
    &&& opt_view(t.meta_inf) == Some("META-INF"@)
    &&& opt_view(t.oebps) == Some("OEBPS"@)
}

pub open spec fn tmp_paths(t: TmpFiles) -> Seq<String> {
    (match t.mimetype {
        Some(p) => seq![p],
        None => Seq::empty(),
    }) + (match t.meta_inf {
        Some(p) => seq![p],
        None => Seq::empty(),
    }) + (match t.oebps {
        Some(p) => seq![p],
        None => Seq::empty(),
    })
}

/// The digits of a level: the text without a leading `+`.
pub open spec fn level_digits(s: Seq<char>) -> Seq<char> {
    if s.len() > 0 && s[0] == '+' {
        s.skip(1)
    } else {
        s
    }
}

/// A level written as an unsigned decimal, from 1 to 255: an optional `+`,
/// then one or more digits, leading zeros allowed.
pub open spec fn parsed_level(s: Seq<char>) -> Option<u8> {
    let d = level_digits(s);
    if d.len() >= 1 && (forall|i: int| 0 <= i < d.len() ==> crate::text::is_digit_char(#[trigger] d[i]))
        && 1 <= digits_value(d) <= 255 {
        Some(digits_value(d) as u8)
    } else {
        None
    }
}

proof fn lemma_digits_value_grows(s: Seq<char>, k: int)
    requires
        0 <= k <= s.len(),
        forall|i: int| 0 <= i < s.len() ==> crate::text::is_digit_char(#[trigger] s[i]),
    ensures
        digits_value(s) >= digits_value(s.take(k)),
    decreases s.len(),
{
    if k < s.len() {
        assert(s.drop_last().take(k) =~= s.take(k));
        lemma_digits_value_grows(s.drop_last(), k);
    } else {
        assert(s.take(k) =~= s);
    }
}

/// The number written by a sequence of decimal digits.
pub open spec fn digits_value(s: Seq<char>) -> nat
    decreases s.len(),
{
    if s.len() == 0 {
        0
    } else {
        digits_value(s.drop_last()) * 10 + ((s.last() as u32) - ('0' as u32)) as nat
    }
}

/// Reads a collapse level written as an unsigned decimal, from 1 to 255.
pub fn parse_level(s: &str) -> (r: Option<u8>)
    ensures
        r == parsed_level(s@),
{
    let n = s.unicode_len();
    let start: usize = if n > 0 && s.get_char(0) == '+' {
        1
    } else {
        0
    };
    let ghost d = level_digits(s@);
    assert(d =~= s@.skip(start as int));
    if start >= n {
        return None;
    }
    let mut v: u32 = 0;
    let mut i: usize = start;
    while i < n
        invariant
            n == s@.len(),
            start <= i <= n,
            d == s@.skip(start as int),
            d == level_digits(s@),
            v == digits_value(d.take(i - start)),
            v <= 255,
            forall|k: int| 0 <= k < i - start ==> crate::text::is_digit_char(#[trigger] d[k]),
        decreases n - i,
    {
        let c = s.get_char(i);
        let ghost j = i - start;
        assert(d.take(j + 1).drop_last() =~= d.take(j));
        assert(d.take(j + 1).last() == c);
        assert(d[j] == c);
        if !('0' <= c && c <= '9') {
            assert(!crate::text::is_digit_char(d[j]));
            return None;
        }
        v = v * 10 + (c as u32 - '0' as u32);
        i = i + 1;
        assert(v == digits_value(d.take(j + 1)));
        if v > 255 {
            proof {
                if forall|k: int| 0 <= k < d.len() ==> crate::text::is_digit_char(#[trigger] d[k]) {
                    lemma_digits_value_grows(d, j + 1);
                }
            }
            return None;
        }
    }
    assert(d.take(n - start) =~= d);
    if 1 <= v {
        Some(v as u8)
    } else {
        None
    }
}

/// The archive of a built book holds its package description under
/// `OEBPS/package.opf`, and the manifest read back from it has one entry per
/// converted document plus the navigation document and the two stylesheets.
pub proof fn packed_manifest_counts_documents(
    t: WorkingTree,
    b: RepubBuilder,
    srcs: Seq<SourceDocument>,
    css: Seq<char>,
    modified: Timestamp,
)
    requires
        is_book_tree(t, b, srcs, css, modified),
    ensures
        archive_plan(t).len() > srcs.len() + 4,
        archive_plan(t)[srcs.len() + 4int].0 == "OEBPS/package.opf"@,
        exists|its: Seq<Item>|
            manifest_ids(its).len() == srcs.len() + 3 && archive_plan(t)[srcs.len() + 4int].3
                == vstd::utf8::encode_utf8(
                #[trigger] package_document(
                    metadata_block(b.title@, b.language@, b.creator@, b.id@, timestamp_text(modified)),
                    its,
                    b.vertical,
                ),
            ),
{
    reveal_strlit("OEBPS/");
    reveal_strlit("package.opf");
    reveal_strlit("OEBPS/package.opf");
    let n = srcs.len();
    let meta = dir_entries("META-INF/"@, t.meta_inf@);
    let oebps = dir_entries("OEBPS/"@, t.oebps@);
    assert(meta.len() == 2);
    assert(oebps[n + 1int] == file_entry("OEBPS/"@, t.oebps@[n as int]));
    assert(archive_plan(t)[n + 4int] == oebps[n + 1int]);
    assert(("OEBPS/"@ + "package.opf"@) =~= "OEBPS/package.opf"@);
    let its = choose|its: Seq<Item>|
        source_items(its, srcs) && t.oebps@[n as int].contents@ == #[trigger] package_document(
            metadata_block(b.title@, b.language@, b.creator@, b.id@, timestamp_text(modified)),
            its,
            b.vertical,
        );
    manifest_counts_documents_and_fixed_resources(its);
}

/// The documents of a directory enter the book in lexicographic order of
/// their file names: when the sources are the directory's Markdown files as
/// `select_sources` orders them, manifest item `i` (and so spine entry `i`) is
/// the `i`-th of them, and no later one sorts before an earlier one.
pub proof fn directory_documents_in_order(
    names: Seq<Seq<char>>,
    srcs: Seq<SourceDocument>,
    its: Seq<Item>,
)
    requires
        srcs.map_values(|s: SourceDocument| s.file_name@) == markdown_sources(names),
        source_items(its, srcs),
    ensures
        forall|i: int, j: int|
            0 <= i < j < srcs.len() ==> !lex_lt(
                (#[trigger] srcs[j]).file_name@,
                (#[trigger] srcs[i]).file_name@,
            ),
        forall|i: int| 0 <= i < its.len() ==> (#[trigger] its[i]).href@ == source_href(srcs[i]),
{
    markdown_sources_sorted(names);
    let fs = srcs.map_values(|s: SourceDocument| s.file_name@);
    assert forall|i: int, j: int| 0 <= i < j < srcs.len() implies !lex_lt(
        (#[trigger] srcs[j]).file_name@,
        (#[trigger] srcs[i]).file_name@,
    ) by {
        assert(fs[i] == srcs[i].file_name@);
        assert(fs[j] == srcs[j].file_name@);
    }
}

} // verus!
