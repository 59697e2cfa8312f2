use std::io::Read;

use repub::archive::WorkingTree;
use repub::builder::{generate_book_id, parse_level, RepubBuilder, SourceDocument};
use repub::convert::{convert, document_name_of, level_of_tag, toc_from_dom, TreeFile};
use repub::error::RepubError;
use repub::package::{Item, Items, MetaData, Package, Timestamp};
use repub::sources::{check_source_file, is_markdown_file, lex_less, select_sources};
use repub::toc::{HeadingRecord, ToC};

fn source(name: &str, text: &str) -> SourceDocument {
    SourceDocument { file_name: name.to_string(), markdown: text.to_string() }
}

fn builder(title: &str) -> RepubBuilder {
    let mut b = RepubBuilder::new("book");
    b.titled(title);
    b.creator("Alice");
    b.language("en");
    b
}

fn record(level: u8, title: &str) -> HeadingRecord {
    HeadingRecord { filename: "doc".to_string(), id: None, title: title.to_string(), level }
}

fn nesting_depth(nav: &str) -> usize {
    let mut depth = 0usize;
    let mut max = 0usize;
    let mut rest = nav;
    while let Some(pos) = rest.find('<') {
        rest = &rest[pos..];
        if rest.starts_with("<li>") {
            depth += 1;
            if depth > max {
                max = depth;
            }
        } else if rest.starts_with("</li>") {
            depth -= 1;
        }
        rest = &rest[1..];
    }
    max
}

fn entries(archive: &[u8]) -> Vec<(String, zip::CompressionMethod)> {
    let mut z = zip::ZipArchive::new(std::io::Cursor::new(archive.to_vec())).unwrap();
    let mut r = Vec::new();
    for i in 0..z.len() {
        let f = z.by_index(i).unwrap();
        r.push((f.name().to_string(), f.compression()));
    }
    r
}

fn read_entry(archive: &[u8], name: &str) -> String {
    let mut z = zip::ZipArchive::new(std::io::Cursor::new(archive.to_vec())).unwrap();
    let mut f = z.by_name(name).unwrap();
    let mut s = String::new();
    f.read_to_string(&mut s).unwrap();
    s
}

fn file<'a>(files: &'a [TreeFile], name: &str) -> &'a TreeFile {
    files.iter().find(|f| f.name == name).unwrap()
}

#[test]
fn toc_depth_is_relative() {
    let records = vec![record(2, "a"), record(3, "b"), record(2, "c"), record(4, "d")];
    let toc = ToC::new(&records);
    let nav = toc.to_nav(2, false, None);
    assert_eq!(nesting_depth(&nav), 3);
}

#[test]
fn toc_depth_single_level() {
    let records = vec![record(3, "a"), record(3, "b")];
    let nav = ToC::new(&records).to_nav(2, false, None);
    assert_eq!(nesting_depth(&nav), 1);
}

#[test]
fn toc_shallower_heading_starts_new_top_entry() {
    let records = vec![record(3, "a"), record(1, "b"), record(2, "c")];
    let nav = ToC::new(&records).to_nav(5, false, None);
    assert_eq!(nesting_depth(&nav), 2);
    assert!(nav.contains("<span>a</span>\n\n</li>\n<li>\n<span>b</span>\n<ol><li>\n<span>c</span>"));
}

#[test]
fn toc_placeholder_fills_gap() {
    let records = vec![record(1, "a"), record(3, "b")];
    let nav = ToC::new(&records).to_nav(5, false, None);
    assert_eq!(nesting_depth(&nav), 3);
    assert!(nav.contains("<span>a</span>\n<ol><li>\n\n<ol><li>\n<span>b</span>"));
}

#[test]
fn toc_collapses_from_level() {
    let records = vec![record(1, "a"), record(2, "b"), record(3, "c")];
    let nav = ToC::new(&records).to_nav(2, false, None);
    assert!(nav.contains("<span>a</span>\n<ol><li>"));
    assert!(nav.contains("<span>b</span>\n<ol hidden=\"hidden\"><li>"));
}

#[test]
fn toc_entry_with_anchor_links_to_document() {
    let r = HeadingRecord {
        filename: "intro".to_string(),
        id: Some("header-x".to_string()),
        title: "X".to_string(),
        level: 1,
    };
    let item = r.to_item();
    assert_eq!(item.to_nav(2), "<li>\n<a href=\"intro.xhtml#header-x\">X</a>\n\n</li>\n");
}

#[test]
fn toc_navigation_document_vertical() {
    let nav = ToC::new(&vec![]).to_nav(2, true, Some("T".to_string()));
    assert!(nav.contains("<title>T</title>"));
    assert!(nav.contains("href=\"styles/vertical.css\""));
    assert!(nav.contains("<nav epub:type=\"toc\" id=\"toc\">"));
}

#[test]
fn manifest_and_spine_follow_item_order() {
    let items = Items {
        items: vec![Item::new("a.xhtml".to_string()), Item::new("b.xhtml".to_string())],
    };
    let manifest = items.to_manifest();
    assert!(manifest.contains(
        "<item id=\"book_0\" href=\"a.xhtml\" media-type=\"application/xhtml+xml\" />\n<item id=\"book_1\" href=\"b.xhtml\" media-type=\"application/xhtml+xml\" />\n"
    ));
    assert_eq!(
        items.to_spine(false),
        "<spine>\n<itemref idref=\"navigation\" />\n<itemref idref=\"book_0\" />\n<itemref idref=\"book_1\" />\n</spine>\n"
    );
}

#[test]
fn item_ids_use_decimal_positions() {
    let item = Item::new("x.xhtml".to_string());
    assert_eq!(item.to_spine(12), "<itemref idref=\"book_12\" />");
    assert_eq!(
        item.to_manifest(105),
        "<item id=\"book_105\" href=\"x.xhtml\" media-type=\"application/xhtml+xml\" />"
    );
}

#[test]
fn spine_vertical_is_right_to_left() {
    let items = Items { items: vec![Item::new("a.xhtml".to_string())] };
    assert!(items.to_spine(true).starts_with("<spine page-progression-direction=\"rtl\">\n"));
}

#[test]
fn timestamp_text_is_padded() {
    let t = Timestamp { year: 2024, month: 3, day: 7, hour: 9, minute: 5, second: 0 };
    assert_eq!(t.to_text(), "2024-03-07T09:05:00Z");
    let early = Timestamp { year: 33, month: 12, day: 31, hour: 23, minute: 59, second: 59 };
    assert_eq!(early.to_text(), "0033-12-31T23:59:59Z");
}

#[test]
fn timestamp_now_has_rfc3339_shape() {
    let text = Timestamp::now().to_text();
    assert_eq!(text.len(), 20);
    assert!(!text.contains('"'));
    assert!(text.ends_with('Z'));
}

#[test]
fn metadata_block_holds_identity() {
    let m = MetaData {
        title: "Book".to_string(),
        creator: "Alice".to_string(),
        language: "en".to_string(),
        id: "abc".to_string(),
    };
    let t = Timestamp { year: 2020, month: 1, day: 2, hour: 3, minute: 4, second: 5 };
    let xml = m.to_xml_at(&t);
    assert!(xml.contains("<dc:title>Book</dc:title>"));
    assert!(xml.contains("<dc:creator>Alice</dc:creator>"));
    assert!(xml.contains("<dc:identifier id=\"BookId\">abc</dc:identifier>"));
    assert!(xml.contains("<meta property=\"dcterms:modified\">2020-01-02T03:04:05Z</meta>"));
    let package = Package { metadata: m, items: Items::new() };
    let opf = package.to_opf(false);
    assert!(opf.starts_with("<?xml"));
    assert!(opf.contains("<spine>"));
}

#[test]
fn headings_are_extracted_in_order() {
    let html = "<html><body><h1><a id=\"header-a\"></a>A</h1><p>x</p><h3>C</h3><h6>skip</h6></body></html>";
    let records = toc_from_dom(html, "doc").unwrap();
    assert_eq!(records.len(), 2);
    assert_eq!(records[0].title, "A");
    assert_eq!(records[0].id, Some("header-a".to_string()));
    assert_eq!(records[0].level, 1);
    assert_eq!(records[1].title, "C");
    assert_eq!(records[1].id, None);
    assert_eq!(records[1].level, 3);
    assert_eq!(records[1].filename, "doc");
}

#[test]
fn heading_without_text_gets_placeholder_title() {
    let records = toc_from_dom("<html><body><h2></h2></body></html>", "d").unwrap();
    assert_eq!(records[0].title, "UNWRAP ERROR: HEADER TEXT");
}

#[test]
fn tag_levels() {
    assert_eq!(level_of_tag("h1"), 1);
    assert_eq!(level_of_tag("h5"), 5);
    assert_eq!(level_of_tag("h6"), 6);
    assert_eq!(level_of_tag("p"), 6);
}

#[test]
fn document_names() {
    assert_eq!(document_name_of("intro.md"), "intro");
    assert_eq!(document_name_of("my notes.md"), "my_notes");
    assert_eq!(document_name_of("a.b.md"), "a.b");
    assert_eq!(document_name_of(".md"), ".md");
    assert_eq!(document_name_of("plain"), "plain");
}

#[test]
fn convert_renders_and_records() {
    let mut items = Items::new();
    let mut toc = Vec::new();
    let f = convert("intro.md", "# Title\n\n## Sub\n", &mut items, &mut toc, false).unwrap();
    assert_eq!(f.name, "intro.xhtml");
    assert!(f.contents.contains("<title>intro.md</title>"));
    assert!(f.contents.contains("id=\"header-title\""));
    assert!(!f.contents.contains("vertical.css"));
    assert_eq!(items.items.len(), 1);
    assert_eq!(items.items[0].href, "intro.xhtml");
    assert_eq!(toc.len(), 2);
    assert_eq!(toc[0].title, "Title");
    assert_eq!(toc[0].id, Some("header-title".to_string()));
    assert_eq!(toc[1].level, 2);
    assert_eq!(toc[1].filename, "intro");
}

#[test]
fn markdown_soft_breaks_become_hard() {
    let mut items = Items::new();
    let mut toc = Vec::new();
    let f = convert("a.md", "one\ntwo\n", &mut items, &mut toc, false).unwrap();
    assert!(f.contents.contains("one<br />"));
}

#[test]
fn source_selection_is_sorted_markdown() {
    let names = vec!["b.md".to_string(), "notes.txt".to_string(), "a.md".to_string(), ".md".to_string()];
    assert_eq!(select_sources(names), vec!["a.md".to_string(), "b.md".to_string()]);
    assert!(lex_less("a.md", "b.md"));
    assert!(lex_less("ab", "abc"));
    assert!(!lex_less("b", "a"));
    assert!(is_markdown_file("x.md"));
    assert!(!is_markdown_file("x.mdx"));
}

#[test]
fn single_file_extension_check() {
    assert_eq!(check_source_file("a.md"), Ok(()));
    assert_eq!(check_source_file("README"), Ok(()));
    assert_eq!(check_source_file("a.txt"), Err(RepubError::InvalidInputPath));
}

#[test]
fn toc_level_argument() {
    let mut b = RepubBuilder::new("x");
    assert!(b.toc_level("3"));
    assert_eq!(b.toc_level, 2);
    assert!(b.toc_level("1"));
    assert_eq!(b.toc_level, 0);
    assert!(!b.toc_level("abc"));
    assert_eq!(b.toc_level, 2);
    assert!(!b.toc_level("0"));
    assert_eq!(parse_level("255"), Some(255));
    assert_eq!(parse_level("256"), None);
    assert_eq!(parse_level("+3"), Some(3));
    assert_eq!(parse_level("0003"), Some(3));
    assert_eq!(parse_level("+"), None);
    assert_eq!(parse_level("-3"), None);
    assert_eq!(parse_level("0"), None);
    assert_eq!(parse_level("00000000000000000007"), Some(7));
    assert_eq!(parse_level("1000"), None);
}

#[test]
fn scenario_single_file() {
    let mut b = builder("Book");
    let book = b.build(&vec![source("intro.md", "# Title\n## Sub\n")], None).unwrap();
    let oebps = &book.tree.oebps;
    assert_eq!(oebps.len(), 3);
    assert_eq!(oebps[0].name, "intro.xhtml");
    let opf = &file(oebps, "package.opf").contents;
    assert_eq!(opf.matches("<item id=\"book_").count(), 1);
    let nav = &file(oebps, "navigation.xhtml").contents;
    assert!(nav.contains(
        "<li>\n<a href=\"intro.xhtml#header-title\">Title</a>\n<ol><li>\n<a href=\"intro.xhtml#header-sub\">Sub</a>\n\n</li>\n</ol>\n</li>\n"
    ));
    let names: Vec<String> = entries(&book.archive).into_iter().map(|e| e.0).collect();
    assert!(names.contains(&"OEBPS/intro.xhtml".to_string()));
}

#[test]
fn scenario_directory_order() {
    let names = select_sources(vec!["b.md".to_string(), "a.md".to_string()]);
    let sources: Vec<SourceDocument> = names.iter().map(|n| source(n, "# H1\n")).collect();
    let mut b = builder("Dir");
    let book = b.build(&sources, None).unwrap();
    let opf = &file(&book.tree.oebps, "package.opf").contents;
    let a = opf.find("href=\"a.xhtml\"").unwrap();
    let bpos = opf.find("href=\"b.xhtml\"").unwrap();
    assert!(a < bpos);
    assert!(opf.contains("<itemref idref=\"book_0\" />\n<itemref idref=\"book_1\" />"));
    assert_eq!(book.tree.oebps[0].name, "a.xhtml");
}

#[test]
fn scenario_vertical() {
    let mut b = builder("V");
    b.vertical(true);
    let book = b.build(&vec![source("a.md", "# A\n"), source("b.md", "text\n")], None).unwrap();
    let opf = &file(&book.tree.oebps, "package.opf").contents;
    assert!(opf.contains("<spine page-progression-direction=\"rtl\">"));
    for f in &book.tree.oebps[..2] {
        assert!(f.contents.contains("<link type=\"text/css\" rel=\"stylesheet\" href=\"styles/vertical.css\" />"));
    }
}

#[test]
fn scenario_generated_book_id() {
    let mut b = builder("Id");
    let id = b.id.clone();
    assert_eq!(id.chars().count(), 30);
    assert!(id.chars().all(|c| c.is_ascii_alphanumeric()));
    let book = b.build(&vec![source("a.md", "x")], None).unwrap();
    let opf = &file(&book.tree.oebps, "package.opf").contents;
    assert!(opf.contains(&format!("<dc:identifier id=\"BookId\">{}</dc:identifier>", id)));
    let other = generate_book_id();
    assert_eq!(other.len(), 30);
    assert!(other.chars().all(|c| c.is_ascii_alphanumeric()));
}

#[test]
fn book_id_is_used_in_identifier() {
    let mut b = builder("Id");
    b.book_id("fixed-id");
    let book = b.build(&vec![source("a.md", "x")], None).unwrap();
    let opf = &file(&book.tree.oebps, "package.opf").contents;
    assert!(opf.contains("<dc:identifier id=\"BookId\">fixed-id</dc:identifier>"));
}

#[test]
fn scenario_cleanup_paths() {
    let mut b = builder("C");
    let _ = b.build(&vec![source("a.md", "x")], None).unwrap();
    assert_eq!(
        b.remove_tmp_files(),
        vec!["mimetype".to_string(), "META-INF".to_string(), "OEBPS".to_string()]
    );
    b.save_tmp_files(true);
    assert!(b.remove_tmp_files().is_empty());
    let fresh = RepubBuilder::new("y");
    assert!(fresh.remove_tmp_files().is_empty());
}

#[test]
fn custom_stylesheet_is_copied() {
    let mut b = builder("S");
    let book = b.build(&vec![source("a.md", "x")], Some("p { margin: 0; }".to_string())).unwrap();
    assert_eq!(book.tree.styles[1].name, "custom.css");
    assert_eq!(book.tree.styles[1].contents, "p { margin: 0; }");
    assert_eq!(read_entry(&book.archive, "OEBPS/styles/custom.css"), "p { margin: 0; }");
}

#[test]
fn mimetype_entry_is_first_and_stored() {
    let book = builder("M").build(&vec![source("a.md", "# A\n")], None).unwrap();
    let e = entries(&book.archive);
    assert_eq!(e[0].0, "mimetype");
    assert_eq!(e[0].1, zip::CompressionMethod::Stored);
    assert_eq!(read_entry(&book.archive, "mimetype"), "application/epub+zip");
    assert_eq!(&book.archive[30..38], b"mimetype");
    for (name, method) in &e[1..] {
        if !name.ends_with('/') {
            assert_eq!(*method, zip::CompressionMethod::Deflated);
        }
    }
}

#[test]
fn packing_twice_gives_same_entries() {
    let book = builder("P").build(&vec![source("a.md", "# A\n"), source("b.md", "## B\n")], None).unwrap();
    let again = book.tree.pack().unwrap();
    assert_eq!(entries(&book.archive), entries(&again));
    assert_eq!(book.archive, again);
    let names: Vec<String> = entries(&again).into_iter().map(|e| e.0).collect();
    assert_eq!(
        names,
        vec![
            "mimetype", "META-INF/", "META-INF/container.xml", "OEBPS/", "OEBPS/a.xhtml",
            "OEBPS/b.xhtml", "OEBPS/package.opf", "OEBPS/navigation.xhtml", "OEBPS/styles/",
            "OEBPS/styles/vertical.css", "OEBPS/styles/custom.css"
        ]
    );
}

#[test]
fn unpacked_manifest_counts_documents() {
    let book = builder("R")
        .build(&vec![source("a.md", "# A\n"), source("b.md", "# B\n"), source("c.md", "c")], None)
        .unwrap();
    let opf = read_entry(&book.archive, "OEBPS/package.opf");
    assert_eq!(opf.matches("<item ").count(), 3 + 3);
}

#[test]
fn empty_tree_packs() {
    let tree = WorkingTree {
        mimetype: "application/epub+zip".to_string(),
        meta_inf: vec![],
        oebps: vec![],
        styles: vec![],
    };
    let bytes = tree.pack().unwrap();
    assert_eq!(entries(&bytes).len(), 4);
}

#[test]
fn setters_chain_and_default() {
    let mut b = RepubBuilder::default();
    b.titled("T").creator("C").language("ja").book_id("X1");
    assert_eq!(b.title, "T");
    assert_eq!(b.creator, "C");
    assert_eq!(b.language, "ja");
    assert_eq!(b.id, "X1");
    assert_eq!(b.toc_level, 2);
    assert!(!b.vertical);
    b.style("a.css".to_string());
    assert_eq!(b.style, Some("a.css".to_string()));
    assert_eq!(b.source_file, "");
}
