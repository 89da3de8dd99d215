use lopdf::{Dictionary, Document, Object, ObjectId, Stream};
use stapler::error::MergeError;
use stapler::merge::loader::MergableDocument;
use stapler::merge::{consolidate, merge_documents};

/// A document with one page for each text, built the way a writer would:
/// page tree root first, then a font, resources, and for each page its
/// content and the page itself, then the catalog.
fn document_with_pages(texts: &[&str]) -> Document {
    let mut doc = Document::with_version("1.5");
    let pages_id = doc.new_object_id();
    let mut font = Dictionary::new();
    font.set("Type", "Font");
    font.set("Subtype", "Type1");
    font.set("BaseFont", "Courier");
    let font_id = doc.add_object(font);
    let mut fonts = Dictionary::new();
    fonts.set("F1", font_id);
    let mut resources = Dictionary::new();
    resources.set("Font", fonts);
    let resources_id = doc.add_object(resources);
    let mut kids = Vec::new();
    for text in texts {
        let content = format!("BT /F1 48 Tf 100 600 Td ({}) Tj ET", text);
        let content_id = doc.add_object(Stream::new(Dictionary::new(), content.into_bytes()));
        let mut page = Dictionary::new();
        page.set("Type", "Page");
        page.set("Parent", pages_id);
        page.set("Contents", content_id);
        page.set("Resources", resources_id);
        kids.push(Object::from(doc.add_object(page)));
    }
    let mut pages = Dictionary::new();
    pages.set("Type", "Pages");
    pages.set("Count", kids.len() as i64);
    pages.set("Kids", kids);
    doc.objects.insert(pages_id, Object::Dictionary(pages));
    let mut catalog = Dictionary::new();
    catalog.set("Type", "Catalog");
    catalog.set("Pages", pages_id);
    let catalog_id = doc.add_object(catalog);
    doc.trailer.set("Root", catalog_id);
    doc
}

fn source(name: &str, texts: &[&str]) -> MergableDocument {
    MergableDocument::from_document(name, document_with_pages(texts))
}

fn page_texts(doc: &Document) -> Vec<String> {
    doc.page_iter()
        .map(|page| String::from_utf8(doc.get_page_content(page)).unwrap())
        .collect()
}

fn objects_of_type(doc: &Document, name: &[u8]) -> Vec<ObjectId> {
    doc.objects
        .iter()
        .filter(|(_, object)| match object {
            Object::Dictionary(dict) => dict.get_type().ok() == Some(name),
            Object::Stream(stream) => stream.dict.get_type().ok() == Some(name),
            _ => false,
        })
        .map(|(id, _)| *id)
        .collect()
}

fn root_reference(doc: &Document) -> ObjectId {
    doc.trailer.get(b"Root").unwrap().as_reference().unwrap()
}

fn page_tree_root(doc: &Document) -> ObjectId {
    let catalog = doc.get_dictionary(root_reference(doc)).unwrap();
    catalog.get(b"Pages").unwrap().as_reference().unwrap()
}

/// The titles and targets of the top-level outline entries, in order.
fn outline_entries(doc: &Document) -> Vec<(Vec<u8>, ObjectId)> {
    let catalog = doc.get_dictionary(root_reference(doc)).unwrap();
    let outlines = match catalog.get(b"Outlines") {
        Ok(object) => doc.get_dictionary(object.as_reference().unwrap()).unwrap(),
        Err(_) => return Vec::new(),
    };
    let mut entries = Vec::new();
    let mut next = outlines.get(b"First").ok().map(|o| o.as_reference().unwrap());
    while let Some(id) = next {
        let entry = doc.get_dictionary(id).unwrap();
        let title = entry.get(b"Title").unwrap().as_str().unwrap().to_vec();
        let action = doc
            .get_dictionary(entry.get(b"A").unwrap().as_reference().unwrap())
            .unwrap();
        let target = action.get(b"D").unwrap().as_array().unwrap()[0]
            .as_reference()
            .unwrap();
        entries.push((title, target));
        next = entry.get(b"Next").ok().map(|o| o.as_reference().unwrap());
    }
    entries
}

#[test]
fn pages_follow_source_order() {
    let merged = merge_documents(
        vec![
            source("a.pdf", &["a1", "a2"]),
            source("b.pdf", &["b1", "b2", "b3"]),
            source("c.pdf", &["c1"]),
        ],
        false,
    )
    .unwrap();
    let texts = page_texts(&merged);
    assert_eq!(texts.len(), 2 + 3 + 1);
    for (text, expected) in texts.iter().zip(["a1", "a2", "b1", "b2", "b3", "c1"]) {
        assert!(text.contains(&format!("({})", expected)), "{} in {}", expected, text);
    }
}

#[test]
fn page_tree_root_lists_every_page() {
    let merged = merge_documents(
        vec![source("a.pdf", &["a1", "a2"]), source("b.pdf", &["b1", "b2", "b3"])],
        false,
    )
    .unwrap();
    let root = page_tree_root(&merged);
    let pages = merged.get_dictionary(root).unwrap();
    assert_eq!(pages.get(b"Count").unwrap().as_i64().unwrap(), 5);
    let kids: Vec<ObjectId> = pages
        .get(b"Kids")
        .unwrap()
        .as_array()
        .unwrap()
        .iter()
        .map(|kid| kid.as_reference().unwrap())
        .collect();
    assert_eq!(kids.len(), 5);
    assert_eq!(kids, merged.page_iter().collect::<Vec<_>>());
    for kid in kids {
        let page = merged.get_dictionary(kid).unwrap();
        assert_eq!(page.get(b"Parent").unwrap().as_reference().unwrap(), root);
    }
}

#[test]
fn one_catalog_and_one_page_tree_root() {
    let merged = merge_documents(
        vec![
            source("a.pdf", &["a1"]),
            source("b.pdf", &["b1"]),
            source("c.pdf", &["c1"]),
        ],
        false,
    )
    .unwrap();
    let catalogs = objects_of_type(&merged, b"Catalog");
    let roots = objects_of_type(&merged, b"Pages");
    assert_eq!(catalogs, vec![root_reference(&merged)]);
    assert_eq!(roots, vec![page_tree_root(&merged)]);
    assert_eq!(objects_of_type(&merged, b"Page").len(), 3);
    // three fonts, three resources and three contents came along as they were
    assert_eq!(objects_of_type(&merged, b"Font").len(), 3);
}

#[test]
fn identifiers_are_compact() {
    let merged = merge_documents(
        vec![source("a.pdf", &["a1", "a2"]), source("b.pdf", &["b1"])],
        false,
    )
    .unwrap();
    assert_eq!(merged.version, "1.5");
    let numbers: Vec<u32> = merged.objects.keys().map(|id| id.0).collect();
    let expected: Vec<u32> = (1..=numbers.len() as u32).collect();
    assert_eq!(numbers, expected);
    assert_eq!(merged.max_id as usize, numbers.len());
    // no reference dangles
    let mut check = merged.clone();
    let referenced = check.traverse_objects(|_| {});
    for id in referenced {
        assert!(merged.objects.contains_key(&id), "{:?} is referenced", id);
    }
}

#[test]
fn fewer_than_two_documents_are_refused() {
    let none = merge_documents(vec![], false);
    assert!(matches!(none, Err(MergeError::InsufficientInputs)));
    let one = merge_documents(vec![source("a.pdf", &["a1"])], true);
    assert!(matches!(one, Err(MergeError::InsufficientInputs)));
}

#[test]
fn sources_without_page_tree_fail() {
    let mut first = Document::with_version("1.5");
    let mut catalog = Dictionary::new();
    catalog.set("Type", "Catalog");
    let catalog_id = first.add_object(catalog);
    first.trailer.set("Root", catalog_id);
    let second = first.clone();
    let result = merge_documents(
        vec![
            MergableDocument::from_document("a.pdf", first),
            MergableDocument::from_document("b.pdf", second),
        ],
        false,
    );
    assert!(matches!(result, Err(MergeError::PagesRootNotFound)));
}

#[test]
fn sources_without_catalog_fail() {
    let mut first = Document::with_version("1.5");
    let mut pages = Dictionary::new();
    pages.set("Type", "Pages");
    pages.set("Count", 0);
    pages.set("Kids", Vec::<Object>::new());
    first.add_object(pages);
    let second = first.clone();
    let result = merge_documents(
        vec![
            MergableDocument::from_document("a.pdf", first),
            MergableDocument::from_document("b.pdf", second),
        ],
        false,
    );
    assert!(matches!(result, Err(MergeError::CatalogRootNotFound)));
}

#[test]
fn empty_sources_fail_for_want_of_a_page_tree() {
    let result = merge_documents(
        vec![
            MergableDocument::from_document("a.pdf", Document::with_version("1.5")),
            MergableDocument::from_document("b.pdf", Document::with_version("1.5")),
        ],
        false,
    );
    assert!(matches!(result, Err(MergeError::PagesRootNotFound)));
}

#[test]
fn a_catalog_that_is_a_stream_is_refused() {
    let mut first = document_with_pages(&["a1"]);
    let catalog_id = root_reference(&first);
    let mut dict = Dictionary::new();
    dict.set("Type", "Catalog");
    first
        .objects
        .insert(catalog_id, Object::Stream(Stream::new(dict, vec![1, 2, 3])));
    let result = merge_documents(
        vec![
            MergableDocument::from_document("a.pdf", first),
            source("b.pdf", &["b1"]),
        ],
        false,
    );
    assert!(matches!(result, Err(MergeError::StructuralInconsistency)));
}

#[test]
fn a_source_without_pages_is_tolerated() {
    let merged = merge_documents(
        vec![
            source("a.pdf", &["a1"]),
            source("empty.pdf", &[]),
            source("c.pdf", &["c1", "c2"]),
        ],
        false,
    )
    .unwrap();
    let texts = page_texts(&merged);
    assert_eq!(texts.len(), 3);
    assert!(texts[0].contains("(a1)"));
    assert!(texts[1].contains("(c1)"));
    assert!(texts[2].contains("(c2)"));
    let entries = outline_entries(&merged);
    let pages: Vec<ObjectId> = merged.page_iter().collect();
    assert_eq!(entries.len(), 3);
    assert_eq!(entries[0], (b"a.pdf".to_vec(), pages[0]));
    assert_eq!(entries[1], (b"empty.pdf".to_vec(), (0, 0)));
    assert_eq!(entries[2], (b"c.pdf".to_vec(), pages[1]));
}

#[test]
fn compaction_twice_keeps_pages_and_content() {
    let mut merged = merge_documents(
        vec![source("a.pdf", &["a1", "a2"]), source("b.pdf", &["b1"])],
        false,
    )
    .unwrap();
    let texts = page_texts(&merged);
    let count = merged.objects.len();
    merged.renumber_objects();
    assert_eq!(page_texts(&merged), texts);
    assert_eq!(merged.objects.len(), count);
    let once: Vec<ObjectId> = merged.objects.keys().cloned().collect();
    let pages_once: Vec<ObjectId> = merged.page_iter().collect();
    merged.renumber_objects();
    assert_eq!(page_texts(&merged), texts);
    assert_eq!(merged.objects.keys().cloned().collect::<Vec<_>>(), once);
    assert_eq!(merged.page_iter().collect::<Vec<_>>(), pages_once);
}

#[test]
fn one_bookmark_for_each_source() {
    let merged = merge_documents(
        vec![
            source("first.pdf", &["a1", "a2"]),
            source("second.pdf", &["b1"]),
            source("third.pdf", &["c1", "c2", "c3"]),
        ],
        false,
    )
    .unwrap();
    let pages: Vec<ObjectId> = merged.page_iter().collect();
    let entries = outline_entries(&merged);
    assert_eq!(
        entries,
        vec![
            (b"first.pdf".to_vec(), pages[0]),
            (b"second.pdf".to_vec(), pages[2]),
            (b"third.pdf".to_vec(), pages[3]),
        ]
    );
    assert_eq!(merged.bookmarks.len(), 3);
    let catalog = merged.get_dictionary(root_reference(&merged)).unwrap();
    let outlines = merged
        .get_dictionary(catalog.get(b"Outlines").unwrap().as_reference().unwrap())
        .unwrap();
    assert_eq!(outlines.get(b"Count").unwrap().as_i64().unwrap(), 3);
}

#[test]
fn bookmarks_are_plain_and_blue() {
    let merged = merge_documents(
        vec![source("first.pdf", &["a1"]), source("second.pdf", &["b1"])],
        false,
    )
    .unwrap();
    for id in merged.bookmarks.iter() {
        let bookmark = &merged.bookmark_table[id];
        assert_eq!(bookmark.format, 0);
        assert_eq!(bookmark.color, [0.0, 0.0, 1.0]);
        assert!(bookmark.children.is_empty());
    }
}

#[test]
fn two_single_page_documents() {
    let merged = merge_documents(
        vec![
            source("one.pdf", &["Document 1"]),
            source("two.pdf", &["Document 2"]),
        ],
        false,
    )
    .unwrap();
    let texts = page_texts(&merged);
    assert_eq!(texts.len(), 2);
    assert!(texts[0].contains("Document 1"));
    assert!(texts[1].contains("Document 2"));
    let titles: Vec<Vec<u8>> = outline_entries(&merged).into_iter().map(|e| e.0).collect();
    assert_eq!(titles, vec![b"one.pdf".to_vec(), b"two.pdf".to_vec()]);
}

fn with_page_tree_entries(name: &str, text: &str, entries: &[(&str, i64)]) -> MergableDocument {
    let mut doc = document_with_pages(&[text]);
    let root = page_tree_root(&doc);
    let pages = doc.get_dictionary_mut(root).unwrap();
    for (key, value) in entries {
        pages.set(*key, *value);
    }
    MergableDocument::from_document(name, doc)
}

#[test]
fn the_first_page_tree_node_wins() {
    let merged = merge_documents(
        vec![
            with_page_tree_entries("a.pdf", "a1", &[("Rotate", 90)]),
            with_page_tree_entries("b.pdf", "b1", &[("Rotate", 180), ("UserUnit", 2)]),
        ],
        false,
    )
    .unwrap();
    let root = merged.get_dictionary(page_tree_root(&merged)).unwrap();
    assert_eq!(root.get(b"Rotate").unwrap().as_i64().unwrap(), 90);
    assert_eq!(root.get(b"UserUnit").unwrap().as_i64().unwrap(), 2);
    assert_eq!(root.get(b"Count").unwrap().as_i64().unwrap(), 2);

    let swapped = merge_documents(
        vec![
            with_page_tree_entries("b.pdf", "b1", &[("Rotate", 180), ("UserUnit", 2)]),
            with_page_tree_entries("a.pdf", "a1", &[("Rotate", 90)]),
        ],
        false,
    )
    .unwrap();
    let root = swapped.get_dictionary(page_tree_root(&swapped)).unwrap();
    assert_eq!(root.get(b"Rotate").unwrap().as_i64().unwrap(), 180);
    assert_eq!(root.get(b"UserUnit").unwrap().as_i64().unwrap(), 2);
}

#[test]
fn the_outlines_of_the_sources_are_dropped() {
    let mut first = document_with_pages(&["a1"]);
    let mut entry = Dictionary::new();
    entry.set("Type", "Outline");
    entry.set("Title", Object::string_literal("old entry"));
    let entry_id = first.add_object(entry);
    let mut outlines = Dictionary::new();
    outlines.set("Type", "Outlines");
    outlines.set("First", entry_id);
    outlines.set("Last", entry_id);
    outlines.set("Count", 1);
    let outlines_id = first.add_object(outlines);
    let catalog_id = root_reference(&first);
    first
        .get_dictionary_mut(catalog_id)
        .unwrap()
        .set("Outlines", outlines_id);

    let merged = merge_documents(
        vec![
            MergableDocument::from_document("a.pdf", first),
            source("b.pdf", &["b1"]),
        ],
        false,
    )
    .unwrap();
    assert!(objects_of_type(&merged, b"Outlines").is_empty());
    assert!(objects_of_type(&merged, b"Outline").is_empty());
    let titles: Vec<Vec<u8>> = outline_entries(&merged).into_iter().map(|e| e.0).collect();
    assert_eq!(titles, vec![b"a.pdf".to_vec(), b"b.pdf".to_vec()]);
}

#[test]
fn compression_keeps_the_content() {
    let long = "x".repeat(400);
    let plain = merge_documents(
        vec![source("a.pdf", &[&long]), source("b.pdf", &["b1"])],
        false,
    )
    .unwrap();
    let compressed = merge_documents(
        vec![source("a.pdf", &[&long]), source("b.pdf", &["b1"])],
        true,
    )
    .unwrap();
    assert_eq!(page_texts(&plain), page_texts(&compressed));
    let filtered = |doc: &Document| {
        doc.objects
            .values()
            .filter(|object| match object {
                Object::Stream(stream) => stream.dict.has(b"Filter"),
                _ => false,
            })
            .count()
    };
    assert_eq!(filtered(&plain), 0);
    assert_eq!(filtered(&compressed), 1);
}

#[test]
fn a_page_named_twice_is_taken_once() {
    let mut first = document_with_pages(&["a1"]);
    let root = page_tree_root(&first);
    let page = first.page_iter().next().unwrap();
    first
        .get_dictionary_mut(root)
        .unwrap()
        .set("Kids", vec![Object::from(page), Object::from(page)]);
    let loaded = MergableDocument::from_document("a.pdf", first);
    assert_eq!(loaded.get_pages().len(), 1);
    let merged = merge_documents(vec![loaded, source("b.pdf", &["b1"])], false).unwrap();
    assert_eq!(merged.page_iter().count(), 2);
}

#[test]
fn a_page_that_is_no_dictionary_is_passed_over() {
    let mut first = document_with_pages(&["a1"]);
    let root = page_tree_root(&first);
    let stray = first.add_object(Object::Integer(7));
    let page = first.page_iter().next().unwrap();
    first
        .get_dictionary_mut(root)
        .unwrap()
        .set("Kids", vec![Object::from(page), Object::from(stray)]);
    let merged = merge_documents(
        vec![
            MergableDocument::from_document("a.pdf", first),
            source("b.pdf", &["b1"]),
        ],
        false,
    )
    .unwrap();
    let pages = merged.get_dictionary(page_tree_root(&merged)).unwrap();
    assert_eq!(pages.get(b"Count").unwrap().as_i64().unwrap(), 3);
    let kids = pages.get(b"Kids").unwrap().as_array().unwrap();
    // the stray object came along as it was and has no parent
    let second = merged.get_object(kids[1].as_reference().unwrap()).unwrap();
    assert_eq!(second.as_i64().unwrap(), 7);
}

#[test]
fn a_page_that_is_missing_is_left_out() {
    let mut first = document_with_pages(&["a1"]);
    let root = page_tree_root(&first);
    let page = first.page_iter().next().unwrap();
    first
        .get_dictionary_mut(root)
        .unwrap()
        .set("Kids", vec![Object::Reference((900, 0)), Object::from(page)]);
    let loaded = MergableDocument::from_document("a.pdf", first);
    assert_eq!(loaded.get_pages().len(), 1);
    assert_eq!(loaded.get_first_page_id(), page);
    let merged = merge_documents(vec![loaded, source("b.pdf", &["b1"])], false).unwrap();
    assert_eq!(merged.page_iter().count(), 2);
    let entries = outline_entries(&merged);
    let pages: Vec<ObjectId> = merged.page_iter().collect();
    assert_eq!(entries[0].1, pages[0]);
    assert_eq!(entries[1].1, pages[1]);
}

#[test]
fn consolidation_keeps_the_sources_apart() {
    let graph = consolidate(vec![
        source("a.pdf", &["a1", "a2"]),
        source("b.pdf", &["b1"]),
    ])
    .ok()
    .unwrap();
    // the first source has eight objects and the second six, numbered one after the other
    let document = graph.document();
    let numbers: Vec<u32> = document.objects.keys().map(|id| id.0).collect();
    // the page tree node and the catalog of the second source are not taken
    assert_eq!(numbers, vec![1, 2, 3, 4, 5, 6, 7, 8, 10, 11, 12, 13]);
    assert_eq!(graph.pages(), &vec![(5, 0), (7, 0), (13, 0)]);
    let root = document.get_dictionary((1, 0)).unwrap();
    assert_eq!(root.get(b"Count").unwrap().as_i64().unwrap(), 3);
    assert_eq!(
        root.get(b"Kids").unwrap().as_array().unwrap(),
        &vec![
            Object::Reference((5, 0)),
            Object::Reference((7, 0)),
            Object::Reference((13, 0))
        ]
    );
    assert_eq!(root_reference(document), (8, 0));
    assert_eq!(page_tree_root(document), (1, 0));
    assert_eq!(objects_of_type(document, b"Catalog"), vec![(8, 0)]);
    assert_eq!(objects_of_type(document, b"Pages"), vec![(1, 0)]);
    for page in graph.pages() {
        let parent = document.get_dictionary(*page).unwrap().get(b"Parent").unwrap();
        assert_eq!(parent.as_reference().unwrap(), (1, 0));
    }
    assert!(document.bookmarks.is_empty());
    assert_eq!(document.max_bookmark_id, 0);
    let staged: Vec<(&str, ObjectId)> = graph
        .bookmarks()
        .iter()
        .map(|bookmark| (bookmark.title.as_str(), bookmark.page))
        .collect();
    assert_eq!(staged, vec![("a.pdf", (5, 0)), ("b.pdf", (13, 0))]);
}

#[test]
fn compaction_points_the_bookmarks_at_the_moved_pages() {
    let graph = consolidate(vec![
        source("a.pdf", &["a1", "a2"]),
        source("b.pdf", &["b1"]),
    ])
    .ok()
    .unwrap();
    let document = graph.compact(false).unwrap();
    let pages: Vec<ObjectId> = document.page_iter().collect();
    assert_eq!(pages, vec![(5, 0), (7, 0), (12, 0)]);
    assert_eq!(document.bookmark_table[&1].page, (5, 0));
    assert_eq!(document.bookmark_table[&2].page, (12, 0));
    assert_eq!(document.bookmark_table[&1].title, "a.pdf");
    assert_eq!(document.bookmark_table[&2].title, "b.pdf");
    // twelve merged objects, the outline and two objects for each bookmark
    assert_eq!(document.objects.len(), 12 + 1 + 2 * 2);
    assert_eq!(document.max_id, 17);
}

#[test]
fn consolidation_fails_as_the_merge_does() {
    assert!(matches!(consolidate(vec![]), Err(MergeError::InsufficientInputs)));
    let result = consolidate(vec![
        MergableDocument::from_document("a.pdf", Document::with_version("1.5")),
        MergableDocument::from_document("b.pdf", Document::with_version("1.5")),
    ]);
    assert!(matches!(result, Err(MergeError::PagesRootNotFound)));
}

#[test]
fn generations_are_kept() {
    let mut first = Document::with_version("1.5");
    let mut page = Dictionary::new();
    page.set("Type", "Page");
    page.set("Parent", Object::Reference((1, 3)));
    first.objects.insert((2, 7), Object::Dictionary(page));
    let mut pages = Dictionary::new();
    pages.set("Type", "Pages");
    pages.set("Count", 1);
    pages.set("Kids", vec![Object::Reference((2, 7))]);
    first.objects.insert((1, 3), Object::Dictionary(pages));
    let mut catalog = Dictionary::new();
    catalog.set("Type", "Catalog");
    catalog.set("Pages", Object::Reference((1, 3)));
    first.objects.insert((3, 0), Object::Dictionary(catalog));
    first.trailer.set("Root", Object::Reference((3, 0)));
    first.max_id = 3;
    let graph = consolidate(vec![
        MergableDocument::from_document("a.pdf", first),
        source("b.pdf", &["b1"]),
    ])
    .ok()
    .unwrap();
    assert_eq!(graph.pages(), &vec![(2, 7), (8, 0)]);
    assert_eq!(page_tree_root(graph.document()), (1, 3));
    let merged = graph.compact(false).unwrap();
    assert_eq!(merged.page_iter().collect::<Vec<_>>(), vec![(2, 7), (7, 0)]);
    assert_eq!(page_tree_root(&merged), (1, 3));
}

#[test]
fn a_linearization_dictionary_comes_along() {
    let mut first = document_with_pages(&["a1"]);
    let mut linearized = Dictionary::new();
    linearized.set("Linearized", 1);
    first.add_object(linearized);
    let merged = merge_documents(
        vec![
            MergableDocument::from_document("a.pdf", first),
            source("b.pdf", &["b1"]),
        ],
        false,
    )
    .unwrap();
    assert_eq!(objects_of_type(&merged, b"Linearized").len(), 1);
}
