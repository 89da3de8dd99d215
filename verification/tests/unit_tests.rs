use lopdf::{Dictionary, Document, Object, ObjectId, Stream};
use stapler::merge::merge_documents;
use stapler::merge::outline_tree::{bookmark_targets, find_first_entry, outline_leads_to};
use stapler::merge::roots::{find_placed_root, has_pages_in_place, has_single_roots};
use stapler::merge::same_pages;
use stapler::bookmark::{Bookmark, Rgb};
use stapler::cli::{check_input_count, is_glob_pattern, is_pdf_extension, InputError};
use stapler::error::MergeError;
use stapler::merge::kind::{classify, same_bytes, ObjectKind};
use stapler::merge::loader::fs::{FileSystemMergingDestination, FileSystemMergingSource};
use stapler::merge::loader::{holds_id, MergableDocument};
use stapler::merge::{
    insert_pages, object_kind, overlay, page_references, position_of_page,
    process_documents_objects, retarget, update_document_hierarchy, FileSystemOptions,
    LoadedDocument,
};
use stapler::paths::file_name;

fn typed(name: &str) -> Dictionary {
    let mut dict = Dictionary::new();
    dict.set("Type", name);
    dict
}

fn small_document() -> Document {
    let mut doc = Document::with_version("1.5");
    let pages_id = doc.new_object_id();
    let content_id = doc.add_object(Stream::new(Dictionary::new(), b"BT (hello) Tj ET".to_vec()));
    let mut page = typed("Page");
    page.set("Parent", pages_id);
    page.set("Contents", content_id);
    let page_id = doc.add_object(page);
    let mut pages = typed("Pages");
    pages.set("Kids", vec![Object::from(page_id)]);
    pages.set("Count", 1);
    doc.objects.insert(pages_id, Object::Dictionary(pages));
    let mut catalog = typed("Catalog");
    catalog.set("Pages", pages_id);
    let catalog_id = doc.add_object(catalog);
    doc.trailer.set("Root", catalog_id);
    doc
}

#[test]
fn error_messages() {
    assert_eq!(
        MergeError::InsufficientInputs.to_string(),
        "At least two documents are required to merge."
    );
    assert_eq!(MergeError::PagesRootNotFound.to_string(), "Pages root not found.");
    assert_eq!(MergeError::CatalogRootNotFound.to_string(), "Catalog root not found.");
    assert_eq!(
        MergeError::StructuralInconsistency.to_string(),
        "The merged document is structurally inconsistent."
    );
    assert_eq!(MergeError::IdSpaceExhausted.to_string(), "The documents cannot be numbered.");
    assert_eq!(
        MergeError::LoadFailure { path: "in.pdf".to_string(), cause: "no such file".to_string() }
            .to_string(),
        "Failed to load in.pdf: no such file"
    );
    assert_eq!(
        MergeError::WriteFailure { path: "out.pdf".to_string(), cause: "disk full".to_string() }
            .to_string(),
        "Failed to save output file out.pdf: disk full"
    );
}

#[test]
fn input_error_messages() {
    assert_eq!(
        InputError::NoInputFiles.to_string(),
        "No PDF files found after expanding patterns"
    );
    assert_eq!(
        InputError::TooFewInputFiles.to_string(),
        "At least 2 PDF files are required for merging"
    );
}

#[test]
fn input_counts() {
    assert_eq!(check_input_count(0), Err(InputError::NoInputFiles));
    assert_eq!(check_input_count(1), Err(InputError::TooFewInputFiles));
    assert_eq!(check_input_count(2), Ok(()));
    assert_eq!(check_input_count(6666), Ok(()));
}

#[test]
fn glob_patterns() {
    assert!(is_glob_pattern("*.pdf"));
    assert!(is_glob_pattern("/tmp/file?.pdf"));
    assert!(is_glob_pattern("file[0-9].pdf"));
    assert!(is_glob_pattern("a/b/c*"));
    assert!(!is_glob_pattern("plain.pdf"));
    assert!(!is_glob_pattern(""));
    assert!(!is_glob_pattern("wei\u{df}]{}.pdf"));
}

#[test]
fn pdf_extensions() {
    assert!(is_pdf_extension("pdf"));
    assert!(is_pdf_extension("PDF"));
    assert!(is_pdf_extension("Pdf"));
    assert!(is_pdf_extension("pDF"));
    assert!(!is_pdf_extension("pd"));
    assert!(!is_pdf_extension("pdfx"));
    assert!(!is_pdf_extension("txt"));
    assert!(!is_pdf_extension(""));
    assert!(!is_pdf_extension("\u{440}df"));
}

#[test]
fn file_names() {
    assert_eq!(file_name("/tmp/in/first.pdf", '/'), "first.pdf");
    assert_eq!(file_name("first.pdf", '/'), "first.pdf");
    assert_eq!(file_name("dir/", '/'), "");
    assert_eq!(file_name("", '/'), "");
    assert_eq!(file_name("/", '/'), "");
    assert_eq!(file_name("C:\\docs\\second.pdf", '\\'), "second.pdf");
    assert_eq!(file_name("C:\\docs\\second.pdf", '/'), "C:\\docs\\second.pdf");
    assert_eq!(file_name("\u{e9}t\u{e9}/\u{fc}ber.pdf", '/'), "\u{fc}ber.pdf");
}

#[test]
fn source_file_name() {
    let separator = std::path::MAIN_SEPARATOR;
    let path = format!("some{}where{}doc.pdf", separator, separator);
    let source = FileSystemMergingSource { input_file: &path };
    assert_eq!(source.original_filename(), "doc.pdf");
}

#[test]
fn options_from_arguments() {
    let inputs = vec!["a.pdf".to_string(), "b.pdf".to_string(), "c.pdf".to_string()];
    let output = "out.pdf".to_string();
    let options = FileSystemOptions::from((&inputs, &output, true));
    let named: Vec<&str> = options.input_sources.iter().map(|s| s.input_file).collect();
    assert_eq!(named, vec!["a.pdf", "b.pdf", "c.pdf"]);
    assert_eq!(options.destination.output_file, "out.pdf");
    assert!(options.compress);
    assert!(options.check_sources().is_ok());
    let none: Vec<String> = Vec::new();
    let options = FileSystemOptions::from((&none, &output, false));
    assert!(options.input_sources.is_empty());
    assert!(!options.compress);
    assert!(matches!(options.check_sources(), Err(MergeError::InsufficientInputs)));
    let one = vec!["a.pdf".to_string()];
    let options = FileSystemOptions::from((&one, &output, false));
    assert!(matches!(options.check_sources(), Err(MergeError::InsufficientInputs)));
    let destination = FileSystemMergingDestination { output_file: "x" };
    assert_eq!(destination.clone().output_file, "x");
}

#[test]
fn kinds_of_names() {
    assert_eq!(classify(b"Catalog"), ObjectKind::Catalog);
    assert_eq!(classify(b"Pages"), ObjectKind::Pages);
    assert_eq!(classify(b"Page"), ObjectKind::Page);
    assert_eq!(classify(b"Outlines"), ObjectKind::Outlines);
    assert_eq!(classify(b"Outline"), ObjectKind::Outline);
    assert_eq!(classify(b"Font"), ObjectKind::Other);
    assert_eq!(classify(b""), ObjectKind::Other);
    assert_eq!(classify(b"catalog"), ObjectKind::Other);
    assert_eq!(classify(b"Pages "), ObjectKind::Other);
}

#[test]
fn kinds_of_objects() {
    assert_eq!(object_kind(&Object::Dictionary(typed("Catalog"))), ObjectKind::Catalog);
    assert_eq!(object_kind(&Object::Dictionary(typed("Pages"))), ObjectKind::Pages);
    assert_eq!(object_kind(&Object::Dictionary(typed("Font"))), ObjectKind::Other);
    assert_eq!(object_kind(&Object::Dictionary(Dictionary::new())), ObjectKind::Other);
    assert_eq!(object_kind(&Object::Integer(3)), ObjectKind::Other);
    assert_eq!(
        object_kind(&Object::Stream(Stream::new(typed("Page"), vec![]))),
        ObjectKind::Page
    );
    let mut linearized = Dictionary::new();
    linearized.set("Linearized", 1);
    assert_eq!(object_kind(&Object::Dictionary(linearized)), ObjectKind::Other);
    let mut odd = Dictionary::new();
    odd.set("Type", 5);
    assert_eq!(object_kind(&Object::Dictionary(odd)), ObjectKind::Other);
}

#[test]
fn equal_bytes() {
    assert!(same_bytes(b"", b""));
    assert!(same_bytes(b"Kids", b"Kids"));
    assert!(!same_bytes(b"Kids", b"Kid"));
    assert!(!same_bytes(b"Kids", b"Kidz"));
    assert!(!same_bytes(b"", b"x"));
}

#[test]
fn overlay_prefers_the_second() {
    let mut under = Dictionary::new();
    under.set("A", 1);
    under.set("B", 2);
    let mut over = Dictionary::new();
    over.set("B", 20);
    over.set("C", 30);
    overlay(&mut under, over);
    assert_eq!(under.len(), 3);
    assert_eq!(under.get(b"A").unwrap().as_i64().unwrap(), 1);
    assert_eq!(under.get(b"B").unwrap().as_i64().unwrap(), 20);
    assert_eq!(under.get(b"C").unwrap().as_i64().unwrap(), 30);
    let mut alone = Dictionary::new();
    alone.set("A", 1);
    overlay(&mut alone, Dictionary::new());
    assert_eq!(alone.len(), 1);
}

#[test]
fn overlay_does_not_join_arrays() {
    let mut under = Dictionary::new();
    under.set("Kids", vec![Object::Integer(1)]);
    let mut over = Dictionary::new();
    over.set("Kids", vec![Object::Integer(2)]);
    overlay(&mut under, over);
    assert_eq!(under.get(b"Kids").unwrap().as_array().unwrap(), &vec![Object::Integer(2)]);
}

#[test]
fn places_of_pages() {
    let pages: Vec<ObjectId> = vec![(4, 0), (9, 0), (4, 1), (9, 0)];
    assert_eq!(position_of_page(&pages, (4, 0)), Some(0));
    assert_eq!(position_of_page(&pages, (9, 0)), Some(1));
    assert_eq!(position_of_page(&pages, (4, 1)), Some(2));
    assert_eq!(position_of_page(&pages, (5, 0)), None);
    assert_eq!(position_of_page(&Vec::new(), (4, 0)), None);
}

fn bookmark(title: &str, page: ObjectId) -> Bookmark {
    Bookmark {
        title: title.to_string(),
        color: Rgb { red: true, green: false, blue: true },
        format: 2,
        page,
    }
}

#[test]
fn bookmarks_follow_their_pages() {
    let before: Vec<ObjectId> = vec![(10, 0), (20, 0), (30, 0)];
    let after: Vec<ObjectId> = vec![(1, 0), (2, 0)];
    let moved = retarget(
        vec![
            bookmark("a", (20, 0)),
            bookmark("b", (10, 0)),
            bookmark("c", (30, 0)),
            bookmark("d", (0, 0)),
            bookmark("e", (11, 0)),
        ],
        &before,
        &after,
    );
    let targets: Vec<ObjectId> = moved.iter().map(|b| b.page).collect();
    assert_eq!(targets, vec![(2, 0), (1, 0), (0, 0), (0, 0), (0, 0)]);
    let titles: Vec<&str> = moved.iter().map(|b| b.title.as_str()).collect();
    assert_eq!(titles, vec!["a", "b", "c", "d", "e"]);
    assert!(moved.iter().all(|b| b.format == 2 && b.color.red && !b.color.green));
}

#[test]
fn references_to_pages() {
    let kids = page_references(&vec![(3, 0), (1, 2)]);
    assert_eq!(kids, vec![Object::Reference((3, 0)), Object::Reference((1, 2))]);
    assert!(page_references(&Vec::new()).is_empty());
}

#[test]
fn loaded_document_accessors() {
    let doc = small_document();
    let max_id = doc.max_id;
    let loaded = MergableDocument::from_document("small.pdf", doc.clone());
    assert_eq!(loaded.get_max_id(), max_id);
    assert_eq!(loaded.object_count(), 4);
    assert_eq!(loaded.bookmark_count(), 0);
    let objects = loaded.get_objects();
    let ids: Vec<ObjectId> = objects.iter().map(|o| o.0).collect();
    assert_eq!(ids, vec![(1, 0), (2, 0), (3, 0), (4, 0)]);
    for (id, object) in objects.iter() {
        assert_eq!(object, &doc.objects[id]);
    }
    let pages = loaded.get_pages();
    assert_eq!(pages.len(), 1);
    assert_eq!(pages[0].0, (3, 0));
    assert_eq!(pages[0].1, doc.objects[&(3, 0)]);
    assert_eq!(loaded.get_first_page_id(), (3, 0));
    let bookmark = loaded.get_filename_based_bookmark((3, 0));
    assert_eq!(bookmark.title, "small.pdf");
    assert_eq!(bookmark.page, (3, 0));
    assert_eq!(bookmark.format, 0);
    assert_eq!(bookmark.color, Rgb { red: false, green: false, blue: true });
    assert!(holds_id(&pages, (3, 0)));
    assert!(!holds_id(&pages, (3, 1)));
    assert_eq!(loaded.into_document().objects, doc.objects);
}

#[test]
fn renumbering_shifts_the_identifiers() {
    let mut loaded = MergableDocument::from_document("small.pdf", small_document());
    loaded.renumber(11);
    let ids: Vec<ObjectId> = loaded.get_objects().iter().map(|o| o.0).collect();
    assert_eq!(ids, vec![(11, 0), (12, 0), (13, 0), (14, 0)]);
    assert_eq!(loaded.get_max_id(), 14);
    assert_eq!(loaded.renumber(21).get_first_page_id(), (23, 0));
    assert_eq!(loaded.try_renumber(5), Some(9));
    assert_eq!(loaded.get_first_page_id(), (7, 0));
    let pages = loaded.get_pages();
    let parent = match &pages[0].1 {
        Object::Dictionary(page) => page.get(b"Parent").unwrap().as_reference().unwrap(),
        _ => panic!("a page is a dictionary"),
    };
    assert_eq!(parent, (5, 0));
}

#[test]
fn renumbering_stops_at_the_last_number() {
    let mut loaded = MergableDocument::from_document("small.pdf", small_document());
    assert_eq!(loaded.try_renumber(0), None);
    assert_eq!(loaded.try_renumber(u32::MAX - 3), None);
    assert_eq!(loaded.try_renumber(u32::MAX), None);
    let ids: Vec<ObjectId> = loaded.get_objects().iter().map(|o| o.0).collect();
    assert_eq!(ids, vec![(1, 0), (2, 0), (3, 0), (4, 0)]);
    assert_eq!(loaded.try_renumber(u32::MAX - 4), Some(u32::MAX));
    assert_eq!(loaded.get_max_id(), u32::MAX - 1);
}

#[test]
fn a_document_without_pages_has_no_first_page() {
    let loaded = MergableDocument::from_document("none.pdf", Document::with_version("1.5"));
    assert_eq!(loaded.get_first_page_id(), (0, 0));
    assert!(loaded.get_pages().is_empty());
    assert!(loaded.get_objects().is_empty());
    assert_eq!(loaded.object_count(), 0);
}

#[test]
fn a_page_behind_a_reference_is_followed() {
    let mut doc = small_document();
    let root = (1, 0);
    let alias = doc.add_object(Object::Reference((3, 0)));
    doc.get_dictionary_mut(root)
        .unwrap()
        .set("Kids", vec![Object::from(alias)]);
    let loaded = MergableDocument::from_document("alias.pdf", doc.clone());
    let pages = loaded.get_pages();
    assert_eq!(pages.len(), 1);
    assert_eq!(pages[0].0, alias);
    assert_eq!(pages[0].1, doc.objects[&(3, 0)]);
}

#[test]
fn laid_out_document() {
    let path = format!("dir{}small.pdf", std::path::MAIN_SEPARATOR);
    let loaded = LoadedDocument::from_document(&path, small_document());
    assert_eq!(loaded.original_filename, "small.pdf");
    assert_eq!(loaded.filepath, path);
    assert_eq!(loaded.objects.len(), 4);
    assert_eq!(loaded.pages.len(), 1);
    assert_eq!(loaded.bookmark.title, "small.pdf");
    assert_eq!(loaded.bookmark.page, (3, 0));
    let source = loaded.into_mergable();
    assert_eq!(source.get_first_page_id(), (3, 0));
    assert_eq!(source.get_filename_based_bookmark((0, 0)).title, "small.pdf");
}

fn listed(doc: &Document) -> Vec<(ObjectId, Object)> {
    doc.objects.iter().map(|(id, object)| (*id, object.clone())).collect()
}

#[test]
fn classification_pass() {
    let mut objects = listed(&small_document());
    let mut second_root = typed("Pages");
    second_root.set("Rotate", 90);
    second_root.set("Count", 5);
    objects.push(((5, 0), Object::Dictionary(second_root)));
    let mut second_catalog = typed("Catalog");
    second_catalog.set("Lang", Object::string_literal("en"));
    objects.push(((6, 0), Object::Dictionary(second_catalog)));
    objects.push(((7, 0), Object::Dictionary(typed("Outlines"))));
    objects.push(((8, 0), Object::Dictionary(typed("Outline"))));
    objects.push(((9, 0), Object::Integer(42)));
    objects.push(((10, 0), Object::Stream(Stream::new(typed("Pages"), vec![]))));

    let mut target = Document::with_version("1.5");
    let roots = process_documents_objects(&mut target, objects).ok().unwrap();
    let kept: Vec<ObjectId> = target.objects.keys().cloned().collect();
    assert_eq!(kept, vec![(2, 0), (9, 0)]);
    assert_eq!(target.objects[&(9, 0)], Object::Integer(42));
    assert_eq!(roots.root_catalog_object.0, (4, 0));
    assert!(roots.root_catalog_object.1.as_dict().unwrap().get(b"Lang").is_err());
    assert_eq!(roots.root_page_object.0, (1, 0));
    let root = &roots.root_page_object.1;
    assert_eq!(root.get(b"Count").unwrap().as_i64().unwrap(), 1);
    assert_eq!(root.get(b"Rotate").unwrap().as_i64().unwrap(), 90);
    assert_eq!(root.get(b"Kids").unwrap().as_array().unwrap().len(), 1);
}

#[test]
fn classification_pass_without_roots() {
    let mut target = Document::with_version("1.5");
    let outcome = process_documents_objects(&mut target, vec![((1, 0), Object::Integer(1))]);
    assert!(matches!(outcome, Err(MergeError::PagesRootNotFound)));
    assert_eq!(target.objects.len(), 1);
    let outcome = process_documents_objects(
        &mut target,
        vec![((2, 0), Object::Dictionary(typed("Pages")))],
    );
    assert!(matches!(outcome, Err(MergeError::CatalogRootNotFound)));
    let outcome = process_documents_objects(
        &mut target,
        vec![((3, 0), Object::Dictionary(typed("Catalog")))],
    );
    assert!(matches!(outcome, Err(MergeError::PagesRootNotFound)));
    let outcome = process_documents_objects(
        &mut target,
        vec![((4, 0), Object::Stream(Stream::new(typed("Pages"), vec![])))],
    );
    assert!(matches!(outcome, Err(MergeError::PagesRootNotFound)));
}

#[test]
fn pages_get_their_parent() {
    let mut target = Document::with_version("1.5");
    let mut page = typed("Page");
    page.set("Parent", Object::Reference((77, 0)));
    let pages = vec![
        ((3, 0), Object::Dictionary(page)),
        ((5, 0), Object::Integer(1)),
        ((4, 0), Object::Dictionary(Dictionary::new())),
    ];
    let ids = insert_pages(&mut target, pages, (9, 0));
    assert_eq!(ids, vec![(3, 0), (5, 0), (4, 0)]);
    let kept: Vec<ObjectId> = target.objects.keys().cloned().collect();
    assert_eq!(kept, vec![(3, 0), (4, 0)]);
    for id in kept {
        let parent = target.get_dictionary(id).unwrap().get(b"Parent").unwrap();
        assert_eq!(parent.as_reference().unwrap(), (9, 0));
    }
    assert!(target.get_dictionary((3, 0)).unwrap().has_type(b"Page"));
}

#[test]
fn root_reconciliation() {
    let mut target = Document::with_version("1.5");
    let mut catalog = typed("Catalog");
    catalog.set("Outlines", Object::Reference((99, 0)));
    catalog.set("Lang", Object::string_literal("en"));
    let mut root = typed("Pages");
    root.set("Count", 40);
    root.set("Rotate", 90);
    let outcome = update_document_hierarchy(
        &mut target,
        ((40, 0), root),
        ((50, 0), Object::Dictionary(catalog)),
        &vec![(30, 0), (31, 0)],
    );
    assert!(outcome.is_ok());
    let kept: Vec<ObjectId> = target.objects.keys().cloned().collect();
    assert_eq!(kept, vec![(40, 0), (50, 0)]);
    assert_eq!(target.trailer.get(b"Root").unwrap().as_reference().unwrap(), (50, 0));
    let catalog = target.get_dictionary((50, 0)).unwrap();
    assert_eq!(catalog.get(b"Pages").unwrap().as_reference().unwrap(), (40, 0));
    assert!(!catalog.has(b"Outlines"));
    assert!(catalog.has(b"Lang"));
    assert!(catalog.has_type(b"Catalog"));
    let root = target.get_dictionary((40, 0)).unwrap();
    assert_eq!(root.get(b"Count").unwrap().as_i64().unwrap(), 2);
    assert_eq!(root.get(b"Rotate").unwrap().as_i64().unwrap(), 90);
    assert_eq!(
        root.get(b"Kids").unwrap().as_array().unwrap(),
        &vec![Object::Reference((30, 0)), Object::Reference((31, 0))]
    );
    assert_eq!(target.max_id, 0);
}

#[test]
fn root_reconciliation_refuses_a_catalog_that_is_no_dictionary() {
    let mut target = Document::with_version("1.5");
    target.objects.insert((1, 0), Object::Integer(1));
    let outcome = update_document_hierarchy(
        &mut target,
        ((40, 0), typed("Pages")),
        ((50, 0), Object::Integer(1)),
        &vec![],
    );
    assert!(matches!(outcome, Err(MergeError::StructuralInconsistency)));
    assert_eq!(target.objects.len(), 1);
    assert!(target.trailer.is_empty());
}

fn with_circular_bookmark() -> Document {
    let mut doc = small_document();
    let mut circular = lopdf::Bookmark::new("round".to_string(), [0.0, 0.0, 0.0], 0, (3, 0));
    circular.children.push(1);
    doc.add_bookmark(circular, None);
    doc
}

#[test]
fn a_document_with_bookmarks_is_not_renumbered() {
    let mut loaded = MergableDocument::from_document("round.pdf", with_circular_bookmark());
    assert_eq!(loaded.bookmark_count(), 1);
    assert_eq!(loaded.try_renumber(10), None);
    let ids: Vec<ObjectId> = loaded.get_objects().iter().map(|o| o.0).collect();
    assert_eq!(ids, vec![(1, 0), (2, 0), (3, 0), (4, 0)]);
    let mut flat = small_document();
    flat.add_bookmark(
        lopdf::Bookmark::new("flat".to_string(), [0.0, 0.0, 0.0], 0, (3, 0)),
        None,
    );
    let mut loaded = MergableDocument::from_document("flat.pdf", flat);
    assert_eq!(loaded.try_renumber(10), None);
}

#[test]
fn a_source_with_bookmarks_is_refused() {
    let result = merge_documents(
        vec![
            MergableDocument::from_document("a.pdf", small_document()),
            MergableDocument::from_document("round.pdf", with_circular_bookmark()),
        ],
        false,
    );
    assert!(matches!(result, Err(MergeError::IdSpaceExhausted)));
}

#[test]
fn single_roots_are_counted() {
    let doc = small_document();
    assert!(has_single_roots(&doc));
    let mut two_catalogs = small_document();
    two_catalogs.add_object(typed("Catalog"));
    assert!(!has_single_roots(&two_catalogs));
    let mut two_nodes = small_document();
    two_nodes.add_object(Stream::new(typed("Pages"), vec![]));
    assert!(!has_single_roots(&two_nodes));
    let mut no_catalog = small_document();
    no_catalog.objects.remove(&(4, 0));
    assert!(!has_single_roots(&no_catalog));
    assert!(!has_single_roots(&Document::with_version("1.5")));
}

fn roots_found(document: &Document) -> bool {
    find_placed_root(document).is_some()
}

#[test]
fn roots_are_looked_up_from_the_trailer() {
    assert!(roots_found(&small_document()));
    let mut no_root = small_document();
    no_root.trailer.remove(b"Root");
    assert!(!roots_found(&no_root));
    let mut direct = small_document();
    direct.trailer.set("Root", 4);
    assert!(!roots_found(&direct));
    let mut dangling = small_document();
    dangling.trailer.set("Root", Object::Reference((40, 0)));
    assert!(!roots_found(&dangling));
    let mut wrong_kind = small_document();
    wrong_kind.trailer.set("Root", Object::Reference((1, 0)));
    assert!(!roots_found(&wrong_kind));
    let mut no_pages = small_document();
    no_pages.get_dictionary_mut((4, 0)).unwrap().remove(b"Pages");
    assert!(!roots_found(&no_pages));
    let mut pages_elsewhere = small_document();
    pages_elsewhere
        .get_dictionary_mut((4, 0))
        .unwrap()
        .set("Pages", Object::Reference((3, 0)));
    assert!(!roots_found(&pages_elsewhere));
    let mut behind_a_reference = small_document();
    let alias = behind_a_reference.add_object(Object::Reference((4, 0)));
    behind_a_reference.trailer.set("Root", alias);
    assert!(roots_found(&behind_a_reference));
}

#[test]
fn equal_page_lists() {
    assert!(same_pages(&vec![], &vec![]));
    assert!(same_pages(&vec![(1, 0), (2, 3)], &vec![(1, 0), (2, 3)]));
    assert!(!same_pages(&vec![(1, 0), (2, 3)], &vec![(1, 0), (2, 4)]));
    assert!(!same_pages(&vec![(1, 0), (2, 3)], &vec![(2, 3), (1, 0)]));
    assert!(!same_pages(&vec![(1, 0)], &vec![(1, 0), (2, 3)]));
}

#[test]
fn pages_are_looked_up_under_the_root() {
    let doc = small_document();
    assert_eq!(find_placed_root(&doc), Some((1, 0)));
    assert!(has_pages_in_place(&doc));
    let mut elsewhere = small_document();
    elsewhere
        .get_dictionary_mut((3, 0))
        .unwrap()
        .set("Parent", Object::Reference((4, 0)));
    assert!(!has_pages_in_place(&elsewhere));
    let mut orphan = small_document();
    orphan.get_dictionary_mut((3, 0)).unwrap().remove(b"Parent");
    assert!(!has_pages_in_place(&orphan));
    let mut rootless = small_document();
    rootless.trailer.remove(b"Root");
    assert_eq!(find_placed_root(&rootless), None);
    assert!(!has_pages_in_place(&rootless));
    let mut stray = small_document();
    let number = stray.add_object(Object::Integer(7));
    stray
        .get_dictionary_mut((1, 0))
        .unwrap()
        .set("Kids", vec![Object::Reference((3, 0)), Object::Reference(number)]);
    assert!(has_pages_in_place(&stray));
}

fn outlined_document(pages: &[ObjectId]) -> Document {
    let mut doc = small_document();
    for page in pages {
        doc.add_bookmark(
            lopdf::Bookmark::new("entry".to_string(), [0.0, 0.0, 1.0], 0, *page),
            None,
        );
    }
    if let Some(outline) = doc.build_outline() {
        doc.get_dictionary_mut((4, 0))
            .unwrap()
            .set("Outlines", Object::Reference(outline));
    }
    doc
}

#[test]
fn the_outline_is_walked() {
    let doc = outlined_document(&[(3, 0), (0, 0), (3, 0)]);
    assert_eq!(find_first_entry(&doc), Some((6, 0)));
    assert!(outline_leads_to(&doc, &vec![(3, 0), (0, 0), (3, 0)]));
    assert!(!outline_leads_to(&doc, &vec![(3, 0), (0, 0)]));
    assert!(!outline_leads_to(&doc, &vec![(3, 0), (0, 0), (3, 0), (3, 0)]));
    assert!(!outline_leads_to(&doc, &vec![(3, 0), (3, 0), (0, 0)]));
    assert!(outline_leads_to(&doc, &vec![]));
    let plain = small_document();
    assert_eq!(find_first_entry(&plain), None);
    assert!(outline_leads_to(&plain, &vec![]));
    assert!(!outline_leads_to(&plain, &vec![(3, 0)]));
}

#[test]
fn an_outline_with_children_is_not_flat() {
    let mut doc = small_document();
    let parent = doc.add_bookmark(
        lopdf::Bookmark::new("parent".to_string(), [0.0, 0.0, 1.0], 0, (3, 0)),
        None,
    );
    doc.add_bookmark(
        lopdf::Bookmark::new("child".to_string(), [0.0, 0.0, 1.0], 0, (3, 0)),
        Some(parent),
    );
    let outline = doc.build_outline().unwrap();
    doc.get_dictionary_mut((4, 0))
        .unwrap()
        .set("Outlines", Object::Reference(outline));
    assert!(!outline_leads_to(&doc, &vec![(3, 0)]));
}

#[test]
fn targets_of_bookmarks() {
    let targets = bookmark_targets(&vec![bookmark("a", (3, 0)), bookmark("b", (0, 0))]);
    assert_eq!(targets, vec![(3, 0), (0, 0)]);
    assert!(bookmark_targets(&Vec::new()).is_empty());
}
