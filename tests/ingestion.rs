use std::cell::Cell;

use ebook_library::{
    checksum, ingest_book, prepare_book, read_book_content, BookData, BookSearchResult, BookType,
    CoverRef, DecodePolicy, LibraryError, LibraryRegistry,
};

fn request(title: &str, author: &str, path: &str) -> BookData {
    BookData { title: title.to_string(), author: author.to_string(), file_path: path.to_string() }
}

#[test]
fn missing_file_is_not_found() {
    let r = prepare_book(request("T", "A", "gone.txt"), None, None);
    assert_eq!(r.err(), Some(LibraryError::NotFound));
    let r = prepare_book(request("T", "A", "gone.pdf"), None, None);
    assert_eq!(r.err(), Some(LibraryError::NotFound));
}

#[test]
fn each_supported_extension_tags_the_record() {
    for (path, t) in [("a.txt", BookType::Text), ("a.epub", BookType::Epub), ("a.mobi", BookType::Mobi)] {
        let p = prepare_book(request("T", "A", path), Some(b"data".to_vec()), None).unwrap();
        assert_eq!(p.file_type, t);
    }
}

#[test]
fn unsupported_extension_fails_ingestion() {
    let r = prepare_book(request("T", "A", "scan.pdf"), Some(b"%PDF".to_vec()), None);
    assert_eq!(r.err(), Some(LibraryError::UnsupportedFormat));
}

#[test]
fn same_bytes_give_same_checksum_on_any_path() {
    let bytes = b"the same content".to_vec();
    let a = prepare_book(request("A", "X", "one/a.txt"), Some(bytes.clone()), None).unwrap();
    let b = prepare_book(request("B", "Y", "two/b.mobi"), Some(bytes.clone()), None).unwrap();
    assert_eq!(a.checksum, b.checksum);
    assert_eq!(a.checksum, checksum(&bytes));
}

#[test]
fn unopened_container_keeps_caller_metadata() {
    let p = prepare_book(request("Mine", "Me", "book.epub"), Some(vec![0u8; 4]), None).unwrap();
    assert_eq!(p.title, "Mine");
    assert_eq!(p.author, "Me");
    assert!(p.cover.is_none());
}

#[test]
fn diary_text_file_triggers_lookup_for_empty_author() {
    let mut registry = LibraryRegistry::new();
    let calls = Cell::new(0u32);
    let book = ingest_book(
        &mut registry,
        request("Diary", "", "notes.txt"),
        Some(b"dear diary".to_vec()),
        None,
        |title: &String| {
            calls.set(calls.get() + 1);
            assert_eq!(title, "Diary");
            None
        },
    )
    .unwrap();
    assert_eq!(book.file_type, BookType::Text);
    assert_eq!(calls.get(), 1);
    assert_eq!(book.title, "Diary");
    assert_eq!(registry.len(), 1);
}

#[test]
fn ingested_book_gets_remote_cover_and_is_stored() {
    let mut registry = LibraryRegistry::new();
    let book = ingest_book(
        &mut registry,
        request("Dune", "Herbert", "dune.txt"),
        Some(b"spice".to_vec()),
        None,
        |_t: &String| {
            Some(BookSearchResult {
                title: "Dune".to_string(),
                author: "Frank Herbert".to_string(),
                cover_url: Some("https://c.example/d.jpg".to_string()),
                description: None,
            })
        },
    )
    .unwrap();
    assert_eq!(book.author, "Herbert");
    assert!(matches!(book.cover, Some(CoverRef::Url(ref u)) if u == "https://c.example/d.jpg"));
    assert!(!book.id.is_empty());
    assert!(!book.created_at.is_empty());
    assert_eq!(book.last_read, None);
    let stored = registry.get(&book.id).unwrap();
    assert_eq!(stored.title, "Dune");
}

#[test]
fn failed_ingestion_leaves_registry_unchanged() {
    let mut registry = LibraryRegistry::new();
    let r = ingest_book(&mut registry, request("T", "A", "x.doc"), Some(vec![1]), None, |_t: &String| None);
    assert_eq!(r.err(), Some(LibraryError::UnsupportedFormat));
    assert_eq!(registry.len(), 0);
}

#[test]
fn content_of_text_book_is_decoded() {
    let r = read_book_content("n.txt", "hi".as_bytes(), DecodePolicy::Strict, None);
    assert_eq!(r, Ok("hi".to_string()));
    let r = read_book_content("n.txt", &[0xC3], DecodePolicy::Lossy, None);
    assert_eq!(r, Ok("\u{FFFD}".to_string()));
}

#[test]
fn content_of_other_types() {
    assert_eq!(read_book_content("b.mobi", &[1], DecodePolicy::Lossy, None), Err(LibraryError::UnsupportedFormat));
    assert_eq!(read_book_content("b.pdf", &[1], DecodePolicy::Lossy, None), Err(LibraryError::UnsupportedFormat));
    assert_eq!(read_book_content("b.epub", &[1], DecodePolicy::Lossy, None), Err(LibraryError::ParseError));
}
