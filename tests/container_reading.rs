use std::io::Cursor;

use ebook_library::{
    checksum, extract_epub_cover, extract_epub_metadata, extract_epub_text, prepare_book,
    read_book_content, BookData, BookType, Container, CoverRef, DecodePolicy,
};

fn push_u16(out: &mut Vec<u8>, v: u16) {
    out.extend_from_slice(&v.to_le_bytes());
}

fn push_u32(out: &mut Vec<u8>, v: u32) {
    out.extend_from_slice(&v.to_le_bytes());
}

/// A zip archive with every entry stored uncompressed.
fn stored_zip(entries: &[(&str, &[u8])]) -> Vec<u8> {
    let mut out = Vec::new();
    let mut central = Vec::new();
    for (name, data) in entries {
        let offset = out.len() as u32;
        let crc = checksum(data);
        push_u32(&mut out, 0x0403_4b50);
        push_u16(&mut out, 20);
        push_u16(&mut out, 0);
        push_u16(&mut out, 0);
        push_u16(&mut out, 0);
        push_u16(&mut out, 0x21);
        push_u32(&mut out, crc);
        push_u32(&mut out, data.len() as u32);
        push_u32(&mut out, data.len() as u32);
        push_u16(&mut out, name.len() as u16);
        push_u16(&mut out, 0);
        out.extend_from_slice(name.as_bytes());
        out.extend_from_slice(data);

        push_u32(&mut central, 0x0201_4b50);
        push_u16(&mut central, 20);
        push_u16(&mut central, 20);
        push_u16(&mut central, 0);
        push_u16(&mut central, 0);
        push_u16(&mut central, 0);
        push_u16(&mut central, 0x21);
        push_u32(&mut central, crc);
        push_u32(&mut central, data.len() as u32);
        push_u32(&mut central, data.len() as u32);
        push_u16(&mut central, name.len() as u16);
        push_u16(&mut central, 0);
        push_u16(&mut central, 0);
        push_u16(&mut central, 0);
        push_u16(&mut central, 0);
        push_u32(&mut central, 0);
        push_u32(&mut central, offset);
        central.extend_from_slice(name.as_bytes());
    }
    let central_offset = out.len() as u32;
    let central_size = central.len() as u32;
    out.extend_from_slice(&central);
    push_u32(&mut out, 0x0605_4b50);
    push_u16(&mut out, 0);
    push_u16(&mut out, 0);
    push_u16(&mut out, entries.len() as u16);
    push_u16(&mut out, entries.len() as u16);
    push_u32(&mut out, central_size);
    push_u32(&mut out, central_offset);
    push_u16(&mut out, 0);
    out
}

const CONTAINER_XML: &str = "<?xml version=\"1.0\"?><container version=\"1.0\" xmlns=\"urn:oasis:names:tc:opendocument:xmlns:container\"><rootfiles><rootfile full-path=\"OEBPS/content.opf\" media-type=\"application/oebps-package+xml\"/></rootfiles></container>";

const CHAPTER: &str = "<html><body><p>Hello</p></body></html>";

const COVER: [u8; 3] = [0xFF, 0xD8, 0xFF];

fn package(metadata: &str) -> String {
    format!(
        "<?xml version=\"1.0\" encoding=\"UTF-8\"?><package xmlns=\"http://www.idpf.org/2007/opf\" version=\"2.0\" unique-identifier=\"uid\"><metadata xmlns:dc=\"http://purl.org/dc/elements/1.1/\" xmlns:opf=\"http://www.idpf.org/2007/opf\">{}<dc:identifier id=\"uid\">x1</dc:identifier></metadata><manifest><item id=\"ch1\" href=\"ch1.xhtml\" media-type=\"application/xhtml+xml\"/><item id=\"cover-img\" href=\"cover.jpg\" media-type=\"image/jpeg\"/></manifest><spine><itemref idref=\"ch1\"/></spine></package>",
        metadata
    )
}

fn book_bytes(metadata: &str) -> Vec<u8> {
    let opf = package(metadata);
    stored_zip(&[
        ("mimetype", b"application/epub+zip"),
        ("META-INF/container.xml", CONTAINER_XML.as_bytes()),
        ("OEBPS/content.opf", opf.as_bytes()),
        ("OEBPS/ch1.xhtml", CHAPTER.as_bytes()),
        ("OEBPS/cover.jpg", &COVER),
    ])
}

fn open(bytes: &[u8]) -> Container {
    Container { doc: epub::doc::EpubDoc::from_reader(Cursor::new(bytes.to_vec())).unwrap() }
}

const FULL_METADATA: &str = "<dc:title>Container Title</dc:title><dc:creator>Container Author</dc:creator><meta name=\"cover\" content=\"cover-img\"/>";

#[test]
fn container_metadata_and_cover_are_read() {
    let mut c = open(&book_bytes(FULL_METADATA));
    let m = extract_epub_metadata(&mut c);
    assert_eq!(m.title, "Container Title");
    assert_eq!(m.author, "Container Author");
    assert_eq!(m.cover.as_deref(), Some("data:image/jpeg;base64,/9j/"));
}

#[test]
fn absent_container_fields_become_placeholders() {
    let mut c = open(&book_bytes(""));
    let m = extract_epub_metadata(&mut c);
    assert_eq!(m.title, "Unknown Title");
    assert_eq!(m.author, "Unknown Author");
    assert!(m.cover.is_none());
    assert!(extract_epub_cover(&mut c).is_none());
}

#[test]
fn container_text_is_rendered_from_textual_resources() {
    let mut c = open(&book_bytes(FULL_METADATA));
    assert_eq!(extract_epub_text(&mut c), "\nHello\n");
}

#[test]
fn container_fills_only_missing_caller_values() {
    let bytes = book_bytes(FULL_METADATA);
    let data = BookData { title: "".to_string(), author: "Me".to_string(), file_path: "b.epub".to_string() };
    let p = prepare_book(data, Some(bytes.clone()), Some(open(&bytes))).unwrap();
    assert_eq!(p.file_type, BookType::Epub);
    assert_eq!(p.title, "Container Title");
    assert_eq!(p.author, "Me");
    assert!(matches!(p.cover, Some(CoverRef::Inline(ref s)) if s == "data:image/jpeg;base64,/9j/"));
    assert_eq!(p.checksum, checksum(&bytes));
}

#[test]
fn container_content_is_read_through_dispatch() {
    let bytes = book_bytes(FULL_METADATA);
    let r = read_book_content("b.epub", &bytes, DecodePolicy::Strict, Some(open(&bytes)));
    assert_eq!(r, Ok("\nHello\n".to_string()));
}

#[test]
fn known_author_and_cover_skip_lookup_and_keep_inline_cover() {
    let bytes = book_bytes(FULL_METADATA);
    let mut registry = ebook_library::LibraryRegistry::new();
    let calls = std::cell::Cell::new(0u32);
    let data = BookData { title: "".to_string(), author: "".to_string(), file_path: "b.epub".to_string() };
    let b = ebook_library::ingest_book(&mut registry, data, Some(bytes.clone()), Some(open(&bytes)), |_t: &String| {
        calls.set(calls.get() + 1);
        None
    })
    .unwrap();
    assert_eq!(calls.get(), 0);
    assert_eq!(b.title, "Container Title");
    assert_eq!(b.author, "Container Author");
    assert!(matches!(b.cover, Some(CoverRef::Inline(ref s)) if s == "data:image/jpeg;base64,/9j/"));
}

#[test]
fn repeated_metadata_reading_agrees() {
    let mut c = open(&book_bytes(FULL_METADATA));
    let a = extract_epub_metadata(&mut c);
    let b = extract_epub_metadata(&mut c);
    assert_eq!(a.title, b.title);
    assert_eq!(a.author, b.author);
    assert_eq!(a.cover, b.cover);
}
