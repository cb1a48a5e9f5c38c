use ebook_library::{detect_format, BookType, LibraryError};

#[test]
fn recognised_extensions_are_typed() {
    assert_eq!(detect_format("notes.txt"), Ok(BookType::Text));
    assert_eq!(detect_format("/home/me/books/novel.epub"), Ok(BookType::Epub));
    assert_eq!(detect_format("old/legacy.mobi"), Ok(BookType::Mobi));
}

#[test]
fn other_extensions_are_unsupported() {
    assert_eq!(detect_format("paper.pdf"), Err(LibraryError::UnsupportedFormat));
    assert_eq!(detect_format("NOTES.TXT"), Err(LibraryError::UnsupportedFormat));
    assert_eq!(detect_format("archive.txt.gz"), Err(LibraryError::UnsupportedFormat));
}

#[test]
fn missing_extension_is_unsupported() {
    assert_eq!(detect_format("README"), Err(LibraryError::UnsupportedFormat));
    assert_eq!(detect_format(""), Err(LibraryError::UnsupportedFormat));
    assert_eq!(detect_format("dir.epub/file"), Err(LibraryError::UnsupportedFormat));
    assert_eq!(detect_format("shelf/.txt"), Err(LibraryError::UnsupportedFormat));
    assert_eq!(detect_format("name."), Err(LibraryError::UnsupportedFormat));
}

#[test]
fn only_the_last_extension_counts() {
    assert_eq!(detect_format("a.pdf.txt"), Ok(BookType::Text));
    assert_eq!(detect_format("v1.2/book.epub"), Ok(BookType::Epub));
}
