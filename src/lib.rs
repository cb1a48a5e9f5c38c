//! Core of an e-book reader: format detection, metadata resolution,
//! plain-text rendering of book markup, an in-memory catalogue of books and
//! a store of per-book reading progress.

mod codec;
mod container;
mod format;
mod ingest;
mod markup;
mod metadata;
mod progress;
mod registry;
mod text;

pub use codec::{checksum, decode_text, DecodePolicy};
pub use container::{
    extract_epub_cover, extract_epub_metadata, extract_epub_text, read_book_content, render_sections,
    Container,
};
pub use format::{detect_format, BookType, LibraryError};
pub use ingest::{ingest_book, prepare_book, BookData};
pub use markup::{join_sections, render_markup_text, replace_block_tags, strip_tags};
pub use metadata::{
    apply_search_result, cover_data_uri, encode_cover, merge_metadata, needs_remote_lookup,
    resolve_online, title_and_author, unknown_author_string, unknown_title_string, BookSearchResult,
    CoverRef, EpubMetadata, PreparedBook,
};
pub use progress::{ProgressData, ReadingProgress, ReadingStatistics, COMPLETED_PERCENTAGE};
pub use registry::{Book, LibraryRegistry};
pub use text::{chars_of, string_of};
