use vstd::prelude::*;

use crate::codec::{checksum, crc32_of};
use crate::container::{extract_epub_metadata, read_from, Container};
use crate::format::{detect_format, type_of_path, BookType, LibraryError};
use crate::metadata::{
    is_missing, lookup_due, merge_metadata, merged, resolve_online, unknown_author, unknown_title,
    with_search_result, BookSearchResult, EpubMetadata, PreparedBook,
};
use crate::registry::{position_of, record_of, Book, LibraryRegistry};

verus! {

/// What a caller asks to import: a title and an author, either of which
/// may be empty, and the file's path.
#[derive(Debug)]
pub struct BookData {
    pub title: String,
    pub author: String,
    pub file_path: String,
}

/// The prepared book for a request, a file type, the file's bytes and what
/// the container gave, if it was read.
pub open spec fn prepared_with(
    data: BookData,
    file_type: BookType,
    bytes: Seq<u8>,
    found: Option<EpubMetadata>,
) -> PreparedBook {
    let m = merged(data.title, data.author, found);
    PreparedBook {
        title: m.0,
        author: m.1,
        file_path: data.file_path,
        file_type,
        cover: m.2,
        checksum: crc32_of(bytes),
    }
}

/// What the container reading gave: the reading of the container for an
/// opened container of an e-book file, nothing otherwise.
pub open spec fn found_from(
    file_type: BookType,
    container: Option<Container>,
    found: Option<EpubMetadata>,
) -> bool {
    match container {
        Some(c) => if file_type == BookType::Epub {
            found matches Some(m) && read_from(c, m)
        } else {
            found is None
        },
        None => found is None,
    }
}

/// What the remote lookup gave: what `lookup` returned for the title when
/// the lookup is due, nothing when it is not.
pub open spec fn remote_from<F: Fn(&String) -> Option<BookSearchResult>>(
    lookup: F,
    book: PreparedBook,
    remote: Option<BookSearchResult>,
) -> bool {
    if lookup_due(book.author@, book.cover) {
        lookup.ensures((&book.title,), remote)
    } else {
        remote is None
    }
}

/// Checks and enriches an import request. `contents` holds the file's bytes,
/// `None` when the file does not exist; `container` holds the opened
/// container, `None` when it could not be opened. A missing file gives
/// `NotFound`; then an unrecognised extension gives `UnsupportedFormat`.
/// Otherwise the book is typed by its extension and checksummed, and for a
/// container whose metadata could be read, missing title and author are
/// filled from it and its cover is taken.
pub fn prepare_book(data: BookData, contents: Option<Vec<u8>>, container: Option<Container>) -> (r:
    Result<PreparedBook, LibraryError>)
    ensures
        contents is None ==> r == Err::<PreparedBook, LibraryError>(LibraryError::NotFound),
        contents is Some && type_of_path(data.file_path@) is None ==> r == Err::<
            PreparedBook,
            LibraryError,
        >(LibraryError::UnsupportedFormat),
        contents matches Some(bytes) ==> match type_of_path(data.file_path@) {
            Some(t) => r matches Ok(p) && p.file_type == t && p.checksum == crc32_of(bytes@)
                && exists|found: Option<EpubMetadata>|
                found_from(t, container, found) && p == prepared_with(data, t, bytes@, found),
            None => true,
        },
{
    let bytes = match contents {
        Some(b) => b,
        None => {
            return Err(LibraryError::NotFound);
        },
    };
    let file_type = match detect_format(data.file_path.as_str()) {
        Ok(t) => t,
        Err(e) => {
            return Err(e);
        },
    };
    let sum = checksum(bytes.as_slice());
    let ghost given = container;
    let found = match (file_type, container) {
        (BookType::Epub, Some(mut c)) => Some(extract_epub_metadata(&mut c)),
        _ => None,
    };
    let ghost found_v = found;
    assert(found_from(file_type, given, found_v));
    let (title, author, cover) = merge_metadata(data.title, data.author, found);
    let r = PreparedBook { title, author, file_path: data.file_path, file_type, cover, checksum: sum };
    assert(r == prepared_with(data, file_type, bytes@, found_v));
    Ok(r)
}

/// Imports a book: prepares it, completes its metadata through `lookup`
/// when the author or the cover is still missing, and stores it under a
/// fresh id. Fails as `prepare_book` does, or with `DuplicateId` when the
/// generated id is taken; the catalogue changes only on success.
pub fn ingest_book<F: Fn(&String) -> Option<BookSearchResult>>(
    registry: &mut LibraryRegistry,
    data: BookData,
    contents: Option<Vec<u8>>,
    container: Option<Container>,
    lookup: F,
) -> (r: Result<Book, LibraryError>)
    requires
        old(registry).wf(),
        forall|t: &String| lookup.requires((t,)),
    ensures
        final(registry).wf(),
        contents is None ==> r == Err::<Book, LibraryError>(LibraryError::NotFound),
        contents is Some && type_of_path(data.file_path@) is None ==> r == Err::<Book, LibraryError>(
            LibraryError::UnsupportedFormat,
        ),
        contents is Some && type_of_path(data.file_path@) is Some ==> (r is Ok || r == Err::<
            Book,
            LibraryError,
        >(LibraryError::DuplicateId)),
        contents is Some && type_of_path(data.file_path@) is Some && old(registry)@.len() == 0
            ==> r is Ok,
        match r {
            Ok(b) => {
                &&& final(registry)@ == old(registry)@.push(b)
                &&& position_of(old(registry)@, b.id@) is None
                &&& contents matches Some(bytes) && type_of_path(data.file_path@) == Some(b.file_type)
                    && b.checksum == crc32_of(bytes@)
                &&& !is_missing(data.title@, unknown_title()) ==> b.title == data.title
                &&& !is_missing(data.author@, unknown_author()) ==> b.author == data.author
                &&& b.file_path == data.file_path
                &&& exists|found: Option<EpubMetadata>, remote: Option<BookSearchResult>, created_at: String|
                    {
                        &&& found_from(b.file_type, container, found)
                        &&& remote_from(
                            lookup,
                            prepared_with(data, b.file_type, contents->0@, found),
                            remote,
                        )
                        &&& b == record_of(
                            with_search_result(
                                prepared_with(data, b.file_type, contents->0@, found),
                                remote,
                            ),
                            b.id,
                            created_at,
                        )
                    }
            },
            Err(_) => final(registry)@ == old(registry)@,
        },
{
    let ghost d = data;
    let ghost given = container;
    let prepared = match prepare_book(data, contents, container) {
        Ok(p) => p,
        Err(e) => {
            return Err(e);
        },
    };
    let ghost p = prepared;
    // what the container gave, and what the lookup returned, if it was made
    let ghost found_w: Option<EpubMetadata> = choose|m: Option<EpubMetadata>|
        found_from(p.file_type, given, m) && p == prepared_with(d, p.file_type, contents->0@, m);
    let resolved = resolve_online(prepared, lookup);
    let ghost remote_w: Option<BookSearchResult> = if lookup_due(p.author@, p.cover) {
        choose|f: Option<BookSearchResult>|
            lookup.ensures((&p.title,), f) && resolved == with_search_result(p, f)
    } else {
        None
    };
    assert(resolved == with_search_result(p, remote_w));
    assert(remote_from(lookup, p, remote_w));
    let r = registry.insert(resolved);
    proof {
        if r is Ok {
            let b = r->Ok_0;
            let created_at = choose|c: String| b == record_of(resolved, b.id, c);
            assert(b == record_of(
                with_search_result(prepared_with(d, b.file_type, contents->0@, found_w), remote_w),
                b.id,
                created_at,
            ));
        }
    }
    r
}

/// The checksum of an import depends on the file's bytes alone: two
/// imports of the same bytes, under any paths, titles or container
/// readings, get the same checksum.
pub proof fn checksum_depends_on_bytes_alone(
    a: BookData,
    b: BookData,
    ta: BookType,
    tb: BookType,
    bytes: Seq<u8>,
    fa: Option<EpubMetadata>,
    fb: Option<EpubMetadata>,
)
    ensures
        prepared_with(a, ta, bytes, fa).checksum == prepared_with(b, tb, bytes, fb).checksum,
{
}

/// A title or an author that the caller gave, non-empty and other than the
/// placeholder, is kept through the container reading and the remote lookup.
pub proof fn caller_metadata_is_kept(
    data: BookData,
    file_type: BookType,
    bytes: Seq<u8>,
    found: Option<EpubMetadata>,
    remote: Option<BookSearchResult>,
)
    ensures
        !is_missing(data.title@, unknown_title()) ==> with_search_result(
            prepared_with(data, file_type, bytes, found),
            remote,
        ).title == data.title,
        !is_missing(data.author@, unknown_author()) ==> with_search_result(
            prepared_with(data, file_type, bytes, found),
            remote,
        ).author == data.author,
{
}

/// The remote lookup is due exactly when the author is empty or the
/// placeholder, or no cover was resolved; when it is not due, its result,
/// whatever it is, changes nothing.
pub proof fn lookup_only_fills_gaps(book: PreparedBook, remote: Option<BookSearchResult>)
    ensures
        lookup_due(book.author@, book.cover) <==> (book.author@.len() == 0 || book.author@
            == unknown_author() || book.cover is None),
        !lookup_due(book.author@, book.cover) ==> with_search_result(book, remote) == book,
{
}

} // verus!
