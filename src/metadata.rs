use vstd::prelude::*;
use vstd::string::*;

use crate::codec::{base64_of, encode_base64};
use crate::format::BookType;

verus! {

/// Where a book's cover comes from.
#[derive(Debug)]
pub enum CoverRef {
    /// An image held inline as a base64 data URI.
    Inline(String),
    /// An image at an external URL.
    Url(String),
}

/// Title, author and cover read from a container.
#[derive(Debug)]
pub struct EpubMetadata {
    pub title: String,
    pub author: String,
    pub cover: Option<String>,
}

/// A candidate record found by the remote lookup service.
#[derive(Debug)]
pub struct BookSearchResult {
    pub title: String,
    pub author: String,
    pub cover_url: Option<String>,
    pub description: Option<String>,
}

/// A book whose metadata is resolved, before it gets an id.
#[derive(Debug)]
pub struct PreparedBook {
    pub title: String,
    pub author: String,
    pub file_path: String,
    pub file_type: BookType,
    pub cover: Option<CoverRef>,
    pub checksum: u32,
}

/// Placeholder title used when no real one is known.
pub open spec fn unknown_title() -> Seq<char> {
    "Unknown Title"@
}

/// Placeholder author used when no real one is known.
pub open spec fn unknown_author() -> Seq<char> {
    "Unknown Author"@
}

/// What precedes the base64 text of an inline cover image.
pub open spec fn cover_prefix() -> Seq<char> {
    "data:image/jpeg;base64,"@
}

/// The inline data URI of a cover image.
pub open spec fn cover_uri(image: Seq<u8>) -> Seq<char> {
    cover_prefix() + base64_of(image)
}

/// A value counts as missing when it is empty or the placeholder.
pub open spec fn is_missing(v: Seq<char>, placeholder: Seq<char>) -> bool {
    v.len() == 0 || v == placeholder
}

/// The view of an optional string.
pub open spec fn opt_view(o: Option<String>) -> Option<Seq<char>> {
    match o {
        Some(s) => Some(s@),
        None => None,
    }
}

/// The first present value of two, else the placeholder.
pub open spec fn first_or(a: Option<Seq<char>>, b: Option<Seq<char>>, placeholder: Seq<char>) -> Seq<
    char,
> {
    match a {
        Some(v) => v,
        None => match b {
            Some(v) => v,
            None => placeholder,
        },
    }
}

/// The value kept for a field: the given one, unless it is missing.
pub open spec fn kept_or(given: String, found: String, placeholder: Seq<char>) -> String {
    if is_missing(given@, placeholder) {
        found
    } else {
        given
    }
}

/// The title, author and cover of a book after the container was read.
pub open spec fn merged(title: String, author: String, found: Option<EpubMetadata>) -> (
    String,
    String,
    Option<CoverRef>,
) {
    match found {
        None => (title, author, None),
        Some(m) => (
            kept_or(title, m.title, unknown_title()),
            kept_or(author, m.author, unknown_author()),
            match m.cover {
                Some(uri) => Some(CoverRef::Inline(uri)),
                None => None,
            },
        ),
    }
}

/// Whether the remote lookup is due: the author is missing or there is no cover.
pub open spec fn lookup_due(author: Seq<char>, cover: Option<CoverRef>) -> bool {
    is_missing(author, unknown_author()) || cover is None
}

/// A book after the remote result filled its gaps, and only those.
pub open spec fn with_search_result(book: PreparedBook, found: Option<BookSearchResult>) -> PreparedBook {
    match found {
        None => book,
        Some(f) => PreparedBook {
            author: if is_missing(book.author@, unknown_author()) && f.author@.len() > 0 {
                f.author
            } else {
                book.author
            },
            cover: match (book.cover, f.cover_url) {
                (None, Some(url)) => Some(CoverRef::Url(url)),
                (c, _) => c,
            },
            ..book
        },
    }
}

/// The placeholder title as a `String`.
pub fn unknown_title_string() -> (r: String)
    ensures
        r@ == unknown_title(),
{
    String::from_str("Unknown Title")
}

/// The placeholder author as a `String`.
pub fn unknown_author_string() -> (r: String)
    ensures
        r@ == unknown_author(),
{
    String::from_str("Unknown Author")
}

fn missing(v: &String, placeholder: &String) -> (r: bool)
    ensures
        r == is_missing(v@, placeholder@),
{
    is_empty_string(v) || v.eq(placeholder)
}

fn is_empty_string(v: &String) -> (r: bool)
    ensures
        r == (v@.len() == 0),
{
    let empty = String::new();
    let r = v.eq(&empty);
    proof {
        if v@.len() == 0 {
            assert(v@ =~= empty@);
        }
    }
    r
}

/// The title and author of a container from its metadata fields: `title`
/// for the title; `creator`, else `author`, for the author; the placeholder
/// where a field is absent.
pub fn title_and_author(title: Option<String>, creator: Option<String>, author: Option<String>) -> (r: (
    String,
    String,
))
    ensures
        r.0@ == first_or(opt_view(title), None, unknown_title()),
        r.1@ == first_or(opt_view(creator), opt_view(author), unknown_author()),
{
    let t = match title {
        Some(t) => t,
        None => unknown_title_string(),
    };
    let a = match creator {
        Some(c) => c,
        None => match author {
            Some(a) => a,
            None => unknown_author_string(),
        },
    };
    (t, a)
}

/// The inline data URI for an image whose base64 text is `encoded`.
pub fn cover_data_uri(encoded: &str) -> (r: String)
    ensures
        r@ == cover_prefix() + encoded@,
{
    let prefix = String::from_str("data:image/jpeg;base64,");
    prefix.concat(encoded)
}

/// The inline data URI of a cover image; `None` for an image too large to
/// encode in memory.
pub fn encode_cover(image: &[u8]) -> (r: Option<String>)
    ensures
        image@.len() <= usize::MAX / 2 ==> (r matches Some(s) && s@ == cover_uri(image@)),
        image@.len() > usize::MAX / 2 ==> r is None,
{
    if image.len() > usize::MAX / 2 {
        return None;
    }
    let encoded = encode_base64(image);
    Some(cover_data_uri(encoded.as_str()))
}

/// Fills the caller's missing title and author from what the container
/// gave, and takes its cover; caller values that are present stay.
pub fn merge_metadata(title: String, author: String, found: Option<EpubMetadata>) -> (r: (
    String,
    String,
    Option<CoverRef>,
))
    ensures
        r == merged(title, author, found),
{
    match found {
        None => (title, author, None),
        Some(m) => {
            let t = if missing(&title, &unknown_title_string()) {
                m.title
            } else {
                title
            };
            let a = if missing(&author, &unknown_author_string()) {
                m.author
            } else {
                author
            };
            let c = match m.cover {
                Some(uri) => Some(CoverRef::Inline(uri)),
                None => None,
            };
            (t, a, c)
        },
    }
}

/// Whether the remote lookup must be made for a book with this author and cover.
pub fn needs_remote_lookup(author: &String, cover: &Option<CoverRef>) -> (r: bool)
    ensures
        r == lookup_due(author@, *cover),
{
    missing(author, &unknown_author_string()) || cover.is_none()
}

/// Fills a missing author and a missing cover from a remote result; values
/// already resolved are never replaced.
pub fn apply_search_result(book: PreparedBook, found: Option<BookSearchResult>) -> (r: PreparedBook)
    ensures
        r == with_search_result(book, found),
{
    match found {
        None => book,
        Some(f) => {
            let fill_author = missing(&book.author, &unknown_author_string()) && !is_empty_string(&f.author);
            let author = if fill_author {
                f.author
            } else {
                book.author
            };
            let cover = match (book.cover, f.cover_url) {
                (None, Some(url)) => Some(CoverRef::Url(url)),
                (c, _) => c,
            };
            PreparedBook {
                title: book.title,
                author,
                file_path: book.file_path,
                file_type: book.file_type,
                cover,
                checksum: book.checksum,
            }
        },
    }
}

/// Completes a book's metadata through `lookup`, which is called once, with
/// the title, exactly when the lookup is due, and not at all otherwise.
pub fn resolve_online<F: Fn(&String) -> Option<BookSearchResult>>(book: PreparedBook, lookup: F) -> (r:
    PreparedBook)
    requires
        forall|t: &String| lookup.requires((t,)),
    ensures
        lookup_due(book.author@, book.cover) ==> exists|found: Option<BookSearchResult>|
            lookup.ensures((&book.title,), found) && r == with_search_result(book, found),
        !lookup_due(book.author@, book.cover) ==> r == book,
{
    if needs_remote_lookup(&book.author, &book.cover) {
        let found = lookup(&book.title);
        apply_search_result(book, found)
    } else {
        book
    }
}

} // verus!
