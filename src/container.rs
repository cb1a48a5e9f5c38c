use std::io::Cursor;
use vstd::prelude::*;

use crate::codec::{decode_text, decoded, DecodePolicy};
use crate::format::{detect_format, type_of_path, BookType, LibraryError};
use crate::markup::{join_sections, joined, render_markup, render_markup_text, views_of};
use crate::metadata::{
    cover_uri, encode_cover, first_or, opt_view, title_and_author, unknown_author, unknown_title,
    EpubMetadata,
};

verus! {

/// An opened e-book container whose archive is held in memory. It is
/// opaque: only the functions below read it. The document sits in a struct
/// of its own because its type's `Read + Seek` bound cannot be declared to
/// the verifier.
#[verifier::external_body]
pub struct Container {
    pub doc: epub::doc::EpubDoc<Cursor<Vec<u8>>>,
}

/// The metadata items of a container, as (property, value) pairs in
/// document order.
pub uninterp spec fn metadata_of(c: Container) -> Seq<(Seq<char>, Seq<char>)>;

/// The ids of a container's manifest resources.
pub uninterp spec fn resource_ids_of(c: Container) -> Set<Seq<char>>;

/// The text of a container's resource, if the resource exists and is valid UTF-8.
pub uninterp spec fn resource_text_of(c: Container, id: Seq<char>) -> Option<Seq<char>>;

/// Whether a container designates the id of a cover image.
pub uninterp spec fn declares_cover(c: Container) -> bool;

/// The value of the first item with the given property.
pub open spec fn first_value(items: Seq<(Seq<char>, Seq<char>)>, property: Seq<char>) -> Option<
    Seq<char>,
>
    decreases items.len(),
{
    if items.len() == 0 {
        None
    } else if items[0].0 == property {
        Some(items[0].1)
    } else {
        first_value(items.drop_first(), property)
    }
}

/// Reading a container leaves its metadata, its resources and its cover
/// designation as they were.
pub open spec fn same_contents(a: Container, b: Container) -> bool {
    &&& metadata_of(a) == metadata_of(b)
    &&& resource_ids_of(a) == resource_ids_of(b)
    &&& declares_cover(a) == declares_cover(b)
    &&& forall|id: Seq<char>| resource_text_of(a, id) == resource_text_of(b, id)
}

/// Relies on `EpubDoc::mdata`: the value of the first metadata item with
/// the given property, if any.
#[verifier::external_body]
fn metadata_value(c: &Container, property: &str) -> (r: Option<String>)
    ensures
        opt_view(r) == first_value(metadata_of(*c), property@),
{
    c.doc.mdata(property).map(|item| item.value.clone())
}

/// Relies on `EpubDoc::get_cover`: the bytes of the designated cover image,
/// if any; none when `get_cover_id` finds no cover id. Which image is taken
/// when several are designated depends on the resource table's order.
#[verifier::external_body]
fn cover_bytes(c: &mut Container) -> (r: Option<Vec<u8>>)
    ensures
        !declares_cover(*old(c)) ==> r is None,
        same_contents(*old(c), *final(c)),
{
    c.doc.get_cover().map(|(data, _mime)| data)
}

/// Relies on the `resources` table of `EpubDoc`: the ids of all manifest
/// resources, each once, in the table's own order.
#[verifier::external_body]
fn resource_ids(c: &Container) -> (r: Vec<String>)
    ensures
        views_of(r@).no_duplicates(),
        views_of(r@).to_set() == resource_ids_of(*c),
{
    c.doc.resources.keys().cloned().collect()
}

/// Relies on `EpubDoc::get_resource_str`: the text of a resource, if it
/// exists and is valid UTF-8.
#[verifier::external_body]
fn resource_text(c: &mut Container, id: &str) -> (r: Option<String>)
    ensures
        opt_view(r) == resource_text_of(*old(c), id@),
        same_contents(*old(c), *final(c)),
{
    c.doc.get_resource_str(id).map(|(text, _mime)| text)
}

/// What a metadata reading `m` of container `c` holds: the `title` field,
/// the `creator` field else the `author` field, each else the placeholder;
/// an inline cover, and none when the container designates none.
pub open spec fn read_from(c: Container, m: EpubMetadata) -> bool {
    &&& m.title@ == first_or(first_value(metadata_of(c), "title"@), None, unknown_title())
    &&& m.author@ == first_or(
        first_value(metadata_of(c), "creator"@),
        first_value(metadata_of(c), "author"@),
        unknown_author(),
    )
    &&& (m.cover matches Some(s) ==> exists|image: Seq<u8>| s@ == cover_uri(image))
    &&& (!declares_cover(c) ==> m.cover is None)
}

/// The container's cover as an inline data URI, when it designates a cover
/// image that can be encoded; none when it designates none.
pub fn extract_epub_cover(c: &mut Container) -> (r: Option<String>)
    ensures
        r matches Some(s) ==> exists|image: Seq<u8>| s@ == cover_uri(image),
        !declares_cover(*old(c)) ==> r is None,
        same_contents(*old(c), *final(c)),
{
    match cover_bytes(c) {
        Some(image) => encode_cover(image.as_slice()),
        None => None,
    }
}

/// Title, author and cover of a container: its `title` field, its `creator`
/// field else its `author` field, each else the placeholder; and its cover.
pub fn extract_epub_metadata(c: &mut Container) -> (r: EpubMetadata)
    ensures
        read_from(*old(c), r),
        same_contents(*old(c), *final(c)),
{
    let title = metadata_value(c, "title");
    let creator = metadata_value(c, "creator");
    let author = metadata_value(c, "author");
    let (t, a) = title_and_author(title, creator, author);
    let cover = extract_epub_cover(c);
    EpubMetadata { title: t, author: a, cover }
}

/// Two metadata readings of one container, or of containers with the same
/// contents (as reading leaves them), give the same title and author, and
/// neither gives a cover when none is designated.
pub proof fn metadata_readings_agree(c1: Container, c2: Container, m1: EpubMetadata, m2: EpubMetadata)
    requires
        same_contents(c1, c2),
        read_from(c1, m1),
        read_from(c2, m2),
    ensures
        m1.title@ == m2.title@,
        m1.author@ == m2.author@,
        !declares_cover(c1) ==> m1.cover is None && m2.cover is None,
{
}

/// The rendered texts of the given resource texts.
pub open spec fn rendered(texts: Seq<Seq<char>>) -> Seq<Seq<char>> {
    texts.map_values(|t: Seq<char>| render_markup(t))
}

/// Renders each resource text and joins the results with blank lines.
pub fn render_sections(texts: &Vec<String>) -> (r: String)
    ensures
        r@ == joined(rendered(views_of(texts@))),
{
    let mut parts: Vec<String> = Vec::new();
    let mut i: usize = 0;
    while i < texts.len()
        invariant
            i <= texts.len(),
            parts@.len() == i,
            views_of(parts@) == rendered(views_of(texts@.take(i as int))),
        decreases texts.len() - i,
    {
        let part = render_markup_text(texts[i].as_str());
        let ghost before = parts@;
        parts.push(part);
        proof {
            let a = views_of(parts@);
            let b = rendered(views_of(texts@.take(i + 1)));
            let prev = rendered(views_of(texts@.take(i as int)));
            assert(views_of(before) == prev);
            assert(before.len() == i);
            assert(parts@ == before.push(part));
            assert(a.len() == i + 1);
            assert(texts@.take(i + 1).len() == i + 1);
            assert(b.len() == i + 1);
            assert forall|k: int| 0 <= k < a.len() implies a[k] == b[k] by {
                if k < i {
                    assert(a[k] == views_of(before)[k]);
                    assert(b[k] == prev[k]);
                } else {
                    assert(a[k] == part@);
                    assert(b[k] == render_markup(texts@[k]@));
                }
            }
            assert(a =~= b);
        }
        i = i + 1;
    }
    assert(texts@.take(texts.len() as int) =~= texts@);
    join_sections(&parts)
}

/// The texts, in order, of those of the given resources that read as text.
pub open spec fn present_texts(c: Container, ids: Seq<Seq<char>>) -> Seq<Seq<char>>
    decreases ids.len(),
{
    if ids.len() == 0 {
        Seq::empty()
    } else {
        present_texts(c, ids.drop_last()) + match resource_text_of(c, ids.last()) {
            Some(t) => seq![t],
            None => Seq::empty(),
        }
    }
}

/// Whether `text` is the rendering of container `c`: the rendered texts of
/// all its resources that read as text, each once, in some order of the
/// resources, joined with blank lines.
pub open spec fn container_text(c: Container, text: Seq<char>) -> bool {
    exists|ids: Seq<Seq<char>>|
        ids.no_duplicates() && ids.to_set() == resource_ids_of(c) && text == joined(
            rendered(present_texts(c, ids)),
        )
}

/// Approximate plain text of a whole container: every manifest resource
/// that reads as text, rendered, in the manifest table's order, joined with
/// blank lines.
pub fn extract_epub_text(c: &mut Container) -> (r: String)
    ensures
        container_text(*old(c), r@),
        same_contents(*old(c), *final(c)),
{
    let ghost c0 = *c;
    let ids = resource_ids(c);
    let ghost keys = views_of(ids@);
    let mut texts: Vec<String> = Vec::new();
    let mut i: usize = 0;
    while i < ids.len()
        invariant
            i <= ids.len(),
            keys == views_of(ids@),
            same_contents(c0, *c),
            views_of(texts@) == present_texts(c0, keys.take(i as int)),
        decreases ids.len() - i,
    {
        let ghost before = texts@;
        let ghost c_now = *c;
        let t = resource_text(c, ids[i].as_str());
        proof {
            assert(keys.take(i + 1).drop_last() =~= keys.take(i as int));
            assert(keys.take(i + 1).last() == ids@[i as int]@);
            assert(resource_text_of(c_now, ids@[i as int]@) == resource_text_of(c0, ids@[i as int]@));
        }
        match t {
            Some(t) => {
                texts.push(t);
                assert(views_of(texts@) =~= views_of(before).push(t@));
            },
            None => {},
        }
        proof {
            assert(views_of(texts@) =~= present_texts(c0, keys.take(i + 1)));
        }
        i = i + 1;
    }
    assert(keys.take(ids.len() as int) =~= keys);
    render_sections(&texts)
}

/// The text content of a book, by the type its path names: plain text is
/// decoded under `policy`; a container is rendered, and must be given
/// opened; any other type is unsupported.
pub fn read_book_content(file_path: &str, contents: &[u8], policy: DecodePolicy, container: Option<
    Container,
>) -> (r: Result<String, LibraryError>)
    ensures
        type_of_path(file_path@) == Some(BookType::Text) ==> match decoded(contents@, policy) {
            Ok(t) => r matches Ok(s) && s@ == t,
            Err(e) => r == Err::<String, LibraryError>(e),
        },
        type_of_path(file_path@) == Some(BookType::Epub) ==> match container {
            None => r == Err::<String, LibraryError>(LibraryError::ParseError),
            Some(c) => r matches Ok(s) && container_text(c, s@),
        },
        (type_of_path(file_path@) is None || type_of_path(file_path@) == Some(BookType::Mobi))
            ==> r == Err::<String, LibraryError>(LibraryError::UnsupportedFormat),
{
    match detect_format(file_path) {
        Ok(BookType::Text) => decode_text(contents, policy),
        Ok(BookType::Epub) => match container {
            Some(mut c) => Ok(extract_epub_text(&mut c)),
            None => Err(LibraryError::ParseError),
        },
        _ => Err(LibraryError::UnsupportedFormat),
    }
}

} // verus!
