use vstd::prelude::*;

use crate::format::{BookType, LibraryError};
use crate::metadata::{CoverRef, PreparedBook};

verus! {

/// A book of the catalogue.
#[derive(Debug)]
pub struct Book {
    pub id: String,
    pub title: String,
    pub author: String,
    pub file_path: String,
    pub file_type: BookType,
    pub cover: Option<CoverRef>,
    pub checksum: u32,
    pub created_at: String,
    pub last_read: Option<String>,
    /// Reading progress in hundredths of a percent.
    pub reading_percentage: u32,
}

/// Relies on `uuid::Uuid::new_v4`: a random identifier, rendered as text.
/// Nothing is known of its value.
#[verifier::external_body]
fn new_book_id() -> (r: String) {
    uuid::Uuid::new_v4().to_string()
}

/// Relies on `chrono::Utc::now` and `to_rfc3339`: the current time as text.
/// Nothing is known of its value.
#[verifier::external_body]
pub(crate) fn now_timestamp() -> (r: String) {
    chrono::Utc::now().to_rfc3339()
}

fn copy_text(o: &Option<String>) -> (r: Option<String>)
    ensures
        r == *o,
{
    match o {
        Some(s) => Some(s.clone()),
        None => None,
    }
}

impl CoverRef {
    /// A copy equal to this one.
    pub fn duplicate(&self) -> (r: CoverRef)
        ensures
            r == *self,
    {
        match self {
            CoverRef::Inline(s) => CoverRef::Inline(s.clone()),
            CoverRef::Url(s) => CoverRef::Url(s.clone()),
        }
    }
}

impl Book {
    /// A copy equal to this one.
    pub fn duplicate(&self) -> (r: Book)
        ensures
            r == *self,
    {
        Book {
            id: self.id.clone(),
            title: self.title.clone(),
            author: self.author.clone(),
            file_path: self.file_path.clone(),
            file_type: self.file_type,
            cover: match &self.cover {
                Some(c) => Some(c.duplicate()),
                None => None,
            },
            checksum: self.checksum,
            created_at: self.created_at.clone(),
            last_read: copy_text(&self.last_read),
            reading_percentage: self.reading_percentage,
        }
    }
}

/// No two books share an id.
pub open spec fn ids_unique(books: Seq<Book>) -> bool {
    forall|i: int, j: int|
        0 <= i < books.len() && 0 <= j < books.len() && i != j ==> books[i].id@ != books[j].id@
}

/// The position of the book with the given id, if there is one.
pub open spec fn position_of(books: Seq<Book>, id: Seq<char>) -> Option<int> {
    if exists|k: int| 0 <= k < books.len() && books[k].id@ == id {
        Some(choose|k: int| 0 <= k < books.len() && books[k].id@ == id)
    } else {
        None
    }
}

/// The record that a prepared book becomes under an id and a creation time.
pub open spec fn record_of(book: PreparedBook, id: String, created_at: String) -> Book {
    Book {
        id,
        title: book.title,
        author: book.author,
        file_path: book.file_path,
        file_type: book.file_type,
        cover: book.cover,
        checksum: book.checksum,
        created_at,
        last_read: None,
        reading_percentage: 0,
    }
}

/// A book with new progress, read at `now`.
pub open spec fn with_progress(b: Book, percentage: u32, now: String) -> Book {
    Book { reading_percentage: percentage, last_read: Some(now), ..b }
}

/// The catalogue without the book of the given id.
pub open spec fn without_id(books: Seq<Book>, id: Seq<char>) -> Seq<Book> {
    match position_of(books, id) {
        Some(k) => books.remove(k),
        None => books,
    }
}

/// The catalogue with the progress of the book of the given id updated;
/// unchanged when no book has that id.
pub open spec fn progress_updated(books: Seq<Book>, id: Seq<char>, percentage: u32, now: String) -> Seq<
    Book,
> {
    match position_of(books, id) {
        Some(k) => books.update(k, with_progress(books[k], percentage, now)),
        None => books,
    }
}

proof fn lemma_position_is(books: Seq<Book>, id: Seq<char>, k: int)
    requires
        ids_unique(books),
        0 <= k < books.len(),
        books[k].id@ == id,
    ensures
        position_of(books, id) == Some(k),
{
}

/// Updating the progress of an id that no book has leaves the catalogue as
/// it was: no entry is created.
pub proof fn update_of_missing_id_changes_nothing(
    books: Seq<Book>,
    id: Seq<char>,
    percentage: u32,
    now: String,
)
    requires
        position_of(books, id) is None,
    ensures
        progress_updated(books, id, percentage, now) == books,
{
}

/// The catalogue of books, keyed by id.
pub struct LibraryRegistry {
    books: Vec<Book>,
}

impl View for LibraryRegistry {
    type V = Seq<Book>;

    closed spec fn view(&self) -> Seq<Book> {
        self.books@
    }
}

impl LibraryRegistry {
    /// The invariant: ids are unique.
    pub open spec fn wf(&self) -> bool {
        ids_unique(self@)
    }

    /// An empty catalogue.
    pub fn new() -> (r: LibraryRegistry)
        ensures
            r.wf(),
            r@ == Seq::<Book>::empty(),
    {
        LibraryRegistry { books: Vec::new() }
    }

    fn find(&self, id: &str) -> (r: Option<usize>)
        requires
            self.wf(),
        ensures
            match r {
                Some(k) => position_of(self@, id@) == Some(k as int) && k < self@.len(),
                None => position_of(self@, id@) is None,
            },
    {
        let key = id.to_owned();
        let mut k: usize = 0;
        while k < self.books.len()
            invariant
                self.wf(),
                key@ == id@,
                k <= self.books.len(),
                forall|m: int| 0 <= m < k ==> self@[m].id@ != id@,
            decreases self.books.len() - k,
        {
            if self.books[k].id.eq(&key) {
                proof {
                    lemma_position_is(self@, id@, k as int);
                }
                return Some(k);
            }
            k = k + 1;
        }
        None
    }

    /// Stores a prepared book under `id`, created at `created_at`; fails
    /// with `DuplicateId`, changing nothing, when the id is taken.
    pub fn insert_with(&mut self, book: PreparedBook, id: String, created_at: String) -> (r: Result<
        Book,
        LibraryError,
    >)
        requires
            old(self).wf(),
        ensures
            final(self).wf(),
            position_of(old(self)@, id@) is Some ==> r == Err::<Book, LibraryError>(
                LibraryError::DuplicateId,
            ) && final(self)@ == old(self)@,
            position_of(old(self)@, id@) is None ==> r == Ok::<Book, LibraryError>(
                record_of(book, id, created_at),
            ) && final(self)@ == old(self)@.push(record_of(book, id, created_at)),
    {
        match self.find(id.as_str()) {
            Some(_) => Err(LibraryError::DuplicateId),
            None => {
                let record = Book {
                    id,
                    title: book.title,
                    author: book.author,
                    file_path: book.file_path,
                    file_type: book.file_type,
                    cover: book.cover,
                    checksum: book.checksum,
                    created_at,
                    last_read: None,
                    reading_percentage: 0,
                };
                let copy = record.duplicate();
                self.books.push(record);
                proof {
                    assert forall|i: int, j: int|
                        0 <= i < self@.len() && 0 <= j < self@.len() && i != j implies self@[i].id@
                        != self@[j].id@ by {
                        if i < old(self)@.len() && j < old(self)@.len() {
                            assert(old(self)@[i] == self@[i]);
                            assert(old(self)@[j] == self@[j]);
                        } else if i < old(self)@.len() {
                            assert(old(self)@[i] == self@[i]);
                        } else if j < old(self)@.len() {
                            assert(old(self)@[j] == self@[j]);
                        }
                    }
                }
                Ok(copy)
            },
        }
    }

    /// Stores a prepared book under a freshly generated id, created now.
    /// Fails with `DuplicateId`, changing nothing, in the unlikely event
    /// that the generated id is taken; never on an empty catalogue.
    pub fn insert(&mut self, book: PreparedBook) -> (r: Result<Book, LibraryError>)
        requires
            old(self).wf(),
        ensures
            final(self).wf(),
            old(self)@.len() == 0 ==> r is Ok,
            match r {
                Ok(b) => position_of(old(self)@, b.id@) is None && exists|created_at: String|
                    b == record_of(book, b.id, created_at) && final(self)@ == old(self)@.push(b),
                Err(e) => e == LibraryError::DuplicateId && final(self)@ == old(self)@,
            },
    {
        let id = new_book_id();
        let created_at = now_timestamp();
        self.insert_with(book, id, created_at)
    }

    /// The book with the given id, if any.
    pub fn get(&self, id: &str) -> (r: Option<Book>)
        requires
            self.wf(),
        ensures
            match position_of(self@, id@) {
                Some(k) => r == Some(self@[k]),
                None => r is None,
            },
    {
        match self.find(id) {
            Some(k) => Some(self.books[k].duplicate()),
            None => None,
        }
    }

    /// The book with the given id; `NotFound` when there is none.
    pub fn get_book(&self, id: &str) -> (r: Result<Book, LibraryError>)
        requires
            self.wf(),
        ensures
            match position_of(self@, id@) {
                Some(k) => r == Ok::<Book, LibraryError>(self@[k]),
                None => r == Err::<Book, LibraryError>(LibraryError::NotFound),
            },
    {
        match self.get(id) {
            Some(b) => Ok(b),
            None => Err(LibraryError::NotFound),
        }
    }

    /// All books, in no promised order.
    pub fn list(&self) -> (r: Vec<Book>)
        ensures
            r@ == self@,
    {
        let mut out: Vec<Book> = Vec::new();
        let mut i: usize = 0;
        while i < self.books.len()
            invariant
                i <= self.books.len(),
                out@ == self@.take(i as int),
            decreases self.books.len() - i,
        {
            out.push(self.books[i].duplicate());
            i = i + 1;
            assert(out@ =~= self@.take(i as int));
        }
        assert(self@.take(self.books.len() as int) =~= self@);
        out
    }

    /// The number of books.
    pub fn len(&self) -> (r: usize)
        ensures
            r == self@.len(),
    {
        self.books.len()
    }

    /// Removes the book with the given id; no effect when there is none.
    pub fn remove(&mut self, id: &str)
        requires
            old(self).wf(),
        ensures
            final(self).wf(),
            final(self)@ == without_id(old(self)@, id@),
    {
        match self.find(id) {
            Some(k) => {
                self.books.remove(k);
                proof {
                    assert forall|i: int, j: int|
                        0 <= i < self@.len() && 0 <= j < self@.len() && i != j implies self@[i].id@
                        != self@[j].id@ by {
                        let oi = if i < k { i } else { i + 1 };
                        let oj = if j < k { j } else { j + 1 };
                        assert(self@[i] == old(self)@[oi]);
                        assert(self@[j] == old(self)@[oj]);
                    }
                }
            },
            None => {},
        }
    }

    /// Sets the progress of the book with the given id and marks it read at
    /// `now`; no effect, and no error, when there is no such book.
    pub fn update_progress_at(&mut self, id: &str, percentage: u32, now: String)
        requires
            old(self).wf(),
        ensures
            final(self).wf(),
            final(self)@ == progress_updated(old(self)@, id@, percentage, now),
    {
        match self.find(id) {
            Some(k) => {
                let b = self.books[k].duplicate();
                let updated = Book { reading_percentage: percentage, last_read: Some(now), ..b };
                self.books.set(k, updated);
                proof {
                    assert forall|i: int, j: int|
                        0 <= i < self@.len() && 0 <= j < self@.len() && i != j implies self@[i].id@
                        != self@[j].id@ by {
                        assert(self@[i].id == old(self)@[i].id);
                        assert(self@[j].id == old(self)@[j].id);
                    }
                }
            },
            None => {},
        }
    }

    /// Sets the progress of the book with the given id and marks it read
    /// now; no effect, and no error, when there is no such book.
    pub fn update_progress(&mut self, id: &str, percentage: u32)
        requires
            old(self).wf(),
        ensures
            final(self).wf(),
            exists|now: String| final(self)@ == progress_updated(old(self)@, id@, percentage, now),
            position_of(old(self)@, id@) is None ==> final(self)@ == old(self)@,
    {
        let now = now_timestamp();
        self.update_progress_at(id, percentage, now);
    }
}

} // verus!
