use vstd::prelude::*;

use crate::text::chars_of;

verus! {

/// The kinds of book file the library recognises.
#[derive(Clone, Copy, Debug, PartialEq, Eq, Structural)]
pub enum BookType {
    /// Plain text (`.txt`).
    Text,
    /// A zip-based e-book container (`.epub`).
    Epub,
    /// A legacy format that is recognised but has no dedicated extractor (`.mobi`).
    Mobi,
}

/// Errors of the library.
#[derive(Clone, Copy, Debug, PartialEq, Eq, Structural)]
pub enum LibraryError {
    /// A file or a record is missing.
    NotFound,
    /// The file's extension is not one of the recognised ones.
    UnsupportedFormat,
    /// Reading or writing failed.
    IoError,
    /// A container or a stored document is malformed.
    ParseError,
    /// The remote lookup failed.
    NetworkError,
    /// A generated identifier is already taken.
    DuplicateId,
}

/// Index of the last occurrence of `c` among the first `end` characters of
/// `s`, or -1 when there is none.
pub open spec fn last_index_of(s: Seq<char>, c: char, end: int) -> int
    decreases end,
{
    if end <= 0 {
        -1
    } else if s[end - 1] == c {
        end - 1
    } else {
        last_index_of(s, c, end - 1)
    }
}

/// The last component of a path: everything after its final `/`.
pub open spec fn file_name_of(path: Seq<char>) -> Seq<char> {
    path.subrange(last_index_of(path, '/', path.len() as int) + 1, path.len() as int)
}

/// The extension of a path: what follows the last `.` of its file name,
/// provided that the name does not begin with that dot.
pub open spec fn extension_of(path: Seq<char>) -> Option<Seq<char>> {
    let name = file_name_of(path);
    let dot = last_index_of(name, '.', name.len() as int);
    if dot <= 0 {
        None
    } else {
        Some(name.subrange(dot + 1, name.len() as int))
    }
}

/// The book type named by an extension, if it is a recognised one.
pub open spec fn type_of_extension(ext: Seq<char>) -> Option<BookType> {
    if ext == seq!['t', 'x', 't'] {
        Some(BookType::Text)
    } else if ext == seq!['e', 'p', 'u', 'b'] {
        Some(BookType::Epub)
    } else if ext == seq!['m', 'o', 'b', 'i'] {
        Some(BookType::Mobi)
    } else {
        None
    }
}

/// The book type of a path, if its extension is a recognised one.
pub open spec fn type_of_path(path: Seq<char>) -> Option<BookType> {
    match extension_of(path) {
        Some(ext) => type_of_extension(ext),
        None => None,
    }
}

proof fn lemma_last_index_bounds(s: Seq<char>, c: char, end: int)
    requires
        end <= s.len(),
    ensures
        -1 <= last_index_of(s, c, end) < if end > 0 { end } else { 0 },
        last_index_of(s, c, end) >= 0 ==> s[last_index_of(s, c, end)] == c,
    decreases end,
{
    if end > 0 && s[end - 1] != c {
        lemma_last_index_bounds(s, c, end - 1);
    }
}

fn find_last(s: &Vec<char>, c: char, end: usize) -> (r: Option<usize>)
    requires
        end <= s.len(),
    ensures
        match r {
            Some(i) => i == last_index_of(s@, c, end as int),
            None => last_index_of(s@, c, end as int) == -1,
        },
{
    let mut i: usize = end;
    while i > 0
        invariant
            i <= end <= s.len(),
            last_index_of(s@, c, end as int) == last_index_of(s@, c, i as int),
        decreases i,
    {
        if s[i - 1] == c {
            return Some(i - 1);
        }
        i = i - 1;
    }
    None
}

fn equals_word(s: &Vec<char>, from: usize, word: &[char]) -> (r: bool)
    requires
        from <= s.len(),
    ensures
        r == (s@.subrange(from as int, s.len() as int) == word@),
{
    if s.len() - from != word.len() {
        return false;
    }
    let mut i: usize = 0;
    while i < word.len()
        invariant
            s.len() - from == word.len(),
            i <= word.len(),
            forall|k: int| 0 <= k < i ==> s@[from + k] == word@[k],
        decreases word.len() - i,
    {
        if s[from + i] != word[i] {
            return false;
        }
        i = i + 1;
    }
    assert(s@.subrange(from as int, s.len() as int) =~= word@);
    true
}

/// Classifies a path by its extension.
pub fn detect_format(path: &str) -> (r: Result<BookType, LibraryError>)
    ensures
        match type_of_path(path@) {
            Some(t) => r == Ok::<BookType, LibraryError>(t),
            None => r == Err::<BookType, LibraryError>(LibraryError::UnsupportedFormat),
        },
{
    let chars = chars_of(path);
    proof {
        lemma_last_index_bounds(chars@, '/', chars.len() as int);
    }
    let start: usize = match find_last(&chars, '/', chars.len()) {
        Some(k) => k + 1,
        None => 0,
    };
    let mut name: Vec<char> = Vec::new();
    let mut i: usize = start;
    while i < chars.len()
        invariant
            start <= i <= chars.len(),
            name@ == chars@.subrange(start as int, i as int),
        decreases chars.len() - i,
    {
        name.push(chars[i]);
        i = i + 1;
    }
    assert(name@ == file_name_of(path@));
    proof {
        lemma_last_index_bounds(name@, '.', name.len() as int);
    }
    let from: usize = match find_last(&name, '.', name.len()) {
        Some(k) => {
            if k == 0 {
                return Err(LibraryError::UnsupportedFormat);
            }
            k + 1
        },
        None => {
            return Err(LibraryError::UnsupportedFormat);
        },
    };
    if equals_word(&name, from, &['t', 'x', 't']) {
        Ok(BookType::Text)
    } else if equals_word(&name, from, &['e', 'p', 'u', 'b']) {
        Ok(BookType::Epub)
    } else if equals_word(&name, from, &['m', 'o', 'b', 'i']) {
        Ok(BookType::Mobi)
    } else {
        Err(LibraryError::UnsupportedFormat)
    }
}

} // verus!
