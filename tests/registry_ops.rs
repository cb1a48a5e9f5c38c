use ebook_library::{BookType, LibraryError, LibraryRegistry, PreparedBook};

fn prepared(title: &str) -> PreparedBook {
    PreparedBook {
        title: title.to_string(),
        author: "Author".to_string(),
        file_path: format!("{}.txt", title),
        file_type: BookType::Text,
        cover: None,
        checksum: 1,
    }
}

#[test]
fn insert_with_stores_and_returns_record() {
    let mut reg = LibraryRegistry::new();
    let b = reg.insert_with(prepared("A"), "id-1".to_string(), "2024-01-01T00:00:00+00:00".to_string()).unwrap();
    assert_eq!(b.id, "id-1");
    assert_eq!(b.title, "A");
    assert_eq!(b.reading_percentage, 0);
    assert_eq!(b.last_read, None);
    assert_eq!(reg.get("id-1").unwrap().created_at, "2024-01-01T00:00:00+00:00");
}

#[test]
fn taken_id_is_refused() {
    let mut reg = LibraryRegistry::new();
    reg.insert_with(prepared("A"), "same".to_string(), "t".to_string()).unwrap();
    let r = reg.insert_with(prepared("B"), "same".to_string(), "t".to_string());
    assert_eq!(r.err(), Some(LibraryError::DuplicateId));
    assert_eq!(reg.len(), 1);
    assert_eq!(reg.get("same").unwrap().title, "A");
}

#[test]
fn generated_ids_are_distinct() {
    let mut reg = LibraryRegistry::new();
    let a = reg.insert(prepared("A")).unwrap();
    let b = reg.insert(prepared("B")).unwrap();
    assert_ne!(a.id, b.id);
    assert_eq!(reg.list().len(), 2);
}

#[test]
fn get_of_unknown_id_is_none() {
    let reg = LibraryRegistry::new();
    assert!(reg.get("nope").is_none());
}

#[test]
fn remove_deletes_and_ignores_unknown_ids() {
    let mut reg = LibraryRegistry::new();
    reg.insert_with(prepared("A"), "a".to_string(), "t".to_string()).unwrap();
    reg.insert_with(prepared("B"), "b".to_string(), "t".to_string()).unwrap();
    reg.remove("zzz");
    assert_eq!(reg.len(), 2);
    reg.remove("a");
    assert_eq!(reg.len(), 1);
    assert!(reg.get("a").is_none());
    assert_eq!(reg.list()[0].id, "b");
}

#[test]
fn update_progress_on_missing_id_changes_nothing() {
    let mut reg = LibraryRegistry::new();
    reg.insert_with(prepared("A"), "a".to_string(), "t".to_string()).unwrap();
    reg.update_progress("missing", 5000);
    assert_eq!(reg.len(), 1);
    let a = reg.get("a").unwrap();
    assert_eq!(a.reading_percentage, 0);
    assert_eq!(a.last_read, None);
    assert!(reg.get("missing").is_none());
}

#[test]
fn update_progress_stamps_the_book() {
    let mut reg = LibraryRegistry::new();
    reg.insert_with(prepared("A"), "a".to_string(), "t".to_string()).unwrap();
    reg.update_progress_at("a", 4250, "2024-05-05T10:00:00+00:00".to_string());
    let a = reg.get("a").unwrap();
    assert_eq!(a.reading_percentage, 4250);
    assert_eq!(a.last_read.as_deref(), Some("2024-05-05T10:00:00+00:00"));
    reg.update_progress("a", 9000);
    let a = reg.get("a").unwrap();
    assert_eq!(a.reading_percentage, 9000);
    assert!(a.last_read.is_some());
}

#[test]
fn get_book_reports_not_found() {
    let mut reg = LibraryRegistry::new();
    reg.insert_with(prepared("A"), "a".to_string(), "t".to_string()).unwrap();
    assert_eq!(reg.get_book("a").unwrap().title, "A");
    assert_eq!(reg.get_book("b").err(), Some(LibraryError::NotFound));
}
