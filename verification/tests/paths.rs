use terminal_book_reader::app::{ActivePane, App};
use terminal_book_reader::model::{Book, Chapter};
use terminal_book_reader::paths::{category_from_parent, import_destination, last_name, library_dir};

fn comps(v: &[&str]) -> Vec<String> {
    v.iter().map(|s| s.to_string()).collect()
}

#[test]
fn library_lies_in_the_data_directory() {
    let data = comps(&["/", "home", "ann", ".local", "share", "reader"]);
    assert_eq!(library_dir(&data), comps(&["/", "home", "ann", ".local", "share", "reader", "books"]));
}

#[test]
fn imported_copy_keeps_its_name_in_the_library() {
    let lib = comps(&["/", "data", "books"]);
    let src = comps(&["/", "tmp", "novel.epub"]);
    assert_eq!(import_destination(&lib, &src), Some(comps(&["/", "data", "books", "novel.epub"])));
    assert_eq!(import_destination(&lib, &comps(&["/"])), None);
    assert_eq!(import_destination(&lib, &comps(&["a", ".."])), None);
}

#[test]
fn category_is_the_holding_directory() {
    let lib = comps(&["/", "data", "books"]);
    assert_eq!(category_from_parent(&lib, &comps(&["/", "data", "books"])), None);
    assert_eq!(
        category_from_parent(&lib, &comps(&["/", "data", "books", "scifi"])),
        Some("scifi".to_string())
    );
    assert_eq!(
        category_from_parent(&lib, &comps(&["/", "data", "books", "a", "b"])),
        Some("b".to_string())
    );
    assert_eq!(category_from_parent(&lib, &comps(&["/", "data"])), Some("data".to_string()));
    assert_eq!(category_from_parent(&lib, &comps(&["/"])), None);
}

#[test]
fn last_name_skips_special_components() {
    assert_eq!(last_name(&comps(&["x", "y.txt"])), Some("y.txt".to_string()));
    assert_eq!(last_name(&comps(&["."])), None);
    assert_eq!(last_name(&comps(&[])), None);
}

fn small_book(id: &str) -> Book {
    Book {
        id: id.to_string(),
        title: "T".to_string(),
        path: "t.txt".to_string(),
        category: None,
        chapters: vec![Chapter { title: "c".to_string(), content: "x".to_string() }],
        current_chapter: 0,
        current_position: 0,
        bookmarks: Vec::new(),
        time_spent_secs: 0,
        last_read: String::new(),
    }
}

#[test]
fn book_named_at_start_opens_with_saved_state() {
    let mut app = App::new();
    let mut saved = small_book("k");
    saved.current_position = 12;
    saved.time_spent_secs = 30;
    app.open_book_file(Ok(small_book("k")), Some(saved));
    assert!(app.active_pane == ActivePane::Reader);
    let b = app.current_book.as_ref().unwrap();
    assert_eq!(b.id, "k");
    assert_eq!(b.current_position, 12);
    assert_eq!(b.time_spent_secs, 30);
    assert!(app.books.is_empty());
}

#[test]
fn book_named_at_start_that_fails_is_reported() {
    let mut app = App::new();
    app.open_book_file(Err("bad file".to_string()), None);
    assert!(app.current_book.is_none());
    assert!(app.active_pane == ActivePane::Library);
    assert_eq!(app.error_message.as_deref(), Some("Failed to open book: bad file"));
}
