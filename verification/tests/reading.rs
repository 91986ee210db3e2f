use terminal_book_reader::app::{ActivePane, App, AppMode, BackgroundMessage};
use terminal_book_reader::events::{apply_saved_state, download_file_name, search_url};
use terminal_book_reader::model::{Book, Bookmark, Chapter, OnlineBook};
use terminal_book_reader::text::{chars_of, split_lines, string_of};

fn reading(content: &str, position: usize) -> App {
    let mut app = App::new();
    app.active_pane = ActivePane::Reader;
    app.current_book = Some(Book {
        id: "r".to_string(),
        title: "R".to_string(),
        path: "r.txt".to_string(),
        category: None,
        chapters: vec![
            Chapter { title: "a".to_string(), content: content.to_string() },
            Chapter { title: "b".to_string(), content: "x".repeat(600) },
            Chapter { title: "c".to_string(), content: "y".repeat(125) },
        ],
        current_chapter: 0,
        current_position: position,
        bookmarks: Vec::new(),
        time_spent_secs: 0,
        last_read: String::new(),
    });
    app
}

fn position(app: &App) -> usize {
    app.current_book.as_ref().unwrap().current_position
}

const TEXT: &str = "The ring\nA hobbit hole\nnothing\nRing of power\nend";

#[test]
fn search_forward_wraps_around() {
    let mut app = reading(TEXT, 0);
    app.search_query = "ring".to_string();
    app.find_next_search_result(true);
    assert_eq!(position(&app), 3);
    assert!(app.error_message.is_none());
    app.find_next_search_result(true);
    assert_eq!(position(&app), 0);
}

#[test]
fn search_backward_wraps_around() {
    let mut app = reading(TEXT, 2);
    app.search_query = "RING".to_string();
    app.find_next_search_result(false);
    assert_eq!(position(&app), 0);
    app.find_next_search_result(false);
    assert_eq!(position(&app), 3);
}

#[test]
fn search_case_sensitive() {
    let mut app = reading(TEXT, 0);
    app.case_sensitive_search = true;
    app.search_query = "Ring".to_string();
    app.find_next_search_result(true);
    assert_eq!(position(&app), 3);
    app.find_next_search_result(true);
    assert_eq!(position(&app), 3);
}

#[test]
fn search_without_match_is_reported() {
    let mut app = reading(TEXT, 1);
    app.search_query = "dragon".to_string();
    app.find_next_search_result(true);
    assert_eq!(position(&app), 1);
    assert_eq!(app.error_message.as_deref(), Some("No matches found in this chapter"));
}

#[test]
fn search_needs_query_and_book() {
    let mut app = reading(TEXT, 1);
    app.find_next_search_result(true);
    assert_eq!(position(&app), 1);
    assert!(app.error_message.is_none());
    let mut app = App::new();
    app.search_query = "x".to_string();
    app.find_next_search_result(true);
    assert!(app.error_message.is_none());
}

#[test]
fn search_from_far_position() {
    let mut app = reading(TEXT, 100);
    app.search_query = "ring".to_string();
    app.find_next_search_result(true);
    assert_eq!(position(&app), 0);
    app.current_book.as_mut().unwrap().current_position = 100;
    app.find_next_search_result(false);
    assert_eq!(position(&app), 3);
}

#[test]
fn lines_follow_str_lines() {
    for text in ["a\r\nb\n\nc\n", "", "\n", "x\r", "one"] {
        let got: Vec<String> = split_lines(&chars_of(text)).iter().map(|l| string_of(l)).collect();
        let want: Vec<String> = text.lines().map(|l| l.to_string()).collect();
        assert_eq!(got, want, "{:?}", text);
    }
}

#[test]
fn reading_stats_exact_values() {
    // 60 bytes in the first chapter: lines of 9, 19 and 30 bytes plus two newlines.
    let content = format!("{}\n{}\n{}", "a".repeat(9), "b".repeat(19), "c".repeat(30));
    let mut app = reading(&content, 1);
    app.wpm = 10;
    // remaining bytes 60 - 9 = 51 -> 8 words -> 1 minute; book: 8 + 100 + 20 = 128 -> 13 minutes
    assert_eq!(app.calculate_reading_stats(), Some((1, 13)));
    app.wpm = 0;
    assert_eq!(app.calculate_reading_stats(), Some((8, 128)));
    app.current_book.as_mut().unwrap().current_position = 50;
    assert_eq!(app.calculate_reading_stats(), Some((0, 120)));
    app.current_book = None;
    assert_eq!(app.calculate_reading_stats(), None);
}

#[test]
fn faster_reading_never_raises_estimates() {
    let content = format!("{}\n{}\n{}", "a".repeat(9), "b".repeat(19), "c".repeat(30));
    let mut app = reading(&content, 0);
    let mut last = (usize::MAX, usize::MAX);
    for wpm in [0, 1, 3, 7, 10, 250] {
        app.wpm = wpm;
        let (ch, all) = app.calculate_reading_stats().unwrap();
        assert!(ch <= all);
        assert!(ch <= last.0 && all <= last.1);
        last = (ch, all);
    }
    assert_eq!(last, (1, 1));
}

#[test]
fn reading_stats_count_bytes_not_characters() {
    let mut app = reading("ééé", 0);
    app.wpm = 1;
    app.current_book.as_mut().unwrap().current_chapter = 0;
    assert_eq!(app.calculate_reading_stats(), Some((1, 121)));
}

#[test]
fn reading_on_lowers_estimate() {
    let content = "line one\nline two\nline three\nline four\n".repeat(10);
    let mut last = usize::MAX;
    for p in 0..45 {
        let mut app = reading(&content, p);
        app.wpm = 1;
        let (ch, _) = app.calculate_reading_stats().unwrap();
        assert!(ch <= last);
        last = ch;
    }
}

#[test]
fn search_url_is_percent_encoded() {
    assert_eq!(search_url(&"war and peace".to_string()), "https://gutendex.com/books/?search=war%20and%20peace");
    assert_eq!(search_url(&"café~x-1_y.z".to_string()), "https://gutendex.com/books/?search=caf%C3%A9~x-1_y.z");
}

#[test]
fn download_names() {
    assert_eq!(download_file_name(1342), "1342.epub");
    assert_eq!(download_file_name(0), "0.epub");
}

#[test]
fn background_results() {
    let mut app = App::new();
    app.is_loading = true;
    let books: Vec<OnlineBook> = (0..3u64)
        .map(|id| OnlineBook { id, title: "t".to_string(), authors: vec![], epub: None })
        .collect();
    app.handle_background(BackgroundMessage::OnlineSearchResults(books));
    assert_eq!(app.selected_online_index, Some(0));
    assert_eq!(app.error_message.as_deref(), Some("Found 3 books."));
    assert!(!app.is_loading);
    app.is_loading = true;
    app.handle_background(BackgroundMessage::OnlineSearchResults(vec![]));
    assert_eq!(app.selected_online_index, None);
    assert_eq!(app.error_message.as_deref(), Some("No books found matching your search."));
    app.handle_background(BackgroundMessage::DownloadComplete(Err("timeout".to_string())));
    assert_eq!(app.error_message.as_deref(), Some("Download failed: timeout"));
    app.handle_background(BackgroundMessage::Error("boom".to_string()));
    assert_eq!(app.error_message.as_deref(), Some("boom"));
    let book = reading("x", 0).current_book.unwrap();
    app.is_loading = true;
    app.handle_background(BackgroundMessage::DownloadComplete(Ok(book)));
    assert_eq!(app.books.len(), 1);
    assert!(app.current_book.is_some());
    assert!(app.active_pane == ActivePane::Reader);
    assert!(!app.is_loading);
    assert_eq!(app.error_message.as_deref(), Some("Download complete!"));
}

#[test]
fn execute_search_sets_query_or_hands_out_url() {
    let mut app = App::new();
    app.mode = AppMode::Search;
    app.command_buffer = "ring".to_string();
    assert_eq!(app.execute_search(), None);
    assert_eq!(app.search_query, "ring");
    assert!(app.command_buffer.is_empty());
    assert!(app.mode == AppMode::Normal);
    app.mode = AppMode::OnlineSearch;
    app.command_buffer = "dune".to_string();
    assert_eq!(app.execute_search(), Some("https://gutendex.com/books/?search=dune".to_string()));
    assert!(app.is_loading);
    assert_eq!(app.search_query, "ring");
}

#[test]
fn saved_state_is_restored_on_open() {
    let mut library = App::new();
    let mut entry = reading("x", 0).current_book.unwrap();
    entry.category = Some("Fantasy".to_string());
    library.books.push(entry);
    library.selected_book_index = Some(0);
    let loaded = reading("fresh\ntext", 0).current_book.unwrap();
    let mut saved = reading("x", 0).current_book.unwrap();
    saved.current_chapter = 1;
    saved.current_position = 7;
    saved.time_spent_secs = 99;
    saved.last_read = "yesterday".to_string();
    saved.bookmarks.push(Bookmark { position: 3, timestamp: "t".to_string(), note: Some("n".to_string()) });
    library.open_selected_book(Ok(loaded), Some(saved));
    let open = library.current_book.as_ref().unwrap();
    assert_eq!(open.current_chapter, 1);
    assert_eq!(open.current_position, 7);
    assert_eq!(open.time_spent_secs, 99);
    assert_eq!(open.last_read, "yesterday");
    assert_eq!(open.bookmarks.len(), 1);
    assert_eq!(open.category.as_deref(), Some("Fantasy"));
    assert_eq!(open.chapters[0].content, "fresh\ntext");
    assert!(library.active_pane == ActivePane::Reader);
    library.open_selected_book(Err("corrupt".to_string()), None);
    assert_eq!(library.error_message.as_deref(), Some("Failed to open book: corrupt"));
}

#[test]
fn apply_saved_state_copies_fields() {
    let mut b = reading("x", 0).current_book.unwrap();
    let mut s = reading("y", 5).current_book.unwrap();
    s.time_spent_secs = 3;
    apply_saved_state(&mut b, s);
    assert_eq!(b.current_position, 5);
    assert_eq!(b.time_spent_secs, 3);
    assert_eq!(b.chapters[0].content, "x");
}

#[test]
fn startup_opens_last_read() {
    let mut app = App::new();
    for (id, title, last) in [("1", "B", "2024-01-02"), ("2", "A", "2024-03-01"), ("3", "C", "2024-03-01")] {
        let mut b = reading("x", 0).current_book.unwrap();
        b.id = id.to_string();
        b.title = title.to_string();
        b.last_read = last.to_string();
        app.books.push(b);
    }
    assert!(!app.apply_startup());
    assert_eq!(app.selected_book_index, Some(0));
    app.startup_view = "last_read".to_string();
    assert!(app.apply_startup());
    // list order is A, B, C; the first with the latest time is A
    assert_eq!(app.selected_book_index, Some(0));
    app.books[1].last_read = "2025".to_string();
    assert!(app.apply_startup());
    assert_eq!(app.selected_book_index, Some(0));
    app.books[0].last_read = "2026".to_string();
    assert!(app.apply_startup());
    assert_eq!(app.selected_book_index, Some(1));
    let mut empty = App::new();
    empty.startup_view = "last_read".to_string();
    assert!(!empty.apply_startup());
    assert_eq!(empty.selected_book_index, None);
}

#[test]
fn bookmark_added_at_position() {
    let mut app = reading(TEXT, 2);
    app.add_bookmark();
    let b = app.current_book.as_ref().unwrap();
    assert_eq!(b.bookmarks.len(), 1);
    assert_eq!(b.bookmarks[0].position, 2);
    assert!(b.bookmarks[0].note.is_none());
    assert!(!b.bookmarks[0].timestamp.is_empty());
    assert_eq!(app.error_message.as_deref(), Some("Bookmark added"));
}
