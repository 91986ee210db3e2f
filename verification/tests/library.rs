use terminal_book_reader::app::{ActivePane, App, AppMode, SortMode, Theme};
use terminal_book_reader::config::{
    default_alignment, default_case_sensitive, default_show_status_bar, default_startup_view,
    default_target_wpm, AppConfig,
};
use terminal_book_reader::model::{Book, Bookmark, Chapter, OnlineBook};

fn book(id: &str, title: &str, category: Option<&str>, chapter: usize) -> Book {
    Book {
        id: id.to_string(),
        title: title.to_string(),
        path: format!("books/{}.txt", id),
        category: category.map(|c| c.to_string()),
        chapters: vec![
            Chapter { title: "One".to_string(), content: "alpha\nbeta\ngamma".to_string() },
            Chapter { title: "Two".to_string(), content: "delta\nepsilon".to_string() },
            Chapter { title: "Three".to_string(), content: "zeta".to_string() },
        ],
        current_chapter: chapter,
        current_position: 0,
        bookmarks: Vec::new(),
        time_spent_secs: 0,
        last_read: String::new(),
    }
}

fn library() -> App {
    let mut app = App::new();
    app.books.push(book("1", "The Hobbit", Some("fantasy"), 0));
    app.books.push(book("2", "Dune", None, 2));
    app.books.push(book("3", "Emma", Some("classics"), 1));
    app.books.push(book("4", "Dune", Some("scifi"), 2));
    app
}

fn titles(app: &App) -> Vec<String> {
    app.filtered_books().iter().map(|b| format!("{}#{}", b.title, b.id)).collect()
}

#[test]
fn new_app_defaults() {
    let app = App::new();
    assert!(!app.should_quit);
    assert!(app.mode == AppMode::Normal);
    assert!(app.active_pane == ActivePane::Library);
    assert!(app.theme == Theme::Dark);
    assert_eq!(app.wpm, 250);
    assert_eq!(app.text_alignment, "left");
    assert_eq!(app.startup_view, "library");
    assert!(app.show_status_bar);
    assert!(!app.case_sensitive_search);
    assert!(app.books.is_empty());
}

#[test]
fn listing_sorted_by_name_ties_in_library_order() {
    let app = library();
    assert_eq!(titles(&app), vec!["Dune#2", "Dune#4", "Emma#3", "The Hobbit#1"]);
    assert_eq!(app.filtered_indices(), vec![1, 3, 2, 0]);
}

#[test]
fn listing_sorted_by_progress_furthest_first() {
    let mut app = library();
    app.library_sort = SortMode::Progress;
    assert_eq!(titles(&app), vec!["Dune#2", "Dune#4", "Emma#3", "The Hobbit#1"]);
    app.books[0].current_chapter = 5;
    assert_eq!(titles(&app), vec!["The Hobbit#1", "Dune#2", "Dune#4", "Emma#3"]);
}

#[test]
fn listing_sorted_by_date_most_recent_first() {
    let mut app = library();
    app.library_sort = SortMode::Date;
    app.books[2].last_read = "2024-03-01T10:00:00+00:00".to_string();
    app.books[0].last_read = "2024-05-01T09:30:00+00:00".to_string();
    app.books[3].last_read = "2023-12-24T18:00:00+00:00".to_string();
    assert_eq!(titles(&app), vec!["The Hobbit#1", "Emma#3", "Dune#4", "Dune#2"]);
    assert_eq!(app.filtered_indices(), vec![0, 2, 3, 1]);
}

#[test]
fn tick_with_nothing_to_add_accepts_any_time() {
    let mut app = library();
    let mut b = book("1", "The Hobbit", None, 0);
    b.time_spent_secs = u64::MAX;
    app.current_book = Some(b);
    assert!(app.tick(10));
    assert_eq!(app.current_book.as_ref().unwrap().time_spent_secs, u64::MAX);
}

#[test]
fn filter_ignores_case() {
    let mut app = library();
    app.library_filter = "HOBBIT".to_string();
    assert_eq!(titles(&app), vec!["The Hobbit#1"]);
    app.library_filter = "un".to_string();
    assert_eq!(titles(&app), vec!["Dune#2", "Dune#4"]);
    app.library_filter = "zzz".to_string();
    assert!(app.filtered_books().is_empty());
}

#[test]
fn empty_filter_lists_every_book() {
    let app = library();
    assert_eq!(app.filtered_books().len(), app.books.len());
}

#[test]
fn next_and_previous_book_wrap() {
    let mut app = library();
    app.next_book();
    assert_eq!(app.selected_book_index, Some(0));
    app.previous_book();
    assert_eq!(app.selected_book_index, Some(3));
    app.next_book();
    assert_eq!(app.selected_book_index, Some(0));
    app.selected_book_index = Some(2);
    app.next_book();
    app.previous_book();
    assert_eq!(app.selected_book_index, Some(2));
}

#[test]
fn selection_none_for_empty_list() {
    let mut app = library();
    app.library_filter = "nothing matches".to_string();
    app.selected_book_index = Some(1);
    app.next_book();
    assert_eq!(app.selected_book_index, None);
    app.selected_book_index = Some(1);
    app.previous_book();
    assert_eq!(app.selected_book_index, None);
}

#[test]
fn online_selection_wraps() {
    let mut app = App::new();
    app.next_online_book();
    assert_eq!(app.selected_online_index, None);
    for id in 0..3u64 {
        app.online_books.push(OnlineBook { id, title: format!("b{}", id), authors: vec![], epub: None });
    }
    app.previous_online_book();
    assert_eq!(app.selected_online_index, Some(0));
    app.previous_online_book();
    assert_eq!(app.selected_online_index, Some(2));
    app.next_online_book();
    assert_eq!(app.selected_online_index, Some(0));
}

#[test]
fn theme_toggles_back() {
    let mut app = App::new();
    app.toggle_theme();
    assert!(app.theme == Theme::Light);
    app.toggle_theme();
    assert!(app.theme == Theme::Dark);
}

#[test]
fn tick_counts_reading_time_only_in_reader() {
    let mut app = library();
    app.current_book = Some(book("1", "The Hobbit", None, 0));
    assert!(!app.tick(0));
    assert!(app.tick(5));
    assert_eq!(app.current_book.as_ref().unwrap().time_spent_secs, 0);
    app.active_pane = ActivePane::Reader;
    assert!(app.tick(7));
    assert_eq!(app.current_book.as_ref().unwrap().time_spent_secs, 7);
    assert!(!app.tick(0));
    assert_eq!(app.current_book.as_ref().unwrap().time_spent_secs, 7);
}

#[test]
fn toggle_pane_copies_reading_state_back() {
    let mut app = library();
    let mut open = book("3", "Emma", Some("classics"), 2);
    open.current_position = 9;
    open.time_spent_secs = 120;
    open.last_read = "2024-05-01".to_string();
    open.bookmarks.push(Bookmark { position: 4, timestamp: "t".to_string(), note: None });
    app.current_book = Some(open);
    app.active_pane = ActivePane::Reader;
    assert!(app.toggle_pane());
    assert!(app.active_pane == ActivePane::Library);
    let b = &app.books[2];
    assert_eq!(b.current_chapter, 2);
    assert_eq!(b.current_position, 9);
    assert_eq!(b.time_spent_secs, 120);
    assert_eq!(b.last_read, "2024-05-01");
    assert_eq!(b.bookmarks.len(), 1);
    assert_eq!(b.bookmarks[0].position, 4);
    assert_eq!(app.books[0].current_position, 0);
    assert!(!app.toggle_pane());
    assert!(app.active_pane == ActivePane::Reader);
    app.active_pane = ActivePane::Downloader;
    assert!(!app.toggle_pane());
    assert!(app.active_pane == ActivePane::Library);
}

#[test]
fn cycle_suggestion_wraps_both_ways() {
    let mut app = App::new();
    app.cycle_suggestion(true);
    assert_eq!(app.suggestion_index, None);
    app.command_suggestions = vec!["a".to_string(), "b".to_string(), "c".to_string()];
    app.cycle_suggestion(false);
    assert_eq!(app.suggestion_index, Some(2));
    app.cycle_suggestion(true);
    assert_eq!(app.suggestion_index, Some(0));
    app.cycle_suggestion(true);
    assert_eq!(app.suggestion_index, Some(1));
    app.cycle_suggestion(false);
    assert_eq!(app.suggestion_index, Some(0));
    app.cycle_suggestion(false);
    assert_eq!(app.suggestion_index, Some(2));
}

#[test]
fn full_cycle_of_suggestions_returns() {
    let mut app = App::new();
    app.command_suggestions = vec!["a".to_string(), "b".to_string(), "c".to_string(), "d".to_string()];
    app.suggestion_index = Some(2);
    for _ in 0..4 {
        app.cycle_suggestion(true);
    }
    assert_eq!(app.suggestion_index, Some(2));
}

#[test]
fn app_config_round_trip() {
    let mut app = App::new();
    app.theme = Theme::Light;
    app.margin_width = 6;
    app.text_alignment = "center".to_string();
    app.startup_view = "last_read".to_string();
    app.case_sensitive_search = true;
    app.show_status_bar = false;
    app.wpm = 400;
    let c = app.to_config();
    assert_eq!(c.default_theme, "light");
    assert_eq!(c.text_size, 6);
    let mut other = App::new();
    other.apply_config(c);
    assert!(other.theme == Theme::Light);
    assert_eq!(other.margin_width, 6);
    assert_eq!(other.text_alignment, "center");
    assert_eq!(other.startup_view, "last_read");
    assert!(other.case_sensitive_search);
    assert!(!other.show_status_bar);
    assert_eq!(other.wpm, 400);
}

#[test]
fn config_theme_is_read_ignoring_case() {
    let mut app = App::new();
    let mut c = AppConfig::default();
    c.default_theme = "LIGHT".to_string();
    c.text_size = 70000;
    app.apply_config(c);
    assert!(app.theme == Theme::Light);
    assert_eq!(app.margin_width, (70000u32 % 65536) as u16);
    let mut c = AppConfig::default();
    c.default_theme = "sepia".to_string();
    app.apply_config(c);
    assert!(app.theme == Theme::Dark);
}

#[test]
fn default_config_values() {
    let c = AppConfig::default();
    assert_eq!(c.default_theme, "dark");
    assert_eq!(c.text_size, 14);
    assert_eq!(c.text_alignment, "left");
    assert_eq!(c.startup_view, "library");
    assert!(!c.case_sensitive_search);
    assert!(c.show_status_bar);
    assert_eq!(c.target_wpm, 250);
    assert_eq!(default_alignment(), "left");
    assert_eq!(default_startup_view(), "library");
    assert!(!default_case_sensitive());
    assert!(default_show_status_bar());
    assert_eq!(default_target_wpm(), 250);
}
