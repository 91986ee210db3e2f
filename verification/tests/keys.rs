use terminal_book_reader::app::{ActivePane, App, AppMode, SortMode, Theme};
use terminal_book_reader::command::CommandRequest;
use terminal_book_reader::keys::{Action, Key, Scroll};
use terminal_book_reader::model::{Book, Chapter, OnlineBook};

fn book(id: &str, title: &str, chapters: usize) -> Book {
    Book {
        id: id.to_string(),
        title: title.to_string(),
        path: format!("{}.txt", id),
        category: None,
        chapters: (0..chapters)
            .map(|i| Chapter { title: format!("ch{}", i), content: "one\ntwo ring\nthree".to_string() })
            .collect(),
        current_chapter: 0,
        current_position: 0,
        bookmarks: Vec::new(),
        time_spent_secs: 0,
        last_read: String::new(),
    }
}

fn reader() -> App {
    let mut app = App::new();
    app.books.push(book("a", "Alpha", 3));
    app.books.push(book("b", "Beta", 3));
    app.current_book = Some(book("a", "Alpha", 3));
    app.active_pane = ActivePane::Reader;
    app
}

fn press(app: &mut App, key: Key) -> Action {
    assert!(!app.key_would_overflow(key, false));
    app.handle_key(key, false)
}

fn pos(app: &App) -> (usize, usize) {
    let b = app.current_book.as_ref().unwrap();
    (b.current_chapter, b.current_position)
}

#[test]
fn help_toggles_and_swallows_keys() {
    let mut app = reader();
    press(&mut app, Key::Char('?'));
    assert!(app.show_help);
    press(&mut app, Key::Char('j'));
    assert_eq!(pos(&app), (0, 0));
    press(&mut app, Key::Char('q'));
    assert!(!app.show_help);
    assert!(!app.should_quit);
    app.handle_key(Key::Char('h'), true);
    assert!(app.show_help);
    app.handle_key(Key::Char('h'), true);
    assert!(!app.show_help);
}

#[test]
fn theme_key_twice_restores() {
    let mut app = reader();
    assert!(matches!(press(&mut app, Key::Char('t')), Action::SaveConfig));
    assert!(app.theme == Theme::Light);
    press(&mut app, Key::Char('t'));
    assert!(app.theme == Theme::Dark);
}

#[test]
fn margin_keys_saturate() {
    let mut app = reader();
    app.margin_width = u16::MAX - 1;
    press(&mut app, Key::Char('+'));
    assert_eq!(app.margin_width, u16::MAX);
    app.margin_width = 1;
    press(&mut app, Key::Char('_'));
    assert_eq!(app.margin_width, 0);
}

#[test]
fn reading_movement_keys() {
    let mut app = reader();
    press(&mut app, Key::Char('j'));
    press(&mut app, Key::PageDown);
    assert_eq!(pos(&app), (0, 21));
    press(&mut app, Key::Char('b'));
    assert_eq!(pos(&app), (0, 1));
    press(&mut app, Key::Up);
    press(&mut app, Key::Up);
    assert_eq!(pos(&app), (0, 0));
    press(&mut app, Key::Char('n'));
    assert_eq!(pos(&app), (1, 0));
    press(&mut app, Key::Char('n'));
    press(&mut app, Key::Char('n'));
    assert_eq!(pos(&app), (2, 0));
    press(&mut app, Key::Char('p'));
    assert_eq!(pos(&app), (1, 0));
}

#[test]
fn n_follows_search_when_query_set() {
    let mut app = reader();
    app.search_query = "RING".to_string();
    press(&mut app, Key::Char('n'));
    assert_eq!(pos(&app), (0, 1));
    press(&mut app, Key::Char('N'));
    assert_eq!(pos(&app), (0, 1));
}

#[test]
fn quit_saves_open_book() {
    let mut app = reader();
    assert!(matches!(press(&mut app, Key::Char('q')), Action::Quit { save_book_state: true }));
    assert!(app.should_quit);
    let mut app = App::new();
    assert!(matches!(press(&mut app, Key::Char('q')), Action::Quit { save_book_state: false }));
    assert!(app.should_quit);
}

#[test]
fn esc_quits_in_normal_mode() {
    let mut app = reader();
    assert!(matches!(press(&mut app, Key::Esc), Action::Quit { save_book_state: true }));
    assert!(app.should_quit);
    let mut app = App::new();
    app.active_pane = ActivePane::Library;
    assert!(matches!(press(&mut app, Key::Esc), Action::Quit { save_book_state: false }));
    assert!(app.should_quit);
}

#[test]
fn esc_closes_help_without_quitting() {
    let mut app = reader();
    press(&mut app, Key::Char('?'));
    assert!(matches!(press(&mut app, Key::Esc), Action::Nothing));
    assert!(!app.show_help);
    assert!(!app.should_quit);
}

#[test]
fn chapter_keys_left_right() {
    let mut app = reader();
    press(&mut app, Key::Char('j'));
    press(&mut app, Key::Char('l'));
    assert_eq!(pos(&app), (1, 0));
    press(&mut app, Key::Right);
    assert_eq!(pos(&app), (2, 0));
    press(&mut app, Key::Right);
    assert_eq!(pos(&app), (2, 0));
    press(&mut app, Key::Char('j'));
    press(&mut app, Key::Char('h'));
    assert_eq!(pos(&app), (1, 0));
    press(&mut app, Key::Left);
    assert_eq!(pos(&app), (0, 0));
    press(&mut app, Key::Left);
    assert_eq!(pos(&app), (0, 0));
    app.active_pane = ActivePane::Library;
    press(&mut app, Key::Right);
    assert_eq!(pos(&app), (0, 0));
}

#[test]
fn tab_leaving_reader_saves() {
    let mut app = reader();
    assert!(matches!(press(&mut app, Key::Tab), Action::SaveBookState));
    assert!(app.active_pane == ActivePane::Library);
    assert!(matches!(press(&mut app, Key::Tab), Action::Nothing));
    assert!(app.active_pane == ActivePane::Reader);
}

#[test]
fn bookmark_and_toc_keys() {
    let mut app = reader();
    press(&mut app, Key::Char('m'));
    assert_eq!(app.current_book.as_ref().unwrap().bookmarks.len(), 1);
    press(&mut app, Key::Char('c'));
    assert!(app.mode == AppMode::Toc);
    press(&mut app, Key::Down);
    press(&mut app, Key::Char('j'));
    press(&mut app, Key::Char('j'));
    assert_eq!(app.toc_selected_index, 2);
    press(&mut app, Key::Char('k'));
    press(&mut app, Key::Enter);
    assert!(app.mode == AppMode::Normal);
    assert_eq!(pos(&app), (1, 0));
    press(&mut app, Key::Char('c'));
    press(&mut app, Key::Esc);
    assert!(app.mode == AppMode::Normal);
}

#[test]
fn command_mode_typing_and_enter() {
    let mut app = reader();
    app.error_message = Some("old".to_string());
    press(&mut app, Key::Char(':'));
    assert!(app.mode == AppMode::Command);
    assert!(app.error_message.is_none());
    for c in "delete x".chars() {
        press(&mut app, Key::Char(c));
    }
    assert_eq!(app.command_buffer, "delete x");
    press(&mut app, Key::Backspace);
    press(&mut app, Key::Backspace);
    assert_eq!(app.command_buffer, "delete");
    assert_eq!(app.command_suggestions.len(), 2);
    press(&mut app, Key::Down);
    assert_eq!(app.suggestion_index, Some(0));
    press(&mut app, Key::Tab);
    assert_eq!(app.command_buffer, "delete \"uncategorized/Alpha\"");
    match press(&mut app, Key::Enter) {
        Action::Command(CommandRequest::Delete { id, .. }) => assert_eq!(id, "a"),
        _ => panic!("expected a delete"),
    }
    assert!(app.mode == AppMode::Normal);
}

#[test]
fn esc_leaves_input_mode() {
    let mut app = reader();
    press(&mut app, Key::Char('/'));
    assert!(app.mode == AppMode::Search);
    press(&mut app, Key::Char('x'));
    press(&mut app, Key::Esc);
    assert!(app.mode == AppMode::Normal);
    assert!(app.command_buffer.is_empty());
}

#[test]
fn library_search_filters_as_typed() {
    let mut app = reader();
    app.active_pane = ActivePane::Library;
    press(&mut app, Key::Char('/'));
    assert!(app.mode == AppMode::LibrarySearch);
    press(&mut app, Key::Char('B'));
    assert_eq!(app.library_filter, "B");
    assert_eq!(app.selected_book_index, Some(0));
    press(&mut app, Key::Char('q'));
    assert_eq!(app.selected_book_index, None);
    press(&mut app, Key::Backspace);
    press(&mut app, Key::Enter);
    assert!(app.mode == AppMode::Normal);
    assert_eq!(app.library_filter, "B");
    assert_eq!(app.filtered_books().len(), 1);
}

#[test]
fn esc_in_library_search_clears_filter() {
    let mut app = reader();
    app.active_pane = ActivePane::Library;
    press(&mut app, Key::Char('/'));
    press(&mut app, Key::Char('z'));
    assert_eq!(app.selected_book_index, None);
    press(&mut app, Key::Esc);
    assert!(app.mode == AppMode::Normal);
    assert!(app.library_filter.is_empty());
    assert!(app.command_buffer.is_empty());
    assert_eq!(app.selected_book_index, Some(0));
    assert_eq!(app.filtered_books().len(), 2);
}

#[test]
fn online_search_key_hands_out_url() {
    let mut app = App::new();
    app.active_pane = ActivePane::Downloader;
    press(&mut app, Key::Char('/'));
    assert!(app.mode == AppMode::OnlineSearch);
    press(&mut app, Key::Char('a'));
    match press(&mut app, Key::Enter) {
        Action::SearchOnline { url } => assert_eq!(url, "https://gutendex.com/books/?search=a"),
        _ => panic!("expected a search"),
    }
    assert!(app.is_loading);
}

#[test]
fn library_keys() {
    let mut app = reader();
    app.active_pane = ActivePane::Library;
    press(&mut app, Key::Char('j'));
    assert_eq!(app.selected_book_index, Some(0));
    press(&mut app, Key::Char('k'));
    assert_eq!(app.selected_book_index, Some(1));
    press(&mut app, Key::Char('s'));
    assert!(app.library_sort == SortMode::Date);
    press(&mut app, Key::Char('s'));
    assert!(app.library_sort == SortMode::Progress);
    press(&mut app, Key::Char('s'));
    assert!(app.library_sort == SortMode::Name);
    assert!(matches!(press(&mut app, Key::Enter), Action::OpenSelectedBook));
}

#[test]
fn downloader_enter() {
    let mut app = App::new();
    app.active_pane = ActivePane::Downloader;
    assert!(matches!(press(&mut app, Key::Enter), Action::Nothing));
    app.online_books.push(OnlineBook { id: 7, title: "t".to_string(), authors: vec![], epub: None });
    app.online_books.push(OnlineBook {
        id: 9,
        title: "u".to_string(),
        authors: vec!["A".to_string()],
        epub: Some("http://x/9.epub".to_string()),
    });
    app.selected_online_index = Some(0);
    press(&mut app, Key::Enter);
    assert_eq!(app.error_message.as_deref(), Some("No EPUB format available for this book"));
    press(&mut app, Key::Down);
    match press(&mut app, Key::Enter) {
        Action::Download { url, id } => {
            assert_eq!(url, "http://x/9.epub");
            assert_eq!(id, 9);
        }
        _ => panic!("expected a download"),
    }
    assert!(app.is_loading);
    assert_eq!(app.error_message.as_deref(), Some("Downloading..."));
}

#[test]
fn preferences_menu() {
    let mut app = App::new();
    press(&mut app, Key::Char('P'));
    assert!(app.mode == AppMode::Preferences);
    press(&mut app, Key::Enter);
    assert!(app.theme == Theme::Light);
    press(&mut app, Key::Down);
    press(&mut app, Key::Char(' '));
    assert_eq!(app.text_alignment, "center");
    press(&mut app, Key::Enter);
    assert_eq!(app.text_alignment, "right");
    press(&mut app, Key::Enter);
    assert_eq!(app.text_alignment, "left");
    press(&mut app, Key::Down);
    for _ in 0..11 {
        press(&mut app, Key::Enter);
    }
    assert_eq!(app.margin_width, 0);
    press(&mut app, Key::Char('+'));
    assert_eq!(app.margin_width, 2);
    press(&mut app, Key::Char('j'));
    press(&mut app, Key::Enter);
    assert_eq!(app.startup_view, "last_read");
    press(&mut app, Key::Enter);
    assert_eq!(app.startup_view, "library");
    press(&mut app, Key::Down);
    press(&mut app, Key::Enter);
    assert!(app.case_sensitive_search);
    press(&mut app, Key::Down);
    press(&mut app, Key::Enter);
    assert!(!app.show_status_bar);
    press(&mut app, Key::Down);
    press(&mut app, Key::Down);
    assert_eq!(app.preferences_selected_index, 6);
    app.wpm = 950;
    press(&mut app, Key::Enter);
    assert_eq!(app.wpm, 1000);
    press(&mut app, Key::Enter);
    assert_eq!(app.wpm, 100);
    assert!(matches!(press(&mut app, Key::Esc), Action::SaveConfig));
    assert!(app.mode == AppMode::Normal);
}

#[test]
fn scrolling() {
    let mut app = reader();
    app.handle_scroll(Scroll::Down);
    assert_eq!(pos(&app), (0, 3));
    app.handle_scroll(Scroll::Up);
    app.handle_scroll(Scroll::Up);
    assert_eq!(pos(&app), (0, 0));
    app.active_pane = ActivePane::Library;
    app.handle_scroll(Scroll::Down);
    assert_eq!(app.selected_book_index, Some(0));
    app.mode = AppMode::Toc;
    app.handle_scroll(Scroll::Down);
    assert_eq!(app.toc_selected_index, 1);
    app.handle_scroll(Scroll::Up);
    assert_eq!(app.toc_selected_index, 0);
}

#[test]
fn overflow_is_detected_before_handling() {
    let mut app = reader();
    app.current_book.as_mut().unwrap().current_position = usize::MAX - 5;
    assert!(app.key_would_overflow(Key::PageDown, false));
    assert!(!app.key_would_overflow(Key::PageUp, false));
    assert!(!app.scroll_would_overflow(Scroll::Down));
    app.current_book.as_mut().unwrap().current_position = usize::MAX - 1;
    assert!(app.scroll_would_overflow(Scroll::Down));
    assert!(!app.scroll_would_overflow(Scroll::Up));
    app.mode = AppMode::Command;
    app.command_buffer = "import\tfile".to_string();
    assert!(app.key_would_overflow(Key::Enter, false));
}

#[test]
fn preferences_selection_stays_in_menu() {
    let mut app = App::new();
    press(&mut app, Key::Char('P'));
    for _ in 0..20 {
        press(&mut app, Key::Char('j'));
        assert!(app.preferences_selected_index <= 6);
    }
    assert_eq!(app.preferences_selected_index, 6);
    for _ in 0..20 {
        press(&mut app, Key::Up);
    }
    assert_eq!(app.preferences_selected_index, 0);
}

#[test]
fn checked_key_refuses_overflow_and_leaves_state() {
    let mut app = reader();
    app.current_book.as_mut().unwrap().current_position = usize::MAX;
    assert!(app.handle_key_checked(Key::Char('j'), false).is_none());
    assert_eq!(pos(&app), (0, usize::MAX));
    assert!(matches!(app.handle_key_checked(Key::Char('k'), false), Some(Action::Nothing)));
    assert_eq!(pos(&app), (0, usize::MAX - 1));
}

#[test]
fn checked_command_refuses_import_without_space() {
    let mut app = reader();
    app.mode = AppMode::Command;
    app.command_buffer = "import\tbook.txt".to_string();
    assert!(app.execute_command_checked().is_none());
    assert!(app.mode == AppMode::Command);
    assert_eq!(app.command_buffer, "import\tbook.txt");
    app.command_buffer = "import book.txt".to_string();
    match app.execute_command_checked() {
        Some(CommandRequest::Import { path }) => assert_eq!(path, "book.txt"),
        _ => panic!("expected an import"),
    }
    assert!(app.mode == AppMode::Normal);
}
