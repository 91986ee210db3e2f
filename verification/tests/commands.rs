use terminal_book_reader::app::{ActivePane, App, AppMode, Theme};
use terminal_book_reader::command::{import_check, CommandRequest, ImportOutcome};
use terminal_book_reader::model::{Book, Chapter};

fn entry(id: &str, title: &str, category: Option<&str>) -> Book {
    Book {
        id: id.to_string(),
        title: title.to_string(),
        path: format!("books/{}.epub", id),
        category: category.map(|c| c.to_string()),
        chapters: vec![Chapter { title: "c".to_string(), content: "text".to_string() }],
        current_chapter: 0,
        current_position: 0,
        bookmarks: Vec::new(),
        time_spent_secs: 0,
        last_read: String::new(),
    }
}

fn shelf() -> App {
    let mut app = App::new();
    app.books.push(entry("h", "The Hobbit", Some("Fantasy")));
    app.books.push(entry("d", "Dune", None));
    app.mode = AppMode::Command;
    app
}

fn run(app: &mut App, line: &str) -> CommandRequest {
    app.command_buffer = line.to_string();
    app.execute_command()
}

fn message(app: &App) -> String {
    app.error_message.clone().unwrap_or_default()
}

#[test]
fn quit_commands() {
    for line in ["q", "quit", "EXIT"] {
        let mut app = shelf();
        let req = run(&mut app, line);
        assert!(matches!(req, CommandRequest::Done));
        assert!(app.should_quit);
        assert!(app.mode == AppMode::Normal);
        assert!(app.command_buffer.is_empty());
    }
}

#[test]
fn downloader_command() {
    let mut app = shelf();
    run(&mut app, "  dl  ");
    assert!(app.active_pane == ActivePane::Downloader);
}

#[test]
fn empty_command_clears_line_and_completions() {
    let mut app = shelf();
    app.command_suggestions = vec!["x".to_string()];
    let req = run(&mut app, "   ");
    assert!(matches!(req, CommandRequest::Done));
    assert!(app.command_suggestions.is_empty());
    assert!(app.mode == AppMode::Normal);
    assert!(app.error_message.is_none());
}

#[test]
fn import_needs_a_path() {
    let mut app = shelf();
    let req = run(&mut app, "import");
    assert!(matches!(req, CommandRequest::Done));
    assert_eq!(message(&app), "Usage: :import /path/to/book.epub");
    let mut app = shelf();
    match run(&mut app, "import /tmp/my book.epub") {
        CommandRequest::Import { path } => assert_eq!(path, "/tmp/my book.epub"),
        _ => panic!("expected an import"),
    }
}

#[test]
fn import_without_space_is_detected() {
    let mut app = shelf();
    app.command_buffer = "import\tbook.epub".to_string();
    assert!(app.import_without_space());
    app.command_buffer = "import book.epub".to_string();
    assert!(!app.import_without_space());
}

#[test]
fn create_category_command() {
    let mut app = shelf();
    match run(&mut app, "mkdir Poetry extra") {
        CommandRequest::CreateCategory { name } => assert_eq!(name, "Poetry"),
        _ => panic!("expected a category"),
    }
    let mut app = shelf();
    run(&mut app, "category");
    assert_eq!(message(&app), "Usage: :create <category_name>");
    app.finish_create(&"Poetry".to_string(), Ok(()));
    assert_eq!(message(&app), "Created category: Poetry");
    app.finish_create(&"Poetry".to_string(), Err("denied".to_string()));
    assert_eq!(message(&app), "Failed to create category: denied");
}

#[test]
fn delete_by_quoted_name_ignores_case() {
    let mut app = shelf();
    match run(&mut app, "delete \"fantasy/the hobbit\"") {
        CommandRequest::Delete { id, path } => {
            assert_eq!(id, "h");
            assert_eq!(path, "books/h.epub");
        }
        _ => panic!("expected a delete"),
    }
    let mut app = shelf();
    match run(&mut app, "delete \"uncategorized/Dune\"") {
        CommandRequest::Delete { id, .. } => assert_eq!(id, "d"),
        _ => panic!("expected a delete"),
    }
}

#[test]
fn delete_selected_book() {
    let mut app = shelf();
    app.selected_book_index = Some(0);
    match run(&mut app, "delete") {
        CommandRequest::Delete { id, .. } => assert_eq!(id, "d"),
        _ => panic!("expected a delete"),
    }
}

#[test]
fn delete_without_target_is_reported() {
    let mut app = shelf();
    let req = run(&mut app, "delete");
    assert!(matches!(req, CommandRequest::Done));
    assert_eq!(message(&app), "No book selected or found");
    let mut app = shelf();
    run(&mut app, "delete \"nowhere/none\"");
    assert_eq!(message(&app), "No book selected or found");
}

#[test]
fn finish_delete_removes_book() {
    let mut app = shelf();
    app.current_book = Some(entry("h", "The Hobbit", Some("Fantasy")));
    app.active_pane = ActivePane::Reader;
    app.finish_delete(&"h".to_string(), true);
    assert_eq!(app.books.len(), 1);
    assert_eq!(app.books[0].id, "d");
    assert!(app.current_book.is_none());
    assert!(app.active_pane == ActivePane::Library);
    assert_eq!(app.selected_book_index, Some(0));
    assert_eq!(message(&app), "Book deleted");
    app.finish_delete(&"d".to_string(), true);
    assert!(app.books.is_empty());
    assert_eq!(app.selected_book_index, None);
    app.finish_delete(&"x".to_string(), false);
    assert_eq!(message(&app), "Failed to delete file");
}

#[test]
fn move_by_quoted_name() {
    let mut app = shelf();
    match run(&mut app, "move \"Fantasy/The Hobbit\"   Classics  ") {
        CommandRequest::Move { id, path, category } => {
            assert_eq!(id, "h");
            assert_eq!(path, "books/h.epub");
            assert_eq!(category, "Classics");
        }
        _ => panic!("expected a move"),
    }
}

#[test]
fn move_selected_book_and_usage() {
    let mut app = shelf();
    app.selected_book_index = Some(1);
    match run(&mut app, "move Scifi") {
        CommandRequest::Move { id, category, .. } => {
            assert_eq!(id, "h");
            assert_eq!(category, "Scifi");
        }
        _ => panic!("expected a move"),
    }
    let mut app = shelf();
    app.selected_book_index = Some(1);
    run(&mut app, "move");
    assert_eq!(message(&app), "Usage: :move [\"category/title\"] <category>");
    let mut app = shelf();
    run(&mut app, "move Scifi");
    assert_eq!(message(&app), "No book selected or found");
}

#[test]
fn finish_move_updates_books() {
    let mut app = shelf();
    app.current_book = Some(entry("h", "The Hobbit", Some("Fantasy")));
    app.finish_move(&"h".to_string(), &"books/Classics/h.epub".to_string(), &"Classics".to_string(), true);
    assert_eq!(app.books[0].path, "books/Classics/h.epub");
    assert_eq!(app.books[0].category.as_deref(), Some("Classics"));
    assert_eq!(app.books[1].category, None);
    assert_eq!(app.current_book.as_ref().unwrap().category.as_deref(), Some("Classics"));
    assert_eq!(message(&app), "Book moved to category: Classics");
    app.finish_move(&"h".to_string(), &"p".to_string(), &"c".to_string(), false);
    assert_eq!(message(&app), "Failed to move file");
}

#[test]
fn theme_command() {
    let mut app = shelf();
    run(&mut app, "theme light");
    assert!(app.theme == Theme::Light);
    run(&mut app, "theme dark");
    assert!(app.theme == Theme::Dark);
    run(&mut app, "theme");
    assert!(app.theme == Theme::Light);
    run(&mut app, "theme blue");
    assert!(app.theme == Theme::Light);
    assert_eq!(message(&app), "Invalid theme. Use 'light' or 'dark'");
}

#[test]
fn unknown_command_is_reported() {
    let mut app = shelf();
    run(&mut app, "Frobnicate now");
    assert_eq!(message(&app), "Unknown command: Frobnicate");
}

#[test]
fn parse_book_arg_reads_quoted_name() {
    let app = shelf();
    let r = app.parse_book_arg(&"delete  \"Fantasy/The Hobbit\"  rest ".to_string(), "delete");
    assert_eq!(r, Some(("rest".to_string(), "Fantasy/The Hobbit".to_string())));
    assert_eq!(app.parse_book_arg(&"delete \"unclosed".to_string(), "delete"), None);
    assert_eq!(app.parse_book_arg(&"delete plain".to_string(), "delete"), None);
    let r = app.parse_book_arg(&"movemove \"a/b\"".to_string(), "move");
    assert_eq!(r, Some((String::new(), "a/b".to_string())));
}

#[test]
fn suggestions_for_delete_and_move() {
    let mut app = shelf();
    app.command_buffer = "DELETE hob".to_string();
    app.suggestion_index = Some(3);
    app.update_suggestions();
    assert_eq!(app.command_suggestions, vec!["delete \"Fantasy/The Hobbit\"".to_string()]);
    assert_eq!(app.suggestion_index, None);
    app.command_buffer = "move".to_string();
    app.update_suggestions();
    assert_eq!(
        app.command_suggestions,
        vec![
            "move \"Fantasy/The Hobbit\" <new_category>".to_string(),
            "move \"uncategorized/Dune\" <new_category>".to_string(),
        ]
    );
    app.command_buffer = "theme".to_string();
    app.update_suggestions();
    assert!(app.command_suggestions.is_empty());
}

#[test]
fn apply_suggestion_fills_command_line() {
    let mut app = shelf();
    app.command_suggestions = vec![
        "move \"Fantasy/The Hobbit\" <new_category>".to_string(),
        "delete \"uncategorized/Dune\"".to_string(),
    ];
    app.apply_suggestion();
    assert_eq!(app.command_buffer, "move \"Fantasy/The Hobbit\" ");
    assert!(app.command_suggestions.is_empty());
    app.command_suggestions = vec!["a".to_string(), "delete \"x/y\"".to_string()];
    app.suggestion_index = Some(1);
    app.apply_suggestion();
    assert_eq!(app.command_buffer, "delete \"x/y\"");
    app.command_buffer = "keep".to_string();
    app.command_suggestions = vec!["a".to_string()];
    app.suggestion_index = Some(5);
    app.apply_suggestion();
    assert_eq!(app.command_buffer, "keep");
    assert_eq!(app.command_suggestions.len(), 1);
}

#[test]
fn import_checks_and_outcomes() {
    assert!(matches!(import_check(false, Some("epub")), Some(ImportOutcome::Missing)));
    assert!(matches!(import_check(true, None), Some(ImportOutcome::NoExtension)));
    assert!(matches!(import_check(true, Some("pdf")), Some(ImportOutcome::Unsupported)));
    assert!(import_check(true, Some("epub")).is_none());
    assert!(import_check(true, Some("txt")).is_none());
    let mut app = shelf();
    app.finish_import(ImportOutcome::Missing);
    assert_eq!(message(&app), "File not found");
    app.finish_import(ImportOutcome::Unsupported);
    assert_eq!(message(&app), "Only .epub and .txt are supported");
    app.finish_import(ImportOutcome::CopyFailed("disk full".to_string()));
    assert_eq!(message(&app), "Failed to copy file: disk full");
    app.finish_import(ImportOutcome::ParseFailed("bad zip".to_string()));
    assert_eq!(message(&app), "Failed to parse book: bad zip");
    app.error_message = None;
    app.finish_import(ImportOutcome::NoExtension);
    assert!(app.error_message.is_none());
    app.finish_import(ImportOutcome::Loaded(entry("n", "New", None)));
    assert_eq!(app.books.len(), 3);
    assert_eq!(app.books[2].id, "n");
    assert_eq!(app.current_book.as_ref().unwrap().id, "n");
    assert!(app.active_pane == ActivePane::Reader);
    assert_eq!(message(&app), "Book imported successfully!");
}
