//! The reader as a state machine: each key press or scroll moves it to its next state and
//! names the outside work (saving, loading, downloading, file commands) that is left to do.

use vstd::prelude::*;
use crate::app::{
    cycled, matching_count, pane_toggled, search_post, ActivePane, App, AppMode,
    SortMode,
};
use crate::command::{
    command_post, import_has_space, reported, suggestion_applied, suggestions_post, CommandRequest,
};
use crate::events::{bookmark_post, search_run_post};
use crate::model::Book;
use crate::text::{pop_char, push_char};

verus! {

broadcast use vstd::string::group_string_axioms;

/// A key, as the reader tells keys apart.
#[derive(Clone, Copy, PartialEq, Eq, Structural)]
pub enum Key {
    Char(char),
    Tab,
    Enter,
    Esc,
    Up,
    Down,
    Left,
    Right,
    PageUp,
    PageDown,
    Backspace,
    Other,
}

/// A mouse event, as the reader tells them apart.
#[derive(Clone, Copy, PartialEq, Eq, Structural)]
pub enum Scroll {
    Up,
    Down,
    Other,
}

/// Outside work that a key leaves to do.
pub enum Action {
    Nothing,
    /// Store the reading state of the open book.
    SaveBookState,
    /// Leave the reader: store the reading state of the open book when `save_book_state`
    /// holds, then store the preferences.
    Quit { save_book_state: bool },
    /// Store the preferences.
    SaveConfig,
    /// Load the selected library book and open it ([`App::open_selected_book`]).
    OpenSelectedBook,
    /// Download an EPUB from `url` for the catalogue book `id`.
    Download { url: String, id: u64 },
    /// Finish a file-system command ([`CommandRequest`]).
    Command(CommandRequest),
    /// Search the online catalogue at `url`.
    SearchOnline { url: String },
}

/// The open book with its reading position set to `pos`.
pub open spec fn at_position(app: App, pos: usize) -> App {
    App { current_book: Some(Book { current_position: pos, ..app.current_book->0 }), ..app }
}

/// The open book at the start of chapter `ch`.
pub open spec fn at_chapter(app: App, ch: usize) -> App {
    App { current_book: Some(Book { current_chapter: ch, current_position: 0, ..app.current_book->0 }), ..app }
}

/// The mode that `/` enters from each pane.
pub open spec fn search_mode(p: ActivePane) -> AppMode {
    match p {
        ActivePane::Downloader => AppMode::OnlineSearch,
        ActivePane::Library => AppMode::LibrarySearch,
        ActivePane::Reader => AppMode::Search,
    }
}

/// The next sort order: by name, then by date, then by progress, then by name again.
pub open spec fn next_sort(s: SortMode) -> SortMode {
    match s {
        SortMode::Name => SortMode::Date,
        SortMode::Date => SortMode::Progress,
        SortMode::Progress => SortMode::Name,
    }
}

/// The text alignment after `left`, `center`, `right`; anything else goes back to `left`.
pub open spec fn next_alignment(s: Seq<char>) -> Seq<char> {
    if s == "left"@ {
        "center"@
    } else if s == "center"@ {
        "right"@
    } else {
        "left"@
    }
}

/// The start-up view after `library` is `last_read`; after anything else, `library`.
pub open spec fn next_startup_view(s: Seq<char>) -> Seq<char> {
    if s == "library"@ {
        "last_read"@
    } else {
        "library"@
    }
}

/// Inputs on which the key handling stops with an arithmetic overflow or a failed unwrap:
/// moving past the last representable line or chapter, stepping past the last representable
/// completion or table-of-contents entry, or an `import` line that has no space.
pub open spec fn key_panics(app: App, key: Key, ctrl: bool) -> bool {
    let help_toggle = (key == Key::Char('h') && ctrl) || key == Key::Char('?');
    if help_toggle || app.show_help {
        false
    } else if app.mode == AppMode::Normal {
        let reader = app.active_pane == ActivePane::Reader;
        if key == Key::Char('f') || key == Key::PageDown {
            reader && (app.current_book matches Some(b) && b.current_position > usize::MAX - 20)
        } else if key == Key::Char('n') {
            reader && if app.search_query@.len() > 0 {
                app.search_applies() && app.current_book->0.current_position == usize::MAX
            } else {
                app.current_book matches Some(b) && b.current_chapter == usize::MAX
            }
        } else if key == Key::Down || key == Key::Char('j') {
            reader && (app.current_book matches Some(b) && b.current_position == usize::MAX)
        } else {
            false
        }
    } else if app.mode == AppMode::Toc {
        (key == Key::Down || key == Key::Char('j')) && app.current_book is Some && app.toc_selected_index
            == usize::MAX
    } else if app.mode == AppMode::Preferences {
        false
    } else {
        ||| key == Key::Enter && app.mode == AppMode::Command && !import_has_space(app)
        ||| key == Key::Down && app.mode == AppMode::Command && app.command_suggestions@.len() > 0
            && app.suggestion_index == Some(usize::MAX)
    }
}

/// Inputs on which scrolling stops with an arithmetic overflow.
pub open spec fn scroll_panics(app: App, s: Scroll) -> bool {
    ||| app.mode == AppMode::Normal && s == Scroll::Down && app.active_pane == ActivePane::Reader
        && (app.current_book matches Some(b) && b.current_position > usize::MAX - 3)
    ||| app.mode == AppMode::Toc && s == Scroll::Down && app.current_book is Some && app.toc_selected_index
        == usize::MAX
}

/// Enter in the downloader: the selected catalogue book, if it offers an EPUB, starts
/// downloading; otherwise that is reported. Without a selection nothing happens.
pub open spec fn download_post(old: App, new: App, act: Action) -> bool {
    match old.selected_online_index {
        None => new == old && act is Nothing,
        Some(idx) => if idx < old.online_books@.len() && old.online_books@[idx as int].epub is Some {
            &&& new == (App { is_loading: true, error_message: new.error_message, ..old })
            &&& new.error_message matches Some(m) && m@ == "Downloading..."@
            &&& act matches Action::Download { url, id } && url@ == old.online_books@[idx as int].epub->0@
                && id == old.online_books@[idx as int].id
        } else {
            reported(old, new, "No EPUB format available for this book"@) && act is Nothing
        },
    }
}

/// A key in normal mode.
pub open spec fn normal_post(old: App, new: App, key: Key, act: Action) -> bool {
    let reader = old.active_pane == ActivePane::Reader;
    let open = old.current_book is Some;
    let b = old.current_book->0;
    if key == Key::Char('P') {
        new == (App { mode: AppMode::Preferences, preferences_selected_index: 0, ..old }) && act is Nothing
    } else if key == Key::Char('q') || key == Key::Esc {
        new == (App { should_quit: true, ..old }) && act == (Action::Quit { save_book_state: open })
    } else if key == Key::Tab {
        pane_toggled(old, new) && if old.leaves_reader_with_book() { act is SaveBookState } else { act is Nothing }
    } else if key == Key::Char(':') || key == Key::Char('/') {
        &&& new == (App {
            mode: if key == Key::Char(':') { AppMode::Command } else { search_mode(old.active_pane) },
            command_buffer: new.command_buffer,
            error_message: None,
            ..old
        })
        &&& new.command_buffer@.len() == 0
        &&& act is Nothing
    } else if key == Key::Char('s') {
        new == (if old.active_pane == ActivePane::Library {
            App { library_sort: next_sort(old.library_sort), ..old }
        } else {
            old
        }) && act is Nothing
    } else if key == Key::Char('t') {
        new == (App { theme: App::flipped(old.theme), ..old }) && act is SaveConfig
    } else if key == Key::Char('+') || key == Key::Char('=') {
        new == (App { margin_width: old.margin_width.saturating_add(2), ..old }) && act is SaveConfig
    } else if key == Key::Char('-') || key == Key::Char('_') {
        new == (App { margin_width: old.margin_width.saturating_sub(2), ..old }) && act is SaveConfig
    } else {
        &&& act is Nothing || (key == Key::Enter && old.active_pane != ActivePane::Reader)
        &&& if key == Key::Char('c') {
            new == (if reader && open {
                App { toc_selected_index: b.current_chapter, mode: AppMode::Toc, ..old }
            } else {
                old
            })
        } else if key == Key::Char('m') {
            if reader { bookmark_post(old, new) } else { new == old }
        } else if key == Key::PageDown || key == Key::Char('f') {
            new == (if reader && open { at_position(old, (b.current_position + 20) as usize) } else { old })
        } else if key == Key::PageUp || key == Key::Char('b') {
            new == (if reader && open { at_position(old, b.current_position.saturating_sub(20)) } else { old })
        } else if key == Key::Char('n') {
            if reader && old.search_query@.len() > 0 {
                search_post(old, new, true)
            } else if reader && open && b.current_chapter + 1 < b.chapters@.len() {
                new == at_chapter(old, (b.current_chapter + 1) as usize)
            } else {
                new == old
            }
        } else if key == Key::Char('N') {
            if reader && old.search_query@.len() > 0 { search_post(old, new, false) } else { new == old }
        } else if key == Key::Char('l') || key == Key::Right {
            new == (if reader && open && b.current_chapter + 1 < b.chapters@.len() {
                at_chapter(old, (b.current_chapter + 1) as usize)
            } else {
                old
            })
        } else if key == Key::Char('p') || key == Key::Char('h') || key == Key::Left {
            new == (if reader && open && b.current_chapter > 0 {
                at_chapter(old, (b.current_chapter - 1) as usize)
            } else {
                old
            })
        } else if key == Key::Down || key == Key::Char('j') {
            new == match old.active_pane {
                ActivePane::Library => App {
                    selected_book_index: App::next_index(old.selected_book_index, old.listing_len()),
                    ..old
                },
                ActivePane::Downloader => App {
                    selected_online_index: App::next_index(old.selected_online_index, old.online_books@.len()),
                    ..old
                },
                ActivePane::Reader => if open { at_position(old, (b.current_position + 1) as usize) } else { old },
            }
        } else if key == Key::Up || key == Key::Char('k') {
            new == match old.active_pane {
                ActivePane::Library => App {
                    selected_book_index: App::previous_index(old.selected_book_index, old.listing_len()),
                    ..old
                },
                ActivePane::Downloader => App {
                    selected_online_index: App::previous_index(old.selected_online_index, old.online_books@.len()),
                    ..old
                },
                ActivePane::Reader => if open { at_position(old, b.current_position.saturating_sub(1)) } else { old },
            }
        } else if key == Key::Enter {
            match old.active_pane {
                ActivePane::Library => new == old && act is OpenSelectedBook,
                ActivePane::Downloader => download_post(old, new, act),
                ActivePane::Reader => new == old,
            }
        } else {
            new == old
        }
    }
}

/// The input line after typing changes it to `buf`: while searching the library the filter
/// follows the line and the selection returns to the top (none when nothing passes); on the
/// command line the completions follow the line.
pub open spec fn typed(old: App, new: App, buf: Seq<char>) -> bool {
    if old.mode == AppMode::LibrarySearch {
        &&& new == (App {
            command_buffer: new.command_buffer,
            library_filter: new.library_filter,
            selected_book_index: if matching_count(old.books@, buf) == 0 { None } else { Some(0usize) },
            ..old
        })
        &&& new.command_buffer@ == buf
        &&& new.library_filter@ == buf
    } else if old.mode == AppMode::Command {
        suggestions_post(App { command_buffer: new.command_buffer, ..old }, new) && new.command_buffer@ == buf
    } else {
        new == (App { command_buffer: new.command_buffer, ..old }) && new.command_buffer@ == buf
    }
}

/// A key while typing a command or a search. Esc leaves the input mode with an empty line;
/// leaving the library search also drops its filter and puts the selection back at the top.
pub open spec fn input_post(old: App, new: App, key: Key, act: Action) -> bool {
    if key == Key::Enter {
        if old.mode == AppMode::Command {
            act matches Action::Command(req) && command_post(old, new, req)
        } else if old.mode == AppMode::LibrarySearch {
            &&& new == (App {
                library_filter: new.library_filter,
                mode: AppMode::Normal,
                command_buffer: new.command_buffer,
                selected_book_index: if matching_count(old.books@, old.command_buffer@) == 0 { None } else { Some(0usize) },
                ..old
            })
            &&& new.library_filter@ == old.command_buffer@
            &&& new.command_buffer@.len() == 0
            &&& act is Nothing
        } else if old.mode == AppMode::OnlineSearch {
            act matches Action::SearchOnline { url } && search_run_post(old, new, Some(url))
        } else {
            act is Nothing && search_run_post(old, new, None)
        }
    } else {
        &&& act is Nothing
        &&& if key == Key::Tab {
            if old.mode == AppMode::Command { suggestion_applied(old, new) } else { new == old }
        } else if key == Key::Up || key == Key::Down {
            if old.mode == AppMode::Command { cycled(old, new, key == Key::Down) } else { new == old }
        } else if key is Char {
            typed(old, new, old.command_buffer@.push(key->Char_0))
        } else if key == Key::Backspace {
            typed(old, new, if old.command_buffer@.len() > 0 { old.command_buffer@.drop_last() } else { old.command_buffer@ })
        } else if key == Key::Esc {
            &&& new.command_buffer@.len() == 0
            &&& new == if old.mode == AppMode::LibrarySearch {
                App {
                    mode: AppMode::Normal,
                    command_buffer: new.command_buffer,
                    library_filter: new.library_filter,
                    selected_book_index: if old.books@.len() == 0 { None } else { Some(0usize) },
                    ..old
                }
            } else {
                App { mode: AppMode::Normal, command_buffer: new.command_buffer, ..old }
            }
            &&& old.mode == AppMode::LibrarySearch ==> new.library_filter@.len() == 0
        } else {
            new == old
        }
    }
}

/// Enter or space on a preference: flips or cycles the selected setting.
pub open spec fn preference_changed(old: App, new: App) -> bool {
    let i = old.preferences_selected_index;
    if i == 0 {
        new == (App { theme: App::flipped(old.theme), ..old })
    } else if i == 1 {
        new == (App { text_alignment: new.text_alignment, ..old }) && new.text_alignment@ == next_alignment(old.text_alignment@)
    } else if i == 2 {
        new == (App { margin_width: if old.margin_width >= 20 { 0 } else { (old.margin_width + 2) as u16 }, ..old })
    } else if i == 3 {
        new == (App { startup_view: new.startup_view, ..old }) && new.startup_view@ == next_startup_view(old.startup_view@)
    } else if i == 4 {
        new == (App { case_sensitive_search: !old.case_sensitive_search, ..old })
    } else if i == 5 {
        new == (App { show_status_bar: !old.show_status_bar, ..old })
    } else if i == 6 {
        new == (App { wpm: if old.wpm >= 1000 { 100 } else { (old.wpm + 50) as usize }, ..old })
    } else {
        new == old
    }
}

/// A key in the preferences menu.
pub open spec fn preferences_post(old: App, new: App, key: Key, act: Action) -> bool {
    let i = old.preferences_selected_index;
    if key == Key::Esc || key == Key::Char('q') || key == Key::Char('P') {
        new == (App { mode: AppMode::Normal, ..old }) && act is SaveConfig
    } else {
        &&& act is Nothing
        &&& if key == Key::Up || key == Key::Char('k') {
            new == (App { preferences_selected_index: i.saturating_sub(1), ..old })
        } else if key == Key::Down || key == Key::Char('j') {
            new == (App { preferences_selected_index: if i < 6 { (i + 1) as usize } else { i }, ..old })
        } else if key == Key::Enter || key == Key::Char(' ') {
            preference_changed(old, new)
        } else if key == Key::Char('+') || key == Key::Char('=') {
            new == (if i == 2 { App { margin_width: old.margin_width.saturating_add(2), ..old } } else { old })
        } else if key == Key::Char('-') || key == Key::Char('_') {
            new == (if i == 2 { App { margin_width: old.margin_width.saturating_sub(2), ..old } } else { old })
        } else {
            new == old
        }
    }
}

/// A key in the table of contents.
pub open spec fn toc_post(old: App, new: App, key: Key) -> bool {
    let t = old.toc_selected_index;
    if key == Key::Esc || key == Key::Char('q') || key == Key::Char('c') {
        new == (App { mode: AppMode::Normal, ..old })
    } else if key == Key::Up || key == Key::Char('k') {
        new == (App { toc_selected_index: t.saturating_sub(1), ..old })
    } else if key == Key::Down || key == Key::Char('j') {
        new == (if old.current_book matches Some(b) && t + 1 < b.chapters@.len() {
            App { toc_selected_index: (t + 1) as usize, ..old }
        } else {
            old
        })
    } else if key == Key::Enter {
        new == (if old.current_book matches Some(b) && t < b.chapters@.len() {
            App { mode: AppMode::Normal, ..at_chapter(old, t) }
        } else {
            App { mode: AppMode::Normal, ..old }
        })
    } else {
        new == old
    }
}

/// A key press, with the Control modifier held or not.
pub open spec fn key_post(old: App, new: App, key: Key, ctrl: bool, act: Action) -> bool {
    if (key == Key::Char('h') && ctrl) || key == Key::Char('?') {
        new == (App { show_help: !old.show_help, ..old }) && act is Nothing
    } else if old.show_help {
        &&& act is Nothing
        &&& new == (if key == Key::Esc || key == Key::Char('q') { App { show_help: false, ..old } } else { old })
    } else {
        match old.mode {
            AppMode::Normal => normal_post(old, new, key, act),
            AppMode::Preferences => preferences_post(old, new, key, act),
            AppMode::Toc => toc_post(old, new, key) && act is Nothing,
            _ => input_post(old, new, key, act),
        }
    }
}

/// A scroll of the mouse wheel.
pub open spec fn scroll_post(old: App, new: App, s: Scroll) -> bool {
    let open = old.current_book is Some;
    let b = old.current_book->0;
    if old.mode == AppMode::Normal && s != Scroll::Other {
        let down = s == Scroll::Down;
        new == match old.active_pane {
            ActivePane::Reader => if !open {
                old
            } else if down {
                at_position(old, (b.current_position + 3) as usize)
            } else {
                at_position(old, b.current_position.saturating_sub(3))
            },
            ActivePane::Library => App {
                selected_book_index: if down {
                    App::next_index(old.selected_book_index, old.listing_len())
                } else {
                    App::previous_index(old.selected_book_index, old.listing_len())
                },
                ..old
            },
            ActivePane::Downloader => App {
                selected_online_index: if down {
                    App::next_index(old.selected_online_index, old.online_books@.len())
                } else {
                    App::previous_index(old.selected_online_index, old.online_books@.len())
                },
                ..old
            },
        }
    } else if old.mode == AppMode::Toc && s == Scroll::Down {
        new == (if open && old.toc_selected_index + 1 < b.chapters@.len() {
            App { toc_selected_index: (old.toc_selected_index + 1) as usize, ..old }
        } else {
            old
        })
    } else if old.mode == AppMode::Toc && s == Scroll::Up {
        new == (App { toc_selected_index: old.toc_selected_index.saturating_sub(1), ..old })
    } else {
        new == old
    }
}

impl App {
    fn shift_position(&mut self, forward: bool, by: usize)
        requires
            forward ==> (old(self).current_book matches Some(b) ==> b.current_position + by <= usize::MAX),
        ensures
            old(self).current_book is None ==> *final(self) == *old(self),
            old(self).current_book matches Some(b) ==> *final(self) == at_position(
                *old(self),
                if forward { (b.current_position + by) as usize } else { b.current_position.saturating_sub(by) },
            ),
    {
        match &mut self.current_book {
            Some(b) => {
                b.current_position = if forward { b.current_position + by } else { b.current_position.saturating_sub(by) };
            },
            None => {},
        }
    }

    fn download_request(&mut self) -> (act: Action)
        ensures
            download_post(*old(self), *final(self), act),
    {
        match self.selected_online_index {
            None => Action::Nothing,
            Some(idx) => {
                let found = if idx < self.online_books.len() {
                    match self.online_books[idx].epub_url() {
                        Some(url) => Some((url, self.online_books[idx].id)),
                        None => None,
                    }
                } else {
                    None
                };
                match found {
                    Some((url, id)) => {
                        self.is_loading = true;
                        self.error_message = Some(String::from_str("Downloading..."));
                        Action::Download { url, id }
                    },
                    None => {
                        self.error_message = Some(String::from_str("No EPUB format available for this book"));
                        Action::Nothing
                    },
                }
            },
        }
    }

    #[verifier::rlimit(50)]
    fn handle_normal_key(&mut self, key: Key) -> (act: Action)
        requires
            old(self).mode == AppMode::Normal,
            !old(self).show_help,
            !key_panics(*old(self), key, false),
        ensures
            normal_post(*old(self), *final(self), key, act),
    {
        let reader = self.active_pane == ActivePane::Reader;
        match key {
            Key::Char('P') => {
                self.mode = AppMode::Preferences;
                self.preferences_selected_index = 0;
                Action::Nothing
            },
            Key::Char('q') | Key::Esc => {
                let open = self.current_book.is_some();
                self.should_quit = true;
                Action::Quit { save_book_state: open }
            },
            Key::Tab => {
                if self.toggle_pane() { Action::SaveBookState } else { Action::Nothing }
            },
            Key::Char(':') => {
                self.mode = AppMode::Command;
                self.command_buffer = String::new();
                self.error_message = None;
                Action::Nothing
            },
            Key::Char('/') => {
                self.mode = match self.active_pane {
                    ActivePane::Downloader => AppMode::OnlineSearch,
                    ActivePane::Library => AppMode::LibrarySearch,
                    ActivePane::Reader => AppMode::Search,
                };
                self.command_buffer = String::new();
                self.error_message = None;
                Action::Nothing
            },
            Key::Char('s') => {
                if self.active_pane == ActivePane::Library {
                    self.library_sort = match self.library_sort {
                        SortMode::Name => SortMode::Date,
                        SortMode::Date => SortMode::Progress,
                        SortMode::Progress => SortMode::Name,
                    };
                }
                Action::Nothing
            },
            Key::Char('t') => {
                self.toggle_theme();
                Action::SaveConfig
            },
            Key::Char('+') | Key::Char('=') => {
                self.margin_width = self.margin_width.saturating_add(2);
                Action::SaveConfig
            },
            Key::Char('-') | Key::Char('_') => {
                self.margin_width = self.margin_width.saturating_sub(2);
                Action::SaveConfig
            },
            Key::Char('c') => {
                if reader {
                    match &self.current_book {
                        Some(b) => {
                            self.toc_selected_index = b.current_chapter;
                            self.mode = AppMode::Toc;
                        },
                        None => {},
                    }
                }
                Action::Nothing
            },
            Key::Char('m') => {
                if reader {
                    self.add_bookmark();
                }
                Action::Nothing
            },
            Key::PageDown | Key::Char('f') => {
                if reader {
                    self.shift_position(true, 20);
                }
                Action::Nothing
            },
            Key::PageUp | Key::Char('b') => {
                if reader {
                    self.shift_position(false, 20);
                }
                Action::Nothing
            },
            Key::Char('n') => {
                if reader {
                    if !self.search_query.as_str().is_empty() {
                        self.find_next_search_result(true);
                    } else {
                        match &mut self.current_book {
                            Some(b) => {
                                if b.current_chapter + 1 < b.chapters.len() {
                                    b.current_chapter = b.current_chapter + 1;
                                    b.current_position = 0;
                                }
                            },
                            None => {},
                        }
                    }
                }
                Action::Nothing
            },
            Key::Char('N') => {
                if reader && !self.search_query.as_str().is_empty() {
                    self.find_next_search_result(false);
                }
                Action::Nothing
            },
            Key::Char('l') | Key::Right => {
                if reader {
                    match &mut self.current_book {
                        Some(b) => {
                            if b.chapters.len() > 0 && b.current_chapter < b.chapters.len() - 1 {
                                b.current_chapter = b.current_chapter + 1;
                                b.current_position = 0;
                            }
                        },
                        None => {},
                    }
                }
                Action::Nothing
            },
            Key::Char('p') | Key::Char('h') | Key::Left => {
                if reader {
                    match &mut self.current_book {
                        Some(b) => {
                            if b.current_chapter > 0 {
                                b.current_chapter = b.current_chapter - 1;
                                b.current_position = 0;
                            }
                        },
                        None => {},
                    }
                }
                Action::Nothing
            },
            Key::Down | Key::Char('j') => {
                match self.active_pane {
                    ActivePane::Library => self.next_book(),
                    ActivePane::Downloader => self.next_online_book(),
                    ActivePane::Reader => self.shift_position(true, 1),
                }
                Action::Nothing
            },
            Key::Up | Key::Char('k') => {
                match self.active_pane {
                    ActivePane::Library => self.previous_book(),
                    ActivePane::Downloader => self.previous_online_book(),
                    ActivePane::Reader => self.shift_position(false, 1),
                }
                Action::Nothing
            },
            Key::Enter => {
                match self.active_pane {
                    ActivePane::Library => Action::OpenSelectedBook,
                    ActivePane::Downloader => self.download_request(),
                    ActivePane::Reader => Action::Nothing,
                }
            },
            _ => Action::Nothing,
        }
    }

    fn retype(&mut self)
        requires
            old(self).mode == AppMode::LibrarySearch || old(self).mode == AppMode::Command || old(self).mode
                == AppMode::Search || old(self).mode == AppMode::OnlineSearch,
        ensures
            typed(
                App { command_buffer: old(self).command_buffer, ..*old(self) },
                *final(self),
                old(self).command_buffer@,
            ),
    {
        if self.mode == AppMode::LibrarySearch {
            self.library_filter = self.command_buffer.clone();
            self.selected_book_index = if self.filtered_indices().len() == 0 { None } else { Some(0) };
        } else if self.mode == AppMode::Command {
            self.update_suggestions();
        }
    }

    #[verifier::rlimit(50)]
    fn handle_input_key(&mut self, key: Key) -> (act: Action)
        requires
            old(self).mode == AppMode::Command || old(self).mode == AppMode::Search || old(self).mode
                == AppMode::OnlineSearch || old(self).mode == AppMode::LibrarySearch,
            !old(self).show_help,
            !key_panics(*old(self), key, false),
        ensures
            input_post(*old(self), *final(self), key, act),
    {
        let command = self.mode == AppMode::Command;
        match key {
            Key::Enter => {
                if command {
                    let req = self.execute_command();
                    Action::Command(req)
                } else if self.mode == AppMode::LibrarySearch {
                    self.library_filter = self.command_buffer.clone();
                    self.mode = AppMode::Normal;
                    self.command_buffer = String::new();
                    self.selected_book_index = if self.filtered_indices().len() == 0 { None } else { Some(0) };
                    Action::Nothing
                } else {
                    match self.execute_search() {
                        Some(url) => Action::SearchOnline { url },
                        None => Action::Nothing,
                    }
                }
            },
            Key::Tab => {
                if command {
                    self.apply_suggestion();
                }
                Action::Nothing
            },
            Key::Up => {
                if command {
                    self.cycle_suggestion(false);
                }
                Action::Nothing
            },
            Key::Down => {
                if command {
                    self.cycle_suggestion(true);
                }
                Action::Nothing
            },
            Key::Char(c) => {
                let ghost before = *self;
                push_char(&mut self.command_buffer, c);
                proof {
                    assert(*self == App { command_buffer: self.command_buffer, ..before });
                }
                self.retype();
                Action::Nothing
            },
            Key::Backspace => {
                let _ = pop_char(&mut self.command_buffer);
                self.retype();
                Action::Nothing
            },
            Key::Esc => {
                // Leaving the library search with Esc drops the filter typed so far: the
                // search's own Esc branch is written to clear the filter and put the selection
                // back at the top, and is followed here.
                if self.mode == AppMode::LibrarySearch {
                    self.library_filter = String::new();
                    self.selected_book_index = if self.books.len() == 0 { None } else { Some(0) };
                }
                self.mode = AppMode::Normal;
                self.command_buffer = String::new();
                Action::Nothing
            },
            _ => Action::Nothing,
        }
    }

    fn change_preference(&mut self)
        ensures
            preference_changed(*old(self), *final(self)),
    {
        let i = self.preferences_selected_index;
        if i == 0 {
            self.toggle_theme();
        } else if i == 1 {
            let a = crate::text::chars_of(self.text_alignment.as_str());
            self.text_alignment = if crate::text::chars_eq_str(&a, "left") {
                String::from_str("center")
            } else if crate::text::chars_eq_str(&a, "center") {
                String::from_str("right")
            } else {
                String::from_str("left")
            };
        } else if i == 2 {
            self.margin_width = if self.margin_width >= 20 { 0 } else { self.margin_width + 2 };
        } else if i == 3 {
            let v = crate::text::chars_of(self.startup_view.as_str());
            self.startup_view = if crate::text::chars_eq_str(&v, "library") {
                String::from_str("last_read")
            } else {
                String::from_str("library")
            };
        } else if i == 4 {
            self.case_sensitive_search = !self.case_sensitive_search;
        } else if i == 5 {
            self.show_status_bar = !self.show_status_bar;
        } else if i == 6 {
            self.wpm = if self.wpm >= 1000 { 100 } else { self.wpm + 50 };
        }
    }

    fn handle_preferences_key(&mut self, key: Key) -> (act: Action)
        ensures
            preferences_post(*old(self), *final(self), key, act),
    {
        match key {
            Key::Esc | Key::Char('q') | Key::Char('P') => {
                self.mode = AppMode::Normal;
                Action::SaveConfig
            },
            Key::Up | Key::Char('k') => {
                self.preferences_selected_index = self.preferences_selected_index.saturating_sub(1);
                Action::Nothing
            },
            Key::Down | Key::Char('j') => {
                if self.preferences_selected_index < 6 {
                    self.preferences_selected_index = self.preferences_selected_index + 1;
                }
                Action::Nothing
            },
            Key::Enter | Key::Char(' ') => {
                self.change_preference();
                Action::Nothing
            },
            Key::Char('+') | Key::Char('=') => {
                if self.preferences_selected_index == 2 {
                    self.margin_width = self.margin_width.saturating_add(2);
                }
                Action::Nothing
            },
            Key::Char('-') | Key::Char('_') => {
                if self.preferences_selected_index == 2 {
                    self.margin_width = self.margin_width.saturating_sub(2);
                }
                Action::Nothing
            },
            _ => Action::Nothing,
        }
    }

    fn handle_toc_key(&mut self, key: Key)
        requires
            !((key == Key::Down || key == Key::Char('j')) && old(self).current_book is Some
                && old(self).toc_selected_index == usize::MAX),
        ensures
            toc_post(*old(self), *final(self), key),
    {
        match key {
            Key::Esc | Key::Char('q') | Key::Char('c') => {
                self.mode = AppMode::Normal;
            },
            Key::Up | Key::Char('k') => {
                self.toc_selected_index = self.toc_selected_index.saturating_sub(1);
            },
            Key::Down | Key::Char('j') => {
                match &self.current_book {
                    Some(b) => {
                        if self.toc_selected_index + 1 < b.chapters.len() {
                            self.toc_selected_index = self.toc_selected_index + 1;
                        }
                    },
                    None => {},
                }
            },
            Key::Enter => {
                let t = self.toc_selected_index;
                match &mut self.current_book {
                    Some(b) => {
                        if t < b.chapters.len() {
                            b.current_chapter = t;
                            b.current_position = 0;
                        }
                    },
                    None => {},
                }
                self.mode = AppMode::Normal;
            },
            _ => {},
        }
    }

    /// Handles a key press (`ctrl`: the Control modifier is held): Ctrl+H or `?` shows or hides
    /// the help, which Esc or `q` also closes and which takes every other key while shown;
    /// otherwise the key acts according to the mode, as [`key_post`] states. The result names
    /// the outside work left to do.
    pub fn handle_key(&mut self, key: Key, ctrl: bool) -> (act: Action)
        requires
            !key_panics(*old(self), key, ctrl),
        ensures
            key_post(*old(self), *final(self), key, ctrl, act),
    {
        if (key == Key::Char('h') && ctrl) || key == Key::Char('?') {
            self.show_help = !self.show_help;
            return Action::Nothing;
        }
        if self.show_help {
            if key == Key::Esc || key == Key::Char('q') {
                self.show_help = false;
            }
            return Action::Nothing;
        }
        match self.mode {
            AppMode::Normal => self.handle_normal_key(key),
            AppMode::Preferences => self.handle_preferences_key(key),
            AppMode::Toc => {
                self.handle_toc_key(key);
                Action::Nothing
            },
            _ => self.handle_input_key(key),
        }
    }

    /// Handles a key as [`App::handle_key`] does when it accepts the key in this state; a key
    /// on which the handling would overflow or fail ([`key_panics`]) is refused (`None`), and
    /// the state is left as it was.
    pub fn handle_key_checked(&mut self, key: Key, ctrl: bool) -> (r: Option<Action>)
        ensures
            key_panics(*old(self), key, ctrl) ==> r is None && *final(self) == *old(self),
            !key_panics(*old(self), key, ctrl) ==> (r matches Some(act) && key_post(
                *old(self),
                *final(self),
                key,
                ctrl,
                act,
            )),
    {
        if self.key_would_overflow(key, ctrl) {
            None
        } else {
            Some(self.handle_key(key, ctrl))
        }
    }

    /// Whether [`App::handle_key`] would not accept this key in this state (see
    /// [`key_panics`]).
    pub fn key_would_overflow(&self, key: Key, ctrl: bool) -> (b: bool)
        ensures
            b == key_panics(*self, key, ctrl),
    {
        if (key == Key::Char('h') && ctrl) || key == Key::Char('?') || self.show_help {
            return false;
        }
        let reader = self.active_pane == ActivePane::Reader;
        match self.mode {
            AppMode::Normal => {
                if key == Key::Char('f') || key == Key::PageDown {
                    reader && match &self.current_book {
                        Some(b) => b.current_position > usize::MAX - 20,
                        None => false,
                    }
                } else if key == Key::Char('n') {
                    if !reader {
                        false
                    } else if !self.search_query.as_str().is_empty() {
                        self.search_would_overflow()
                    } else {
                        match &self.current_book {
                            Some(b) => b.current_chapter == usize::MAX,
                            None => false,
                        }
                    }
                } else if key == Key::Down || key == Key::Char('j') {
                    reader && match &self.current_book {
                        Some(b) => b.current_position == usize::MAX,
                        None => false,
                    }
                } else {
                    false
                }
            },
            AppMode::Toc => (key == Key::Down || key == Key::Char('j')) && self.current_book.is_some()
                && self.toc_selected_index == usize::MAX,
            AppMode::Preferences => false,
            _ => {
                (key == Key::Enter && self.mode == AppMode::Command && self.import_without_space()) || (key
                    == Key::Down && self.mode == AppMode::Command && self.command_suggestions.len() > 0
                    && self.suggestion_index == Some(usize::MAX))
            },
        }
    }

    /// Handles a scroll of the mouse wheel: in normal mode it moves the reading position by
    /// three lines or the selection of the focused list by one; in the table of contents it
    /// moves the entry selection.
    pub fn handle_scroll(&mut self, s: Scroll)
        requires
            !scroll_panics(*old(self), s),
        ensures
            scroll_post(*old(self), *final(self), s),
    {
        if self.mode == AppMode::Normal {
            match s {
                Scroll::Down => match self.active_pane {
                    ActivePane::Reader => self.shift_position(true, 3),
                    ActivePane::Library => self.next_book(),
                    ActivePane::Downloader => self.next_online_book(),
                },
                Scroll::Up => match self.active_pane {
                    ActivePane::Reader => self.shift_position(false, 3),
                    ActivePane::Library => self.previous_book(),
                    ActivePane::Downloader => self.previous_online_book(),
                },
                Scroll::Other => {},
            }
        } else if self.mode == AppMode::Toc {
            match s {
                Scroll::Down => match &self.current_book {
                    Some(b) => {
                        if self.toc_selected_index + 1 < b.chapters.len() {
                            self.toc_selected_index = self.toc_selected_index + 1;
                        }
                    },
                    None => {},
                },
                Scroll::Up => {
                    self.toc_selected_index = self.toc_selected_index.saturating_sub(1);
                },
                Scroll::Other => {},
            }
        }
    }

    /// Whether [`App::handle_scroll`] would not accept this scroll in this state (see
    /// [`scroll_panics`]).
    pub fn scroll_would_overflow(&self, s: Scroll) -> (b: bool)
        ensures
            b == scroll_panics(*self, s),
    {
        (self.mode == AppMode::Normal && s == Scroll::Down && self.active_pane == ActivePane::Reader
            && match &self.current_book {
            Some(b) => b.current_position > usize::MAX - 3,
            None => false,
        }) || (self.mode == AppMode::Toc && s == Scroll::Down && self.current_book.is_some()
            && self.toc_selected_index == usize::MAX)
    }
}

} // verus!
