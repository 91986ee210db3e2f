//! What happens on search, on background results, on opening a book and at start-up.

use vstd::prelude::*;
use crate::app::{ActivePane, App, AppMode};
use crate::command::{listing_of, reported, selected_listed};
use crate::model::{opt_view, same_book, Book, Bookmark};
use crate::text::{
    chars_of, concat_chars, decimal, decimal_exec, lex_lt, lex_lt_exec, percent_encode,
    string_of, url_encode,
};

verus! {

broadcast use vstd::string::group_string_axioms;

/// `chrono::Utc::now`, given as RFC 3339 text (`DateTime::to_rfc3339`). Nothing is stated of
/// the text: it comes from the clock, and the library only stores it.
#[verifier::external_body]
fn now_rfc3339() -> String {
    chrono::Utc::now().to_rfc3339()
}

/// The address of an online catalogue search for `q`.
pub open spec fn search_url_of(q: Seq<char>) -> Seq<char> {
    "https://gutendex.com/books/?search="@ + percent_encode(vstd::utf8::encode_utf8(q))
}

/// The address of an online catalogue search for `query`.
pub fn search_url(query: &String) -> (r: String)
    ensures
        r@ == search_url_of(query@),
{
    let enc = url_encode(query.as_str());
    let v = concat_chars(&chars_of("https://gutendex.com/books/?search="), &chars_of(enc.as_str()));
    string_of(&v)
}

/// The file name under which a downloaded catalogue book is stored.
pub open spec fn download_file_name_of(id: u64) -> Seq<char> {
    decimal(id as nat) + ".epub"@
}

/// The file name under which a downloaded catalogue book is stored.
pub fn download_file_name(id: u64) -> (r: String)
    ensures
        r@ == download_file_name_of(id),
{
    let v = concat_chars(&decimal_exec(id), &chars_of(".epub"));
    string_of(&v)
}

/// The reading state of `saved` carried over to `book`.
pub open spec fn with_saved_state(book: Book, saved: Book) -> Book {
    Book {
        current_chapter: saved.current_chapter,
        current_position: saved.current_position,
        bookmarks: saved.bookmarks,
        time_spent_secs: saved.time_spent_secs,
        last_read: saved.last_read,
        ..book
    }
}

/// Carries a saved reading state over to a freshly loaded book: chapter, position, bookmarks,
/// time spent and last-read time.
pub fn apply_saved_state(book: &mut Book, saved: Book)
    ensures
        *final(book) == with_saved_state(*old(book), saved),
{
    book.current_chapter = saved.current_chapter;
    book.current_position = saved.current_position;
    book.bookmarks = saved.bookmarks;
    book.time_spent_secs = saved.time_spent_secs;
    book.last_read = saved.last_read;
}

/// Which book the start-up view opens among `times` (last-read times, in list order) scanned
/// up to `n`: the first with the greatest time, and that time; the first book when no time is
/// greater than the empty text.
pub open spec fn latest_upto(times: Seq<Seq<char>>, n: int) -> (int, Seq<char>)
    decreases n,
{
    if n <= 0 {
        (0, Seq::empty())
    } else {
        let prev = latest_upto(times, n - 1);
        if lex_lt(prev.1, times[n - 1]) {
            (n - 1, times[n - 1])
        } else {
            prev
        }
    }
}

/// The last-read times of the books of the library list, in list order.
pub open spec fn listed_times(app: App) -> Seq<Seq<char>> {
    listing_of(app).map_values(|k: usize| app.books@[k as int].last_read@)
}

/// The message that reports the result of an online search.
pub open spec fn found_message(n: nat) -> Seq<char> {
    if n == 0 {
        "No books found matching your search."@
    } else {
        "Found "@ + decimal(n) + " books."@
    }
}

/// What running a typed search does (see [`App::execute_search`]).
pub open spec fn search_run_post(old: App, new: App, url: Option<String>) -> bool {
    &&& new.command_buffer@.len() == 0
    &&& old.mode == AppMode::OnlineSearch ==> {
        &&& new == (App {
            is_loading: true,
            mode: AppMode::Normal,
            command_buffer: new.command_buffer,
            ..old
        })
        &&& url matches Some(u) && u@ == search_url_of(old.command_buffer@)
    }
    &&& old.mode != AppMode::OnlineSearch ==> {
        &&& new == (App {
            search_query: new.search_query,
            mode: AppMode::Normal,
            command_buffer: new.command_buffer,
            ..old
        })
        &&& new.search_query@ == old.command_buffer@
        &&& url is None
    }
}

/// What adding a bookmark does (see [`App::add_bookmark`]).
pub open spec fn bookmark_post(old: App, new: App) -> bool {
    &&& old.current_book is None ==> new == old
    &&& old.current_book matches Some(b) ==> {
        &&& new == (App { current_book: new.current_book, error_message: new.error_message, ..old })
        &&& new.current_book matches Some(nb) && nb == (Book { bookmarks: nb.bookmarks, ..b })
            && nb.bookmarks@.len() == b.bookmarks@.len() + 1 && nb.bookmarks@.drop_last() == b.bookmarks@
            && nb.bookmarks@.last().position == b.current_position && nb.bookmarks@.last().note is None
        &&& new.error_message matches Some(m) && m@ == "Bookmark added"@
    }
}

impl App {
    /// Runs the search typed in: an online search starts loading and hands out the catalogue
    /// address; any other search becomes the in-book search query. The mode returns to normal
    /// and the input line is cleared.
    pub fn execute_search(&mut self) -> (url: Option<String>)
        ensures
            search_run_post(*old(self), *final(self), url),
    {
        let url = if self.mode == AppMode::OnlineSearch {
            self.is_loading = true;
            Some(search_url(&self.command_buffer))
        } else {
            self.search_query = self.command_buffer.clone();
            None
        };
        self.mode = AppMode::Normal;
        self.command_buffer = String::new();
        url
    }

    /// Takes in the result of background work: search results replace the online list (the
    /// first one selected, if any) with a message that counts them; a downloaded book joins the
    /// library and opens in the reader; a failure is reported. Loading ends in every case.
    pub fn handle_background(&mut self, msg: crate::app::BackgroundMessage)
        ensures
            match msg {
                crate::app::BackgroundMessage::OnlineSearchResults(res) => {
                    &&& *final(self) == (App {
                        online_books: res,
                        selected_online_index: if res@.len() == 0 { None } else { Some(0usize) },
                        error_message: final(self).error_message,
                        is_loading: false,
                        ..*old(self)
                    })
                    &&& final(self).error_message matches Some(m) && m@ == found_message(res@.len())
                },
                crate::app::BackgroundMessage::DownloadComplete(Ok(book)) => {
                    &&& *final(self) == (App {
                        books: final(self).books,
                        current_book: Some(book),
                        active_pane: ActivePane::Reader,
                        is_loading: false,
                        error_message: final(self).error_message,
                        ..*old(self)
                    })
                    &&& final(self).books@.len() == old(self).books@.len() + 1
                    &&& final(self).books@.drop_last() == old(self).books@
                    &&& same_book(final(self).books@.last(), book)
                    &&& final(self).error_message matches Some(m) && m@ == "Download complete!"@
                },
                crate::app::BackgroundMessage::DownloadComplete(Err(e)) => reported(
                    App { is_loading: false, ..*old(self) },
                    *final(self),
                    "Download failed: "@ + e@,
                ),
                crate::app::BackgroundMessage::Error(e) => *final(self) == (App {
                    error_message: Some(e),
                    is_loading: false,
                    ..*old(self)
                }),
            },
    {
        match msg {
            crate::app::BackgroundMessage::OnlineSearchResults(res) => {
                let n = res.len();
                self.online_books = res;
                if n == 0 {
                    self.selected_online_index = None;
                    self.error_message = Some(String::from_str("No books found matching your search."));
                } else {
                    self.selected_online_index = Some(0);
                    let a = concat_chars(&chars_of("Found "), &decimal_exec(n as u64));
                    let m = concat_chars(&a, &chars_of(" books."));
                    self.error_message = Some(string_of(&m));
                }
                self.is_loading = false;
            },
            crate::app::BackgroundMessage::DownloadComplete(Ok(book)) => {
                let ghost old_books = self.books@;
                self.books.push(book.copy());
                proof {
                    assert(self.books@.drop_last() =~= old_books);
                }
                self.current_book = Some(book);
                self.active_pane = ActivePane::Reader;
                self.is_loading = false;
                self.error_message = Some(String::from_str("Download complete!"));
            },
            crate::app::BackgroundMessage::DownloadComplete(Err(e)) => {
                let m = concat_chars(&chars_of("Download failed: "), &chars_of(e.as_str()));
                self.error_message = Some(string_of(&m));
                self.is_loading = false;
            },
            crate::app::BackgroundMessage::Error(e) => {
                self.error_message = Some(e);
                self.is_loading = false;
            },
        }
    }

    /// Opens the selected book of the library list from its loaded contents: the saved reading
    /// state, if any, is carried over, the category is the library entry's, and the reader
    /// pane takes the focus. A book that could not be loaded is reported. Without a selected
    /// book nothing changes.
    pub fn open_selected_book(&mut self, loaded: Result<Book, String>, saved: Option<Book>)
        ensures
            match selected_listed(*old(self)) {
                None => *final(self) == *old(self),
                Some(j) => match loaded {
                    Ok(full) => {
                        let merged = match saved {
                            Some(s) => with_saved_state(full, s),
                            None => full,
                        };
                        &&& *final(self) == (App {
                            current_book: final(self).current_book,
                            active_pane: ActivePane::Reader,
                            ..*old(self)
                        })
                        &&& final(self).current_book matches Some(b) && b == (Book { category: b.category, ..merged })
                            && opt_view(b.category) == opt_view(old(self).books@[j].category)
                    },
                    Err(e) => reported(*old(self), *final(self), "Failed to open book: "@ + e@),
                },
            },
    {
        let j = match self.selected_listed_book() {
            Some(j) => j,
            None => { return; },
        };
        match loaded {
            Ok(full) => {
                let mut book = full;
                match saved {
                    Some(s) => apply_saved_state(&mut book, s),
                    None => {},
                }
                book.category = crate::model::copy_opt_string(&self.books[j].category);
                self.current_book = Some(book);
                self.active_pane = ActivePane::Reader;
            },
            Err(e) => {
                let m = concat_chars(&chars_of("Failed to open book: "), &chars_of(e.as_str()));
                self.error_message = Some(string_of(&m));
            },
        }
    }

    /// Opens a book named when the reader starts, from its loaded contents: the saved reading
    /// state, if any, is carried over and the reader pane takes the focus. A book that could
    /// not be loaded is reported.
    pub fn open_book_file(&mut self, loaded: Result<Book, String>, saved: Option<Book>)
        ensures
            match loaded {
                Ok(full) => *final(self) == (App {
                    current_book: Some(
                        match saved {
                            Some(s) => with_saved_state(full, s),
                            None => full,
                        },
                    ),
                    active_pane: ActivePane::Reader,
                    ..*old(self)
                }),
                Err(e) => reported(*old(self), *final(self), "Failed to open book: "@ + e@),
            },
    {
        match loaded {
            Ok(full) => {
                let mut book = full;
                match saved {
                    Some(s) => apply_saved_state(&mut book, s),
                    None => {},
                }
                self.current_book = Some(book);
                self.active_pane = ActivePane::Reader;
            },
            Err(e) => {
                let m = concat_chars(&chars_of("Failed to open book: "), &chars_of(e.as_str()));
                self.error_message = Some(string_of(&m));
            },
        }
    }

    /// Chooses the book selected at start-up: with the `last_read` start-up view, the book of
    /// the library list read most recently (the first of them; the first book when none has a
    /// time), which is then to be opened (`true`); otherwise the first book. An empty library
    /// keeps its state.
    pub fn apply_startup(&mut self) -> (open: bool)
        ensures
            old(self).books@.len() == 0 ==> *final(self) == *old(self) && !open,
            old(self).books@.len() > 0 && old(self).startup_view@ == "last_read"@ ==> {
                &&& *final(self) == (App {
                    selected_book_index: Some(
                        latest_upto(listed_times(*old(self)), listed_times(*old(self)).len() as int).0 as usize,
                    ),
                    ..*old(self)
                })
                &&& open
            },
            old(self).books@.len() > 0 && old(self).startup_view@ != "last_read"@ ==> {
                &&& *final(self) == (App { selected_book_index: Some(0usize), ..*old(self) })
                &&& !open
            },
    {
        if self.books.len() == 0 {
            return false;
        }
        if crate::text::chars_eq_str(&chars_of(self.startup_view.as_str()), "last_read") {
            let idx = self.filtered_indices();
            proof {
                crate::app::lemma_listing_unique(self.books@, self.library_filter@, self.library_sort, idx@, listing_of(*self));
            }
            let ghost times = listed_times(*self);
            let mut latest_idx: usize = 0;
            let mut latest_time: Vec<char> = Vec::new();
            let mut i: usize = 0;
            while i < idx.len()
                invariant
                    i <= idx@.len(),
                    idx@ == listing_of(*self),
                    times == listed_times(*self),
                    crate::app::is_listing(self.books@, self.library_filter@, self.library_sort, idx@),
                    latest_upto(times, i as int).0 == latest_idx as int,
                    latest_upto(times, i as int).1 == latest_time@,
                decreases idx@.len() - i,
            {
                let t = chars_of(self.books[idx[i]].last_read.as_str());
                if lex_lt_exec(&latest_time, &t) {
                    latest_time = t;
                    latest_idx = i;
                }
                i = i + 1;
            }
            self.selected_book_index = Some(latest_idx);
            true
        } else {
            self.selected_book_index = Some(0);
            false
        }
    }

    /// Adds a bookmark at the reading position of the open book, stamped with the current
    /// time, and says so; without an open book nothing changes.
    pub fn add_bookmark(&mut self)
        ensures
            bookmark_post(*old(self), *final(self)),
    {
        match &mut self.current_book {
            Some(book) => {
                let bm = Bookmark { position: book.current_position, timestamp: now_rfc3339(), note: None };
                let ghost before = book.bookmarks@;
                book.bookmarks.push(bm);
                proof {
                    assert(book.bookmarks@.drop_last() =~= before);
                }
            },
            None => { return; },
        }
        self.error_message = Some(String::from_str("Bookmark added"));
    }
}

} // verus!
