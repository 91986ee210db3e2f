//! The reader's state and the operations on it.

use vstd::prelude::*;
use crate::config::AppConfig;
use crate::model::{copy_bookmarks, same_bookmarks, Book, Chapter, OnlineBook};
use crate::text::{
    all_ascii, ascii_lower_char, byte_len, byte_len_saturating, chars_of, contains, contains_exec,
    lemma_lex_irreflexive, lemma_lex_total, lemma_lex_transitive, lex_lt, lex_lt_exec, lines,
    lowercase, split_lines, to_lowercase,
};

verus! {

/// Which pane has the keyboard focus.
#[derive(Clone, Copy, PartialEq, Eq, Structural)]
pub enum ActivePane {
    Library,
    Reader,
    Downloader,
}

/// Colour scheme.
#[derive(Clone, Copy, PartialEq, Eq, Structural)]
pub enum Theme {
    Dark,
    Light,
}

/// Order of the library list.
#[derive(Clone, Copy, PartialEq, Eq, Structural)]
pub enum SortMode {
    /// By title.
    Name,
    /// By the time of last reading, the most recent first. The times are RFC 3339 texts in
    /// UTC, whose text order is their order in time; a book never read has an empty time and
    /// comes last.
    Date,
    /// By chapter reached, the furthest first.
    Progress,
}

/// Input mode: what the keyboard currently edits or navigates.
#[derive(Clone, Copy, PartialEq, Eq, Structural)]
pub enum AppMode {
    Normal,
    Command,
    Search,
    OnlineSearch,
    LibrarySearch,
    Toc,
    Preferences,
}

/// Results of work done in the background: an online search or a download.
pub enum BackgroundMessage {
    OnlineSearchResults(Vec<OnlineBook>),
    DownloadComplete(Result<Book, String>),
    Error(String),
}

/// The whole state of the reader.
pub struct App {
    pub should_quit: bool,
    pub mode: AppMode,
    pub active_pane: ActivePane,
    pub books: Vec<Book>,
    pub selected_book_index: Option<usize>,
    pub current_book: Option<Book>,
    pub library_filter: String,
    pub library_sort: SortMode,
    pub online_books: Vec<OnlineBook>,
    pub selected_online_index: Option<usize>,
    pub is_loading: bool,
    pub theme: Theme,
    pub margin_width: u16,
    pub command_buffer: String,
    pub command_suggestions: Vec<String>,
    pub suggestion_index: Option<usize>,
    pub search_query: String,
    pub error_message: Option<String>,
    pub toc_selected_index: usize,
    pub preferences_selected_index: usize,
    pub wpm: usize,
    pub text_alignment: String,
    pub startup_view: String,
    pub case_sensitive_search: bool,
    pub show_status_bar: bool,
    pub show_help: bool,
    pub help_scroll: u16,
}

/// A book title passes the library filter: the filter is empty, or the lower-cased title
/// contains the lower-cased filter.
pub open spec fn title_matches(filter: Seq<char>, title: Seq<char>) -> bool {
    filter.len() == 0 || contains(lowercase(title), lowercase(filter))
}

/// The indices, in increasing order, of the first `n` books whose titles pass the filter.
pub open spec fn matching_upto(books: Seq<Book>, filter: Seq<char>, n: int) -> Seq<usize>
    decreases n,
{
    if n <= 0 {
        Seq::empty()
    } else if title_matches(filter, books[n - 1].title@) {
        matching_upto(books, filter, n - 1).push((n - 1) as usize)
    } else {
        matching_upto(books, filter, n - 1)
    }
}

/// The number of books that pass the filter.
pub open spec fn matching_count(books: Seq<Book>, filter: Seq<char>) -> nat {
    matching_upto(books, filter, books.len() as int).len()
}

/// Book `i` comes before book `j` in the library list: by title, by time of last reading with
/// the most recent first, or by chapter reached with the furthest first; books that tie keep
/// their order in the library.
pub open spec fn listed_before(mode: SortMode, books: Seq<Book>, i: int, j: int) -> bool {
    match mode {
        SortMode::Name => lex_lt(books[i].title@, books[j].title@) || (books[i].title@
            == books[j].title@ && i < j),
        SortMode::Date => lex_lt(books[j].last_read@, books[i].last_read@) || (books[i].last_read@
            == books[j].last_read@ && i < j),
        SortMode::Progress => books[i].current_chapter > books[j].current_chapter || (
        books[i].current_chapter == books[j].current_chapter && i < j),
    }
}

/// `r` is the library list: each book that passes the filter, once, in list order.
pub open spec fn is_listing(books: Seq<Book>, filter: Seq<char>, mode: SortMode, r: Seq<usize>) -> bool {
    &&& r.len() == matching_count(books, filter)
    &&& forall|k: int|
        0 <= k < r.len() ==> #[trigger] r[k] < books.len() && title_matches(
            filter,
            books[r[k] as int].title@,
        )
    &&& forall|i: int|
        0 <= i < books.len() && title_matches(filter, #[trigger] books[i].title@) ==> r.contains(
            i as usize,
        )
    &&& forall|p: int, q: int|
        0 <= p < q < r.len() ==> listed_before(mode, books, #[trigger] r[p] as int, #[trigger] r[q] as int)
}

/// No book comes before itself.
pub proof fn lemma_listed_before_irreflexive(mode: SortMode, books: Seq<Book>, i: int)
    ensures
        !listed_before(mode, books, i, i),
{
    lemma_lex_irreflexive(books[i].title@);
    lemma_lex_irreflexive(books[i].last_read@);
}

/// The list order is transitive.
pub proof fn lemma_listed_before_transitive(
    mode: SortMode,
    books: Seq<Book>,
    i: int,
    j: int,
    k: int,
)
    requires
        listed_before(mode, books, i, j),
        listed_before(mode, books, j, k),
    ensures
        listed_before(mode, books, i, k),
{
    match mode {
        SortMode::Name => {
            let (a, b, c) = (books[i].title@, books[j].title@, books[k].title@);
            if lex_lt(a, b) && lex_lt(b, c) {
                lemma_lex_transitive(a, b, c);
            }
        },
        SortMode::Date => {
            let (a, b, c) = (books[i].last_read@, books[j].last_read@, books[k].last_read@);
            if lex_lt(c, b) && lex_lt(b, a) {
                lemma_lex_transitive(c, b, a);
            }
        },
        SortMode::Progress => {},
    }
}

/// Any two different books are ordered one way or the other.
pub proof fn lemma_listed_before_total(mode: SortMode, books: Seq<Book>, i: int, j: int)
    requires
        i != j,
    ensures
        listed_before(mode, books, i, j) || listed_before(mode, books, j, i),
{
    match mode {
        SortMode::Name => {
            if books[i].title@ != books[j].title@ {
                lemma_lex_total(books[i].title@, books[j].title@);
            }
        },
        SortMode::Date => {
            if books[i].last_read@ != books[j].last_read@ {
                lemma_lex_total(books[i].last_read@, books[j].last_read@);
            }
        },
        SortMode::Progress => {},
    }
}

proof fn lemma_listings_agree_below(
    books: Seq<Book>,
    filter: Seq<char>,
    mode: SortMode,
    r1: Seq<usize>,
    r2: Seq<usize>,
    k: int,
)
    requires
        is_listing(books, filter, mode, r1),
        is_listing(books, filter, mode, r2),
        0 <= k <= r1.len(),
    ensures
        forall|j: int| 0 <= j < k ==> r1[j] == r2[j],
    decreases k,
{
    if k > 0 {
        lemma_listings_agree_below(books, filter, mode, r1, r2, k - 1);
        let j = k - 1;
        let (a, b) = (r1[j], r2[j]);
        if a != b {
            lemma_listed_before_total(mode, books, a as int, b as int);
            assert(r2.contains(a));
            assert(r1.contains(b));
            let m2 = choose|m: int| 0 <= m < r2.len() && r2[m] == a;
            let m1 = choose|m: int| 0 <= m < r1.len() && r1[m] == b;
            if listed_before(mode, books, a as int, b as int) {
                if m2 < j {
                    assert(r1[m2] == a);
                    lemma_listed_before_irreflexive(mode, books, a as int);
                } else {
                    assert(listed_before(mode, books, b as int, a as int));
                    lemma_listed_before_transitive(mode, books, a as int, b as int, a as int);
                    lemma_listed_before_irreflexive(mode, books, a as int);
                }
            } else {
                if m1 < j {
                    assert(r2[m1] == b);
                    lemma_listed_before_irreflexive(mode, books, b as int);
                } else {
                    assert(listed_before(mode, books, a as int, b as int));
                }
            }
        }
    }
}

/// The library list is determined by the books, the filter and the sort mode: any two lists
/// that meet [`is_listing`] are the same.
pub proof fn lemma_listing_unique(
    books: Seq<Book>,
    filter: Seq<char>,
    mode: SortMode,
    r1: Seq<usize>,
    r2: Seq<usize>,
)
    requires
        is_listing(books, filter, mode, r1),
        is_listing(books, filter, mode, r2),
    ensures
        r1 == r2,
{
    lemma_listings_agree_below(books, filter, mode, r1, r2, r1.len() as int);
    assert(r1 =~= r2);
}

/// A line of a chapter matches the search query: it contains the query, ignoring case unless
/// the search is case-sensitive.
pub open spec fn line_hits(line: Seq<char>, query: Seq<char>, case_sensitive: bool) -> bool {
    if case_sensitive {
        contains(line, query)
    } else {
        contains(lowercase(line), lowercase(query))
    }
}

/// The first line in `[lo, hi)` that matches.
pub open spec fn first_hit(ls: Seq<Seq<char>>, q: Seq<char>, cs: bool, lo: int, hi: int) -> Option<int>
    decreases hi - lo,
{
    if lo >= hi {
        None
    } else if line_hits(ls[lo], q, cs) {
        Some(lo)
    } else {
        first_hit(ls, q, cs, lo + 1, hi)
    }
}

/// The last line in `[lo, hi)` that matches.
pub open spec fn last_hit(ls: Seq<Seq<char>>, q: Seq<char>, cs: bool, lo: int, hi: int) -> Option<int>
    decreases hi - lo,
{
    if lo >= hi {
        None
    } else if line_hits(ls[hi - 1], q, cs) {
        Some(hi - 1)
    } else {
        last_hit(ls, q, cs, lo, hi - 1)
    }
}

/// The smaller of two integers.
pub open spec fn min_int(a: int, b: int) -> int {
    if a <= b { a } else { b }
}

/// The line that a search from line `start` moves to. Forward: the first match after
/// `start`, else, wrapping around, the first match up to and including `start`. Backward: the
/// last match before `start`, else, wrapping around, the last match from `start` on.
pub open spec fn search_target(ls: Seq<Seq<char>>, q: Seq<char>, cs: bool, start: int, forward: bool) -> Option<int> {
    let n = ls.len() as int;
    if forward {
        match first_hit(ls, q, cs, start + 1, n) {
            Some(i) => Some(i),
            None => first_hit(ls, q, cs, 0, min_int(start + 1, n)),
        }
    } else {
        match last_hit(ls, q, cs, 0, min_int(start, n)) {
            Some(i) => Some(i),
            None => last_hit(ls, q, cs, start, n),
        }
    }
}

/// What [`first_hit`] finds matches, lies in the range, and nothing before it matches.
pub proof fn lemma_first_hit(ls: Seq<Seq<char>>, q: Seq<char>, cs: bool, lo: int, hi: int)
    ensures
        first_hit(ls, q, cs, lo, hi) matches Some(i) ==> lo <= i < hi && line_hits(ls[i], q, cs)
            && forall|j: int| lo <= j < i ==> !line_hits(#[trigger] ls[j], q, cs),
        first_hit(ls, q, cs, lo, hi) is None ==> forall|j: int| lo <= j < hi ==> !line_hits(#[trigger] ls[j], q, cs),
    decreases hi - lo,
{
    if lo < hi {
        lemma_first_hit(ls, q, cs, lo + 1, hi);
    }
}

/// What [`last_hit`] finds matches, lies in the range, and nothing after it matches.
pub proof fn lemma_last_hit(ls: Seq<Seq<char>>, q: Seq<char>, cs: bool, lo: int, hi: int)
    ensures
        last_hit(ls, q, cs, lo, hi) matches Some(i) ==> lo <= i < hi && line_hits(ls[i], q, cs)
            && forall|j: int| i < j < hi ==> !line_hits(#[trigger] ls[j], q, cs),
        last_hit(ls, q, cs, lo, hi) is None ==> forall|j: int| lo <= j < hi ==> !line_hits(#[trigger] ls[j], q, cs),
    decreases hi - lo,
{
    if lo < hi {
        lemma_last_hit(ls, q, cs, lo, hi - 1);
    }
}

/// A search lands on a matching line of the chapter whenever one exists, and reports no match
/// only when no line of the chapter matches.
pub proof fn lemma_search_finds_match(ls: Seq<Seq<char>>, q: Seq<char>, cs: bool, start: int, forward: bool)
    requires
        0 <= start,
    ensures
        search_target(ls, q, cs, start, forward) matches Some(i) ==> 0 <= i < ls.len() && line_hits(ls[i], q, cs),
        search_target(ls, q, cs, start, forward) is None <==> forall|j: int| 0 <= j < ls.len() ==> !line_hits(#[trigger] ls[j], q, cs),
{
    let n = ls.len() as int;
    lemma_first_hit(ls, q, cs, start + 1, n);
    lemma_first_hit(ls, q, cs, 0, min_int(start + 1, n));
    lemma_last_hit(ls, q, cs, 0, min_int(start, n));
    lemma_last_hit(ls, q, cs, start, n);
    if search_target(ls, q, cs, start, forward) is None {
        assert forall|j: int| 0 <= j < ls.len() implies !line_hits(#[trigger] ls[j], q, cs) by {
            if forward {
                if j > start {
                } else {
                    assert(j < min_int(start + 1, n));
                }
            } else {
                if j < start {
                    assert(j < min_int(start, n));
                } else {
                }
            }
        }
    } else {
        let i = search_target(ls, q, cs, start, forward)->0;
        if forall|j: int| 0 <= j < ls.len() ==> !line_hits(#[trigger] ls[j], q, cs) {
            assert(!line_hits(ls[i], q, cs));
        }
    }
}

fn line_hits_exec(line: &Vec<char>, query: &Vec<char>, Ghost(q): Ghost<Seq<char>>, cs: bool) -> (b: bool)
    requires
        cs ==> query@ == q,
        !cs ==> query@ == lowercase(q),
    ensures
        b == line_hits(line@, q, cs),
{
    if cs {
        contains_exec(line, query)
    } else {
        let l = to_lowercase(line);
        contains_exec(&l, query)
    }
}

fn first_hit_exec(ls: &Vec<Vec<char>>, query: &Vec<char>, Ghost(q): Ghost<Seq<char>>, cs: bool, lo: usize, hi: usize) -> (r: Option<usize>)
    requires
        hi <= ls@.len(),
        cs ==> query@ == q,
        !cs ==> query@ == lowercase(q),
    ensures
        r == (match first_hit(ls@.map_values(|l: Vec<char>| l@), q, cs, lo as int, hi as int) {
            Some(i) => Some(i as usize),
            None => None::<usize>,
        }),
{
    let ghost views = ls@.map_values(|l: Vec<char>| l@);
    let mut i = lo;
    while i < hi
        invariant
            lo <= i || hi <= lo,
            hi <= ls@.len(),
            views == ls@.map_values(|l: Vec<char>| l@),
            cs ==> query@ == q,
            !cs ==> query@ == lowercase(q),
            first_hit(views, q, cs, lo as int, hi as int) == first_hit(views, q, cs, i as int, hi as int),
        decreases hi - i,
    {
        if line_hits_exec(&ls[i], query, Ghost(q), cs) {
            return Some(i);
        }
        i = i + 1;
    }
    None
}

fn last_hit_exec(ls: &Vec<Vec<char>>, query: &Vec<char>, Ghost(q): Ghost<Seq<char>>, cs: bool, lo: usize, hi: usize) -> (r: Option<usize>)
    requires
        hi <= ls@.len(),
        cs ==> query@ == q,
        !cs ==> query@ == lowercase(q),
    ensures
        r == (match last_hit(ls@.map_values(|l: Vec<char>| l@), q, cs, lo as int, hi as int) {
            Some(i) => Some(i as usize),
            None => None::<usize>,
        }),
{
    let ghost views = ls@.map_values(|l: Vec<char>| l@);
    let mut j = hi;
    while j > lo
        invariant
            j <= hi,
            hi <= ls@.len(),
            views == ls@.map_values(|l: Vec<char>| l@),
            cs ==> query@ == q,
            !cs ==> query@ == lowercase(q),
            last_hit(views, q, cs, lo as int, hi as int) == last_hit(views, q, cs, lo as int, j as int),
        decreases j,
    {
        if line_hits_exec(&ls[j - 1], query, Ghost(q), cs) {
            return Some(j - 1);
        }
        j = j - 1;
    }
    None
}

/// Bytes in the first `k` lines, or in all of them when there are fewer.
pub open spec fn bytes_of_first_lines(ls: Seq<Seq<char>>, k: int) -> nat
    decreases k,
{
    if k <= 0 {
        0
    } else if k > ls.len() {
        bytes_of_first_lines(ls, ls.len() as int)
    } else {
        bytes_of_first_lines(ls, k - 1) + byte_len(ls[k - 1])
    }
}

/// Estimated words left in the current chapter of `b`: the bytes after the first
/// `current_position` lines, at six bytes a word; none when the chapter does not exist.
pub open spec fn words_left_in_chapter(b: Book) -> nat {
    if b.current_chapter < b.chapters@.len() {
        let c = b.chapters@[b.current_chapter as int].content@;
        let total = byte_len(c);
        let passed = bytes_of_first_lines(lines(c), b.current_position as int);
        (if passed >= total { 0 } else { (total - passed) as nat }) / 6
    } else {
        0
    }
}

/// Estimated words in the chapters from index `from` on, at six bytes a word, chapter by
/// chapter.
pub open spec fn words_in_chapters_from(chs: Seq<Chapter>, from: int) -> nat
    decreases chs.len() - from,
{
    if from < 0 || from >= chs.len() {
        0
    } else {
        byte_len(chs[from].content@) / 6 + words_in_chapters_from(chs, from + 1)
    }
}

/// Fewer chapters hold no more words.
pub proof fn lemma_words_from_monotone(chs: Seq<Chapter>, a: int, b: int)
    requires
        0 <= a <= b,
    ensures
        words_in_chapters_from(chs, b) <= words_in_chapters_from(chs, a),
    decreases b - a,
{
    if a < b {
        lemma_words_from_monotone(chs, a + 1, b);
    }
}

/// `a / d` rounded up.
pub open spec fn ceil_div(a: nat, d: nat) -> nat {
    a / d + if a % d == 0 { 0nat } else { 1nat }
}

/// The reading speed used for estimates: at least one word a minute.
pub open spec fn effective_wpm(wpm: usize) -> nat {
    if wpm >= 1 { wpm as nat } else { 1 }
}

fn ceil_div_exec(a: usize, d: usize) -> (r: usize)
    requires
        d >= 1,
    ensures
        r == ceil_div(a as nat, d as nat),
{
    let q = a / d;
    if a % d == 0 {
        q
    } else {
        assert(q < a) by (nonlinear_arith)
            requires q == a / d, d >= 1, a % d != 0;
        q + 1
    }
}

/// The first book with id `id`, from index `i` on.
pub open spec fn first_with_id(books: Seq<Book>, id: Seq<char>, i: int) -> Option<int>
    decreases books.len() - i,
{
    if i < 0 || i >= books.len() {
        None
    } else if books[i].id@ == id {
        Some(i)
    } else {
        first_with_id(books, id, i + 1)
    }
}

/// `new` is `old` carrying the reading state of `cur`.
pub open spec fn synced(old: Book, new: Book, cur: Book) -> bool {
    &&& new == (Book {
        current_chapter: cur.current_chapter,
        current_position: cur.current_position,
        bookmarks: new.bookmarks,
        time_spent_secs: cur.time_spent_secs,
        last_read: new.last_read,
        ..old
    })
    &&& same_bookmarks(new.bookmarks@, cur.bookmarks@)
    &&& new.last_read@ == cur.last_read@
}

/// The pane that Tab moves to.
pub open spec fn next_pane(p: ActivePane) -> ActivePane {
    match p {
        ActivePane::Library => ActivePane::Reader,
        ActivePane::Reader => ActivePane::Library,
        ActivePane::Downloader => ActivePane::Library,
    }
}

/// What a search (see [`App::find_next_search_result`]) does to the reader.
pub open spec fn search_post(old: App, new: App, forward: bool) -> bool {
    &&& !old.search_applies() ==> new == old
    &&& old.search_applies() ==> match search_target(
        old.chapter_lines(),
        old.search_query@,
        old.case_sensitive_search,
        old.current_book->0.current_position as int,
        forward,
    ) {
        Some(i) => new == (App {
            current_book: Some(Book { current_position: i as usize, ..old.current_book->0 }),
            error_message: None,
            ..old
        }),
        None => {
            &&& new == (App { error_message: new.error_message, ..old })
            &&& new.error_message matches Some(m) && m@ == "No matches found in this chapter"@
        },
    }
}

/// What Tab does to the reader (see [`App::toggle_pane`]).
pub open spec fn pane_toggled(old: App, new: App) -> bool {
    &&& new == (App { books: new.books, active_pane: next_pane(old.active_pane), ..old })
    &&& new.books@.len() == old.books@.len()
    &&& ({
        let target: Option<int> = if old.leaves_reader_with_book() {
            first_with_id(old.books@, old.current_book->0.id@, 0)
        } else {
            None
        };
        forall|k: int| 0 <= k < old.books@.len() ==> if target == Some(k) {
            synced(old.books@[k], #[trigger] new.books@[k], old.current_book->0)
        } else {
            new.books@[k] == old.books@[k]
        }
    })
}

/// What stepping through the completions does (see [`App::cycle_suggestion`]).
pub open spec fn cycled(old: App, new: App, forward: bool) -> bool {
    &&& old.command_suggestions@.len() == 0 ==> new == old
    &&& old.command_suggestions@.len() > 0 ==> new == (App {
        suggestion_index: Some(
            App::cycled_index(old.suggestion_index, old.command_suggestions@.len(), forward),
        ),
        ..old
    })
}

/// `c` holds the preferences of `app` as they are stored.
pub open spec fn config_of(app: App, c: AppConfig) -> bool {
    &&& c.default_theme@ == (if app.theme == Theme::Light { "light"@ } else { "dark"@ })
    &&& c.text_size == app.margin_width as usize
    &&& c.text_alignment@ == app.text_alignment@
    &&& c.startup_view@ == app.startup_view@
    &&& c.case_sensitive_search == app.case_sensitive_search
    &&& c.show_status_bar == app.show_status_bar
    &&& c.target_wpm == app.wpm
}

/// `new` is `old` with the stored preferences `c` taken over.
pub open spec fn config_applied(old: App, new: App, c: AppConfig) -> bool {
    &&& new == (App {
        theme: if lowercase(c.default_theme@) == "light"@ { Theme::Light } else { Theme::Dark },
        margin_width: c.text_size as u16,
        text_alignment: c.text_alignment,
        startup_view: c.startup_view,
        case_sensitive_search: c.case_sensitive_search,
        show_status_bar: c.show_status_bar,
        wpm: c.target_wpm,
        ..old
    })
    &&& all_ascii(c.default_theme@) ==> lowercase(c.default_theme@) == c.default_theme@.map_values(
        |ch: char| ascii_lower_char(ch),
    )
}

/// Executable form of the filter test, given the lower-cased filter.
fn passes_filter(filter: &Vec<char>, filter_lower: &Vec<char>, title: &String) -> (b: bool)
    requires
        filter_lower@ == lowercase(filter@),
    ensures
        b == title_matches(filter@, title@),
{
    if filter.len() == 0 {
        true
    } else {
        let t = chars_of(title.as_str());
        let t_lower = to_lowercase(&t);
        contains_exec(&t_lower, filter_lower)
    }
}

impl App {
    /// Executable form of [`listed_before`].
    fn listed_before_exec(&self, i: usize, j: usize) -> (b: bool)
        requires
            i < self.books.len(),
            j < self.books.len(),
        ensures
            b == listed_before(self.library_sort, self.books@, i as int, j as int),
    {
        match self.library_sort {
            SortMode::Name => {
                let a = chars_of(self.books[i].title.as_str());
                let c = chars_of(self.books[j].title.as_str());
                lex_lt_exec(&a, &c) || (self.books[i].title == self.books[j].title && i < j)
            },
            SortMode::Date => {
                let a = chars_of(self.books[i].last_read.as_str());
                let c = chars_of(self.books[j].last_read.as_str());
                lex_lt_exec(&c, &a) || (self.books[i].last_read == self.books[j].last_read && i < j)
            },
            SortMode::Progress => {
                let (a, c) = (self.books[i].current_chapter, self.books[j].current_chapter);
                a > c || (a == c && i < j)
            },
        }
    }

    /// The library list as indices into `books`: the books whose titles pass the filter,
    /// sorted by title, by time of last reading (most recent first) or by chapter reached
    /// (furthest first), ties in library order.
    pub fn filtered_indices(&self) -> (r: Vec<usize>)
        ensures
            is_listing(self.books@, self.library_filter@, self.library_sort, r@),
    {
        let ghost books = self.books@;
        let ghost filter = self.library_filter@;
        let ghost mode = self.library_sort;
        let f = chars_of(self.library_filter.as_str());
        let f_lower = to_lowercase(&f);
        let mut r: Vec<usize> = Vec::new();
        let n = self.books.len();
        for i in 0..n
            invariant
                n == books.len(),
                books == self.books@,
                filter == self.library_filter@,
                mode == self.library_sort,
                f@ == filter,
                f_lower@ == lowercase(f@),
                r@.len() == matching_upto(books, filter, i as int).len(),
                forall|k: int|
                    0 <= k < r@.len() ==> #[trigger] r@[k] < i && title_matches(
                        filter,
                        books[r@[k] as int].title@,
                    ),
                forall|j: int|
                    0 <= j < i && title_matches(filter, #[trigger] books[j].title@) ==> r@.contains(
                        j as usize,
                    ),
                forall|p: int, q: int|
                    0 <= p < q < r@.len() ==> listed_before(
                        mode,
                        books,
                        #[trigger] r@[p] as int,
                        #[trigger] r@[q] as int,
                    ),
        {
            if passes_filter(&f, &f_lower, &self.books[i].title) {
                let mut pos: usize = 0;
                while pos < r.len() && !self.listed_before_exec(i, r[pos])
                    invariant
                        n == books.len(),
                        books == self.books@,
                        mode == self.library_sort,
                        i < n,
                        pos <= r@.len(),
                        forall|k: int| 0 <= k < r@.len() ==> #[trigger] r@[k] < i,
                        forall|p: int|
                            0 <= p < pos ==> listed_before(mode, books, #[trigger] r@[p] as int, i as int),
                    decreases r@.len() - pos,
                {
                    proof {
                        lemma_listed_before_total(mode, books, i as int, r@[pos as int] as int);
                    }
                    pos = pos + 1;
                }
                let ghost old_r = r@;
                proof {
                    assert forall|q: int| pos <= q < old_r.len() implies listed_before(
                        mode,
                        books,
                        i as int,
                        #[trigger] old_r[q] as int,
                    ) by {
                        if q > pos {
                            lemma_listed_before_transitive(
                                mode,
                                books,
                                i as int,
                                old_r[pos as int] as int,
                                old_r[q] as int,
                            );
                        }
                    }
                }
                r.insert(pos, i);
                proof {
                    assert forall|p: int, q: int|
                        0 <= p < q < r@.len() implies listed_before(
                        mode,
                        books,
                        #[trigger] r@[p] as int,
                        #[trigger] r@[q] as int,
                    ) by {
                        if q < pos {
                            assert(r@[p] == old_r[p] && r@[q] == old_r[q]);
                        } else if q == pos {
                            assert(r@[p] == old_r[p]);
                        } else if p == pos {
                            assert(r@[q] == old_r[q - 1]);
                        } else if p < pos {
                            assert(r@[p] == old_r[p] && r@[q] == old_r[q - 1]);
                            lemma_listed_before_transitive(
                                mode,
                                books,
                                old_r[p] as int,
                                i as int,
                                old_r[q - 1] as int,
                            );
                        } else {
                            assert(r@[p] == old_r[p - 1] && r@[q] == old_r[q - 1]);
                        }
                    }
                    assert forall|j: int|
                        0 <= j < i + 1 && title_matches(filter, #[trigger] books[j].title@) implies r@.contains(
                        j as usize,
                    ) by {
                        if j == i {
                            assert(r@[pos as int] == i);
                        } else {
                            let k = choose|k: int| 0 <= k < old_r.len() && old_r[k] == j as usize;
                            if k < pos {
                                assert(r@[k] == j as usize);
                            } else {
                                assert(r@[k + 1] == j as usize);
                            }
                        }
                    }
                }
            } else {
                proof {
                    assert forall|j: int|
                        0 <= j < i + 1 && title_matches(filter, #[trigger] books[j].title@) implies r@.contains(
                        j as usize,
                    ) by {
                        assert(j != i);
                    }
                }
            }
        }
        r
    }

    /// The number of books in the library list.
    pub open spec fn listing_len(self) -> nat {
        matching_count(self.books@, self.library_filter@)
    }

    /// The books of the library list, in list order.
    pub fn filtered_books(&self) -> (r: Vec<&Book>)
        ensures
            exists|idx: Seq<usize>|
                {
                    &&& is_listing(self.books@, self.library_filter@, self.library_sort, idx)
                    &&& r@.len() == idx.len()
                    &&& forall|k: int| 0 <= k < idx.len() ==> *r@[k] == self.books@[#[trigger] idx[k] as int]
                },
    {
        let idx = self.filtered_indices();
        let mut r: Vec<&Book> = Vec::new();
        for k in 0..idx.len()
            invariant
                is_listing(self.books@, self.library_filter@, self.library_sort, idx@),
                r@.len() == k,
                forall|j: int| 0 <= j < k ==> *r@[j] == self.books@[#[trigger] idx@[j] as int],
        {
            r.push(&self.books[idx[k]]);
        }
        r
    }

    /// The selection after moving down a list of `len` entries, wrapping to the top.
    pub open spec fn next_index(sel: Option<usize>, len: nat) -> Option<usize> {
        if len == 0 {
            None
        } else {
            match sel {
                Some(i) => if i >= len - 1 { Some(0usize) } else { Some((i + 1) as usize) },
                None => Some(0usize),
            }
        }
    }

    /// The selection after moving up a list of `len` entries, wrapping to the bottom.
    pub open spec fn previous_index(sel: Option<usize>, len: nat) -> Option<usize> {
        if len == 0 {
            None
        } else {
            match sel {
                Some(i) => if i == 0 { Some((len - 1) as usize) } else { Some((i - 1) as usize) },
                None => Some(0usize),
            }
        }
    }

    fn step_down(sel: Option<usize>, len: usize) -> (r: Option<usize>)
        ensures
            r == Self::next_index(sel, len as nat),
    {
        if len == 0 {
            None
        } else {
            match sel {
                Some(i) => if i >= len - 1 { Some(0) } else { Some(i + 1) },
                None => Some(0),
            }
        }
    }

    fn step_up(sel: Option<usize>, len: usize) -> (r: Option<usize>)
        ensures
            r == Self::previous_index(sel, len as nat),
    {
        if len == 0 {
            None
        } else {
            match sel {
                Some(i) => if i == 0 { Some(len - 1) } else { Some(i - 1) },
                None => Some(0),
            }
        }
    }

    /// Selects the next book of the library list, wrapping from the last to the first.
    pub fn next_book(&mut self)
        ensures
            *final(self) == (App {
                selected_book_index: Self::next_index(old(self).selected_book_index, old(self).listing_len()),
                ..*old(self)
            }),
    {
        let n = self.filtered_indices().len();
        self.selected_book_index = Self::step_down(self.selected_book_index, n);
    }

    /// Selects the previous book of the library list, wrapping from the first to the last.
    pub fn previous_book(&mut self)
        ensures
            *final(self) == (App {
                selected_book_index: Self::previous_index(old(self).selected_book_index, old(self).listing_len()),
                ..*old(self)
            }),
    {
        let n = self.filtered_indices().len();
        self.selected_book_index = Self::step_up(self.selected_book_index, n);
    }

    /// Selects the next book of the online results, wrapping from the last to the first.
    pub fn next_online_book(&mut self)
        ensures
            *final(self) == (App {
                selected_online_index: Self::next_index(old(self).selected_online_index, old(self).online_books.len() as nat),
                ..*old(self)
            }),
    {
        self.selected_online_index = Self::step_down(self.selected_online_index, self.online_books.len());
    }

    /// Selects the previous book of the online results, wrapping from the first to the last.
    pub fn previous_online_book(&mut self)
        ensures
            *final(self) == (App {
                selected_online_index: Self::previous_index(old(self).selected_online_index, old(self).online_books.len() as nat),
                ..*old(self)
            }),
    {
        self.selected_online_index = Self::step_up(self.selected_online_index, self.online_books.len());
    }

    /// The other colour scheme.
    pub open spec fn flipped(t: Theme) -> Theme {
        match t {
            Theme::Dark => Theme::Light,
            Theme::Light => Theme::Dark,
        }
    }

    /// Switches between the dark and the light colour scheme.
    pub fn toggle_theme(&mut self)
        ensures
            *final(self) == (App { theme: Self::flipped(old(self).theme), ..*old(self) }),
    {
        self.theme = match self.theme {
            Theme::Dark => Theme::Light,
            Theme::Light => Theme::Dark,
        };
    }

    /// The suggestion selected after one step through `len` suggestions, forward or backward,
    /// wrapping at both ends.
    pub open spec fn cycled_index(sel: Option<usize>, len: nat, forward: bool) -> usize {
        match sel {
            Some(i) => if forward {
                ((i + 1) % (len as int)) as usize
            } else if i == 0 {
                (len - 1) as usize
            } else {
                (i - 1) as usize
            },
            None => if forward { 0usize } else { (len - 1) as usize },
        }
    }

    /// Steps through the command suggestions, forward or backward, wrapping at both ends;
    /// without suggestions nothing changes.
    pub fn cycle_suggestion(&mut self, forward: bool)
        requires
            forward && old(self).command_suggestions@.len() > 0 ==> (old(self).suggestion_index matches Some(i) ==> i < usize::MAX),
        ensures
            cycled(*old(self), *final(self), forward),
    {
        if self.command_suggestions.len() == 0 {
            return;
        }
        let len = self.command_suggestions.len();
        self.suggestion_index = Some(
            match self.suggestion_index {
                Some(i) => {
                    if forward {
                        (i + 1) % len
                    } else {
                        if i == 0 {
                            len - 1
                        } else {
                            i - 1
                        }
                    }
                },
                None => {
                    if forward {
                        0
                    } else {
                        len - 1
                    }
                },
            },
        );
    }

    /// Counts `elapsed` seconds, measured since the previous tick: when at least one second
    /// has passed, the time is added to the open book while the reader pane has the focus, and
    /// the result is `true` (the screen is redrawn and the tick is reset); otherwise nothing
    /// changes and the result is `false`.
    pub fn tick(&mut self, elapsed: u64) -> (redraw: bool)
        requires
            elapsed >= 1 && old(self).active_pane == ActivePane::Reader ==> (old(self).current_book matches Some(b)
                ==> b.time_spent_secs + elapsed <= u64::MAX),
        ensures
            redraw == (elapsed >= 1),
            !redraw || old(self).active_pane != ActivePane::Reader || old(self).current_book is None ==> *final(self) == *old(self),
            redraw && old(self).active_pane == ActivePane::Reader && old(self).current_book is Some ==> *final(self) == (App {
                current_book: Some(Book {
                    time_spent_secs: (old(self).current_book->0.time_spent_secs + elapsed) as u64,
                    ..old(self).current_book->0
                }),
                ..*old(self)
            }),
    {
        if elapsed >= 1 {
            if self.active_pane == ActivePane::Reader {
                match &mut self.current_book {
                    Some(book) => {
                        book.time_spent_secs = book.time_spent_secs + elapsed;
                    },
                    None => {},
                }
            }
            true
        } else {
            false
        }
    }

    /// The lines of the current chapter of the open book.
    pub open spec fn chapter_lines(self) -> Seq<Seq<char>> {
        let b = self.current_book->0;
        lines(b.chapters@[b.current_chapter as int].content@)
    }

    /// A search has something to act on: a query, an open book whose current chapter exists
    /// and has at least one line.
    pub open spec fn search_applies(self) -> bool {
        &&& self.search_query@.len() > 0
        &&& self.current_book is Some
        &&& self.current_book->0.current_chapter < self.current_book->0.chapters@.len()
        &&& self.chapter_lines().len() > 0
    }

    /// Moves the reading position of the open book to the next (or previous) line of the
    /// current chapter that matches the search query, wrapping around the chapter, and clears
    /// the message; when no line matches, says so in the message instead.
    pub fn find_next_search_result(&mut self, forward: bool)
        requires
            old(self).search_applies() && forward ==> old(self).current_book->0.current_position < usize::MAX,
        ensures
            search_post(*old(self), *final(self), forward),
    {
        if self.search_query.as_str().is_empty() {
            return;
        }
        let cs = self.case_sensitive_search;
        let q = chars_of(self.search_query.as_str());
        let query = if cs { q.clone() } else { to_lowercase(&q) };
        let found: Option<usize>;
        match &self.current_book {
            None => { return; },
            Some(book) => {
                let ch = book.current_chapter;
                if ch >= book.chapters.len() {
                    return;
                }
                let content = chars_of(book.chapters[ch].content.as_str());
                let ls = split_lines(&content);
                if ls.len() == 0 {
                    return;
                }
                let ghost views = ls@.map_values(|l: Vec<char>| l@);
                proof {
                    assert(views =~= self.chapter_lines());
                }
                let start = book.current_position;
                let n = ls.len();
                if forward {
                    let a = first_hit_exec(&ls, &query, Ghost(q@), cs, start + 1, n);
                    found = match a {
                        Some(i) => Some(i),
                        None => first_hit_exec(&ls, &query, Ghost(q@), cs, 0, if start + 1 < n { start + 1 } else { n }),
                    };
                } else {
                    let a = last_hit_exec(&ls, &query, Ghost(q@), cs, 0, if start < n { start } else { n });
                    found = match a {
                        Some(i) => Some(i),
                        None => last_hit_exec(&ls, &query, Ghost(q@), cs, start, n),
                    };
                }
            },
        }
        match found {
            Some(idx) => {
                match &mut self.current_book {
                    Some(book) => { book.current_position = idx; },
                    None => {},
                }
                self.error_message = None;
            },
            None => {
                self.error_message = Some(String::from_str("No matches found in this chapter"));
            },
        }
    }

    /// Minutes of reading left in the current chapter and in the whole book of the open book,
    /// at the configured reading speed, rounded up; `None` when no book is open.
    pub fn calculate_reading_stats(&self) -> (r: Option<(usize, usize)>)
        requires
            self.current_book matches Some(b) ==> {
                &&& b.current_chapter < usize::MAX
                &&& forall|j: int| 0 <= j < b.chapters@.len() ==> byte_len(#[trigger] b.chapters@[j].content@) <= usize::MAX
                &&& words_left_in_chapter(b) + words_in_chapters_from(b.chapters@, b.current_chapter + 1) <= usize::MAX
            },
        ensures
            self.current_book is None ==> r is None,
            self.current_book matches Some(b) ==> r == Some((
                ceil_div(words_left_in_chapter(b), effective_wpm(self.wpm)) as usize,
                ceil_div(
                    words_left_in_chapter(b) + words_in_chapters_from(b.chapters@, b.current_chapter + 1),
                    effective_wpm(self.wpm),
                ) as usize,
            )),
    {
        let book = match &self.current_book {
            Some(b) => b,
            None => { return None; },
        };
        let ghost b = *book;
        let cc = book.current_chapter;
        let mut words_chapter: usize = 0;
        if cc < book.chapters.len() {
            let content = chars_of(book.chapters[cc].content.as_str());
            let ls = split_lines(&content);
            let ghost views = ls@.map_values(|l: Vec<char>| l@);
            proof {
                assert(views =~= lines(content@));
            }
            let upto = if book.current_position < ls.len() { book.current_position } else { ls.len() };
            let mut passed: usize = 0;
            let mut k: usize = 0;
            while k < upto
                invariant
                    upto <= ls@.len(),
                    k <= upto,
                    views == ls@.map_values(|l: Vec<char>| l@),
                    passed == if bytes_of_first_lines(views, k as int) <= usize::MAX { bytes_of_first_lines(views, k as int) } else { usize::MAX as nat },
                decreases upto - k,
            {
                let w = byte_len_saturating(&ls[k]);
                passed = passed.saturating_add(w);
                k = k + 1;
            }
            proof {
                if b.current_position > views.len() {
                    assert(bytes_of_first_lines(views, b.current_position as int) == bytes_of_first_lines(views, views.len() as int));
                }
            }
            let total = byte_len_saturating(&content);
            let remaining = total.saturating_sub(passed);
            words_chapter = remaining / 6;
        }
        let mut words_book: usize = 0;
        let mut j: usize = book.chapters.len();
        let from = cc + 1;
        proof {
            if from <= j {
                lemma_words_from_monotone(b.chapters@, cc + 1, j as int);
            }
        }
        while j > from
            invariant
                b == *book,
                cc == b.current_chapter,
                from == cc + 1,
                j <= b.chapters@.len(),
                cc + 1 <= j || j == b.chapters@.len(),
                words_book == words_in_chapters_from(b.chapters@, j as int),
                forall|t: int| 0 <= t < b.chapters@.len() ==> byte_len(#[trigger] b.chapters@[t].content@) <= usize::MAX,
                words_left_in_chapter(b) + words_in_chapters_from(b.chapters@, cc + 1) <= usize::MAX,
            decreases j,
        {
            j = j - 1;
            proof {
                lemma_words_from_monotone(b.chapters@, cc + 1, j as int);
            }
            let c = chars_of(book.chapters[j].content.as_str());
            let n = byte_len_saturating(&c);
            words_book = n / 6 + words_book;
        }
        proof {
            if j < cc + 1 {
                assert(words_in_chapters_from(b.chapters@, cc + 1) == 0);
            }
        }
        let total_words = words_chapter + words_book;
        let wpm = if self.wpm >= 1 { self.wpm } else { 1 };
        Some((ceil_div_exec(words_chapter, wpm), ceil_div_exec(total_words, wpm)))
    }

    /// The reader as it starts: library pane, normal mode, no books, dark theme, 250 words a
    /// minute, left alignment, library start-up view, case-insensitive search, status bar
    /// shown, no help.
    pub fn new() -> (app: App)
        ensures
            !app.should_quit,
            app.mode == AppMode::Normal,
            app.active_pane == ActivePane::Library,
            app.books@.len() == 0,
            app.selected_book_index is None,
            app.current_book is None,
            app.library_filter@.len() == 0,
            app.library_sort == SortMode::Name,
            app.online_books@.len() == 0,
            app.selected_online_index is None,
            !app.is_loading,
            app.theme == Theme::Dark,
            app.margin_width == 0,
            app.command_buffer@.len() == 0,
            app.command_suggestions@.len() == 0,
            app.suggestion_index is None,
            app.search_query@.len() == 0,
            app.error_message is None,
            app.toc_selected_index == 0,
            app.preferences_selected_index == 0,
            app.wpm == 250,
            app.text_alignment@ == "left"@,
            app.startup_view@ == "library"@,
            !app.case_sensitive_search,
            app.show_status_bar,
            !app.show_help,
            app.help_scroll == 0,
    {
        App {
            should_quit: false,
            mode: AppMode::Normal,
            active_pane: ActivePane::Library,
            books: Vec::new(),
            selected_book_index: None,
            current_book: None,
            library_filter: String::new(),
            library_sort: SortMode::Name,
            online_books: Vec::new(),
            selected_online_index: None,
            is_loading: false,
            theme: Theme::Dark,
            margin_width: 0,
            command_buffer: String::new(),
            command_suggestions: Vec::new(),
            suggestion_index: None,
            search_query: String::new(),
            error_message: None,
            toc_selected_index: 0,
            preferences_selected_index: 0,
            wpm: 250,
            text_alignment: String::from_str("left"),
            startup_view: String::from_str("library"),
            case_sensitive_search: false,
            show_status_bar: true,
            show_help: false,
            help_scroll: 0,
        }
    }

    /// Whether leaving the reader with Tab must save the open book's reading state: the reader
    /// pane has the focus and a book is open.
    pub open spec fn leaves_reader_with_book(self) -> bool {
        self.active_pane == ActivePane::Reader && self.current_book is Some
    }

    /// Switches pane with Tab: library to reader, reader or downloader to library. Leaving the
    /// reader with a book open first copies its reading state to the first library book with
    /// the same id; the result then is `true`: that reading state is to be stored.
    pub fn toggle_pane(&mut self) -> (save_state: bool)
        ensures
            pane_toggled(*old(self), *final(self)),
            save_state == old(self).leaves_reader_with_book(),
    {
        let save_state = self.active_pane == ActivePane::Reader && self.current_book.is_some();
        if self.active_pane == ActivePane::Reader {
            match &self.current_book {
                Some(cur) => {
                    let found = Self::index_with_id(&self.books, &cur.id);
                    match found {
                        Some(j) => {
                            let bookmarks = copy_bookmarks(&cur.bookmarks);
                            let last_read = cur.last_read.clone();
                            let (cc, cp, ts) = (cur.current_chapter, cur.current_position, cur.time_spent_secs);
                            let ghost before = self.books@;
                            self.books[j].current_chapter = cc;
                            self.books[j].current_position = cp;
                            self.books[j].bookmarks = bookmarks;
                            self.books[j].time_spent_secs = ts;
                            self.books[j].last_read = last_read;
                        },
                        None => {},
                    }
                },
                None => {},
            }
        }
        self.active_pane = match self.active_pane {
            ActivePane::Library => ActivePane::Reader,
            ActivePane::Reader => ActivePane::Library,
            ActivePane::Downloader => ActivePane::Library,
        };
        save_state
    }

    /// The first book in `books` with the id `id`.
    pub fn index_with_id(books: &Vec<Book>, id: &String) -> (r: Option<usize>)
        ensures
            match first_with_id(books@, id@, 0) {
                Some(j) => 0 <= j < books.len() && r == Some(j as usize),
                None => r is None,
            },
    {
        let mut i: usize = 0;
        while i < books.len()
            invariant
                i <= books@.len(),
                first_with_id(books@, id@, 0) == first_with_id(books@, id@, i as int),
            decreases books@.len() - i,
        {
            if books[i].id == *id {
                return Some(i);
            }
            i = i + 1;
        }
        None
    }

    /// The preferences of this reader as they are stored.
    pub fn to_config(&self) -> (c: AppConfig)
        ensures
            config_of(*self, c),
    {
        AppConfig {
            default_theme: match self.theme {
                Theme::Light => String::from_str("light"),
                Theme::Dark => String::from_str("dark"),
            },
            text_size: self.margin_width as usize,
            text_alignment: self.text_alignment.clone(),
            startup_view: self.startup_view.clone(),
            case_sensitive_search: self.case_sensitive_search,
            show_status_bar: self.show_status_bar,
            target_wpm: self.wpm,
        }
    }

    /// Takes over stored preferences: the light theme when the stored theme, lower-cased, is
    /// `light`, the dark one otherwise; the text size becomes the margin (its low 16 bits).
    pub fn apply_config(&mut self, config: AppConfig)
        ensures
            config_applied(*old(self), *final(self), config),
    {
        let t = to_lowercase(&chars_of(config.default_theme.as_str()));
        self.theme = if crate::text::chars_eq_str(&t, "light") { Theme::Light } else { Theme::Dark };
        self.margin_width = config.text_size as u16;
        self.text_alignment = config.text_alignment;
        self.startup_view = config.startup_view;
        self.case_sensitive_search = config.case_sensitive_search;
        self.show_status_bar = config.show_status_bar;
        self.wpm = config.target_wpm;
    }

    /// Whether a forward search would have to step past the largest line number: a search
    /// applies and the reading position is `usize::MAX`.
    pub fn search_would_overflow(&self) -> (b: bool)
        ensures
            b == (self.search_applies() && self.current_book->0.current_position == usize::MAX),
    {
        if self.search_query.as_str().is_empty() {
            return false;
        }
        match &self.current_book {
            None => false,
            Some(book) => {
                if book.current_chapter >= book.chapters.len() {
                    return false;
                }
                let content = chars_of(book.chapters[book.current_chapter].content.as_str());
                let ls = split_lines(&content);
                ls.len() > 0 && book.current_position == usize::MAX
            },
        }
    }
}

} // verus!
