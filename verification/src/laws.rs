//! Properties that relate several operations of the reader, or hold of all inputs.

use vstd::prelude::*;
use crate::app::{
    bytes_of_first_lines, ceil_div, config_applied, config_of, effective_wpm, first_with_id,
    lemma_first_hit, lemma_last_hit, line_hits, matching_count, matching_upto, pane_toggled,
    search_post, synced, words_in_chapters_from, words_left_in_chapter, ActivePane, App, AppMode,
    Theme,
};
use crate::command::{
    book_arg, books_without, category_name, command_post, lemma_first_by_path, suggestion_for,
    suggestions_post, suggestions_upto, first_field, second_field, string_views, CommandRequest,
};
use crate::text::{contains, lowercase, trim, words};
use crate::config::AppConfig;
use crate::events::with_saved_state;
use crate::keys::{at_chapter, key_post, scroll_post, Key, Scroll};
use crate::model::{same_reading_state, Book};
use crate::text::{ascii_lower_char, lines};

verus! {

/// Moving down a list and then up again returns to the entry one started from, and so does
/// moving up and then down.
pub proof fn law_down_up_returns(i: usize, len: nat)
    requires
        i < len,
        len <= usize::MAX,
    ensures
        App::previous_index(App::next_index(Some(i), len), len) == Some(i),
        App::next_index(App::previous_index(Some(i), len), len) == Some(i),
{
}

/// Moving through a nonempty list always leaves a selection inside it; an empty list has none.
pub proof fn law_selection_stays_in_list(sel: Option<usize>, len: nat)
    requires
        len <= usize::MAX,
    ensures
        len == 0 ==> App::next_index(sel, len) is None && App::previous_index(sel, len) is None,
        len > 0 ==> (App::next_index(sel, len) matches Some(j) && j < len),
        len > 0 && (sel matches Some(i) ==> i < len) ==> (App::previous_index(sel, len) matches Some(j) && j < len),
{
}

/// In the library, Down followed by Up gives back the state one started from when a book of
/// the list was selected.
pub proof fn law_library_down_up(a: App, b: App, c: App, act1: crate::keys::Action, act2: crate::keys::Action)
    requires
        a.mode == AppMode::Normal,
        !a.show_help,
        a.active_pane == ActivePane::Library,
        a.selected_book_index matches Some(i) && i < a.listing_len(),
        key_post(a, b, Key::Down, false, act1),
        key_post(b, c, Key::Up, false, act2),
    ensures
        c == a,
{
    let i = a.selected_book_index->0;
    assert(a.listing_len() <= usize::MAX) by {
        vstd::std_specs::vec::axiom_spec_len(&a.books);
        lemma_matching_upto_len(a.books@, a.library_filter@, a.books@.len() as int);
    }
    law_down_up_returns(i, a.listing_len());
}

proof fn lemma_matching_upto_len(books: Seq<Book>, filter: Seq<char>, n: int)
    requires
        0 <= n <= books.len(),
        books.len() <= usize::MAX,
    ensures
        matching_upto(books, filter, n).len() <= n,
    decreases n,
{
    if n > 0 {
        lemma_matching_upto_len(books, filter, n - 1);
    }
}

/// Stepping forward through the completions and then back returns to the completion one
/// started from, and so does stepping back and then forward.
pub proof fn law_completion_cycle_returns(i: usize, len: nat)
    requires
        i < len,
        len <= usize::MAX,
    ensures
        App::cycled_index(Some(App::cycled_index(Some(i), len, true)), len, false) == i,
        App::cycled_index(Some(App::cycled_index(Some(i), len, false)), len, true) == i,
{
    if i + 1 < len {
        assert((i + 1) % (len as int) == i + 1) by (nonlinear_arith)
            requires 0 <= i + 1 < len;
    } else {
        assert((i + 1) % (len as int) == 0) by (nonlinear_arith)
            requires i + 1 == len, len > 0;
    }
    if i == 0 {
        assert(((len - 1) + 1) % (len as int) == 0) by (nonlinear_arith)
            requires len > 0;
    } else {
        assert(((i - 1) + 1) % (len as int) == i) by (nonlinear_arith)
            requires 0 < i < len;
    }
}

/// Pressing `t` twice in normal mode gives back the theme, and the whole state, one started
/// from.
pub proof fn law_theme_key_twice(a: App, b: App, c: App, act1: crate::keys::Action, act2: crate::keys::Action)
    requires
        a.mode == AppMode::Normal,
        !a.show_help,
        key_post(a, b, Key::Char('t'), false, act1),
        key_post(b, c, Key::Char('t'), false, act2),
    ensures
        c == a,
{
}

/// Pressing `?` twice shows and hides the help, and gives back the state one started from.
pub proof fn law_help_key_twice(a: App, b: App, c: App, ctrl: bool, act1: crate::keys::Action, act2: crate::keys::Action)
    requires
        key_post(a, b, Key::Char('?'), ctrl, act1),
        key_post(b, c, Key::Char('?'), ctrl, act2),
    ensures
        c == a,
        b.show_help == !a.show_help,
{
}

/// Preferences that are stored and taken over again come back as they were: theme, margin,
/// alignment, start-up view, search case, status bar and reading speed.
pub proof fn law_config_round_trip(a: App, c: AppConfig, x: App, b: App)
    requires
        config_of(a, c),
        config_applied(x, b, c),
    ensures
        b.theme == a.theme,
        b.margin_width == a.margin_width,
        b.text_alignment@ == a.text_alignment@,
        b.startup_view@ == a.startup_view@,
        b.case_sensitive_search == a.case_sensitive_search,
        b.show_status_bar == a.show_status_bar,
        b.wpm == a.wpm,
{
    reveal_strlit("light");
    reveal_strlit("dark");
    let t = c.default_theme@;
    assert(crate::text::all_ascii(t));
    assert(t.map_values(|ch: char| ascii_lower_char(ch)) =~= t);
    if a.theme == Theme::Dark {
        assert(t != "light"@) by {
            assert(t.len() != "light"@.len());
        }
    }
}

/// A book opened with a saved reading state shows exactly that state: chapter, position,
/// bookmarks, time spent and last-read time.
pub proof fn law_saved_state_restored(book: Book, saved: Book)
    ensures
        same_reading_state(with_saved_state(book, saved), saved),
        with_saved_state(book, saved).id == book.id,
        with_saved_state(book, saved).chapters == book.chapters,
{
}

/// After leaving the reader, the library entry of the open book holds the reading state of
/// the open book.
pub proof fn law_sync_copies_state(old: Book, new: Book, cur: Book)
    requires
        synced(old, new, cur),
    ensures
        same_reading_state(new, cur),
{
}

/// With an empty filter the library list holds every book.
pub proof fn law_empty_filter_lists_all(books: Seq<Book>, filter: Seq<char>)
    requires
        filter.len() == 0,
    ensures
        matching_count(books, filter) == books.len(),
{
    lemma_all_match(books, filter, books.len() as int);
}

proof fn lemma_all_match(books: Seq<Book>, filter: Seq<char>, n: int)
    requires
        filter.len() == 0,
        0 <= n <= books.len(),
    ensures
        matching_upto(books, filter, n).len() == n,
    decreases n,
{
    if n > 0 {
        lemma_all_match(books, filter, n - 1);
    }
}

/// Deleting by id leaves no book with that id, keeps the others in order, and changes nothing
/// when no book has that id.
pub proof fn law_delete_removes_id(books: Seq<Book>, id: Seq<char>)
    ensures
        forall|k: int| 0 <= k < books_without(books, id).len() ==> (#[trigger] books_without(books, id)[k]).id@ != id,
        books_without(books, id).len() <= books.len(),
        (forall|k: int| 0 <= k < books.len() ==> (#[trigger] books[k]).id@ != id) ==> books_without(books, id) == books,
    decreases books.len(),
{
    if books.len() > 0 {
        let rest = books.drop_first();
        law_delete_removes_id(rest, id);
        if forall|k: int| 0 <= k < books.len() ==> (#[trigger] books[k]).id@ != id {
            assert forall|k: int| 0 <= k < rest.len() implies (#[trigger] rest[k]).id@ != id by {
                assert(rest[k] == books[k + 1]);
            }
            assert(books =~= seq![books[0]] + rest);
        }
        if books[0].id@ != id {
            let r = books_without(books, id);
            assert forall|k: int| 0 <= k < r.len() implies (#[trigger] r[k]).id@ != id by {
                if k > 0 {
                    assert(r[k] == books_without(rest, id)[k - 1]);
                }
            }
        }
    } else {
        assert(books_without(books, id) =~= books);
    }
}

proof fn lemma_first_lines_monotone(ls: Seq<Seq<char>>, j: int, k: int)
    requires
        0 <= j <= k,
    ensures
        bytes_of_first_lines(ls, j) <= bytes_of_first_lines(ls, k),
    decreases k,
{
    if j < k {
        if k > ls.len() {
            if j <= ls.len() {
                lemma_first_lines_monotone(ls, j, ls.len() as int);
            } else {
                assert(bytes_of_first_lines(ls, j) == bytes_of_first_lines(ls, ls.len() as int));
            }
        } else {
            lemma_first_lines_monotone(ls, j, k - 1);
        }
    }
}

/// Reading on never raises the estimate of words left in the chapter.
pub proof fn law_reading_on_lowers_estimate(b: Book, p: usize, q: usize)
    requires
        p <= q,
    ensures
        words_left_in_chapter(Book { current_position: q, ..b }) <= words_left_in_chapter(
            Book { current_position: p, ..b },
        ),
{
    if b.current_chapter < b.chapters@.len() {
        let c = b.chapters@[b.current_chapter as int].content@;
        lemma_first_lines_monotone(lines(c), p as int, q as int);
        let total = crate::text::byte_len(c);
        let x = bytes_of_first_lines(lines(c), p as int);
        let y = bytes_of_first_lines(lines(c), q as int);
        let rx: nat = if x >= total { 0 } else { (total - x) as nat };
        let ry: nat = if y >= total { 0 } else { (total - y) as nat };
        assert(ry <= rx);
        assert(ry / 6 <= rx / 6) by (nonlinear_arith)
            requires ry <= rx;
    }
}

/// The completion reached from completion `sel` after `k` steps forward.
pub open spec fn forward_steps(sel: Option<usize>, len: nat, k: nat) -> Option<usize>
    decreases k,
{
    if k == 0 {
        sel
    } else {
        forward_steps(Some(App::cycled_index(sel, len, true)), len, (k - 1) as nat)
    }
}

proof fn lemma_forward_steps(i: usize, len: nat, k: nat)
    requires
        i < len,
        len <= usize::MAX,
    ensures
        forward_steps(Some(i), len, k) == Some(((i + k) % (len as int)) as usize),
    decreases k,
{
    if k > 0 {
        let j = App::cycled_index(Some(i), len, true);
        assert(j == (i + 1) % (len as int));
        assert(0 <= (i + 1) % (len as int) < len) by (nonlinear_arith)
            requires len > 0;
        lemma_forward_steps(j, len, (k - 1) as nat);
        vstd::arithmetic::div_mod::lemma_add_mod_noop((i + 1) as int, (k - 1) as int, len as int);
        vstd::arithmetic::div_mod::lemma_mod_twice((k - 1) as int, len as int);
        vstd::arithmetic::div_mod::lemma_mod_twice((i + 1) as int, len as int);
        vstd::arithmetic::div_mod::lemma_add_mod_noop(j as int, (k - 1) as int, len as int);
    } else {
        vstd::arithmetic::div_mod::lemma_small_mod(i as nat, len);
    }
}

/// Stepping forward through all `len` completions returns to the completion one started from.
pub proof fn law_completion_full_cycle(i: usize, len: nat)
    requires
        i < len,
        len <= usize::MAX,
    ensures
        forward_steps(Some(i), len, len) == Some(i),
{
    lemma_forward_steps(i, len, len);
    vstd::arithmetic::div_mod::lemma_mod_add_multiples_vanish(i as int, len as int);
    vstd::arithmetic::div_mod::lemma_small_mod(i as nat, len);
}

/// While the preferences menu is open its selection is one of its seven entries: opening it
/// selects the first, and no key moves the selection past the last.
pub proof fn law_preferences_selection_bounded(a: App, b: App, key: Key, ctrl: bool, act: crate::keys::Action)
    requires
        a.mode == AppMode::Preferences ==> a.preferences_selected_index <= 6,
        key_post(a, b, key, ctrl, act),
    ensures
        b.mode == AppMode::Preferences ==> b.preferences_selected_index <= 6,
{
}

/// Scrolling keeps the selection of the preferences menu in it too.
pub proof fn law_preferences_selection_bounded_scroll(a: App, b: App, s: Scroll)
    requires
        a.mode == AppMode::Preferences ==> a.preferences_selected_index <= 6,
        scroll_post(a, b, s),
    ensures
        b.mode == AppMode::Preferences ==> b.preferences_selected_index <= 6,
{
}

proof fn lemma_ceil_div_bounds(a: nat, d: nat)
    requires
        d >= 1,
    ensures
        ceil_div(a, d) * d >= a,
        ceil_div(a, d) == 0 || (ceil_div(a, d) - 1) * d < a,
{
    let q = a / d;
    let r = a % d;
    assert(a == q * d + r && 0 <= r < d) by (nonlinear_arith)
        requires d >= 1, q == a / d, r == a % d;
    if r == 0 {
        assert(q * d >= a);
        assert(q == 0 || (q - 1) * d < a) by (nonlinear_arith)
            requires a == q * d, d >= 1;
    } else {
        assert((q + 1) * d >= a) by (nonlinear_arith)
            requires a == q * d + r, r < d;
        assert(q * d < a);
    }
}

proof fn lemma_ceil_div_monotone(a1: nat, a2: nat, d1: nat, d2: nat)
    requires
        a1 <= a2,
        1 <= d1 <= d2,
    ensures
        ceil_div(a1, d2) <= ceil_div(a2, d1),
{
    lemma_ceil_div_bounds(a1, d2);
    lemma_ceil_div_bounds(a2, d1);
    let (c1, c2) = (ceil_div(a1, d2), ceil_div(a2, d1));
    if c1 > c2 {
        assert((c1 - 1) * d2 >= c2 * d1) by (nonlinear_arith)
            requires c1 - 1 >= c2, c2 >= 0, d2 >= d1, d1 >= 1;
    }
}

/// The reading estimates: the minutes left in the chapter are never more than the minutes left
/// in the book, and a faster reading speed never raises either.
pub proof fn law_reading_estimates_ordered(b: Book, w1: usize, w2: usize)
    requires
        w1 <= w2,
    ensures
        ceil_div(words_left_in_chapter(b), effective_wpm(w1)) <= ceil_div(
            words_left_in_chapter(b) + words_in_chapters_from(b.chapters@, b.current_chapter + 1),
            effective_wpm(w1),
        ),
        ceil_div(words_left_in_chapter(b), effective_wpm(w2)) <= ceil_div(
            words_left_in_chapter(b),
            effective_wpm(w1),
        ),
        ceil_div(
            words_left_in_chapter(b) + words_in_chapters_from(b.chapters@, b.current_chapter + 1),
            effective_wpm(w2),
        ) <= ceil_div(
            words_left_in_chapter(b) + words_in_chapters_from(b.chapters@, b.current_chapter + 1),
            effective_wpm(w1),
        ),
{
    let left = words_left_in_chapter(b);
    let all = left + words_in_chapters_from(b.chapters@, b.current_chapter + 1);
    lemma_ceil_div_monotone(left, all, effective_wpm(w1), effective_wpm(w1));
    lemma_ceil_div_monotone(left, left, effective_wpm(w1), effective_wpm(w2));
    lemma_ceil_div_monotone(all, all, effective_wpm(w1), effective_wpm(w2));
}

/// In the reader, the next chapter and then the previous one (`l` then `h`) lead back to the
/// chapter one started from, at its start.
pub proof fn law_next_then_previous_chapter(a: App, b: App, c: App, act1: crate::keys::Action, act2: crate::keys::Action)
    requires
        a.mode == AppMode::Normal,
        !a.show_help,
        a.active_pane == ActivePane::Reader,
        a.current_book matches Some(bk) && bk.current_chapter + 1 < bk.chapters@.len(),
        key_post(a, b, Key::Char('l'), false, act1),
        key_post(b, c, Key::Char('h'), false, act2),
    ensures
        c == at_chapter(a, a.current_book->0.current_chapter),
{
    let ch = a.current_book->0.current_chapter;
    vstd::std_specs::vec::axiom_spec_len(&a.current_book->0.chapters);
    assert(b == at_chapter(a, (ch + 1) as usize));
    assert(b.current_book->0.current_chapter == ch + 1);
    assert(c == at_chapter(b, ch));
    assert(c.current_book->0 == at_chapter(a, ch).current_book->0);
}

/// In the library, `s` steps through the three orders, by name, by date and by progress, and
/// after the third press the state is the one started from.
pub proof fn law_sort_key_cycles(a: App, b: App, c: App, d: App, acts: (crate::keys::Action, crate::keys::Action, crate::keys::Action))
    requires
        a.mode == AppMode::Normal,
        !a.show_help,
        a.active_pane == ActivePane::Library,
        key_post(a, b, Key::Char('s'), false, acts.0),
        key_post(b, c, Key::Char('s'), false, acts.1),
        key_post(c, d, Key::Char('s'), false, acts.2),
    ensures
        b.library_sort != a.library_sort,
        c.library_sort != a.library_sort && c.library_sort != b.library_sort,
        d == a,
{
}

/// The line at which a search lands, when any line of the chapter matches: moving forward,
/// the first match after the cursor, or, when there is none, the first match of the chapter;
/// moving backward, the last match before the cursor, or, when there is none, the last match of
/// the chapter. Only the position changes and the message is cleared. When no line matches,
/// only the message changes.
pub proof fn law_search_lands_on_nearest_match(old: App, new: App, forward: bool)
    requires
        old.search_applies(),
        search_post(old, new, forward),
    ensures
        ({
            let ls = old.chapter_lines();
            let q = old.search_query@;
            let cs = old.case_sensitive_search;
            let p = old.current_book->0.current_position as int;
            let n = ls.len() as int;
            if exists|j: int| 0 <= j < n && #[trigger] line_hits(ls[j], q, cs) {
                exists|i: int| {
                    &&& 0 <= i < n
                    &&& #[trigger] line_hits(ls[i], q, cs)
                    &&& new == (App {
                        current_book: Some(Book { current_position: i as usize, ..old.current_book->0 }),
                        error_message: None,
                        ..old
                    })
                    &&& if forward {
                        if exists|j: int| p < j < n && #[trigger] line_hits(ls[j], q, cs) {
                            p < i && forall|j: int| p < j < i ==> !(#[trigger] line_hits(ls[j], q, cs))
                        } else {
                            forall|j: int| 0 <= j < i ==> !(#[trigger] line_hits(ls[j], q, cs))
                        }
                    } else {
                        if exists|j: int| 0 <= j < p && j < n && #[trigger] line_hits(ls[j], q, cs) {
                            i < p && forall|j: int| i < j < p && j < n ==> !(#[trigger] line_hits(ls[j], q, cs))
                        } else {
                            forall|j: int| i < j < n ==> !(#[trigger] line_hits(ls[j], q, cs))
                        }
                    }
                }
            } else {
                &&& new == (App { error_message: new.error_message, ..old })
                &&& new.error_message is Some
            }
        }),
{
    let ls = old.chapter_lines();
    let q = old.search_query@;
    let cs = old.case_sensitive_search;
    let p = old.current_book->0.current_position as int;
    let n = ls.len() as int;
    let lo_b = if p <= n { p } else { n };
    let hi_f = if p + 1 <= n { p + 1 } else { n };
    assert(crate::app::min_int(p, n) == lo_b);
    assert(crate::app::min_int(p + 1, n) == hi_f);
    lemma_first_hit(ls, q, cs, p + 1, n);
    lemma_first_hit(ls, q, cs, 0, hi_f);
    lemma_last_hit(ls, q, cs, 0, lo_b);
    lemma_last_hit(ls, q, cs, p, n);
    crate::app::lemma_search_finds_match(ls, q, cs, p, forward);
    let t = crate::app::search_target(ls, q, cs, p, forward);
    if exists|j: int| 0 <= j < n && #[trigger] line_hits(ls[j], q, cs) {
        let i = t->0;
        assert(line_hits(ls[i], q, cs));
        if forward {
            match crate::app::first_hit(ls, q, cs, p + 1, n) {
                Some(f) => {
                    assert(i == f);
                },
                None => {
                    assert(i == crate::app::first_hit(ls, q, cs, 0, hi_f)->0);
                    assert(!exists|j: int| p < j < n && #[trigger] line_hits(ls[j], q, cs));
                    assert forall|j: int| 0 <= j < i implies !(#[trigger] line_hits(ls[j], q, cs)) by {
                        assert(j < hi_f);
                    }
                },
            }
        } else {
            match crate::app::last_hit(ls, q, cs, 0, lo_b) {
                Some(f) => {
                    assert(i == f);
                    assert(exists|j: int| 0 <= j < p && j < n && #[trigger] line_hits(ls[j], q, cs)) by {
                        assert(line_hits(ls[f], q, cs));
                    }
                },
                None => {
                    assert(i == crate::app::last_hit(ls, q, cs, p, n)->0);
                    assert(!exists|j: int| 0 <= j < p && j < n && #[trigger] line_hits(ls[j], q, cs)) by {
                        assert forall|j: int| 0 <= j < p && j < n implies !(#[trigger] line_hits(ls[j], q, cs)) by {
                            assert(j < lo_b);
                        }
                    }
                },
            }
        }
    }
}

/// A `delete` command that names a book in quotes acts on a book of that name only: the
/// book it deletes has that `category/title`, ignoring case, and when no book has it nothing
/// is deleted, whatever the selection.
pub proof fn law_delete_by_name_acts_on_that_name(old: App, new: App, req: CommandRequest)
    requires
        words(trim(old.command_buffer@)).len() > 0,
        lowercase(words(trim(old.command_buffer@))[0]) == "delete"@,
        book_arg(old.command_buffer@, "delete"@) is Some,
        command_post(old, new, req),
    ensures
        ({
            let name = match book_arg(old.command_buffer@, "delete"@) { Some((_, nm)) => nm, None => Seq::<char>::empty() };
            &&& req matches CommandRequest::Delete { id, path } ==> exists|k: int|
                0 <= k < old.books@.len() && lowercase(
                    category_name(#[trigger] old.books@[k]) + "/"@ + old.books@[k].title@,
                ) == lowercase(name) && old.books@[k].id@ == id@ && old.books@[k].path@ == path@
            &&& (forall|k: int|
                0 <= k < old.books@.len() ==> lowercase(
                    category_name(#[trigger] old.books@[k]) + "/"@ + old.books@[k].title@,
                ) != lowercase(name)) ==> req is Done
        }),
{
    reveal_strlit("delete");
    reveal_strlit("q");
    reveal_strlit("quit");
    reveal_strlit("exit");
    reveal_strlit("dl");
    reveal_strlit("downloader");
    reveal_strlit("import");
    reveal_strlit("create");
    reveal_strlit("mkdir");
    reveal_strlit("category");
    let name = match book_arg(old.command_buffer@, "delete"@) { Some((_, nm)) => nm, None => Seq::<char>::empty() };
    let cmd = lowercase(words(trim(old.command_buffer@))[0]);
    assert(cmd != "q"@ && cmd != "quit"@ && cmd != "exit"@ && cmd != "dl"@ && cmd != "downloader"@);
    assert(cmd != "import"@) by {
        assert(cmd[0] != "import"@[0]);
    }
    assert(cmd != "create"@ && cmd != "mkdir"@ && cmd != "category"@) by {
        assert(cmd[0] != "create"@[0]);
    }
    let mid = App { mode: old.mode, command_buffer: old.command_buffer, ..new };
    assert(crate::command::command_effect(old, mid, req));
    lemma_first_by_path(old.books@, name, 0);
    assert(crate::command::delete_target(old) == crate::command::first_by_path(old.books@, name, 0));
    match crate::command::first_by_path(old.books@, name, 0) {
        Some(j) => {
            assert(lowercase(category_name(old.books@[j]) + "/"@ + old.books@[j].title@) == lowercase(name));
            assert(crate::command::path_matches(old.books@[j], name));
        },
        None => {},
    }
}

proof fn lemma_suggestions_filter(books: Seq<Book>, delete: bool, arg: Seq<char>, n: int)
    requires
        0 <= n <= books.len(),
    ensures
        suggestions_upto(books, delete, arg, n) == books.take(n).filter_map(
            |b: Book| if contains(lowercase(category_name(b) + "/"@ + b.title@), arg) {
                Some(suggestion_for(b, delete))
            } else {
                None
            },
        ),
    decreases n,
{
    let f = |b: Book| if contains(lowercase(category_name(b) + "/"@ + b.title@), arg) {
        Some(suggestion_for(b, delete))
    } else {
        None
    };
    if n > 0 {
        lemma_suggestions_filter(books, delete, arg, n - 1);
        assert(books.take(n).drop_last() =~= books.take(n - 1));
        assert(books.take(n).last() == books[n - 1]);
        let rest = books.take(n - 1).filter_map(f);
        if contains(lowercase(category_name(books[n - 1]) + "/"@ + books[n - 1].title@), arg) {
            assert(rest.push(suggestion_for(books[n - 1], delete)) =~= rest + seq![suggestion_for(books[n - 1], delete)]);
        }
    } else {
        assert(books.take(0) =~= Seq::<Book>::empty());
    }
}

/// The completions of a `delete` or `move` line name, in library order, exactly the books whose
/// lower-cased `category/title` (`uncategorized` for a book without a category) contains the
/// lower-cased text after the command word, each by that same `category/title`.
pub proof fn law_completions_name_matching_books(old: App, new: App)
    requires
        suggestions_post(old, new),
        lowercase(first_field(old.command_buffer@)) == "delete"@ || lowercase(first_field(old.command_buffer@))
            == "move"@,
    ensures
        ({
            let delete = lowercase(first_field(old.command_buffer@)) == "delete"@;
            let arg = match second_field(old.command_buffer@) {
                Some(a) => lowercase(a),
                None => Seq::<char>::empty(),
            };
            string_views(new.command_suggestions@) == old.books@.filter_map(
                |b: Book| if contains(lowercase(category_name(b) + "/"@ + b.title@), arg) {
                    Some(
                        if delete {
                            "delete \""@ + (category_name(b) + "/"@ + b.title@) + "\""@
                        } else {
                            "move \""@ + (category_name(b) + "/"@ + b.title@) + "\" <new_category>"@
                        },
                    )
                } else {
                    None
                },
            )
        }),
{
    let delete = lowercase(first_field(old.command_buffer@)) == "delete"@;
    let arg = match second_field(old.command_buffer@) {
        Some(a) => lowercase(a),
        None => Seq::<char>::empty(),
    };
    lemma_suggestions_filter(old.books@, delete, arg, old.books@.len() as int);
    assert(old.books@.take(old.books@.len() as int) =~= old.books@);
    let f = |b: Book| if contains(lowercase(category_name(b) + "/"@ + b.title@), arg) {
        Some(suggestion_for(b, delete))
    } else {
        None
    };
    let g = |b: Book| if contains(lowercase(category_name(b) + "/"@ + b.title@), arg) {
        Some(
            if delete {
                "delete \""@ + (category_name(b) + "/"@ + b.title@) + "\""@
            } else {
                "move \""@ + (category_name(b) + "/"@ + b.title@) + "\" <new_category>"@
            },
        )
    } else {
        None
    };
    assert(f =~= g);
}

/// In normal mode, Down or `j` moves the selection of the focused list, the library list or
/// the catalogue results, one entry down: from entry `i` to `i + 1`, from the last entry to
/// the first, from no selection to the first; an empty list has no selection. Nothing else
/// changes.
pub proof fn law_down_key_moves_selection_down(a: App, b: App, key: Key, act: crate::keys::Action)
    requires
        a.mode == AppMode::Normal,
        !a.show_help,
        key == Key::Down || key == Key::Char('j'),
        a.active_pane == ActivePane::Library || a.active_pane == ActivePane::Downloader,
        key_post(a, b, key, false, act),
    ensures
        ({
            let (sel, len) = if a.active_pane == ActivePane::Library {
                (a.selected_book_index, a.listing_len())
            } else {
                (a.selected_online_index, a.online_books@.len())
            };
            let moved: Option<usize> = if len == 0 {
                None
            } else {
                match sel {
                    Some(i) => if i + 1 < len { Some((i + 1) as usize) } else { Some(0usize) },
                    None => Some(0usize),
                }
            };
            if a.active_pane == ActivePane::Library {
                b == (App { selected_book_index: moved, ..a })
            } else {
                b == (App { selected_online_index: moved, ..a })
            }
        }),
{
}

/// In normal mode, Up or `k` moves the selection of the focused list one entry up: from entry
/// `i` to `i - 1`, from the first entry to the last, from no selection to the first; an empty
/// list has no selection. Nothing else changes.
pub proof fn law_up_key_moves_selection_up(a: App, b: App, key: Key, act: crate::keys::Action)
    requires
        a.mode == AppMode::Normal,
        !a.show_help,
        key == Key::Up || key == Key::Char('k'),
        a.active_pane == ActivePane::Library || a.active_pane == ActivePane::Downloader,
        key_post(a, b, key, false, act),
    ensures
        ({
            let (sel, len) = if a.active_pane == ActivePane::Library {
                (a.selected_book_index, a.listing_len())
            } else {
                (a.selected_online_index, a.online_books@.len())
            };
            let moved: Option<usize> = if len == 0 {
                None
            } else {
                match sel {
                    Some(i) => if i > 0 { Some((i - 1) as usize) } else { Some((len - 1) as usize) },
                    None => Some(0usize),
                }
            };
            if a.active_pane == ActivePane::Library {
                b == (App { selected_book_index: moved, ..a })
            } else {
                b == (App { selected_online_index: moved, ..a })
            }
        }),
{
}

/// In the catalogue results, Down followed by Up gives back the state one started from when a
/// result was selected.
pub proof fn law_downloader_down_up(a: App, b: App, c: App, act1: crate::keys::Action, act2: crate::keys::Action)
    requires
        a.mode == AppMode::Normal,
        !a.show_help,
        a.active_pane == ActivePane::Downloader,
        a.selected_online_index matches Some(i) && i < a.online_books@.len(),
        key_post(a, b, Key::Down, false, act1),
        key_post(b, c, Key::Up, false, act2),
    ensures
        c == a,
{
    vstd::std_specs::vec::axiom_spec_len(&a.online_books);
}

proof fn lemma_first_with_id(books: Seq<Book>, id: Seq<char>, i: int)
    requires
        0 <= i,
    ensures
        first_with_id(books, id, i) matches Some(k) ==> i <= k < books.len() && books[k].id@ == id
            && forall|j: int| i <= j < k ==> (#[trigger] books[j]).id@ != id,
        first_with_id(books, id, i) is None ==> forall|j: int| i <= j < books.len() ==> (#[trigger] books[j]).id@ != id,
    decreases books.len() - i,
{
    if i < books.len() {
        lemma_first_with_id(books, id, i + 1);
    }
}

/// Leaving the reader with Tab copies the open book's reading state (chapter, position,
/// bookmarks, time spent, time of last reading) into the first library entry whose id is the
/// open book's id, keeping that entry's other fields; every other entry is left as it was, and
/// with no entry of that id the library is unchanged.
pub proof fn law_leaving_reader_syncs_entry_with_same_id(old: App, new: App)
    requires
        old.active_pane == ActivePane::Reader,
        old.current_book is Some,
        pane_toggled(old, new),
    ensures
        new.active_pane == ActivePane::Library,
        new.books@.len() == old.books@.len(),
        forall|k: int| 0 <= k < old.books@.len() ==> {
            let cur = old.current_book->0;
            if old.books@[k].id@ == cur.id@ && forall|j: int| 0 <= j < k ==> (#[trigger] old.books@[j]).id@ != cur.id@ {
                &&& same_reading_state(#[trigger] new.books@[k], cur)
                &&& new.books@[k].id == old.books@[k].id
                &&& new.books@[k].title == old.books@[k].title
                &&& new.books@[k].path == old.books@[k].path
                &&& new.books@[k].category == old.books@[k].category
                &&& new.books@[k].chapters == old.books@[k].chapters
            } else {
                new.books@[k] == old.books@[k]
            }
        },
{
    let cur = old.current_book->0;
    lemma_first_with_id(old.books@, cur.id@, 0);
    assert forall|k: int| 0 <= k < old.books@.len() implies {
        if old.books@[k].id@ == cur.id@ && forall|j: int| 0 <= j < k ==> (#[trigger] old.books@[j]).id@ != cur.id@ {
            &&& same_reading_state(#[trigger] new.books@[k], cur)
            &&& new.books@[k].id == old.books@[k].id
            &&& new.books@[k].title == old.books@[k].title
            &&& new.books@[k].path == old.books@[k].path
            &&& new.books@[k].category == old.books@[k].category
            &&& new.books@[k].chapters == old.books@[k].chapters
        } else {
            new.books@[k] == old.books@[k]
        }
    } by {
        match first_with_id(old.books@, cur.id@, 0) {
            Some(f) => {
                if f != k {
                    assert(new.books@[k] == old.books@[k]);
                    if old.books@[k].id@ == cur.id@ {
                        if k < f {
                        } else {
                            assert(old.books@[f].id@ == cur.id@);
                        }
                    }
                } else {
                    assert(synced(old.books@[k], new.books@[k], cur));
                }
            },
            None => {
                assert(new.books@[k] == old.books@[k]);
            },
        }
    }
}

} // verus!
