//! The command line: parsing, completion and the effect of each command.

use vstd::prelude::*;
use crate::app::{is_listing, lemma_listing_unique, ActivePane, App, AppMode, Theme};
use crate::model::{opt_view, Book};
use crate::text::{
    chars_eq_str, chars_of, concat_chars, contains, contains_exec, index_of, index_of_exec,
    lemma_index_of_from, lowercase, replace_all, replace_all_exec, slice_chars, starts_with,
    starts_with_exec, string_of, strip_prefixes, strip_prefixes_exec, to_lowercase, trim,
    trim_exec, trim_start, trim_start_exec, words, split_words,
};

verus! {

broadcast use vstd::string::group_string_axioms;

/// The category a book is listed under: its own, or `uncategorized`.
pub open spec fn category_name(b: Book) -> Seq<char> {
    match b.category {
        Some(c) => c@,
        None => "uncategorized"@,
    }
}

/// How commands name a book: `category/title`.
pub open spec fn display_path(b: Book) -> Seq<char> {
    category_name(b) + "/"@ + b.title@
}

/// A book is named by `path`, ignoring case.
pub open spec fn path_matches(b: Book, path: Seq<char>) -> bool {
    lowercase(display_path(b)) == lowercase(path)
}

/// The first book from index `i` on that `path` names.
pub open spec fn first_by_path(books: Seq<Book>, path: Seq<char>, i: int) -> Option<int>
    decreases books.len() - i,
{
    if i < 0 || i >= books.len() {
        None
    } else if path_matches(books[i], path) {
        Some(i)
    } else {
        first_by_path(books, path, i + 1)
    }
}

/// A quoted book name after the command word `cmd` at the start of `buf`: the text up to the
/// closing quote, and what follows it with surrounding whitespace removed.
pub open spec fn book_arg(buf: Seq<char>, cmd: Seq<char>) -> Option<(Seq<char>, Seq<char>)> {
    let rest = trim_start(strip_prefixes(buf, cmd));
    if rest.len() > 0 && rest[0] == '"' {
        match index_of(rest.skip(1), '"') {
            Some(k) => Some((trim(rest.skip(k + 2)), rest.subrange(1, k + 1))),
            None => None,
        }
    } else {
        None
    }
}

/// The text before the first space of `s`, or all of it (the first piece of `splitn(2, ' ')`).
pub open spec fn first_field(s: Seq<char>) -> Seq<char> {
    match index_of(s, ' ') {
        Some(k) => s.take(k),
        None => s,
    }
}

/// The text after the first space of `s`, if it has one (the second piece of `splitn(2, ' ')`).
pub open spec fn second_field(s: Seq<char>) -> Option<Seq<char>> {
    match index_of(s, ' ') {
        Some(k) => Some(s.skip(k + 1)),
        None => None,
    }
}

/// The completion offered for a book: a `delete` or a `move` command naming it.
pub open spec fn suggestion_for(b: Book, delete: bool) -> Seq<char> {
    if delete {
        "delete \""@ + display_path(b) + "\""@
    } else {
        "move \""@ + display_path(b) + "\" <new_category>"@
    }
}

/// Completions for the first `n` books: one for each whose lower-cased `category/title`
/// contains `arg`, in library order.
pub open spec fn suggestions_upto(books: Seq<Book>, delete: bool, arg: Seq<char>, n: int) -> Seq<Seq<char>>
    decreases n,
{
    if n <= 0 {
        Seq::empty()
    } else if contains(lowercase(display_path(books[n - 1])), arg) {
        suggestions_upto(books, delete, arg, n - 1).push(suggestion_for(books[n - 1], delete))
    } else {
        suggestions_upto(books, delete, arg, n - 1)
    }
}

/// The command line that accepting a completion leaves: a `move` completion loses its
/// `<new_category>` placeholder.
pub open spec fn completed(s: Seq<char>) -> Seq<char> {
    if starts_with(s, "move"@) {
        replace_all(s, " <new_category>"@, " "@)
    } else {
        s
    }
}

/// The characters of each string.
pub open spec fn string_views(v: Seq<String>) -> Seq<Seq<char>> {
    v.map_values(|s: String| s@)
}

/// What is left to do outside the library to finish a command: file-system work on a path,
/// a category or a book, or nothing.
pub enum CommandRequest {
    Done,
    Import { path: String },
    CreateCategory { name: String },
    Delete { id: String, path: String },
    Move { id: String, path: String, category: String },
}

/// `new` is `old` with `msg` as the message.
pub open spec fn reported(old: App, new: App, msg: Seq<char>) -> bool {
    &&& new == (App { error_message: new.error_message, ..old })
    &&& new.error_message matches Some(m) && m@ == msg
}

/// The book that a `delete` command names: the quoted `category/title` after the command,
/// else the selected book of the library list.
pub open spec fn delete_target(app: App) -> Option<int> {
    match book_arg(app.command_buffer@, "delete"@) {
        Some((_, path)) => first_by_path(app.books@, path, 0),
        None => selected_listed(app),
    }
}

/// The book that a `move` command names and the category to move it to: the quoted
/// `category/title` and the rest of the line, else the selected book and the second word.
pub open spec fn move_target(app: App) -> (Option<int>, Seq<char>) {
    let parts = words(trim(app.command_buffer@));
    match book_arg(app.command_buffer@, "move"@) {
        Some((rem, path)) => (first_by_path(app.books@, path, 0), rem),
        None => match app.selected_book_index {
            Some(_) => (selected_listed(app), if parts.len() > 1 { parts[1] } else { Seq::empty() }),
            None => (None, Seq::empty()),
        },
    }
}

/// An `import` command with an argument has a space to split the path off at (a command whose
/// words are separated by other whitespace only is not accepted).
pub open spec fn import_has_space(app: App) -> bool {
    let parts = words(trim(app.command_buffer@));
    parts.len() > 1 && lowercase(parts[0]) == "import"@ ==> index_of(trim(app.command_buffer@), ' ') is Some
}

/// The effect of a command line with at least one word, apart from resetting the mode and
/// the command line.
pub open spec fn command_effect(old: App, new: App, req: CommandRequest) -> bool {
    let parts = words(trim(old.command_buffer@));
    let name = lowercase(parts[0]);
    if name == "q"@ || name == "quit"@ || name == "exit"@ {
        new == (App { should_quit: true, ..old }) && req is Done
    } else if name == "dl"@ || name == "downloader"@ {
        new == (App { active_pane: ActivePane::Downloader, ..old }) && req is Done
    } else if name == "import"@ {
        if parts.len() > 1 {
            new == old && (req matches CommandRequest::Import { path } && path@ == second_field(
                trim(old.command_buffer@),
            )->0)
        } else {
            reported(old, new, "Usage: :import /path/to/book.epub"@) && req is Done
        }
    } else if name == "create"@ || name == "mkdir"@ || name == "category"@ {
        if parts.len() > 1 {
            new == old && (req matches CommandRequest::CreateCategory { name } && name@ == parts[1])
        } else {
            reported(old, new, "Usage: :create <category_name>"@) && req is Done
        }
    } else if name == "delete"@ {
        match delete_target(old) {
            Some(j) => new == old && (req matches CommandRequest::Delete { id, path } && id@
                == old.books@[j].id@ && path@ == old.books@[j].path@),
            None => reported(old, new, "No book selected or found"@) && req is Done,
        }
    } else if name == "move"@ {
        match move_target(old).0 {
            Some(j) => if move_target(old).1.len() > 0 {
                new == old && (req matches CommandRequest::Move { id, path, category } && id@
                    == old.books@[j].id@ && path@ == old.books@[j].path@ && category@ == move_target(old).1)
            } else {
                reported(old, new, "Usage: :move [\"category/title\"] <category>"@) && req is Done
            },
            None => reported(old, new, "No book selected or found"@) && req is Done,
        }
    } else if name == "theme"@ {
        &&& req is Done
        &&& if parts.len() > 1 {
            if parts[1] == "light"@ {
                new == (App { theme: Theme::Light, ..old })
            } else if parts[1] == "dark"@ {
                new == (App { theme: Theme::Dark, ..old })
            } else {
                reported(old, new, "Invalid theme. Use 'light' or 'dark'"@)
            }
        } else {
            new == (App { theme: App::flipped(old.theme), ..old })
        }
    } else {
        reported(old, new, "Unknown command: "@ + parts[0]) && req is Done
    }
}

/// What [`first_by_path`] finds is a book that the path names.
pub proof fn lemma_first_by_path(books: Seq<Book>, path: Seq<char>, i: int)
    requires
        0 <= i,
    ensures
        first_by_path(books, path, i) matches Some(j) ==> i <= j < books.len() && path_matches(books[j], path),
    decreases books.len() - i,
{
    if i < books.len() && !path_matches(books[i], path) {
        lemma_first_by_path(books, path, i + 1);
    }
}

/// What became of an `import` before or after the file was copied and read.
pub enum ImportOutcome {
    Missing,
    NoExtension,
    Unsupported,
    CopyFailed(String),
    ParseFailed(String),
    Loaded(Book),
}

/// The books of `books` whose id is not `id`, in order.
pub open spec fn books_without(books: Seq<Book>, id: Seq<char>) -> Seq<Book>
    decreases books.len(),
{
    if books.len() == 0 {
        Seq::empty()
    } else if books[0].id@ == id {
        books_without(books.drop_first(), id)
    } else {
        seq![books[0]] + books_without(books.drop_first(), id)
    }
}

/// `new` is `old` with its path and category set when its id is `id`, unchanged otherwise.
pub open spec fn moved_book(old: Book, new: Book, id: Seq<char>, path: Seq<char>, category: Seq<char>) -> bool {
    if old.id@ == id {
        &&& new == (Book { path: new.path, category: new.category, ..old })
        &&& new.path@ == path
        &&& opt_view(new.category) == Some(category)
    } else {
        new == old
    }
}

/// Vets a path given to `import`: a file with the extension `epub` or `txt` is
/// accepted (`None`); otherwise the outcome says why not.
pub fn import_check(is_file: bool, extension: Option<&str>) -> (r: Option<ImportOutcome>)
    ensures
        !is_file ==> r matches Some(ImportOutcome::Missing),
        is_file && extension is None ==> r matches Some(ImportOutcome::NoExtension),
        is_file ==> (extension matches Some(e) ==> if e@ == "epub"@ || e@ == "txt"@ {
            r is None
        } else {
            r matches Some(ImportOutcome::Unsupported)
        }),
{
    if !is_file {
        return Some(ImportOutcome::Missing);
    }
    match extension {
        None => Some(ImportOutcome::NoExtension),
        Some(e) => {
            let v = chars_of(e);
            if chars_eq_str(&v, "epub") || chars_eq_str(&v, "txt") {
                None
            } else {
                Some(ImportOutcome::Unsupported)
            }
        },
    }
}

/// What offering completions does (see [`App::update_suggestions`]).
pub open spec fn suggestions_post(old: App, new: App) -> bool {
    &&& new == (App {
        command_suggestions: new.command_suggestions,
        suggestion_index: None,
        ..old
    })
    &&& ({
        let buf = old.command_buffer@;
        let cmd = lowercase(first_field(buf));
        let arg = match second_field(buf) {
            Some(a) => lowercase(a),
            None => Seq::<char>::empty(),
        };
        if cmd == "delete"@ || cmd == "move"@ {
            string_views(new.command_suggestions@) == suggestions_upto(
                old.books@,
                cmd == "delete"@,
                arg,
                old.books@.len() as int,
            )
        } else {
            new.command_suggestions@.len() == 0
        }
    })
}

/// What accepting a completion does (see [`App::apply_suggestion`]).
pub open spec fn suggestion_applied(old: App, new: App) -> bool {
    ({
        let len = old.command_suggestions@.len();
        let chosen: Option<int> = match old.suggestion_index {
            Some(i) => if i < len { Some(i as int) } else { None },
            None => if len > 0 { Some(0int) } else { None },
        };
        match chosen {
            None => new == old,
            Some(k) => {
                &&& new == (App {
                    command_buffer: new.command_buffer,
                    command_suggestions: new.command_suggestions,
                    suggestion_index: None,
                    ..old
                })
                &&& new.command_suggestions@.len() == 0
                &&& new.command_buffer@ == completed(old.command_suggestions@[k]@)
            },
        }
    })
}

/// What running the command line does (see [`App::execute_command`]).
pub open spec fn command_post(old: App, new: App, req: CommandRequest) -> bool {
    &&& new.mode == AppMode::Normal
    &&& new.command_buffer@.len() == 0
    &&& words(trim(old.command_buffer@)).len() == 0 ==> {
        &&& new == (App {
            mode: AppMode::Normal,
            command_buffer: new.command_buffer,
            command_suggestions: new.command_suggestions,
            ..old
        })
        &&& new.command_suggestions@.len() == 0
        &&& req is Done
    }
    &&& words(trim(old.command_buffer@)).len() > 0 ==> command_effect(
        old,
        App { mode: old.mode, command_buffer: old.command_buffer, ..new },
        req,
    )
}

/// The library list of `app`.
pub open spec fn listing_of(app: App) -> Seq<usize> {
    choose|r: Seq<usize>| is_listing(app.books@, app.library_filter@, app.library_sort, r)
}

/// The book that the library selection points at, as an index into `books`.
pub open spec fn selected_listed(app: App) -> Option<int> {
    match app.selected_book_index {
        Some(i) => if i < listing_of(app).len() {
            Some(listing_of(app)[i as int] as int)
        } else {
            None
        },
        None => None,
    }
}

/// `category/title` of a book.
pub fn display_path_exec(b: &Book) -> (r: Vec<char>)
    ensures
        r@ == display_path(*b),
{
    let cat = match &b.category {
        Some(c) => chars_of(c.as_str()),
        None => chars_of("uncategorized"),
    };
    let slash = chars_of("/");
    let title = chars_of(b.title.as_str());
    let a = concat_chars(&cat, &slash);
    concat_chars(&a, &title)
}

fn suggestion_exec(b: &Book, delete: bool) -> (r: Vec<char>)
    ensures
        r@ == suggestion_for(*b, delete),
{
    let d = display_path_exec(b);
    if delete {
        let a = concat_chars(&chars_of("delete \""), &d);
        concat_chars(&a, &chars_of("\""))
    } else {
        let a = concat_chars(&chars_of("move \""), &d);
        concat_chars(&a, &chars_of("\" <new_category>"))
    }
}

fn completed_exec(s: &String) -> (r: String)
    ensures
        r@ == completed(s@),
{
    let v = chars_of(s.as_str());
    if starts_with_exec(&v, &chars_of("move")) {
        proof {
            reveal_strlit(" <new_category>");
        }
        let out = replace_all_exec(&v, &chars_of(" <new_category>"), &chars_of(" "));
        string_of(&out)
    } else {
        s.clone()
    }
}

impl App {
    /// Offers completions for the command line: when its first word, lower-cased, is `delete`
    /// or `move`, one for each book whose lower-cased `category/title` contains the lower-cased
    /// rest of the line; no completion otherwise. The completion selection is cleared.
    pub fn update_suggestions(&mut self)
        ensures
            suggestions_post(*old(self), *final(self)),
    {
        self.command_suggestions.clear();
        self.suggestion_index = None;
        let buf = chars_of(self.command_buffer.as_str());
        proof {
            lemma_index_of_from(buf@, ' ', 0);
        }
        let (first, second) = match index_of_exec(&buf, ' ') {
            Some(k) => (slice_chars(&buf, 0, k), Some(slice_chars(&buf, k + 1, buf.len()))),
            None => (slice_chars(&buf, 0, buf.len()), None),
        };
        proof {
            assert(first@ =~= first_field(buf@));
        }
        let cmd = to_lowercase(&first);
        let is_delete = chars_eq_str(&cmd, "delete");
        let is_move = chars_eq_str(&cmd, "move");
        if is_delete || is_move {
            let arg = match &second {
                Some(a) => {
                    proof {
                        assert(a@ =~= second_field(buf@)->0);
                    }
                    to_lowercase(a)
                },
                None => Vec::new(),
            };
            let ghost books = self.books@;
            let ghost snap = *self;
            let n = self.books.len();
            for i in 0..n
                invariant
                    *self == (App { command_suggestions: self.command_suggestions, ..snap }),
                    n == books.len(),
                    books == self.books@,
                    string_views(self.command_suggestions@) == suggestions_upto(books, is_delete, arg@, i as int),
            {
                let d = display_path_exec(&self.books[i]);
                let dl = to_lowercase(&d);
                if contains_exec(&dl, &arg) {
                    let sug = suggestion_exec(&self.books[i], is_delete);
                    let ghost before = string_views(self.command_suggestions@);
                    self.command_suggestions.push(string_of(&sug));
                    proof {
                        assert(string_views(self.command_suggestions@) =~= before.push(sug@));
                    }
                } else {
                }
            }
        } else {
            proof {
                assert(self.command_suggestions@.len() == 0);
            }
        }
    }

    /// Accepts the selected completion, or the first one when none is selected: it becomes
    /// the command line (see [`completed`]) and the completions are cleared. Nothing changes
    /// when there is no such completion.
    pub fn apply_suggestion(&mut self)
        ensures
            suggestion_applied(*old(self), *final(self)),
    {
        let k: usize = match self.suggestion_index {
            Some(i) => if i < self.command_suggestions.len() { i } else { return; },
            None => if self.command_suggestions.len() > 0 { 0 } else { return; },
        };
        let next = completed_exec(&self.command_suggestions[k]);
        self.command_buffer = next;
        self.command_suggestions.clear();
        self.suggestion_index = None;
    }

    /// The index of the first book that `path` names, ignoring case.
    pub fn find_by_path(&self, path: &Vec<char>) -> (r: Option<usize>)
        ensures
            match first_by_path(self.books@, path@, 0) {
                Some(j) => 0 <= j < self.books.len() && r == Some(j as usize),
                None => r is None,
            },
    {
        proof {
            lemma_first_by_path(self.books@, path@, 0);
        }
        let p = to_lowercase(path);
        let mut i: usize = 0;
        while i < self.books.len()
            invariant
                i <= self.books@.len(),
                p@ == lowercase(path@),
                first_by_path(self.books@, path@, 0) == first_by_path(self.books@, path@, i as int),
            decreases self.books@.len() - i,
        {
            let d = display_path_exec(&self.books[i]);
            let dl = to_lowercase(&d);
            if crate::text::chars_eq(&dl, &p) {
                return Some(i);
            }
            i = i + 1;
        }
        None
    }

    /// Reads a quoted book name after the command word `cmd` in `buf`: the remainder of the
    /// line after the closing quote, trimmed, and the name.
    pub fn parse_book_arg(&self, buf: &String, cmd: &str) -> (r: Option<(String, String)>)
        ensures
            match book_arg(buf@, cmd@) {
                Some((rem, path)) => r matches Some((a, b)) && a@ == rem && b@ == path,
                None => r is None,
            },
    {
        let b = chars_of(buf.as_str());
        let c = chars_of(cmd);
        let stripped = strip_prefixes_exec(&b, &c);
        let rest = trim_start_exec(&stripped);
        if rest.len() > 0 && rest[0] == '"' {
            let after = slice_chars(&rest, 1, rest.len());
            proof {
                assert(after@ =~= rest@.skip(1));
                lemma_index_of_from(after@, '"', 0);
            }
            match index_of_exec(&after, '"') {
                Some(k) => {
                    let path = slice_chars(&rest, 1, k + 1);
                    let tail = slice_chars(&rest, k + 2, rest.len());
                    let rem = trim_exec(&tail);
                    proof {
                        assert(tail@ =~= rest@.skip(k + 2));
                    }
                    Some((string_of(&rem), string_of(&path)))
                },
                None => None,
            }
        } else {
            None
        }
    }

    /// The book that the library selection points at, as an index into `books`.
    pub fn selected_listed_book(&self) -> (r: Option<usize>)
        ensures
            match selected_listed(*self) {
                Some(j) => 0 <= j < self.books.len() && r == Some(j as usize),
                None => r is None,
            },
    {
        let idx = self.filtered_indices();
        proof {
            lemma_listing_unique(self.books@, self.library_filter@, self.library_sort, idx@, listing_of(*self));
        }
        match self.selected_book_index {
            Some(i) => if i < idx.len() {
                Some(idx[i])
            } else {
                None
            },
            None => None,
        }
    }

    fn report(&mut self, msg: Vec<char>)
        ensures
            reported(*old(self), *final(self), msg@),
    {
        self.error_message = Some(string_of(&msg));
    }

    fn delete_request(&mut self) -> (req: CommandRequest)
        ensures
            match delete_target(*old(self)) {
                Some(j) => *final(self) == *old(self) && (req matches CommandRequest::Delete { id, path } && id@
                    == old(self).books@[j].id@ && path@ == old(self).books@[j].path@),
                None => reported(*old(self), *final(self), "No book selected or found"@) && req is Done,
            },
    {
        let target = match self.parse_book_arg(&self.command_buffer, "delete") {
            Some((_, path)) => {
                let r = self.find_by_path(&chars_of(path.as_str()));
                r
            },
            None => {
                let r = self.selected_listed_book();
                r
            },
        };
        match target {
            Some(j) => {
                let id = self.books[j].id.clone();
                CommandRequest::Delete { id: id, path: self.books[j].path.clone() }
            },
            None => {
                self.report(chars_of("No book selected or found"));
                CommandRequest::Done
            },
        }
    }

    fn move_request(&mut self, parts: &Vec<Vec<char>>) -> (req: CommandRequest)
        requires
            parts@.len() == words(trim(old(self).command_buffer@)).len(),
            forall|k: int| 0 <= k < parts@.len() ==> (#[trigger] parts@[k])@ == words(trim(old(self).command_buffer@))[k],
        ensures
            match move_target(*old(self)).0 {
                Some(j) => if move_target(*old(self)).1.len() > 0 {
                    *final(self) == *old(self) && (req matches CommandRequest::Move { id, path, category } && id@
                        == old(self).books@[j].id@ && path@ == old(self).books@[j].path@ && category@
                        == move_target(*old(self)).1)
                } else {
                    reported(*old(self), *final(self), "Usage: :move [\"category/title\"] <category>"@) && req is Done
                },
                None => reported(*old(self), *final(self), "No book selected or found"@) && req is Done,
            },
    {
        let (target, cat): (Option<usize>, Vec<char>) = match self.parse_book_arg(&self.command_buffer, "move") {
            Some((rem, path)) => (self.find_by_path(&chars_of(path.as_str())), chars_of(rem.as_str())),
            None => match self.selected_book_index {
                Some(_) => (
                    self.selected_listed_book(),
                    if parts.len() > 1 { slice_chars(&parts[1], 0, parts[1].len()) } else { Vec::new() },
                ),
                None => (None, Vec::new()),
            },
        };
        proof {
            if parts@.len() > 1 {
                assert(parts@[1]@.subrange(0, parts@[1]@.len() as int) =~= parts@[1]@);
            }
        }
        match target {
            Some(j) => {
                if cat.len() > 0 {
                    CommandRequest::Move {
                        id: self.books[j].id.clone(),
                        path: self.books[j].path.clone(),
                        category: string_of(&cat),
                    }
                } else {
                    self.report(chars_of("Usage: :move [\"category/title\"] <category>"));
                    CommandRequest::Done
                }
            },
            None => {
                self.report(chars_of("No book selected or found"));
                CommandRequest::Done
            },
        }
    }

    /// Whether the command line is an `import` with an argument but without a space to split
    /// the path off at; [`App::execute_command`] does not accept such a line.
    pub fn import_without_space(&self) -> (b: bool)
        ensures
            b == !import_has_space(*self),
    {
        let buf = chars_of(self.command_buffer.as_str());
        let t = trim_exec(&buf);
        let parts = split_words(&t);
        if parts.len() > 1 {
            let name = to_lowercase(&parts[0]);
            chars_eq_str(&name, "import") && index_of_exec(&t, ' ').is_none()
        } else {
            false
        }
    }

    #[verifier::rlimit(50)]
    fn run_command(&mut self, t: &Vec<char>, parts: &Vec<Vec<char>>) -> (req: CommandRequest)
        requires
            import_has_space(*old(self)),
            t@ == trim(old(self).command_buffer@),
            parts@.len() > 0,
            parts@.len() == words(trim(old(self).command_buffer@)).len(),
            forall|k: int| 0 <= k < parts@.len() ==> (#[trigger] parts@[k])@ == words(trim(old(self).command_buffer@))[k],
        ensures
            command_effect(*old(self), *final(self), req),
    {
        let name = to_lowercase(&parts[0]);
        if chars_eq_str(&name, "q") || chars_eq_str(&name, "quit") || chars_eq_str(&name, "exit") {
            self.should_quit = true;
            CommandRequest::Done
        } else if chars_eq_str(&name, "dl") || chars_eq_str(&name, "downloader") {
            self.active_pane = ActivePane::Downloader;
            CommandRequest::Done
        } else if chars_eq_str(&name, "import") {
            if parts.len() > 1 {
                proof {
                    lemma_index_of_from(t@, ' ', 0);
                }
                match index_of_exec(t, ' ') {
                    Some(k) => {
                        let path = slice_chars(t, k + 1, t.len());
                        CommandRequest::Import { path: string_of(&path) }
                    },
                    None => CommandRequest::Done,
                }
            } else {
                self.report(chars_of("Usage: :import /path/to/book.epub"));
                CommandRequest::Done
            }
        } else if chars_eq_str(&name, "create") || chars_eq_str(&name, "mkdir") || chars_eq_str(&name, "category") {
            if parts.len() > 1 {
                CommandRequest::CreateCategory { name: string_of(&parts[1]) }
            } else {
                self.report(chars_of("Usage: :create <category_name>"));
                CommandRequest::Done
            }
        } else if chars_eq_str(&name, "delete") {
            self.delete_request()
        } else if chars_eq_str(&name, "move") {
            self.move_request(parts)
        } else if chars_eq_str(&name, "theme") {
            if parts.len() > 1 {
                if chars_eq_str(&parts[1], "light") {
                    self.theme = Theme::Light;
                } else if chars_eq_str(&parts[1], "dark") {
                    self.theme = Theme::Dark;
                } else {
                    self.report(chars_of("Invalid theme. Use 'light' or 'dark'"));
                }
            } else {
                self.toggle_theme();
            }
            CommandRequest::Done
        } else {
            let msg = concat_chars(&chars_of("Unknown command: "), &parts[0]);
            self.report(msg);
            CommandRequest::Done
        }
    }

    /// Runs the command line as [`App::execute_command`] does when it accepts the line;
    /// an `import` line without a space to split the path off at is refused (`None`), and the
    /// state is left as it was.
    pub fn execute_command_checked(&mut self) -> (r: Option<CommandRequest>)
        ensures
            !import_has_space(*old(self)) ==> r is None && *final(self) == *old(self),
            import_has_space(*old(self)) ==> (r matches Some(req) && command_post(*old(self), *final(self), req)),
    {
        if self.import_without_space() {
            None
        } else {
            Some(self.execute_command())
        }
    }

    /// Runs the command line: quits, opens the downloader, switches the theme, or checks the
    /// arguments of a file-system command and hands it out as a [`CommandRequest`]; bad
    /// arguments and unknown commands are reported in the message. Afterwards the mode is
    /// normal and the command line is empty (an empty line also clears the completions).
    pub fn execute_command(&mut self) -> (req: CommandRequest)
        requires
            import_has_space(*old(self)),
        ensures
            command_post(*old(self), *final(self), req),
    {
        let buf = chars_of(self.command_buffer.as_str());
        let t = trim_exec(&buf);
        let parts = split_words(&t);
        if parts.len() == 0 {
            self.mode = AppMode::Normal;
            self.command_buffer = String::new();
            self.command_suggestions.clear();
            return CommandRequest::Done;
        }
        let ghost before = *self;
        let req = self.run_command(&t, &parts);
        let ghost after = *self;
        self.mode = AppMode::Normal;
        self.command_buffer = String::new();
        proof {
            assert(App { mode: before.mode, command_buffer: before.command_buffer, ..*self } == after);
        }
        req
    }

    /// Finishes an `import`: a loaded book joins the library, opens in the reader, and the
    /// message says so; every other outcome is reported in the message, except a path without
    /// an extension, which changes nothing.
    pub fn finish_import(&mut self, outcome: ImportOutcome)
        ensures
            match outcome {
                ImportOutcome::Missing => reported(*old(self), *final(self), "File not found"@),
                ImportOutcome::NoExtension => *final(self) == *old(self),
                ImportOutcome::Unsupported => reported(*old(self), *final(self), "Only .epub and .txt are supported"@),
                ImportOutcome::CopyFailed(e) => reported(*old(self), *final(self), "Failed to copy file: "@ + e@),
                ImportOutcome::ParseFailed(e) => reported(*old(self), *final(self), "Failed to parse book: "@ + e@),
                ImportOutcome::Loaded(book) => {
                    &&& *final(self) == (App {
                        books: final(self).books,
                        current_book: Some(book),
                        active_pane: ActivePane::Reader,
                        error_message: final(self).error_message,
                        ..*old(self)
                    })
                    &&& final(self).books@.len() == old(self).books@.len() + 1
                    &&& final(self).books@.drop_last() == old(self).books@
                    &&& crate::model::same_book(final(self).books@.last(), book)
                    &&& final(self).error_message matches Some(m) && m@ == "Book imported successfully!"@
                },
            },
    {
        match outcome {
            ImportOutcome::Missing => self.report(chars_of("File not found")),
            ImportOutcome::NoExtension => {},
            ImportOutcome::Unsupported => self.report(chars_of("Only .epub and .txt are supported")),
            ImportOutcome::CopyFailed(e) => {
                let m = concat_chars(&chars_of("Failed to copy file: "), &chars_of(e.as_str()));
                self.report(m);
            },
            ImportOutcome::ParseFailed(e) => {
                let m = concat_chars(&chars_of("Failed to parse book: "), &chars_of(e.as_str()));
                self.report(m);
            },
            ImportOutcome::Loaded(book) => {
                let ghost old_books = self.books@;
                self.books.push(book.copy());
                proof {
                    assert(self.books@.drop_last() =~= old_books);
                }
                self.current_book = Some(book);
                self.active_pane = ActivePane::Reader;
                self.error_message = Some(String::from_str("Book imported successfully!"));
            },
        }
    }

    /// Reports how creating a category directory went.
    pub fn finish_create(&mut self, name: &String, result: Result<(), String>)
        ensures
            match result {
                Ok(_) => reported(*old(self), *final(self), "Created category: "@ + name@),
                Err(e) => reported(*old(self), *final(self), "Failed to create category: "@ + e@),
            },
    {
        match result {
            Ok(_) => self.report(concat_chars(&chars_of("Created category: "), &chars_of(name.as_str()))),
            Err(e) => self.report(concat_chars(&chars_of("Failed to create category: "), &chars_of(e.as_str()))),
        }
    }

    /// Finishes a `delete`: once the file is gone, every book with that id leaves the library,
    /// an open book with that id is closed (back to the library pane), the selection moves to
    /// the top of the library (none when it is empty), and the message says so. A file that
    /// could not be removed is reported and nothing else changes.
    pub fn finish_delete(&mut self, id: &String, removed: bool)
        ensures
            !removed ==> reported(*old(self), *final(self), "Failed to delete file"@),
            removed ==> {
                let closes = old(self).current_book matches Some(b) && b.id@ == id@;
                &&& *final(self) == (App {
                    books: final(self).books,
                    current_book: if closes { None } else { old(self).current_book },
                    active_pane: if closes { ActivePane::Library } else { old(self).active_pane },
                    selected_book_index: if final(self).books@.len() == 0 { None } else { Some(0usize) },
                    error_message: final(self).error_message,
                    ..*old(self)
                })
                &&& final(self).books@ == books_without(old(self).books@, id@)
                &&& final(self).error_message matches Some(m) && m@ == "Book deleted"@
            },
    {
        if !removed {
            self.report(chars_of("Failed to delete file"));
            return;
        }
        let ghost old_books = self.books@;
        let mut i: usize = self.books.len();
        proof {
            assert(old_books.skip(i as int) =~= Seq::<Book>::empty());
            assert(old_books.take(i as int) =~= old_books);
        }
        let ghost snap = *self;
        while i > 0
            invariant
                *self == (App { books: self.books, ..snap }),
                i <= self.books@.len(),
                i <= old_books.len(),
                self.books@ == old_books.take(i as int) + books_without(old_books.skip(i as int), id@),
            decreases i,
        {
            i = i - 1;
            proof {
                assert(old_books.skip(i as int).drop_first() =~= old_books.skip(i + 1));
                assert(old_books.skip(i as int)[0] == old_books[i as int]);
                assert(old_books.take(i + 1) =~= old_books.take(i as int).push(old_books[i as int]));
            }
            if self.books[i].id == *id {
                let ghost before = self.books@;
                self.books.remove(i);
                proof {
                    assert(self.books@ =~= old_books.take(i as int) + books_without(old_books.skip(i as int), id@));
                }
            } else {
                proof {
                    assert(self.books@ =~= old_books.take(i as int) + books_without(old_books.skip(i as int), id@));
                }
            }
        }
        proof {
            assert(old_books.skip(0) =~= old_books);
            assert(self.books@ =~= books_without(old_books, id@));
        }
        let closes = match &self.current_book {
            Some(cb) => cb.id == *id,
            None => false,
        };
        if closes {
            self.current_book = None;
            self.active_pane = ActivePane::Library;
        }
        self.error_message = Some(String::from_str("Book deleted"));
        self.selected_book_index = if self.books.len() == 0 { None } else { Some(0) };
    }

    /// Finishes a `move`: once the file is in its new place, every book with that id, and the
    /// open book if it has that id, takes the new path and category, and the message says so.
    /// A file that could not be moved is reported and nothing else changes.
    pub fn finish_move(&mut self, id: &String, new_path: &String, category: &String, moved: bool)
        ensures
            !moved ==> reported(*old(self), *final(self), "Failed to move file"@),
            moved ==> {
                &&& *final(self) == (App {
                    books: final(self).books,
                    current_book: final(self).current_book,
                    error_message: final(self).error_message,
                    ..*old(self)
                })
                &&& final(self).books@.len() == old(self).books@.len()
                &&& forall|k: int| 0 <= k < old(self).books@.len() ==> moved_book(
                    #[trigger] old(self).books@[k],
                    final(self).books@[k],
                    id@,
                    new_path@,
                    category@,
                )
                &&& match old(self).current_book {
                    Some(b) => final(self).current_book matches Some(nb) && moved_book(b, nb, id@, new_path@, category@),
                    None => final(self).current_book is None,
                }
                &&& final(self).error_message matches Some(m) && m@ == "Book moved to category: "@ + category@
            },
    {
        if !moved {
            self.report(chars_of("Failed to move file"));
            return;
        }
        let ghost old_books = self.books@;
        let n = self.books.len();
        let ghost snap = *self;
        for k in 0..n
            invariant
                *self == (App { books: self.books, ..snap }),
                n == old_books.len(),
                self.books@.len() == n,
                forall|j: int| 0 <= j < k ==> moved_book(#[trigger] old_books[j], self.books@[j], id@, new_path@, category@),
                forall|j: int| k <= j < n ==> #[trigger] self.books@[j] == old_books[j],
        {
            if self.books[k].id == *id {
                self.books[k].path = new_path.clone();
                self.books[k].category = Some(category.clone());
            }
        }
        match &mut self.current_book {
            Some(cb) => {
                if cb.id == *id {
                    cb.path = new_path.clone();
                    cb.category = Some(category.clone());
                }
            },
            None => {},
        }
        let m = concat_chars(&chars_of("Book moved to category: "), &chars_of(category.as_str()));
        self.error_message = Some(string_of(&m));
    }
}

} // verus!
