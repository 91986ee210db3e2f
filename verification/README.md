# terminal-book-reader

A terminal e-book reader whose reading logic is a library with proved contracts.

- `src/` — the library:
  - `model.rs`: books, chapters, bookmarks, catalogue entries;
  - `app.rs`: the reader state, the filtered and sorted library list, list selection,
    in-chapter search, reading-time estimates, pane switching, preferences;
  - `command.rs`: the `:` command line — parsing, completion, and each command's effect,
    with file-system work handed out as requests and finished afterwards;
  - `events.rs`: typed searches, background results, opening a book with its saved reading
    state, the start-up selection, bookmarks;
  - `keys.rs`: every key press and mouse scroll as a step of a state machine that names the
    outside work left to do;
  - `layout.rs`: placement of centred pop-ups;
  - `paths.rs`: where the library directory, imported books and categories lie;
  - `text.rs`: the string operations the logic relies on, stated over `Seq<char>`;
  - `laws.rs`: properties that relate several operations;
  - `config.rs`: stored preferences.
- `app/` — the terminal program: terminal set-up, drawing, files, JSON, network and threads.
- `tests/` — tests of the library on concrete inputs.
