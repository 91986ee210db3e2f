//! Books as the reader holds them: metadata, chapters and reading state.

use vstd::prelude::*;

verus! {

/// A saved reading position.
pub struct Bookmark {
    pub position: usize,
    pub timestamp: String,
    pub note: Option<String>,
}

/// One chapter of a book: its heading and its full text.
pub struct Chapter {
    pub title: String,
    pub content: String,
}

/// A book in the library, with its reading state.
///
/// `current_chapter` indexes `chapters`; `current_position` counts lines from the start of
/// that chapter.
pub struct Book {
    pub id: String,
    pub title: String,
    pub path: String,
    pub category: Option<String>,
    pub chapters: Vec<Chapter>,
    pub current_chapter: usize,
    pub current_position: usize,
    pub bookmarks: Vec<Bookmark>,
    pub time_spent_secs: u64,
    pub last_read: String,
}

/// A book offered by the online catalogue.
pub struct OnlineBook {
    pub id: u64,
    pub title: String,
    pub authors: Vec<String>,
    pub epub: Option<String>,
}

/// The characters of an optional string; `None` stays `None`.
pub open spec fn opt_view(s: Option<String>) -> Option<Seq<char>> {
    match s {
        Some(t) => Some(t@),
        None => None,
    }
}

/// Two bookmarks that hold the same data.
pub open spec fn same_bookmark(a: Bookmark, b: Bookmark) -> bool {
    &&& a.position == b.position
    &&& a.timestamp@ == b.timestamp@
    &&& opt_view(a.note) == opt_view(b.note)
}

/// Two bookmark lists that hold the same bookmarks in the same order.
pub open spec fn same_bookmarks(a: Seq<Bookmark>, b: Seq<Bookmark>) -> bool {
    a.len() == b.len() && forall|i: int| 0 <= i < a.len() ==> same_bookmark(#[trigger] a[i], b[i])
}

/// Two chapter lists with the same headings and texts in the same order.
pub open spec fn same_chapters(a: Seq<Chapter>, b: Seq<Chapter>) -> bool {
    a.len() == b.len() && forall|i: int|
        0 <= i < a.len() ==> (#[trigger] a[i]).title@ == b[i].title@ && a[i].content@ == b[i].content@
}

/// The reading state of a book: where the reader is, the bookmarks, the time spent and when it
/// was last read.
pub open spec fn same_reading_state(a: Book, b: Book) -> bool {
    &&& a.current_chapter == b.current_chapter
    &&& a.current_position == b.current_position
    &&& same_bookmarks(a.bookmarks@, b.bookmarks@)
    &&& a.time_spent_secs == b.time_spent_secs
    &&& a.last_read@ == b.last_read@
}

/// Two books that hold the same data.
pub open spec fn same_book(a: Book, b: Book) -> bool {
    &&& a.id@ == b.id@
    &&& a.title@ == b.title@
    &&& a.path@ == b.path@
    &&& opt_view(a.category) == opt_view(b.category)
    &&& same_chapters(a.chapters@, b.chapters@)
    &&& same_reading_state(a, b)
}

/// A copy of an optional string.
pub fn copy_opt_string(s: &Option<String>) -> (r: Option<String>)
    ensures
        opt_view(r) == opt_view(*s),
{
    match s {
        Some(t) => Some(t.clone()),
        None => None,
    }
}

impl Bookmark {
    /// A copy of this bookmark.
    pub fn copy(&self) -> (r: Bookmark)
        ensures
            same_bookmark(r, *self),
    {
        Bookmark {
            position: self.position,
            timestamp: self.timestamp.clone(),
            note: copy_opt_string(&self.note),
        }
    }
}

/// A copy of a bookmark list.
pub fn copy_bookmarks(v: &Vec<Bookmark>) -> (r: Vec<Bookmark>)
    ensures
        same_bookmarks(r@, v@),
{
    let mut r: Vec<Bookmark> = Vec::new();
    for i in 0..v.len()
        invariant
            r@.len() == i,
            forall|k: int| 0 <= k < i ==> same_bookmark(#[trigger] r@[k], v@[k]),
    {
        r.push(v[i].copy());
    }
    r
}

/// A copy of a chapter list.
pub fn copy_chapters(v: &Vec<Chapter>) -> (r: Vec<Chapter>)
    ensures
        same_chapters(r@, v@),
{
    let mut r: Vec<Chapter> = Vec::new();
    for i in 0..v.len()
        invariant
            r@.len() == i,
            forall|k: int|
                0 <= k < i ==> (#[trigger] r@[k]).title@ == v@[k].title@ && r@[k].content@
                    == v@[k].content@,
    {
        r.push(Chapter { title: v[i].title.clone(), content: v[i].content.clone() });
    }
    r
}

impl Book {
    /// A copy of this book.
    pub fn copy(&self) -> (r: Book)
        ensures
            same_book(r, *self),
    {
        Book {
            id: self.id.clone(),
            title: self.title.clone(),
            path: self.path.clone(),
            category: copy_opt_string(&self.category),
            chapters: copy_chapters(&self.chapters),
            current_chapter: self.current_chapter,
            current_position: self.current_position,
            bookmarks: copy_bookmarks(&self.bookmarks),
            time_spent_secs: self.time_spent_secs,
            last_read: self.last_read.clone(),
        }
    }
}

impl OnlineBook {
    /// Where the EPUB edition of this book can be downloaded, if the catalogue lists one.
    pub fn epub_url(&self) -> (r: Option<String>)
        ensures
            opt_view(r) == opt_view(self.epub),
    {
        copy_opt_string(&self.epub)
    }
}

} // verus!
