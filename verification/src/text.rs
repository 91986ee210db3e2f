//! Character-sequence operations on text, with their meaning stated over `Seq<char>`.

use vstd::prelude::*;

verus! {

broadcast use vstd::string::group_string_axioms;

/// The characters of `s`, in order.
pub fn chars_of(s: &str) -> (v: Vec<char>)
    ensures
        v@ == s@,
{
    let mut v: Vec<char> = Vec::new();
    for c in it: s.chars()
        invariant
            v@ == it.seq().take(it.index()),
    {
        v.push(c);
    }
    v
}


/// Appends one character: `String::push`.
#[verifier::external_body]
pub fn push_char(s: &mut String, c: char)
    ensures
        final(s)@ == old(s)@.push(c),
{
    s.push(c);
}

/// Removes the last character: `String::pop`, which returns it, or `None` for an empty
/// string, which it leaves as it is.
#[verifier::external_body]
pub fn pop_char(s: &mut String) -> (c: Option<char>)
    ensures
        old(s)@.len() == 0 ==> c is None && final(s)@ == old(s)@,
        old(s)@.len() > 0 ==> c == Some(old(s)@.last()) && final(s)@ == old(s)@.drop_last(),
{
    s.pop()
}

/// A `String` holding exactly the characters of `v`.
pub fn string_of(v: &Vec<char>) -> (s: String)
    ensures
        s@ == v@,
{
    let mut s = String::new();
    let mut i: usize = 0;
    while i < v.len()
        invariant
            i <= v.len(),
            s@ == v@.take(i as int),
        decreases v.len() - i,
    {
        push_char(&mut s, v[i]);
        i = i + 1;
        assert(v@.take(i as int) =~= v@.take(i - 1).push(v@[i - 1]));
    }
    assert(v@.take(v.len() as int) =~= v@);
    s
}

/// Whether `c` has the Unicode `White_Space` property, the set that `char::is_whitespace` tests.
pub open spec fn is_ws(c: char) -> bool {
    let u = c as u32;
    ||| 0x09 <= u <= 0x0d
    ||| u == 0x20
    ||| u == 0x85
    ||| u == 0xa0
    ||| u == 0x1680
    ||| 0x2000 <= u <= 0x200a
    ||| u == 0x2028
    ||| u == 0x2029
    ||| u == 0x202f
    ||| u == 0x205f
    ||| u == 0x3000
}

/// Executable form of [`is_ws`].
pub fn is_whitespace(c: char) -> (b: bool)
    ensures
        b == is_ws(c),
{
    let u = c as u32;
    (0x09 <= u && u <= 0x0d) || u == 0x20 || u == 0x85 || u == 0xa0 || u == 0x1680 || (0x2000 <= u
        && u <= 0x200a) || u == 0x2028 || u == 0x2029 || u == 0x202f || u == 0x205f || u == 0x3000
}

/// `p` occurs in `s` starting at position `i`.
pub open spec fn occurs_at(s: Seq<char>, p: Seq<char>, i: int) -> bool {
    0 <= i && i + p.len() <= s.len() && s.subrange(i, i + p.len()) == p
}

/// `p` is a substring of `s` (the meaning of `str::contains` with a string pattern).
pub open spec fn contains(s: Seq<char>, p: Seq<char>) -> bool {
    exists|i: int| occurs_at(s, p, i)
}

/// `s` begins with `p`.
pub open spec fn starts_with(s: Seq<char>, p: Seq<char>) -> bool {
    occurs_at(s, p, 0)
}

fn occurs_at_exec(s: &Vec<char>, p: &Vec<char>, i: usize) -> (b: bool)
    requires
        i + p.len() <= s.len(),
    ensures
        b == occurs_at(s@, p@, i as int),
{
    let mut j: usize = 0;
    while j < p.len()
        invariant
            j <= p.len(),
            i + p.len() <= s.len(),
            forall|k: int| 0 <= k < j ==> s@[i + k] == p@[k],
        decreases p.len() - j,
    {
        if s[i + j] != p[j] {
            assert(s@.subrange(i as int, i + p.len())[j as int] != p@[j as int]);
            return false;
        }
        j = j + 1;
    }
    assert(s@.subrange(i as int, i + p.len()) =~= p@);
    true
}

/// Substring test.
pub fn contains_exec(s: &Vec<char>, p: &Vec<char>) -> (b: bool)
    ensures
        b == contains(s@, p@),
{
    if p.len() > s.len() {
        return false;
    }
    let last: usize = s.len() - p.len();
    let mut i: usize = 0;
    loop
        invariant
            last == s.len() - p.len(),
            i <= last,
            forall|k: int| 0 <= k < i ==> !occurs_at(s@, p@, k),
        ensures
            forall|k: int| 0 <= k <= last ==> !occurs_at(s@, p@, k),
        decreases last - i,
    {
        if occurs_at_exec(s, p, i) {
            return true;
        }
        if i == last {
            break;
        }
        i = i + 1;
    }
    assert forall|k: int| !occurs_at(s@, p@, k) by {
        if 0 <= k && k + p.len() <= s.len() {
            assert(k <= last);
        }
    }
    false
}

/// Prefix test.
pub fn starts_with_exec(s: &Vec<char>, p: &Vec<char>) -> (b: bool)
    ensures
        b == starts_with(s@, p@),
{
    if p.len() > s.len() {
        false
    } else {
        occurs_at_exec(s, p, 0)
    }
}

/// Lexicographic order on character sequences, by code point: the order of `String`'s `Ord`,
/// since UTF-8 encoding preserves code point order.
pub open spec fn lex_lt(a: Seq<char>, b: Seq<char>) -> bool
    decreases a.len(),
{
    if b.len() == 0 {
        false
    } else if a.len() == 0 {
        true
    } else if a[0] != b[0] {
        (a[0] as u32) < (b[0] as u32)
    } else {
        lex_lt(a.drop_first(), b.drop_first())
    }
}


/// Lexicographic comparison: `a < b` in the order of [`lex_lt`].
pub fn lex_lt_exec(a: &Vec<char>, b: &Vec<char>) -> (r: bool)
    ensures
        r == lex_lt(a@, b@),
{
    let mut i: usize = 0;
    assert(a@.skip(0) =~= a@);
    assert(b@.skip(0) =~= b@);
    while i < a.len() && i < b.len()
        invariant
            i <= a.len(),
            i <= b.len(),
            forall|k: int| 0 <= k < i ==> a@[k] == b@[k],
            lex_lt(a@, b@) == lex_lt(a@.skip(i as int), b@.skip(i as int)),
        decreases a.len() - i,
    {
        if a[i] != b[i] {
            return (a[i] as u32) < (b[i] as u32);
        }
        assert(a@.skip(i as int).drop_first() =~= a@.skip(i + 1));
        assert(b@.skip(i as int).drop_first() =~= b@.skip(i + 1));
        i = i + 1;
    }
    i < b.len()
}

/// `lex_lt` never holds of equal sequences.
pub proof fn lemma_lex_irreflexive(a: Seq<char>)
    ensures
        !lex_lt(a, a),
    decreases a.len(),
{
    if a.len() > 0 {
        lemma_lex_irreflexive(a.drop_first());
    }
}

/// `lex_lt` is transitive.
pub proof fn lemma_lex_transitive(a: Seq<char>, b: Seq<char>, c: Seq<char>)
    requires
        lex_lt(a, b),
        lex_lt(b, c),
    ensures
        lex_lt(a, c),
    decreases a.len(),
{
    if a.len() > 0 && b.len() > 0 && c.len() > 0 && a[0] == b[0] && b[0] == c[0] {
        lemma_lex_transitive(a.drop_first(), b.drop_first(), c.drop_first());
    }
}

/// Two different sequences are ordered one way or the other by `lex_lt`.
pub proof fn lemma_lex_total(a: Seq<char>, b: Seq<char>)
    requires
        a != b,
    ensures
        lex_lt(a, b) || lex_lt(b, a),
    decreases a.len(),
{
    if a.len() > 0 && b.len() > 0 && a[0] == b[0] {
        if a.drop_first() == b.drop_first() {
            assert(a =~= seq![a[0]] + a.drop_first());
            assert(b =~= seq![b[0]] + b.drop_first());
        }
        lemma_lex_total(a.drop_first(), b.drop_first());
    } else if a.len() > 0 && b.len() > 0 {
        vstd::utf8::char_u32_cast(a[0], a[0] as u32);
        vstd::utf8::char_u32_cast(b[0], b[0] as u32);
    } else if a.len() == 0 && b.len() == 0 {
        assert(a =~= b);
    }
}

/// What `str::to_lowercase` returns for a string with the given characters.
pub uninterp spec fn lowercase(s: Seq<char>) -> Seq<char>;

/// `str::to_lowercase` on the string with the characters `s`. The Unicode case mapping that it
/// applies is not restated here: the result is known by the name [`lowercase`], and for an
/// ASCII string, where the mapping takes `A`..`Z` to `a`..`z` and leaves the rest, as that.
#[verifier::external_body]
pub fn to_lowercase(s: &Vec<char>) -> (r: Vec<char>)
    ensures
        r@ == lowercase(s@),
        all_ascii(s@) ==> r@ == s@.map_values(|c: char| ascii_lower_char(c)),
{
    let text: String = s.iter().collect();
    text.to_lowercase().chars().collect()
}


/// Index of the first `'\n'` at or after `i`, or the length of `s` when there is none.
pub open spec fn line_end(s: Seq<char>, i: int) -> int
    decreases s.len() - i,
{
    if i >= s.len() {
        s.len() as int
    } else if s[i] == '\n' {
        i
    } else {
        line_end(s, i + 1)
    }
}

/// Where [`line_end`] lands: at the next newline, or at the end.
pub proof fn lemma_line_end_bounds(s: Seq<char>, i: int)
    requires
        0 <= i,
    ensures
        i <= line_end(s, i) || i > s.len(),
        line_end(s, i) <= s.len(),
        forall|j: int| i <= j < line_end(s, i) ==> s[j] != '\n',
        line_end(s, i) < s.len() ==> s[line_end(s, i)] == '\n',
    decreases s.len() - i,
{
    if i < s.len() && s[i] != '\n' {
        lemma_line_end_bounds(s, i + 1);
    }
}

/// A line without its terminator: a `'\r'` before the `'\n'` is dropped too.
pub open spec fn strip_cr(raw: Seq<char>, terminated: bool) -> Seq<char> {
    if terminated && raw.len() > 0 && raw.last() == '\r' {
        raw.drop_last()
    } else {
        raw
    }
}

/// The lines of `s` from position `i` on.
pub open spec fn lines_from(s: Seq<char>, i: int) -> Seq<Seq<char>>
    decreases s.len() - i,
{
    if i < 0 || i >= s.len() {
        Seq::empty()
    } else {
        let e = line_end(s, i);
        proof {
            lemma_line_end_bounds(s, i);
        }
        if e < s.len() {
            seq![strip_cr(s.subrange(i, e), true)] + lines_from(s, e + 1)
        } else {
            seq![s.subrange(i, e)]
        }
    }
}

/// The lines of `s`, as `str::lines` yields them: split at `'\n'` or `"\r\n"`, without the
/// terminators, and with no empty line after a final terminator.
pub open spec fn lines(s: Seq<char>) -> Seq<Seq<char>> {
    lines_from(s, 0)
}

/// The lines of `s`.
pub fn split_lines(s: &Vec<char>) -> (r: Vec<Vec<char>>)
    ensures
        r@.len() == lines(s@).len(),
        forall|k: int| 0 <= k < r@.len() ==> (#[trigger] r@[k])@ == lines(s@)[k],
{
    let ghost all = lines(s@);
    let mut r: Vec<Vec<char>> = Vec::new();
    let mut start: usize = 0;
    while start < s.len()
        invariant
            start <= s.len(),
            all == lines(s@),
            r@.len() + lines_from(s@, start as int).len() == all.len(),
            forall|k: int| 0 <= k < r@.len() ==> (#[trigger] r@[k])@ == all[k],
            forall|k: int|
                0 <= k < lines_from(s@, start as int).len() ==> #[trigger] lines_from(
                    s@,
                    start as int,
                )[k] == all[r@.len() + k],
        decreases s.len() - start,
    {
        let mut e: usize = start;
        while e < s.len() && s[e] != '\n'
            invariant
                start <= e <= s.len(),
                line_end(s@, start as int) == line_end(s@, e as int),
            decreases s.len() - e,
        {
            e = e + 1;
        }
        proof {
            lemma_line_end_bounds(s@, start as int);
        }
        let terminated = e < s.len();
        let mut stop: usize = e;
        if terminated && e > start && s[e - 1] == '\r' {
            stop = e - 1;
        }
        let mut line: Vec<char> = Vec::new();
        let mut j: usize = start;
        while j < stop
            invariant
                start <= j <= stop <= e <= s.len(),
                line@ == s@.subrange(start as int, j as int),
            decreases stop - j,
        {
            line.push(s[j]);
            j = j + 1;
            assert(line@ =~= s@.subrange(start as int, j as int));
        }
        proof {
            let lf = lines_from(s@, start as int);
            assert(line@ =~= strip_cr(s@.subrange(start as int, e as int), terminated));
            assert(lf[0] == all[r@.len() as int]);
            if terminated {
                assert(lf == seq![strip_cr(s@.subrange(start as int, e as int), true)] + lines_from(
                    s@,
                    e + 1,
                ));
                assert forall|k: int| 0 <= k < lines_from(s@, e + 1).len() implies #[trigger] lines_from(
                    s@,
                    e + 1,
                )[k] == all[r@.len() + 1 + k] by {
                    assert(lines_from(s@, e + 1)[k] == lf[k + 1]);
                }
            }
        }
        r.push(line);
        if terminated {
            start = e + 1;
        } else {
            start = e;
            proof {
                assert(lines_from(s@, start as int) =~= Seq::<Seq<char>>::empty());
            }
        }
    }
    r
}


/// Number of bytes of the UTF-8 encoding of `s` (what `str::len` returns).
pub open spec fn byte_len(s: Seq<char>) -> nat {
    vstd::utf8::encode_utf8(s).len()
}

/// Number of bytes that UTF-8 uses for `c`.
pub open spec fn char_width(c: char) -> nat {
    let u = c as u32;
    if u < 0x80 {
        1
    } else if u < 0x800 {
        2
    } else if u < 0x10000 {
        3
    } else {
        4
    }
}

proof fn lemma_byte_len_push(s: Seq<char>, c: char)
    ensures
        byte_len(s.push(c)) == byte_len(s) + char_width(c),
    decreases s.len(),
{
    vstd::utf8::char_is_scalar(c);
    if s.len() == 0 {
        assert(s.push(c).drop_first() =~= Seq::<char>::empty());
        assert(vstd::utf8::encode_utf8(Seq::<char>::empty()) =~= Seq::<u8>::empty());
    } else {
        assert(s.push(c).drop_first() =~= s.drop_first().push(c));
        lemma_byte_len_push(s.drop_first(), c);
    }
}

fn char_width_exec(c: char) -> (w: usize)
    ensures
        w == char_width(c),
{
    let u = c as u32;
    if u < 0x80 {
        1
    } else if u < 0x800 {
        2
    } else if u < 0x10000 {
        3
    } else {
        4
    }
}

/// Byte length of the UTF-8 encoding of `v`, or `usize::MAX` when it does not fit.
pub fn byte_len_saturating(v: &Vec<char>) -> (n: usize)
    ensures
        n == if byte_len(v@) <= usize::MAX { byte_len(v@) } else { usize::MAX as nat },
{
    let mut n: usize = 0;
    let mut i: usize = 0;
    assert(vstd::utf8::encode_utf8(v@.take(0)) =~= Seq::<u8>::empty());
    while i < v.len()
        invariant
            i <= v.len(),
            n == if byte_len(v@.take(i as int)) <= usize::MAX { byte_len(v@.take(i as int)) } else { usize::MAX as nat },
        decreases v.len() - i,
    {
        proof {
            lemma_byte_len_push(v@.take(i as int), v@[i as int]);
            assert(v@.take(i + 1) =~= v@.take(i as int).push(v@[i as int]));
        }
        n = n.saturating_add(char_width_exec(v[i]));
        i = i + 1;
    }
    assert(v@.take(v.len() as int) =~= v@);
    n
}


/// Position of the first `c` in `s` at or after `i`.
pub open spec fn index_of_from(s: Seq<char>, c: char, i: int) -> Option<int>
    decreases s.len() - i,
{
    if i < 0 || i >= s.len() {
        None
    } else if s[i] == c {
        Some(i)
    } else {
        index_of_from(s, c, i + 1)
    }
}

/// Position of the first `c` in `s`.
pub open spec fn index_of(s: Seq<char>, c: char) -> Option<int> {
    index_of_from(s, c, 0)
}

/// What [`index_of_from`] finds is an occurrence, and the first one.
pub proof fn lemma_index_of_from(s: Seq<char>, c: char, i: int)
    requires
        0 <= i,
    ensures
        index_of_from(s, c, i) matches Some(k) ==> i <= k < s.len() && s[k] == c && forall|j: int|
            i <= j < k ==> s[j] != c,
        index_of_from(s, c, i) is None ==> forall|j: int| i <= j < s.len() ==> s[j] != c,
    decreases s.len() - i,
{
    if i < s.len() && s[i] != c {
        lemma_index_of_from(s, c, i + 1);
    }
}

/// Position of the first `c` in `v`.
pub fn index_of_exec(v: &Vec<char>, c: char) -> (r: Option<usize>)
    ensures
        r == (match index_of(v@, c) {
            Some(k) => Some(k as usize),
            None => None::<usize>,
        }),
        r matches Some(k) ==> k < v.len(),
{
    let mut i: usize = 0;
    while i < v.len()
        invariant
            i <= v.len(),
            index_of(v@, c) == index_of_from(v@, c, i as int),
        decreases v.len() - i,
    {
        if v[i] == c {
            return Some(i);
        }
        i = i + 1;
    }
    None
}

/// The characters of `v` in `[from, to)`.
pub fn slice_chars(v: &Vec<char>, from: usize, to: usize) -> (r: Vec<char>)
    requires
        from <= to <= v.len(),
    ensures
        r@ == v@.subrange(from as int, to as int),
{
    let mut r: Vec<char> = Vec::new();
    let mut j = from;
    while j < to
        invariant
            from <= j <= to <= v.len(),
            r@ == v@.subrange(from as int, j as int),
        decreases to - j,
    {
        r.push(v[j]);
        j = j + 1;
        assert(r@ =~= v@.subrange(from as int, j as int));
    }
    r
}

/// `a` followed by `b`.
pub fn concat_chars(a: &Vec<char>, b: &Vec<char>) -> (r: Vec<char>)
    ensures
        r@ == a@ + b@,
{
    let mut r = slice_chars(a, 0, a.len());
    let mut j: usize = 0;
    while j < b.len()
        invariant
            j <= b.len(),
            r@ == a@ + b@.take(j as int),
        decreases b.len() - j,
    {
        r.push(b[j]);
        j = j + 1;
        assert(r@ =~= a@ + b@.take(j as int));
    }
    assert(b@.take(b.len() as int) =~= b@);
    assert(a@.subrange(0, a.len() as int) =~= a@);
    r
}

/// Equality of character sequences.
pub fn chars_eq(a: &Vec<char>, b: &Vec<char>) -> (r: bool)
    ensures
        r == (a@ == b@),
{
    if a.len() != b.len() {
        return false;
    }
    let mut i: usize = 0;
    while i < a.len()
        invariant
            a.len() == b.len(),
            i <= a.len(),
            forall|k: int| 0 <= k < i ==> a@[k] == b@[k],
        decreases a.len() - i,
    {
        if a[i] != b[i] {
            return false;
        }
        i = i + 1;
    }
    assert(a@ =~= b@);
    true
}

/// The characters of `v` equal those of the text `lit`.
pub fn chars_eq_str(v: &Vec<char>, lit: &str) -> (r: bool)
    ensures
        r == (v@ == lit@),
{
    let l = chars_of(lit);
    chars_eq(v, &l)
}

/// Number of whitespace characters at the start of `s`.
pub open spec fn leading_ws(s: Seq<char>) -> nat
    decreases s.len(),
{
    if s.len() == 0 || !is_ws(s[0]) {
        0
    } else {
        1 + leading_ws(s.drop_first())
    }
}

/// Number of whitespace characters at the end of `s`.
pub open spec fn trailing_ws(s: Seq<char>) -> nat
    decreases s.len(),
{
    if s.len() == 0 || !is_ws(s.last()) {
        0
    } else {
        1 + trailing_ws(s.drop_last())
    }
}

/// Number of non-whitespace characters at the start of `s`.
pub open spec fn leading_word(s: Seq<char>) -> nat
    decreases s.len(),
{
    if s.len() == 0 || is_ws(s[0]) {
        0
    } else {
        1 + leading_word(s.drop_first())
    }
}

/// Bounds of the three counts above.
pub proof fn lemma_counts_bounded(s: Seq<char>)
    ensures
        leading_ws(s) <= s.len(),
        trailing_ws(s) <= s.len(),
        leading_word(s) <= s.len(),
        forall|j: int| 0 <= j < leading_ws(s) ==> is_ws(s[j]),
        leading_ws(s) < s.len() ==> !is_ws(s[leading_ws(s) as int]),
        forall|j: int| 0 <= j < leading_word(s) ==> !is_ws(s[j]),
        leading_word(s) < s.len() ==> is_ws(s[leading_word(s) as int]),
        forall|j: int| s.len() - trailing_ws(s) <= j < s.len() ==> is_ws(s[j]),
        trailing_ws(s) < s.len() ==> !is_ws(s[s.len() - trailing_ws(s) - 1]),
    decreases s.len(),
{
    if s.len() > 0 {
        lemma_counts_bounded(s.drop_first());
        lemma_counts_bounded(s.drop_last());
        assert forall|j: int| 0 <= j < leading_ws(s) implies is_ws(s[j]) by {
            if j > 0 {
                assert(s[j] == s.drop_first()[j - 1]);
            }
        }
        assert forall|j: int| 0 <= j < leading_word(s) implies !is_ws(s[j]) by {
            if j > 0 {
                assert(s[j] == s.drop_first()[j - 1]);
            }
        }
        assert forall|j: int| s.len() - trailing_ws(s) <= j < s.len() implies is_ws(s[j]) by {
            if j < s.len() - 1 {
                assert(s[j] == s.drop_last()[j]);
            }
        }
    }
}

/// `s` without leading whitespace (`str::trim_start`).
pub open spec fn trim_start(s: Seq<char>) -> Seq<char> {
    s.skip(leading_ws(s) as int)
}

/// `s` without trailing whitespace (`str::trim_end`).
pub open spec fn trim_end(s: Seq<char>) -> Seq<char> {
    s.take(s.len() - trailing_ws(s))
}

/// `s` without leading or trailing whitespace (`str::trim`).
pub open spec fn trim(s: Seq<char>) -> Seq<char> {
    trim_end(trim_start(s))
}

fn leading_ws_exec(v: &Vec<char>) -> (n: usize)
    ensures
        n == leading_ws(v@),
{
    let mut i: usize = 0;
    assert(v@.skip(0) =~= v@);
    while i < v.len() && is_whitespace(v[i])
        invariant
            i <= v.len(),
            leading_ws(v@) == i + leading_ws(v@.skip(i as int)),
        decreases v.len() - i,
    {
        assert(v@.skip(i as int).drop_first() =~= v@.skip(i + 1));
        i = i + 1;
    }
    proof {
        assert(v@.skip(0) =~= v@);
    }
    i
}

/// `v` without leading whitespace.
pub fn trim_start_exec(v: &Vec<char>) -> (r: Vec<char>)
    ensures
        r@ == trim_start(v@),
{
    proof {
        lemma_counts_bounded(v@);
    }
    let n = leading_ws_exec(v);
    let r = slice_chars(v, n, v.len());
    assert(r@ =~= trim_start(v@));
    r
}

/// `v` without trailing whitespace.
pub fn trim_end_exec(v: &Vec<char>) -> (r: Vec<char>)
    ensures
        r@ == trim_end(v@),
{
    let mut e: usize = v.len();
    proof {
        assert(v@.take(e as int) =~= v@);
    }
    while e > 0 && is_whitespace(v[e - 1])
        invariant
            e <= v.len(),
            trailing_ws(v@) == (v.len() - e) + trailing_ws(v@.take(e as int)),
        decreases e,
    {
        assert(v@.take(e as int).drop_last() =~= v@.take(e - 1));
        e = e - 1;
    }
    let r = slice_chars(v, 0, e);
    assert(r@ =~= trim_end(v@));
    r
}

/// `v` without leading or trailing whitespace.
pub fn trim_exec(v: &Vec<char>) -> (r: Vec<char>)
    ensures
        r@ == trim(v@),
{
    let t = trim_start_exec(v);
    trim_end_exec(&t)
}

/// The whitespace-separated words of `s` (`str::split_whitespace`).
pub open spec fn words(s: Seq<char>) -> Seq<Seq<char>>
    decreases s.len(),
{
    let t = trim_start(s);
    if t.len() == 0 {
        Seq::empty()
    } else {
        let w = leading_word(t);
        proof {
            lemma_counts_bounded(s);
            lemma_counts_bounded(t);
        }
        seq![t.take(w as int)] + words(t.skip(w as int))
    }
}

/// The whitespace-separated words of `v`.
pub fn split_words(v: &Vec<char>) -> (r: Vec<Vec<char>>)
    ensures
        r@.len() == words(v@).len(),
        forall|k: int| 0 <= k < r@.len() ==> (#[trigger] r@[k])@ == words(v@)[k],
    decreases v@.len(),
{
    let t = trim_start_exec(v);
    if t.len() == 0 {
        return Vec::new();
    }
    proof {
        lemma_counts_bounded(v@);
        lemma_counts_bounded(t@);
    }
    let mut w: usize = 0;
    assert(t@.skip(0) =~= t@);
    while w < t.len() && !is_whitespace(t[w])
        invariant
            w <= t.len(),
            leading_word(t@) == w + leading_word(t@.skip(w as int)),
        decreases t.len() - w,
    {
        assert(t@.skip(w as int).drop_first() =~= t@.skip(w + 1));
        w = w + 1;
    }
    proof {
        assert(t@.skip(0) =~= t@);
    }
    let first = slice_chars(&t, 0, w);
    let rest = slice_chars(&t, w, t.len());
    let tail = split_words(&rest);
    let mut r: Vec<Vec<char>> = Vec::new();
    r.push(first);
    let mut k: usize = 0;
    while k < tail.len()
        invariant
            k <= tail@.len(),
            r@.len() == k + 1,
            r@[0]@ == t@.take(w as int),
            forall|j: int| 1 <= j < r@.len() ==> (#[trigger] r@[j])@ == tail@[j - 1]@,
        decreases tail.len() - k,
    {
        r.push(slice_chars(&tail[k], 0, tail[k].len()));
        proof {
            assert(tail@[k as int]@.subrange(0, tail@[k as int]@.len() as int) =~= tail@[k as int]@);
        }
        k = k + 1;
    }
    proof {
        assert(t@.take(w as int) =~= first@);
        assert(rest@ =~= t@.skip(w as int));
        let ws = words(v@);
        assert(ws == seq![t@.take(w as int)] + words(t@.skip(w as int)));
    }
    r
}

/// `s` with every leading copy of the nonempty `p` removed (`str::trim_start_matches`).
pub open spec fn strip_prefixes(s: Seq<char>, p: Seq<char>) -> Seq<char>
    decreases s.len(),
{
    if p.len() > 0 && starts_with(s, p) {
        strip_prefixes(s.skip(p.len() as int), p)
    } else {
        s
    }
}

/// `v` with every leading copy of `p` removed.
pub fn strip_prefixes_exec(v: &Vec<char>, p: &Vec<char>) -> (r: Vec<char>)
    ensures
        r@ == strip_prefixes(v@, p@),
{
    let mut cur = slice_chars(v, 0, v.len());
    proof {
        assert(cur@ =~= v@);
    }
    while p.len() > 0 && starts_with_exec(&cur, p)
        invariant
            strip_prefixes(v@, p@) == strip_prefixes(cur@, p@),
        decreases cur@.len(),
    {
        cur = slice_chars(&cur, p.len(), cur.len());
    }
    cur
}

/// `s` with every occurrence of the nonempty `from`, scanning left to right without overlap,
/// replaced by `to` (`str::replace`).
pub open spec fn replace_all(s: Seq<char>, from: Seq<char>, to: Seq<char>) -> Seq<char>
    decreases s.len(),
{
    if from.len() == 0 || s.len() < from.len() {
        s
    } else if starts_with(s, from) {
        to + replace_all(s.skip(from.len() as int), from, to)
    } else {
        seq![s[0]] + replace_all(s.drop_first(), from, to)
    }
}

/// `v` with every occurrence of `from` replaced by `to`.
pub fn replace_all_exec(v: &Vec<char>, from: &Vec<char>, to: &Vec<char>) -> (r: Vec<char>)
    requires
        from@.len() > 0,
    ensures
        r@ == replace_all(v@, from@, to@),
{
    let mut out: Vec<char> = Vec::new();
    let mut i: usize = 0;
    assert(v@.skip(0) =~= v@);
    while i < v.len()
        invariant
            i <= v.len(),
            from@.len() > 0,
            out@ + replace_all(v@.skip(i as int), from@, to@) == replace_all(v@, from@, to@),
        decreases v.len() - i,
    {
        let rest_len = v.len() - i;
        if rest_len < from.len() {
            let tail = slice_chars(v, i, v.len());
            assert(tail@ =~= v@.skip(i as int));
            let r = concat_chars(&out, &tail);
            return r;
        }
        let mut matched = true;
        let mut j: usize = 0;
        while j < from.len()
            invariant
                j <= from.len(),
                i + from.len() <= v.len(),
                matched ==> forall|k: int| 0 <= k < j ==> v@[i + k] == from@[k],
                !matched ==> !starts_with(v@.skip(i as int), from@),
            decreases from.len() - j,
        {
            if v[i + j] != from[j] {
                matched = false;
                assert(v@.skip(i as int).subrange(0, from@.len() as int)[j as int] != from@[j as int]);
            }
            j = j + 1;
        }
        if matched {
            assert(v@.skip(i as int).subrange(0, from@.len() as int) =~= from@);
            let ghost old_out = out@;
            out = concat_chars(&out, to);
            assert(v@.skip(i as int).skip(from@.len() as int) =~= v@.skip(i + from.len()));
            assert(out@ + replace_all(v@.skip(i + from.len()), from@, to@) =~= old_out
                + replace_all(v@.skip(i as int), from@, to@));
            i = i + from.len();
        } else {
            let ghost old_out = out@;
            out.push(v[i]);
            assert(v@.skip(i as int).drop_first() =~= v@.skip(i + 1));
            assert(out@ + replace_all(v@.skip(i + 1), from@, to@) =~= old_out + replace_all(
                v@.skip(i as int),
                from@,
                to@,
            ));
            i = i + 1;
        }
    }
    assert(v@.skip(v.len() as int) =~= Seq::<char>::empty());
    assert(out@ + replace_all(Seq::<char>::empty(), from@, to@) =~= out@);
    out
}

/// Decimal digits of `n`, most significant first, without leading zeros.
pub open spec fn decimal(n: nat) -> Seq<char>
    decreases n,
{
    if n < 10 {
        seq![digit_char((n % 10) as u8)]
    } else {
        decimal(n / 10).push(digit_char((n % 10) as u8))
    }
}

/// The character for a decimal digit.
pub open spec fn digit_char(d: u8) -> char {
    if d == 0 { '0' } else if d == 1 { '1' } else if d == 2 { '2' } else if d == 3 { '3' } else if d == 4 { '4' }
    else if d == 5 { '5' } else if d == 6 { '6' } else if d == 7 { '7' } else if d == 8 { '8' } else { '9' }
}

fn digit_char_exec(d: u8) -> (c: char)
    ensures
        c == digit_char(d),
{
    if d == 0 { '0' } else if d == 1 { '1' } else if d == 2 { '2' } else if d == 3 { '3' } else if d == 4 { '4' }
    else if d == 5 { '5' } else if d == 6 { '6' } else if d == 7 { '7' } else if d == 8 { '8' } else { '9' }
}

/// The decimal representation of `n`, as the `Display` of an unsigned integer writes it.
pub fn decimal_exec(n: u64) -> (r: Vec<char>)
    ensures
        r@ == decimal(n as nat),
    decreases n,
{
    if n < 10 {
        let mut r: Vec<char> = Vec::new();
        r.push(digit_char_exec((n % 10) as u8));
        assert(r@ =~= decimal(n as nat));
        r
    } else {
        let mut r = decimal_exec(n / 10);
        r.push(digit_char_exec((n % 10) as u8));
        r
    }
}


/// The lower-case form of an ASCII character: `A`..`Z` become `a`..`z`, everything else stays.
pub open spec fn ascii_lower_char(c: char) -> char {
    if 'A' <= c && c <= 'Z' {
        ((c as u32) + 32) as char
    } else {
        c
    }
}

/// Every character is ASCII.
pub open spec fn all_ascii(s: Seq<char>) -> bool {
    forall|i: int| 0 <= i < s.len() ==> (s[i] as u32) < 128
}

/// The percent-encoding that `urlencoding::encode` applies to the bytes of a string: bytes
/// that are ASCII letters, digits, `-`, `.`, `_` or `~` stay as they are; every other byte
/// becomes `%` and two upper-case hexadecimal digits.
pub open spec fn percent_encode(bytes: Seq<u8>) -> Seq<char>
    decreases bytes.len(),
{
    if bytes.len() == 0 {
        Seq::empty()
    } else {
        let b = bytes[0];
        let head = if (48 <= b <= 57) || (65 <= b <= 90) || (97 <= b <= 122) || b == 45 || b == 46 || b == 95
            || b == 126 {
            seq![b as char]
        } else {
            seq!['%', hex_digit(b / 16), hex_digit(b % 16)]
        };
        head + percent_encode(bytes.drop_first())
    }
}

/// An upper-case hexadecimal digit.
pub open spec fn hex_digit(d: u8) -> char {
    if d < 10 {
        (48 + d) as char
    } else {
        (55 + d) as char
    }
}

/// `urlencoding::encode`: percent-encodes the UTF-8 bytes of `s` (see [`percent_encode`]).
#[verifier::external_body]
pub fn url_encode(s: &str) -> (r: String)
    ensures
        r@ == percent_encode(vstd::utf8::encode_utf8(s@)),
{
    urlencoding::encode(s).into_owned()
}

} // verus!
