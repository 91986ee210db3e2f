use terminal_book_reader::layout::{centered_rect, Area};
use terminal_book_reader::text::{
    chars_eq, chars_of, concat_chars, contains_exec, decimal_exec, lex_lt_exec, replace_all_exec,
    split_words, starts_with_exec, string_of, strip_prefixes_exec, to_lowercase, trim_exec,
    trim_start_exec, url_encode,
};

fn s(v: &Vec<char>) -> String {
    string_of(v)
}

#[test]
fn chars_round_trip() {
    for t in ["", "plain", "ünïcödé ✓"] {
        assert_eq!(s(&chars_of(t)), t);
    }
}

#[test]
fn lowercase_follows_unicode() {
    assert_eq!(s(&to_lowercase(&chars_of("The HOBBIT"))), "the hobbit");
    assert_eq!(s(&to_lowercase(&chars_of("ÉCOLE"))), "école");
}

#[test]
fn substring_and_prefix() {
    assert!(contains_exec(&chars_of("the hobbit"), &chars_of("hob")));
    assert!(contains_exec(&chars_of("abc"), &chars_of("")));
    assert!(!contains_exec(&chars_of("ab"), &chars_of("abc")));
    assert!(starts_with_exec(&chars_of("move x"), &chars_of("move")));
    assert!(!starts_with_exec(&chars_of("mov"), &chars_of("move")));
}

#[test]
fn ordering_matches_string_order() {
    let words = ["", "a", "B", "b", "ab", "é", "z", "Zebra"];
    for x in words {
        for y in words {
            assert_eq!(lex_lt_exec(&chars_of(x), &chars_of(y)), x < y, "{:?} {:?}", x, y);
        }
    }
}

#[test]
fn trimming_and_words() {
    assert_eq!(s(&trim_exec(&chars_of("\t  two words \u{3000}"))), "two words");
    assert_eq!(s(&trim_start_exec(&chars_of("  x "))), "x ");
    let text = "  theme\t light\u{a0}extra  ";
    let got: Vec<String> = split_words(&chars_of(text)).iter().map(|w| s(w)).collect();
    let want: Vec<String> = text.split_whitespace().map(|w| w.to_string()).collect();
    assert_eq!(got, want);
    assert!(split_words(&chars_of("   ")).is_empty());
}

#[test]
fn prefixes_and_replacement() {
    assert_eq!(s(&strip_prefixes_exec(&chars_of("movemove x"), &chars_of("move"))), " x");
    assert_eq!("movemove x".trim_start_matches("move"), " x");
    let text = "move \"a/b\" <new_category> <new_category>";
    let got = s(&replace_all_exec(&chars_of(text), &chars_of(" <new_category>"), &chars_of(" ")));
    assert_eq!(got, text.replace(" <new_category>", " "));
    assert_eq!(s(&replace_all_exec(&chars_of("aaa"), &chars_of("aa"), &chars_of("b"))), "aaa".replace("aa", "b"));
}

#[test]
fn decimal_digits() {
    assert_eq!(s(&decimal_exec(0)), "0");
    assert_eq!(s(&decimal_exec(907)), "907");
    assert_eq!(s(&decimal_exec(u64::MAX)), u64::MAX.to_string());
}

#[test]
fn concatenation_and_equality() {
    let v = concat_chars(&chars_of("ab"), &chars_of("cd"));
    assert_eq!(s(&v), "abcd");
    assert!(chars_eq(&v, &chars_of("abcd")));
    assert!(!chars_eq(&v, &chars_of("abce")));
}

#[test]
fn url_encoding_bytes() {
    assert_eq!(url_encode("a-b_c.d~e"), "a-b_c.d~e");
    assert_eq!(url_encode("a b/c?"), "a%20b%2Fc%3F");
    assert_eq!(url_encode("ü"), "%C3%BC");
}

#[test]
fn centered_popup() {
    let c = centered_rect(60, 60, Area { x: 0, y: 0, width: 100, height: 50 });
    assert!(c == Area { x: 20, y: 10, width: 60, height: 30 });
    let c = centered_rect(100, 100, Area { x: 3, y: 4, width: 10, height: 10 });
    assert!(c == Area { x: 3, y: 4, width: 10, height: 10 });
}

#[test]
fn centered_popup_rounds_to_cells() {
    let c = centered_rect(55, 33, Area { x: 0, y: 0, width: 80, height: 24 });
    assert!(c == Area { x: 18, y: 8, width: 44, height: 8 });
    let c = centered_rect(60, 40, Area { x: 5, y: 2, width: 10, height: 7 });
    assert!(c.x >= 5 && c.x + c.width <= 15 && c.y >= 2 && c.y + c.height <= 9);
    assert!(c.x != 5 || c.width != 10);
}
