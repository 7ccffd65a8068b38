use home_cook_book::sorting::{dedup_strings, sort_by_lowercase, sort_keyed};
use home_cook_book::text::{chars_less, contains_chars, push_decimal, string_from_chars, to_chars};

fn c(x: &str) -> Vec<char> {
    x.chars().collect()
}

#[test]
fn chars_and_strings() {
    assert_eq!(to_chars("héllo"), c("héllo"));
    assert_eq!(string_from_chars(&c("ok")), "ok");
    let mut s = String::from("n=");
    push_decimal(&mut s, 0);
    push_decimal(&mut s, 1907);
    assert_eq!(s, "n=01907");
}

#[test]
fn substring_search() {
    assert!(contains_chars(&c("tomato"), &c("mat")));
    assert!(contains_chars(&c("tomato"), &c("")));
    assert!(contains_chars(&c("tomato"), &c("tomato")));
    assert!(!contains_chars(&c("tom"), &c("tomato")));
    assert!(!contains_chars(&c("tomato"), &c("tot")));
}

#[test]
fn code_point_order() {
    assert!(chars_less(&c("a"), &c("b")));
    assert!(chars_less(&c("ab"), &c("abc")));
    assert!(!chars_less(&c("abc"), &c("abc")));
    assert!(chars_less(&c("Z"), &c("a")));
    assert!(!chars_less(&c("é"), &c("z")));
    assert_eq!(chars_less(&c("x"), &c("y")), "x" < "y");
}

#[test]
fn dedup_keeps_first_occurrences() {
    let v = vec!["b".to_string(), "a".to_string(), "b".to_string(), "c".to_string(), "a".to_string()];
    assert_eq!(dedup_strings(v), vec!["b".to_string(), "a".to_string(), "c".to_string()]);
}

#[test]
fn stable_sort_by_key() {
    let sorted = sort_keyed(vec![(c("b"), 1), (c("a"), 2), (c("b"), 3), (c("a"), 4)]);
    assert_eq!(sorted.iter().map(|p| p.1).collect::<Vec<_>>(), vec![2, 4, 1, 3]);
    let keys = vec!["Beta".to_string(), "alpha".to_string(), "ÉCLAIR".to_string()];
    let items = vec![1u16, 2u16, 3u16];
    assert_eq!(sort_by_lowercase(items, &keys), vec![2, 1, 3]);
}
