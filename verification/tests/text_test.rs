use listening::text::{chars_of, concat3, ends_with, replace_all, string_of};

#[test]
fn replace_all_agrees_with_str_replace() {
    let cases = [
        ("a\\/r\\/b\\/r\\/c", "\\/r\\/", ""),
        ("aaaa", "aa", "b"),
        ("aaa", "aa", "b"),
        ("", "x", "y"),
        ("abc", "abcd", "z"),
        ("xyzxyz", "z", "ZZ"),
        ("ünïcödé", "ï", "i"),
    ];
    for (s, p, r) in cases {
        assert_eq!(replace_all(s, p, r), s.replace(p, r));
    }
}

#[test]
fn ends_with_agrees_with_str_ends_with() {
    let cases = [("a.jpg", ".jpg"), ("a.jpg", ".png"), ("", ""), ("x", ""), ("", "x"), ("jpg", ".jpg")];
    for (s, t) in cases {
        assert_eq!(ends_with(s, t), s.ends_with(t));
    }
}

#[test]
fn chars_round_trip() {
    let v = chars_of("héllo");
    assert_eq!(v, vec!['h', 'é', 'l', 'l', 'o']);
    assert_eq!(string_of(&v), "héllo");
    assert_eq!(concat3("a", "\t", "b"), "a\tb");
}
