use listening::paths::{app_name, resource_path, AppPath};
use listening::records::{normalize_zpk_name, word_from_row, words_from_rows, WordDb, WordRow};

fn row(id: i64, word: &str, zpk: Option<&str>, times: i64) -> WordRow {
    WordRow {
        word_id: id,
        word: word.to_string(),
        zpk_name: zpk.map(|z| z.to_string()),
        current_learned_times: times,
    }
}

#[test]
fn pack_names_lose_their_markers() {
    assert_eq!(normalize_zpk_name("\\/r\\/near\\.zpk"), "near");
    assert_eq!(normalize_zpk_name("plain"), "plain");
    assert_eq!(normalize_zpk_name("a\\/r\\/b\\/r\\/c"), "abc");
    assert_eq!(normalize_zpk_name("x\\.zp\\.zpkk"), "x\\.zpk");
    assert_eq!(normalize_zpk_name(""), "");
}

#[test]
fn rows_without_pack_are_left_out() {
    let rows = vec![
        row(1, "near", Some("\\/r\\/near\\.zpk"), 2),
        row(2, "far", None, 0),
        row(3, "close", Some("close"), 5),
    ];
    let words = words_from_rows(rows);
    assert_eq!(words.len(), 2);
    assert_eq!(words[0].word_id, 1);
    assert_eq!(words[0].word, "near");
    assert_eq!(words[0].zpk_name, "near");
    assert_eq!(words[0].current_learned_times, 2);
    assert_eq!(words[1].word_id, 3);
    assert_eq!(words[1].zpk_name, "close");
    assert_eq!(words[1].current_learned_times, 5);
    assert!(words_from_rows(vec![]).is_empty());
}

#[test]
fn looked_up_word_without_pack_gets_empty_name() {
    let w = word_from_row(row(7, "seven", None, 1));
    assert_eq!(w.word_id, 7);
    assert_eq!(w.word, "seven");
    assert_eq!(w.zpk_name, "");
    let w = word_from_row(row(8, "eight", Some("\\/r\\/eight\\.zpk"), 0));
    assert_eq!(w.zpk_name, "eight");
}

#[test]
fn pack_directory_under_home() {
    let w = WordDb { word_id: 1, word: "near".to_string(), zpk_name: "near".to_string(), current_learned_times: 0 };
    let p = w.zpk_path(AppPath::new("/home/u/listening".to_string()));
    assert_eq!(p.parts, vec!["/home/u/listening".to_string(), "resource".to_string(), "near".to_string()]);
    let q = AppPath::new("root".to_string()).join("a").join("b");
    assert_eq!(q.parts, vec!["root", "a", "b"]);
}

#[test]
fn fixed_names() {
    assert_eq!(app_name(), "listening");
    assert_eq!(resource_path(), "listening\\resource");
}
