use listening::app_info::{build_hint, sqlite_url, word_audio_url, ViewConfig};
use listening::resource::{CnMean, EnMean, Sentence, WordInfo, WordResource};
use listening::view::{SentenceView, WordInfoView, WordResourceView};

fn info() -> WordInfo {
    WordInfo {
        topic_id: 42,
        word: "near".to_string(),
        word_split: "near".to_string(),
        accent_us: "/nɪr/".to_string(),
        accent_uk: "/nɪə/".to_string(),
        audio_us: "us.mp3".to_string(),
        audio_uk: "uk.mp3".to_string(),
        exam: None,
    }
}

fn sentence(id: i64, image: Option<&str>) -> Sentence {
    Sentence {
        s_id: id,
        sentence_en: format!("sentence {}", id),
        translate: format!("translate {}", id),
        audio: format!("s{}.mp3", id),
        phrase: String::new(),
        image: image.map(|i| i.to_string()),
    }
}

#[test]
fn word_info_view_places_recordings_in_the_pack() {
    let v = WordInfoView::init(info(), "C:\\packs\\near");
    assert_eq!(v.word_id, 42);
    assert_eq!(v.word, "near");
    assert_eq!(v.accent_us, "/nɪr/");
    assert_eq!(v.audio_us, "C:\\packs\\near\\us.mp3");
    assert_eq!(v.audio_uk, "C:\\packs\\near\\uk.mp3");
}

#[test]
fn sentence_view_places_files_in_the_pack() {
    let v = SentenceView::init(sentence(1, Some("p.jpg")), "dir");
    assert_eq!(v.sentence, "sentence 1");
    assert_eq!(v.translate, "translate 1");
    assert_eq!(v.audio, "dir\\s1.mp3");
    assert_eq!(v.image, Some("dir\\p.jpg".to_string()));
    let v = SentenceView::init(sentence(2, None), "dir");
    assert_eq!(v.image, None);
}

#[test]
fn meanings_as_text() {
    let cn = CnMean { m_id: 1, mean_type: "prep.".to_string(), mean: "靠近".to_string() };
    assert_eq!(cn.to_string(), "prep.\t靠近");
    let en = EnMean { m_id: 2, mean_type: "adj.".to_string(), mean: "close".to_string() };
    assert_eq!(en.to_string(), "adj.\tclose");
}

#[test]
fn resource_view_takes_the_first_picture() {
    let resource = WordResource {
        word: info(),
        mnemonic: None,
        cn_mean: vec![CnMean { m_id: 1, mean_type: "prep.".to_string(), mean: "靠近".to_string() }],
        en_mean: vec![
            EnMean { m_id: 2, mean_type: "adj.".to_string(), mean: "close".to_string() },
            EnMean { m_id: 3, mean_type: "v.".to_string(), mean: "approach".to_string() },
        ],
        sentences: vec![sentence(1, None), sentence(2, Some("two.jpg")), sentence(3, Some("three.jpg"))],
        phrases: vec![],
        variant: vec![],
        synonyms: vec![],
        antonyms: vec![],
        similars: vec![],
    };
    let v = WordResourceView::from_resource(resource, "d");
    assert_eq!(v.word.audio_us, "d\\us.mp3");
    assert_eq!(v.cn_mean, vec!["prep.\t靠近".to_string()]);
    assert_eq!(v.en_mean, vec!["adj.\tclose".to_string(), "v.\tapproach".to_string()]);
    assert_eq!(v.sentences.len(), 3);
    assert_eq!(v.sentences[2].audio, "d\\s3.mp3");
    assert_eq!(v.image, Some("d\\two.jpg".to_string()));
}

#[test]
fn resource_view_without_pictures() {
    let resource = WordResource {
        word: info(),
        mnemonic: None,
        cn_mean: vec![],
        en_mean: vec![],
        sentences: vec![sentence(1, None)],
        phrases: vec![],
        variant: vec![],
        synonyms: vec![],
        antonyms: vec![],
        similars: vec![],
    };
    let v = WordResourceView::from_resource(resource, "d");
    assert_eq!(v.image, None);
    assert!(v.cn_mean.is_empty());
}

#[test]
fn app_texts() {
    assert_eq!(
        build_hint("main", "abc123", "2024-01-01"),
        "1. Current Git build version: main-abc123, build time: 2024-01-01."
    );
    assert_eq!(word_audio_url("near"), "https://dict.youdao.com/dictvoice?type=2&audio=near");
    assert_eq!(sqlite_url("/home/u/db"), "sqlite:/home/u/db");
    let hint = "hello".to_string();
    let c = ViewConfig::init(&hint, true);
    assert_eq!(c.hint, "hello");
    assert!(c.debug);
}
