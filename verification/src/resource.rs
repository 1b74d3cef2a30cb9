//! The contents of a word's resource pack (its `resource.json`).
use vstd::prelude::*;
use crate::text::concat3;

verus! {

/// A word that sounds alike.
pub struct Similar {
    pub s_id: i64,
    pub word: String,
    pub mean_type: Option<String>,
    pub mean: Option<String>,
}

/// A word of opposite meaning.
pub struct Antonym {
    pub a_id: i64,
    pub word: String,
}

/// A word of the same meaning.
pub struct Synonym {
    pub s_id: i64,
    pub word: String,
}

/// An inflected form, such as the present participle; `typ` names the form.
pub struct Variant {
    pub v_id: i64,
    pub typ: String,
    pub variant: String,
}

/// A phrase that uses the word.
pub struct Phrase {
    pub p_id: i64,
    pub phrase: String,
    pub mean: String,
}

/// An example sentence, with its recording and maybe a picture.
pub struct Sentence {
    pub s_id: i64,
    pub sentence_en: String,
    pub translate: String,
    pub audio: String,
    pub phrase: String,
    pub image: Option<String>,
}

/// A meaning in English.
pub struct EnMean {
    pub m_id: i64,
    pub mean_type: String,
    pub mean: String,
}

/// A meaning in Chinese.
pub struct CnMean {
    pub m_id: i64,
    pub mean_type: String,
    pub mean: String,
}

/// A memory aid; `typ` is its kind.
pub struct Mnemonic {
    pub typ: i64,
    pub img_content: Option<String>,
    pub content: Option<String>,
}

/// How often the word came up in an exam.
pub struct Exam {
    pub recent: i64,
    pub exam_name: String,
    pub nums: i64,
}

/// The word itself: its spelling, accents and recordings.
pub struct WordInfo {
    pub topic_id: i64,
    pub word: String,
    pub word_split: String,
    pub accent_us: String,
    pub accent_uk: String,
    pub audio_us: String,
    pub audio_uk: String,
    pub exam: Option<Exam>,
}

/// Everything a resource pack tells of one word.
pub struct WordResource {
    pub word: WordInfo,
    pub mnemonic: Option<Mnemonic>,
    pub cn_mean: Vec<CnMean>,
    pub en_mean: Vec<EnMean>,
    pub sentences: Vec<Sentence>,
    pub phrases: Vec<Phrase>,
    pub variant: Vec<Variant>,
    pub synonyms: Vec<Synonym>,
    pub antonyms: Vec<Antonym>,
    pub similars: Vec<Similar>,
}

/// A meaning shown as its part of speech, a tab, and the meaning.
pub open spec fn mean_text(mean_type: Seq<char>, mean: Seq<char>) -> Seq<char> {
    mean_type + seq!['\t'] + mean
}

impl EnMean {
    /// The part of speech, a tab, then the meaning.
    pub fn to_string(&self) -> (r: String)
        ensures
            r@ == mean_text(self.mean_type@, self.mean@),
            r@ == self.mean_type@ + seq!['\t'] + self.mean@,
    {
        proof {
            reveal_strlit("\t");
        }
        concat3(self.mean_type.as_str(), "\t", self.mean.as_str())
    }
}

impl CnMean {
    /// The part of speech, a tab, then the meaning.
    pub fn to_string(&self) -> (r: String)
        ensures
            r@ == mean_text(self.mean_type@, self.mean@),
            r@ == self.mean_type@ + seq!['\t'] + self.mean@,
    {
        proof {
            reveal_strlit("\t");
        }
        concat3(self.mean_type.as_str(), "\t", self.mean.as_str())
    }
}

} // verus!
