//! What the front end shows of a word, built from its resource pack.
use vstd::prelude::*;
use crate::resource::{mean_text, CnMean, EnMean, Sentence, WordInfo, WordResource};
use crate::text::concat3;

verus! {

/// The path of a file `name` inside the pack directory `dir`: `dir\name`.
pub open spec fn in_dir(dir: Seq<char>, name: Seq<char>) -> Seq<char> {
    dir + seq!['\\'] + name
}

/// The text of an optional string.
pub open spec fn opt_text(o: Option<String>) -> Option<Seq<char>> {
    match o {
        Some(s) => Some(s@),
        None => None,
    }
}

/// An optional file name placed inside the pack directory `dir`.
pub open spec fn opt_in_dir(dir: Seq<char>, o: Option<String>) -> Option<Seq<char>> {
    match o {
        Some(s) => Some(in_dir(dir, s@)),
        None => None,
    }
}

/// The picture of the first sentence that has one, inside the pack directory.
pub open spec fn first_image(sentences: Seq<Sentence>, dir: Seq<char>) -> Option<Seq<char>>
    decreases sentences.len(),
{
    if sentences.len() == 0 {
        None
    } else {
        match sentences[0].image {
            Some(i) => Some(in_dir(dir, i@)),
            None => first_image(sentences.drop_first(), dir),
        }
    }
}

/// A file of the pack directory `dir`, as the front end loads it.
fn file_in_dir(dir: &str, name: &str) -> (r: String)
    ensures
        r@ == in_dir(dir@, name@),
{
    proof {
        reveal_strlit("\\");
    }
    concat3(dir, "\\", name)
}

/// A picture of a word, with its file extension.
pub struct ImageView {
    pub path: String,
    pub extend: String,
}

/// The word as the front end shows it.
pub struct WordInfoView {
    pub word_id: i64,
    pub word: String,
    pub accent_us: String,
    pub accent_uk: String,
    pub audio_us: String,
    pub audio_uk: String,
}

impl WordInfoView {
    /// Whether this view shows `info` from the pack directory `dir`.
    pub open spec fn shows(self, info: WordInfo, dir: Seq<char>) -> bool {
        &&& self.word_id == info.topic_id
        &&& self.word@ == info.word@
        &&& self.accent_us@ == info.accent_us@
        &&& self.accent_uk@ == info.accent_uk@
        &&& self.audio_us@ == in_dir(dir, info.audio_us@)
        &&& self.audio_uk@ == in_dir(dir, info.audio_uk@)
    }

    /// The word of a pack, its recordings placed inside the pack directory `dir`.
    pub fn init(word_info: WordInfo, dir: &str) -> (r: Self)
        ensures
            r.shows(word_info, dir@),
            r.word_id == word_info.topic_id,
            r.word@ == word_info.word@,
            r.accent_us@ == word_info.accent_us@,
            r.accent_uk@ == word_info.accent_uk@,
            r.audio_us@ == dir@ + seq!['\\'] + word_info.audio_us@,
            r.audio_uk@ == dir@ + seq!['\\'] + word_info.audio_uk@,
    {
        let audio_us = file_in_dir(dir, word_info.audio_us.as_str());
        let audio_uk = file_in_dir(dir, word_info.audio_uk.as_str());
        let r = WordInfoView {
            word_id: word_info.topic_id,
            word: word_info.word,
            accent_us: word_info.accent_us,
            accent_uk: word_info.accent_uk,
            audio_us,
            audio_uk,
        };
        proof {
            lemma_word_info_view_shows(r, word_info, dir@);
        }
        r
    }
}

/// An example sentence as the front end shows it.
pub struct SentenceView {
    pub sentence: String,
    pub translate: String,
    pub audio: String,
    pub image: Option<String>,
}

impl SentenceView {
    /// Whether this view shows `sentence` from the pack directory `dir`.
    pub open spec fn shows(self, sentence: Sentence, dir: Seq<char>) -> bool {
        &&& self.sentence@ == sentence.sentence_en@
        &&& self.translate@ == sentence.translate@
        &&& self.audio@ == in_dir(dir, sentence.audio@)
        &&& opt_text(self.image) == opt_in_dir(dir, sentence.image)
    }

    fn of_sentence(sentence: &Sentence, dir: &str) -> (r: Self)
        ensures
            r.shows(*sentence, dir@),
    {
        let audio = file_in_dir(dir, sentence.audio.as_str());
        let image = match &sentence.image {
            Some(i) => Some(file_in_dir(dir, i.as_str())),
            None => None,
        };
        SentenceView {
            sentence: sentence.sentence_en.clone(),
            translate: sentence.translate.clone(),
            audio,
            image,
        }
    }

    /// A sentence of a pack, its recording and picture placed inside the pack
    /// directory `dir`.
    pub fn init(sentence: Sentence, dir: &str) -> (r: Self)
        ensures
            r.shows(sentence, dir@),
            r.sentence@ == sentence.sentence_en@,
            r.translate@ == sentence.translate@,
            r.audio@ == dir@ + seq!['\\'] + sentence.audio@,
            sentence.image is None ==> r.image is None,
            sentence.image matches Some(i) ==> (r.image matches Some(v) && v@ == dir@ + seq!['\\']
                + i@),
    {
        let r = Self::of_sentence(&sentence, dir);
        proof {
            lemma_sentence_view_shows(r, sentence, dir@);
        }
        r
    }
}

/// Everything the front end shows of a word.
pub struct WordResourceView {
    pub word: WordInfoView,
    pub cn_mean: Vec<String>,
    pub en_mean: Vec<String>,
    pub sentences: Vec<SentenceView>,
    pub image: Option<String>,
}

fn cn_texts(means: &Vec<CnMean>) -> (r: Vec<String>)
    ensures
        r@.len() == means@.len(),
        forall|i: int|
            0 <= i < means@.len() ==> #[trigger] r@[i]@ == mean_text(
                means@[i].mean_type@,
                means@[i].mean@,
            ),
{
    let mut r: Vec<String> = Vec::new();
    for i in 0..means.len()
        invariant
            r@.len() == i,
            forall|j: int|
                0 <= j < i ==> #[trigger] r@[j]@ == mean_text(means@[j].mean_type@, means@[j].mean@),
    {
        r.push(means[i].to_string());
    }
    r
}

fn en_texts(means: &Vec<EnMean>) -> (r: Vec<String>)
    ensures
        r@.len() == means@.len(),
        forall|i: int|
            0 <= i < means@.len() ==> #[trigger] r@[i]@ == mean_text(
                means@[i].mean_type@,
                means@[i].mean@,
            ),
{
    let mut r: Vec<String> = Vec::new();
    for i in 0..means.len()
        invariant
            r@.len() == i,
            forall|j: int|
                0 <= j < i ==> #[trigger] r@[j]@ == mean_text(means@[j].mean_type@, means@[j].mean@),
    {
        r.push(means[i].to_string());
    }
    r
}

impl WordResourceView {
    /// Whether this view shows `resource` from the pack directory `dir`: the
    /// word, each meaning as its text, each sentence, and the picture of the
    /// first sentence that has one.
    pub open spec fn shows(self, resource: WordResource, dir: Seq<char>) -> bool {
        &&& self.word.shows(resource.word, dir)
        &&& self.cn_mean@.len() == resource.cn_mean@.len()
        &&& forall|i: int|
            0 <= i < resource.cn_mean@.len() ==> #[trigger] self.cn_mean@[i]@ == mean_text(
                resource.cn_mean@[i].mean_type@,
                resource.cn_mean@[i].mean@,
            )
        &&& self.en_mean@.len() == resource.en_mean@.len()
        &&& forall|i: int|
            0 <= i < resource.en_mean@.len() ==> #[trigger] self.en_mean@[i]@ == mean_text(
                resource.en_mean@[i].mean_type@,
                resource.en_mean@[i].mean@,
            )
        &&& self.sentences@.len() == resource.sentences@.len()
        &&& forall|i: int|
            0 <= i < resource.sentences@.len() ==> (#[trigger] self.sentences@[i]).shows(
                resource.sentences@[i],
                dir,
            )
        &&& opt_text(self.image) == first_image(resource.sentences@, dir)
    }

    /// The view of a word's resource pack whose directory is `dir`.
    pub fn from_resource(resource: WordResource, dir: &str) -> (r: Self)
        ensures
            r.shows(resource, dir@),
            r.word.word_id == resource.word.topic_id,
            r.word.word@ == resource.word.word@,
            r.word.accent_us@ == resource.word.accent_us@,
            r.word.accent_uk@ == resource.word.accent_uk@,
            r.cn_mean@.len() == resource.cn_mean@.len(),
            forall|i: int|
                0 <= i < resource.cn_mean@.len() ==> #[trigger] r.cn_mean@[i]@ == resource.cn_mean@[i].mean_type@
                    + seq!['\t'] + resource.cn_mean@[i].mean@,
            r.en_mean@.len() == resource.en_mean@.len(),
            forall|i: int|
                0 <= i < resource.en_mean@.len() ==> #[trigger] r.en_mean@[i]@ == resource.en_mean@[i].mean_type@
                    + seq!['\t'] + resource.en_mean@[i].mean@,
            r.sentences@.len() == resource.sentences@.len(),
            forall|i: int|
                0 <= i < resource.sentences@.len() ==> (#[trigger] r.sentences@[i]).audio@ == dir@ + seq!['\\']
                    + resource.sentences@[i].audio@,
            (r.image is None) == (forall|i: int|
                0 <= i < resource.sentences@.len() ==> (#[trigger] resource.sentences@[i]).image is None),
            forall|i: int|
                0 <= i < resource.sentences@.len() && (#[trigger] resource.sentences@[i]).image is Some
                    && (forall|j: int| 0 <= j < i ==> resource.sentences@[j].image is None) ==> (
                r.image matches Some(x) && x@ == dir@ + seq!['\\'] + resource.sentences@[i].image->0@),
    {
        let word = WordInfoView::init(resource.word, dir);
        let cn_mean = cn_texts(&resource.cn_mean);
        let en_mean = en_texts(&resource.en_mean);
        let mut sentences: Vec<SentenceView> = Vec::new();
        for i in 0..resource.sentences.len()
            invariant
                sentences@.len() == i,
                forall|j: int|
                    0 <= j < i ==> (#[trigger] sentences@[j]).shows(resource.sentences@[j], dir@),
        {
            sentences.push(SentenceView::of_sentence(&resource.sentences[i], dir));
        }
        let mut image: Option<String> = None;
        let mut found = false;
        let mut k: usize = 0;
        assert(resource.sentences@.skip(0) =~= resource.sentences@);
        while k < sentences.len() && !found
            invariant
                k <= sentences@.len(),
                sentences@.len() == resource.sentences@.len(),
                forall|j: int|
                    0 <= j < sentences@.len() ==> (#[trigger] sentences@[j]).shows(
                        resource.sentences@[j],
                        dir@,
                    ),
                !found ==> image is None && first_image(resource.sentences@, dir@) == first_image(
                    resource.sentences@.skip(k as int),
                    dir@,
                ),
                found ==> opt_text(image) == first_image(resource.sentences@, dir@),
            decreases sentences.len() - k,
        {
            let ghost rest = resource.sentences@.skip(k as int);
            assert(rest.drop_first() =~= resource.sentences@.skip(k + 1));
            assert(rest[0] == resource.sentences@[k as int]);
            assert(sentences@[k as int].shows(resource.sentences@[k as int], dir@));
            match &sentences[k].image {
                Some(i) => {
                    image = Some(i.clone());
                    found = true;
                },
                None => {},
            }
            k = k + 1;
        }
        proof {
            if !found {
                assert(resource.sentences@.skip(k as int) =~= Seq::<Sentence>::empty());
            }
        }
        let r = WordResourceView { word, cn_mean, en_mean, sentences, image };
        proof {
            lemma_resource_view_shows(r, resource, dir@);
        }
        r
    }
}

/// The first picture among sentences: none exactly when no sentence has a
/// picture, and otherwise the picture of the earliest sentence that has one,
/// inside the pack directory.
pub proof fn lemma_first_image_is_first(sentences: Seq<Sentence>, dir: Seq<char>)
    ensures
        (first_image(sentences, dir) is None) == (forall|i: int|
            0 <= i < sentences.len() ==> (#[trigger] sentences[i]).image is None),
        forall|i: int|
            0 <= i < sentences.len() && (#[trigger] sentences[i]).image is Some && (forall|j: int|
                0 <= j < i ==> sentences[j].image is None) ==> first_image(sentences, dir) == Some(
                dir + seq!['\\'] + sentences[i].image->0@,
            ),
    decreases sentences.len(),
{
    if sentences.len() > 0 {
        let rest = sentences.drop_first();
        lemma_first_image_is_first(rest, dir);
        assert forall|i: int| 0 <= i < rest.len() implies #[trigger] rest[i] == sentences[i + 1] by {}
        if sentences[0].image is None {
            assert forall|i: int|
                0 <= i < sentences.len() && (#[trigger] sentences[i]).image is Some && (forall|j: int|
                    0 <= j < i ==> sentences[j].image is None) implies first_image(sentences, dir)
                == Some(dir + seq!['\\'] + sentences[i].image->0@) by {
                assert(i > 0);
                assert(rest[i - 1] == sentences[i]);
                assert forall|j: int| 0 <= j < i - 1 implies rest[j].image is None by {
                    assert(rest[j] == sentences[j + 1]);
                }
            }
            if forall|i: int| 0 <= i < rest.len() ==> (#[trigger] rest[i]).image is None {
                assert forall|i: int| 0 <= i < sentences.len() implies (
                #[trigger] sentences[i]).image is None by {
                    if i > 0 {
                        assert(rest[i - 1] == sentences[i]);
                    }
                }
            }
        } else {
            assert forall|i: int|
                0 <= i < sentences.len() && (#[trigger] sentences[i]).image is Some && (forall|j: int|
                    0 <= j < i ==> sentences[j].image is None) implies first_image(sentences, dir)
                == Some(dir + seq!['\\'] + sentences[i].image->0@) by {
                if i > 0 {
                    assert(sentences[0].image is None);
                }
            }
        }
    }
}

/// A view of a word's own entry shows the pack's id, spelling, both accents,
/// and both recordings inside the pack directory.
pub proof fn lemma_word_info_view_shows(v: WordInfoView, info: WordInfo, dir: Seq<char>)
    requires
        v.shows(info, dir),
    ensures
        v.word_id == info.topic_id,
        v.word@ == info.word@,
        v.accent_us@ == info.accent_us@,
        v.accent_uk@ == info.accent_uk@,
        v.audio_us@ == dir + seq!['\\'] + info.audio_us@,
        v.audio_uk@ == dir + seq!['\\'] + info.audio_uk@,
{
}

/// A view of a sentence shows its text, its translation, its recording inside
/// the pack directory, and its picture there exactly when it has one.
pub proof fn lemma_sentence_view_shows(v: SentenceView, sentence: Sentence, dir: Seq<char>)
    requires
        v.shows(sentence, dir),
    ensures
        v.sentence@ == sentence.sentence_en@,
        v.translate@ == sentence.translate@,
        v.audio@ == dir + seq!['\\'] + sentence.audio@,
        sentence.image is None ==> v.image is None,
        sentence.image matches Some(i) ==> (v.image matches Some(x) && x@ == dir + seq!['\\'] + i@),
{
}

/// A view of a resource pack shows the word, one entry per sentence, and as
/// its picture the picture of the first sentence that has one: none exactly
/// when no sentence has a picture.
pub proof fn lemma_resource_view_shows(v: WordResourceView, resource: WordResource, dir: Seq<char>)
    requires
        v.shows(resource, dir),
    ensures
        v.word.word_id == resource.word.topic_id,
        v.word.word@ == resource.word.word@,
        v.word.accent_us@ == resource.word.accent_us@,
        v.word.accent_uk@ == resource.word.accent_uk@,
        v.cn_mean@.len() == resource.cn_mean@.len(),
        forall|i: int|
            0 <= i < resource.cn_mean@.len() ==> #[trigger] v.cn_mean@[i]@ == resource.cn_mean@[i].mean_type@
                + seq!['\t'] + resource.cn_mean@[i].mean@,
        v.en_mean@.len() == resource.en_mean@.len(),
        forall|i: int|
            0 <= i < resource.en_mean@.len() ==> #[trigger] v.en_mean@[i]@ == resource.en_mean@[i].mean_type@
                + seq!['\t'] + resource.en_mean@[i].mean@,
        v.sentences@.len() == resource.sentences@.len(),
        forall|i: int|
            0 <= i < resource.sentences@.len() ==> (#[trigger] v.sentences@[i]).audio@ == dir + seq!['\\']
                + resource.sentences@[i].audio@,
        (v.image is None) == (forall|i: int|
            0 <= i < resource.sentences@.len() ==> (#[trigger] resource.sentences@[i]).image is None),
        forall|i: int|
            0 <= i < resource.sentences@.len() && (#[trigger] resource.sentences@[i]).image is Some
                && (forall|j: int| 0 <= j < i ==> resource.sentences@[j].image is None) ==> (
            v.image matches Some(x) && x@ == dir + seq!['\\'] + resource.sentences@[i].image->0@),
{
    lemma_first_image_is_first(resource.sentences@, dir);
}

/// The outcome of one review of a word.
#[derive(Clone, Copy, Debug, PartialEq, Eq)]
pub enum ExamRs {
    Success,
    Fail,
}

/// Which words a review session goes through.
#[derive(Clone, Copy, Debug, PartialEq, Eq)]
pub enum ReviewTy {
    /// Words answered right today and never wrong today.
    Today,
    /// Words answered right yesterday and never wrong yesterday.
    Yesterday,
    /// Words answered wrong today.
    TodayError,
    /// Words answered wrong yesterday.
    YesterdayError,
    /// Words whose next review is due.
    Review,
}

} // verus!
