//! Words as the store lists them, and the cleaning of their resource-pack names.
use vstd::prelude::*;
use crate::text::{lemma_replaced_absent, lemma_replaced_no_occurrence, lemma_replaced_prefix, lemma_replaced_suffix, occurs_at, replace_all, replaced};

verus! {

/// A word with the name of its resource pack and the length of its current
/// run of successful reviews.
pub struct WordDb {
    pub word_id: i64,
    pub word: String,
    pub zpk_name: String,
    pub current_learned_times: i64,
}

/// The learning record of one word.
pub struct LearnedWordDb {
    pub id: i64,
    pub word_id: i64,
    pub start_time: i64,
    pub last_time: i64,
    pub next_time: i64,
    pub err_times: i64,
    pub total_learned_times: i64,
    pub current_learned_times: i64,
}

/// One row of a word listing as the store returns it; the pack name may be missing.
pub struct WordRow {
    pub word_id: i64,
    pub word: String,
    pub zpk_name: Option<String>,
    pub current_learned_times: i64,
}

/// The value of a `WordDb`.
pub struct WordEntry {
    pub word_id: i64,
    pub word: Seq<char>,
    pub zpk_name: Seq<char>,
    pub current_learned_times: i64,
}

impl WordDb {
    pub open spec fn entry(self) -> WordEntry {
        WordEntry {
            word_id: self.word_id,
            word: self.word@,
            zpk_name: self.zpk_name@,
            current_learned_times: self.current_learned_times,
        }
    }
}

/// The marker `\/r\/` that stored pack names carry.
pub open spec fn r_marker() -> Seq<char> {
    seq!['\\', '/', 'r', '\\', '/']
}

/// The marker `\.zpk` that stored pack names carry.
pub open spec fn zpk_marker() -> Seq<char> {
    seq!['\\', '.', 'z', 'p', 'k']
}

/// A stored pack name with every `\/r\/` removed, then every `\.zpk` removed.
pub open spec fn normalized_zpk_name(raw: Seq<char>) -> Seq<char> {
    replaced(replaced(raw, r_marker(), Seq::empty()), zpk_marker(), Seq::empty())
}

/// A pack name without any backslash is already clean: cleaning leaves it as
/// it is.
pub proof fn lemma_clean_name_unchanged(raw: Seq<char>)
    requires
        !raw.contains('\\'),
    ensures
        normalized_zpk_name(raw) == raw,
{
    lemma_replaced_absent(raw, r_marker(), Seq::empty());
    lemma_replaced_absent(raw, zpk_marker(), Seq::empty());
}

/// A stored pack name `\\/r\\/NAME\\.zpk` cleans to `NAME` when `NAME` holds no
/// backslash.
pub proof fn lemma_stored_name_cleans_to_inner(name: Seq<char>)
    requires
        !name.contains('\\'),
    ensures
        normalized_zpk_name(r_marker() + name + zpk_marker()) == name,
{
    let e = Seq::<char>::empty();
    let rest = name + zpk_marker();
    assert(r_marker() + name + zpk_marker() =~= r_marker() + rest);
    lemma_replaced_prefix(rest, r_marker(), e);
    assert forall|i: int| !#[trigger] occurs_at(rest, i, r_marker()) by {
        if occurs_at(rest, i, r_marker()) {
            assert(rest.subrange(i, i + 5)[0] == rest[i]);
            if i < name.len() {
                assert(rest[i] == name[i]);
                assert(name.contains(name[i]));
            } else {
                assert(i == name.len());
                assert(rest.subrange(i, i + 5)[1] == rest[i + 1]);
                assert(rest[i + 1] == '.');
            }
        }
    }
    lemma_replaced_no_occurrence(rest, r_marker(), e);
    assert(e + rest =~= rest);
    lemma_replaced_suffix(name, zpk_marker(), e);
    assert(name + e =~= name);
}

/// The words of `rows` that have a pack name, in order, with their pack names
/// cleaned.
pub open spec fn kept_words(rows: Seq<WordRow>) -> Seq<WordEntry>
    decreases rows.len(),
{
    if rows.len() == 0 {
        Seq::empty()
    } else {
        let rest = kept_words(rows.drop_last());
        let row = rows.last();
        match row.zpk_name {
            Some(z) => rest.push(
                WordEntry {
                    word_id: row.word_id,
                    word: row.word@,
                    zpk_name: normalized_zpk_name(z@),
                    current_learned_times: row.current_learned_times,
                },
            ),
            None => rest,
        }
    }
}

/// Rows that carry a pack name.
pub open spec fn has_pack() -> spec_fn(WordRow) -> bool {
    |row: WordRow| row.zpk_name is Some
}

/// The words kept from a listing are its rows that carry a pack name, in
/// order and one for one: each keeps the id, spelling and learning count of its
/// row, and gets the cleaned pack name of its row.
pub proof fn lemma_kept_words_are_rows_with_pack(rows: Seq<WordRow>)
    ensures
        kept_words(rows).len() == rows.filter(has_pack()).len(),
        forall|k: int|
            0 <= k < kept_words(rows).len() ==> {
                let row = #[trigger] rows.filter(has_pack())[k];
                &&& row.zpk_name is Some
                &&& kept_words(rows)[k].word_id == row.word_id
                &&& kept_words(rows)[k].word == row.word@
                &&& kept_words(rows)[k].current_learned_times == row.current_learned_times
                &&& kept_words(rows)[k].zpk_name == normalized_zpk_name(row.zpk_name->0@)
            },
    decreases rows.len(),
{
    reveal(Seq::filter);
    if rows.len() > 0 {
        lemma_kept_words_are_rows_with_pack(rows.drop_last());
    }
}

/// Cleans a stored pack name: removes every `\/r\/`, then every `\.zpk`.
pub fn normalize_zpk_name(raw: &str) -> (r: String)
    ensures
        r@ == normalized_zpk_name(raw@),
{
    proof {
        reveal_strlit("\\/r\\/");
        reveal_strlit("\\.zpk");
        reveal_strlit("");
        assert("\\/r\\/"@ =~= r_marker());
        assert("\\.zpk"@ =~= zpk_marker());
        assert(""@ =~= Seq::<char>::empty());
    }
    let without_r = replace_all(raw, "\\/r\\/", "");
    replace_all(without_r.as_str(), "\\.zpk", "")
}

/// The words of a listing: rows without a pack name are left out, the others
/// keep their order and get their pack names cleaned.
pub fn words_from_rows(rows: Vec<WordRow>) -> (r: Vec<WordDb>)
    ensures
        r@.map_values(|w: WordDb| w.entry()) == kept_words(rows@),
        r@.len() == rows@.filter(has_pack()).len(),
        forall|k: int|
            0 <= k < r@.len() ==> {
                let row = #[trigger] rows@.filter(has_pack())[k];
                &&& row.zpk_name is Some
                &&& r@[k].word_id == row.word_id
                &&& r@[k].word@ == row.word@
                &&& r@[k].current_learned_times == row.current_learned_times
                &&& r@[k].zpk_name@ == normalized_zpk_name(row.zpk_name->0@)
            },
{
    let mut records: Vec<WordDb> = Vec::new();
    for i in 0..rows.len()
        invariant
            records@.map_values(|w: WordDb| w.entry()) == kept_words(rows@.take(i as int)),
    {
        let row = &rows[i];
        assert(rows@.take(i + 1).drop_last() =~= rows@.take(i as int));
        assert(rows@.take(i + 1).last() == rows@[i as int]);
        match &row.zpk_name {
            Some(z) => {
                let zpk_name = normalize_zpk_name(z.as_str());
                let ghost before = records@;
                records.push(
                    WordDb {
                        word_id: row.word_id,
                        word: row.word.clone(),
                        zpk_name,
                        current_learned_times: row.current_learned_times,
                    },
                );
                assert(records@.map_values(|w: WordDb| w.entry()) =~= before.map_values(
                    |w: WordDb| w.entry(),
                ).push(records@.last().entry()));
            },
            None => {},
        }
    }
    assert(rows@.take(rows.len() as int) =~= rows@);
    proof {
        lemma_kept_words_are_rows_with_pack(rows@);
        assert forall|k: int| 0 <= k < records@.len() implies records@.map_values(
            |w: WordDb| w.entry(),
        )[k] == (#[trigger] records@[k]).entry() by {}
    }
    records
}

/// The pack name of a looked-up word: cleaned when present, empty when missing.
pub open spec fn looked_up_zpk_name(zpk_name: Option<String>) -> Seq<char> {
    match zpk_name {
        Some(z) => normalized_zpk_name(z@),
        None => Seq::empty(),
    }
}

/// The word of a single looked-up row; a missing pack name becomes empty.
pub fn word_from_row(row: WordRow) -> (r: WordDb)
    ensures
        r.entry() == (WordEntry {
            word_id: row.word_id,
            word: row.word@,
            zpk_name: looked_up_zpk_name(row.zpk_name),
            current_learned_times: row.current_learned_times,
        }),
        r.word_id == row.word_id,
        r.word@ == row.word@,
        r.current_learned_times == row.current_learned_times,
        row.zpk_name is None ==> r.zpk_name@ == Seq::<char>::empty(),
        row.zpk_name matches Some(z) ==> r.zpk_name@ == normalized_zpk_name(z@),
{
    let zpk_name = match &row.zpk_name {
        Some(z) => normalize_zpk_name(z.as_str()),
        None => String::new(),
    };
    WordDb {
        word_id: row.word_id,
        word: row.word,
        zpk_name,
        current_learned_times: row.current_learned_times,
    }
}

} // verus!
