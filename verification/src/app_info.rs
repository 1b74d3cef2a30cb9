//! What the application tells the front end about itself, and where it fetches
//! a word's pronunciation.
use vstd::prelude::*;

verus! {

/// The hint shown at start-up:
/// `1. Current Git build version: <branch>-<commit>, build time: <time>.`
pub open spec fn hint_text(branch: Seq<char>, commit: Seq<char>, build_date_time: Seq<char>) -> Seq<char> {
    "1. Current Git build version: "@ + branch + "-"@ + commit + ", build time: "@ + build_date_time
        + "."@
}

/// The start-up hint for a build of `branch` at `commit`, made at `build_date_time`.
pub fn build_hint(branch: &str, commit: &str, build_date_time: &str) -> (r: String)
    ensures
        r@ == hint_text(branch@, commit@, build_date_time@),
{
    let mut r = String::from_str("1. Current Git build version: ");
    r.append(branch);
    r.append("-");
    r.append(commit);
    r.append(", build time: ");
    r.append(build_date_time);
    r.append(".");
    r
}

/// The address of the spoken pronunciation of `word`.
pub open spec fn audio_url_text(word: Seq<char>) -> Seq<char> {
    "https://dict.youdao.com/dictvoice?type=2&audio="@ + word
}

/// The address from which the pronunciation of `word` is downloaded.
pub fn word_audio_url(word: &str) -> (r: String)
    ensures
        r@ == audio_url_text(word@),
{
    let mut r = String::from_str("https://dict.youdao.com/dictvoice?type=2&audio=");
    r.append(word);
    r
}

/// The address of the word store kept in the file `db_path`.
pub open spec fn store_url_text(db_path: Seq<char>) -> Seq<char> {
    "sqlite:"@ + db_path
}

/// The address under which the word store in the file `db_path` is opened.
pub fn sqlite_url(db_path: &str) -> (r: String)
    ensures
        r@ == store_url_text(db_path@),
{
    let mut r = String::from_str("sqlite:");
    r.append(db_path);
    r
}

/// The settings the front end loads at start-up.
pub struct ViewConfig {
    pub hint: String,
    pub debug: bool,
}

impl ViewConfig {
    /// The settings made of the application's hint and the configured debug flag.
    pub fn init(app_hint: &String, debug: bool) -> (r: Self)
        ensures
            r.hint@ == app_hint@,
            r.debug == debug,
    {
        ViewConfig { hint: app_hint.clone(), debug }
    }
}

} // verus!
