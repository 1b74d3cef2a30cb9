//! Where the application keeps its files, as sequences of path components.
use vstd::prelude::*;
use crate::records::WordDb;

verus! {

/// A path given by its components: the first one is the root the others are
/// joined onto, one after another, as `PathBuf::join` joins them.
pub struct AppPath {
    pub parts: Vec<String>,
}

impl View for AppPath {
    type V = Seq<Seq<char>>;

    open spec fn view(&self) -> Seq<Seq<char>> {
        self.parts@.map_values(|p: String| p@)
    }
}

impl AppPath {
    /// The path made of `root` alone.
    pub fn new(root: String) -> (r: AppPath)
        ensures
            r@ == seq![root@],
    {
        let mut parts: Vec<String> = Vec::new();
        parts.push(root);
        let r = AppPath { parts };
        assert(r@ =~= seq![r.parts@[0]@]);
        r
    }

    /// This path with `part` joined at its end.
    pub fn join(self, part: &str) -> (r: AppPath)
        ensures
            r@ == self@.push(part@),
    {
        let mut parts = self.parts;
        let ghost before = parts@;
        parts.push(String::from_str(part));
        let r = AppPath { parts };
        assert(r@ =~= before.map_values(|p: String| p@).push(part@));
        r
    }
}

impl WordDb {
    /// The directory of this word's resource pack: `resource`, then the pack
    /// name, under the application's home directory.
    pub fn zpk_path(&self, app_home_path: AppPath) -> (r: AppPath)
        ensures
            r@ == app_home_path@.push("resource"@).push(self.zpk_name@),
    {
        app_home_path.join("resource").join(self.zpk_name.as_str())
    }
}

/// The name of the application, which is also the name of its home directory.
pub fn app_name() -> (r: &'static str)
    ensures
        r@ == seq!['l', 'i', 's', 't', 'e', 'n', 'i', 'n', 'g'],
{
    proof {
        reveal_strlit("listening");
    }
    "listening"
}

/// The relative place of the resource packs, `listening\resource`.
pub fn resource_path() -> (r: &'static str)
    ensures
        r@ == seq!['l', 'i', 's', 't', 'e', 'n', 'i', 'n', 'g', '\\', 'r', 'e', 's', 'o', 'u', 'r', 'c', 'e'],
{
    proof {
        reveal_strlit("listening\\resource");
    }
    "listening\\resource"
}

} // verus!
