//! The list of recently opened files, most recent first, and its JSON form.
//! Paths are held as their text.
use vstd::prelude::*;

verus! {

/// How many recent files the list keeps.
pub const MAX_RECENT_FILES: usize = 10;

pub open spec fn text_views(v: Seq<String>) -> Seq<Seq<char>> {
    v.map_values(|s: String| s@)
}

/// Holds of every path but `path`.
pub open spec fn other_than(path: Seq<char>) -> spec_fn(Seq<char>) -> bool {
    |q: Seq<char>| q != path
}

/// The list after `path` was opened: `path` first, then the other entries in
/// their order without `path`, cut to `MAX_RECENT_FILES`.
pub open spec fn with_recent(list: Seq<Seq<char>>, path: Seq<char>) -> Seq<Seq<char>> {
    let moved = seq![path] + list.filter(other_than(path));
    if moved.len() > MAX_RECENT_FILES {
        moved.take(MAX_RECENT_FILES as int)
    } else {
        moved
    }
}

/// The strings that a JSON text holds when it is an array of strings.
pub uninterp spec fn json_string_list(text: Seq<char>) -> Option<Seq<Seq<char>>>;

/// The pretty-printed JSON array of the given strings.
pub uninterp spec fn pretty_json_list(list: Seq<Seq<char>>) -> Seq<char>;

/// Relies on `serde_json::from_str::<Vec<String>>`: `Ok` with the array's strings
/// in order when the text is a JSON array of strings; the result depends on the text alone.
#[verifier::external_body]
fn decode_string_list(text: &str) -> (r: Option<Vec<String>>)
    ensures
        r matches Some(v) ==> json_string_list(text@) == Some(text_views(v@)),
        r is None ==> json_string_list(text@) is None,
{
    serde_json::from_str::<Vec<String>>(text).ok()
}

/// Relies on `serde_json::to_string_pretty`: the pretty-printed JSON of the strings,
/// which depends on them alone.
#[verifier::external_body]
fn encode_string_list(list: &Vec<String>) -> (r: Option<String>)
    ensures
        r matches Some(s) ==> s@ == pretty_json_list(text_views(list@)),
{
    serde_json::to_string_pretty(list).ok()
}

/// The paths that a saved recent-files text lists; `None` when it is not a JSON
/// array of strings.
pub fn parse_recent_files(json: &str) -> (r: Option<Vec<String>>)
    ensures
        r matches Some(v) ==> json_string_list(json@) == Some(text_views(v@)),
        r is None <==> json_string_list(json@) is None,
{
    decode_string_list(json)
}

/// Keeps the recently opened files.
pub struct FileManager {
    recent_files: Vec<String>,
}

impl View for FileManager {
    type V = Seq<Seq<char>>;

    closed spec fn view(&self) -> Seq<Seq<char>> {
        text_views(self.recent_files@)
    }
}

impl FileManager {
    /// A manager with no recent files.
    pub fn new() -> (r: FileManager)
        ensures
            r@ == Seq::<Seq<char>>::empty(),
    {
        let r = FileManager { recent_files: Vec::new() };
        assert(r@ =~= Seq::<Seq<char>>::empty());
        r
    }

    /// Records that `path` was opened: it moves to the front, appears once, and
    /// the list keeps at most `MAX_RECENT_FILES` entries.
    pub fn add_recent_file(&mut self, path: String)
        ensures
            final(self)@ == with_recent(old(self)@, path@),
    {
        let ghost old_list = self@;
        let ghost keep = other_than(path@);
        let mut kept: Vec<String> = Vec::new();
        let mut i: usize = 0;
        assert(old_list.take(0).filter(keep) =~= Seq::<Seq<char>>::empty()) by {
            reveal(Seq::filter);
        }
        while i < self.recent_files.len()
            invariant
                i <= self.recent_files.len(),
                old_list == text_views(self.recent_files@),
                keep == other_than(path@),
                text_views(kept@) == old_list.take(i as int).filter(keep),
            decreases self.recent_files.len() - i,
        {
            let ghost prev = kept@;
            proof {
                assert(old_list.take(i + 1).drop_last() =~= old_list.take(i as int));
                assert(old_list.take(i + 1).last() == self.recent_files@[i as int]@);
            }
            if !(self.recent_files[i] == path) {
                kept.push(self.recent_files[i].clone());
                assert(text_views(kept@) =~= text_views(prev).push(self.recent_files@[i as int]@));
            }
            proof {
                reveal(Seq::filter);
                let t = old_list.take(i + 1);
                assert(t.filter(keep) == if keep(t.last()) {
                    t.drop_last().filter(keep).push(t.last())
                } else {
                    t.drop_last().filter(keep)
                });
            }
            i += 1;
        }
        assert(old_list.take(self.recent_files.len() as int) =~= old_list);
        let ghost filtered = kept@;
        kept.insert(0, path);
        assert(text_views(kept@) =~= seq![path@] + text_views(filtered));
        if kept.len() > MAX_RECENT_FILES {
            let ghost full = kept@;
            kept.truncate(MAX_RECENT_FILES);
            assert(text_views(kept@) =~= text_views(full).take(MAX_RECENT_FILES as int));
        }
        self.recent_files = kept;
    }

    /// The recent files, most recent first.
    pub fn get_recent_files(&self) -> (r: &[String])
        ensures
            text_views(r@) == self@,
    {
        self.recent_files.as_slice()
    }

    /// Replaces the list with `files`, as read back from storage.
    pub fn replace_recent_files(&mut self, files: Vec<String>)
        ensures
            final(self)@ == text_views(files@),
    {
        self.recent_files = files;
    }

    /// The list as pretty-printed JSON, for storage; `None` if it cannot be encoded.
    pub fn recent_files_json(&self) -> (r: Option<String>)
        ensures
            r matches Some(s) ==> s@ == pretty_json_list(self@),
    {
        encode_string_list(&self.recent_files)
    }
}

} // verus!
