//! Links that open a note in an Obsidian vault.

use crate::text::{chars_of, join, join_from, push_range, replace, replaced, texts};
use vstd::prelude::*;
use vstd::string::StringExecFns;

verus! {

/// A vault and the folder inside it that holds the course notes.
#[derive(Debug)]
pub struct ObsidianPath {
    pub vault: String,
    pub courses_root: String,
}

impl Default for ObsidianPath {
    fn default() -> (p: ObsidianPath)
        ensures
            p.vault@.len() == 0,
            p.courses_root@.len() == 0,
    {
        ObsidianPath { vault: String::new(), courses_root: String::new() }
    }
}

/// Text made safe for a link: each blank becomes `%20`, each slash `%2F`.
pub open spec fn escaped(s: Seq<char>) -> Seq<char> {
    replace(replace(s, ' ', "%20"@), '/', "%2F"@)
}

/// A vault name made safe for a link: blanks and slashes both become `%20`.
pub open spec fn escaped_vault(s: Seq<char>) -> Seq<char> {
    replace(replace(s, ' ', "%20"@), '/', "%20"@)
}

/// The link that opens `file` in `vault`, both already escaped.
pub open spec fn open_link(vault: Seq<char>, file: Seq<char>) -> Seq<char> {
    "obsidian://open?vault="@ + vault + "&file="@ + file
}

/// What follows the first occurrence of `mark` among `parts`; nothing when
/// `mark` does not occur.
pub open spec fn after_first(parts: Seq<Seq<char>>, mark: Seq<char>) -> Seq<Seq<char>>
    decreases parts.len(),
{
    if parts.len() == 0 {
        parts
    } else if parts[0] == mark {
        parts.drop_first()
    } else {
        after_first(parts.drop_first(), mark)
    }
}

fn link(vault: &Vec<char>, file: &Vec<char>) -> (uri: String)
    ensures
        uri@ == open_link(vault@, file@),
{
    let mut uri = String::from_str("obsidian://open?vault=");
    push_range(&mut uri, vault, 0, vault.len());
    uri.append("&file=");
    push_range(&mut uri, file, 0, file.len());
    assert(vault@.subrange(0, vault@.len() as int) == vault@);
    assert(file@.subrange(0, file@.len() as int) == file@);
    uri
}

fn escape(v: &Vec<char>) -> (out: Vec<char>)
    ensures
        out@ == escaped(v@),
{
    replaced(&replaced(v, ' ', &chars_of("%20")), '/', &chars_of("%2F"))
}

impl ObsidianPath {
    /// The link that opens the course folder in the vault.
    pub fn to_uri(&self) -> (uri: String)
        ensures
            uri@ == open_link(replace(self.vault@, ' ', "%20"@), escaped(self.courses_root@)),
    {
        let vault = replaced(&chars_of(self.vault.as_str()), ' ', &chars_of("%20"));
        let file = escape(&chars_of(self.courses_root.as_str()));
        link(&vault, &file)
    }

    /// The link that opens a note in `vault`. `note_path` is the note's
    /// path, one entry per component; the link names what follows the first
    /// component equal to `vault`, joined and escaped.
    pub fn build_uri(vault: &String, note_path: &Vec<String>) -> (uri: String)
        ensures
            uri@ == open_link(
                escaped_vault(vault@),
                escaped(join(after_first(texts(note_path@), vault@), "%2F"@)),
            ),
    {
        let vault_chars = chars_of(vault.as_str());
        let mut i: usize = 0;
        assert(texts(note_path@).skip(0) == texts(note_path@));
        while i < note_path.len() && !(note_path[i] == *vault)
            invariant
                i <= note_path.len(),
                after_first(texts(note_path@), vault@) == after_first(
                    texts(note_path@).skip(i as int),
                    vault@,
                ),
            decreases note_path.len() - i,
        {
            assert(texts(note_path@).skip(i as int).drop_first() == texts(note_path@).skip(i + 1));
            assert(texts(note_path@).skip(i as int)[0] == note_path@[i as int]@);
            i += 1;
        }
        let joined = if i < note_path.len() {
            assert(texts(note_path@).skip(i as int)[0] == note_path@[i as int]@);
            assert(texts(note_path@).skip(i as int).drop_first() == texts(note_path@).skip(i + 1));
            join_from(note_path, i + 1, "%2F")
        } else {
            assert(texts(note_path@).skip(i as int).len() == 0);
            Vec::new()
        };
        let file = escape(&joined);
        let vault_text = replaced(
            &replaced(&vault_chars, ' ', &chars_of("%20")),
            '/',
            &chars_of("%20"),
        );
        link(&vault_text, &file)
    }
}

} // verus!
