//! The directories that plugins are loaded from.

use path_slash::PathBufExt;
use regex::Regex;
use std::path::{Path, PathBuf};
use vstd::prelude::*;

verus! {

/// A letter `a` to `z` or `A` to `Z`.
pub open spec fn is_ascii_letter(c: char) -> bool {
    ('a' <= c && c <= 'z') || ('A' <= c && c <= 'Z')
}

/// The text starts with a drive letter and a colon.
pub open spec fn has_drive(text: Seq<char>) -> bool {
    text.len() >= 2 && is_ascii_letter(text[0]) && text[1] == ':'
}

/// The text without its drive, if it has one.
pub open spec fn without_drive(text: Seq<char>) -> Seq<char> {
    if has_drive(text) {
        text.skip(2)
    } else {
        text
    }
}

/// The text starts with `\\?\` and a drive.
pub open spec fn is_verbatim_disk(text: Seq<char>) -> bool {
    text.len() >= 4 && text.take(4) == seq!['\\', '\\', '?', '\\'] && has_drive(text.skip(4))
}

/// What simplifying a path can give: a path with a verbatim prefix before its
/// drive may lose that prefix, any other is kept.
pub open spec fn simplifies_to(text: Seq<char>, res: Seq<char>) -> bool {
    res == text || (is_verbatim_disk(text) && res == text.skip(4))
}

/// A slash of either kind.
pub open spec fn is_separator(c: char) -> bool {
    c == '/' || c == '\\'
}

/// The text starts neither with a drive nor with two slashes.
pub open spec fn is_unprefixed(text: Seq<char>) -> bool {
    text.len() >= 2 ==> text[1] != ':' && !(is_separator(text[0]) && is_separator(text[1]))
}

/// A path as it is usually written: without a prefix, an empty component, a `.`
/// component or a trailing slash.
pub open spec fn is_plain_path(text: Seq<char>) -> bool {
    &&& is_unprefixed(text)
    &&& forall|i: int|
        0 <= i < text.len() - 1 && is_separator(#[trigger] text[i]) ==> !is_separator(text[i + 1])
    &&& forall|i: int|
        0 <= i < text.len() && #[trigger] text[i] == '.' ==> (i > 0 && !is_separator(text[i - 1]))
            || (i < text.len() - 1 && !is_separator(text[i + 1]))
    &&& text.len() >= 2 ==> !is_separator(text.last())
}

/// The text with `/` in place of each `\`.
pub open spec fn forward_slashes(text: Seq<char>) -> Seq<char> {
    text.map_values(|c: char| if c == '\\' { '/' } else { c })
}

/// A server and a share stand in the text from `from` up to `end`, with one `\`
/// between them.
pub open spec fn is_share(text: Seq<char>, from: int, end: int) -> bool {
    &&& end <= text.len()
    &&& exists|at: int|
        #![trigger text[at]]
        from < at < end - 1 && text[at] == '\\' && forall|i: int|
            from <= i < end && i != at ==> !is_separator(#[trigger] text[i])
}

/// The first `end` characters are the prefix of a Windows path: a drive or a network
/// share, either of them as it is or in verbatim form.
pub open spec fn is_prefix(text: Seq<char>, end: int) -> bool {
    ||| end == 2 && has_drive(text)
    ||| end == 6 && is_verbatim_disk(text)
    ||| {
        &&& text.len() > 2 && text.take(2) == seq!['\\', '\\']
        &&& text[2] != '?' && text[2] != '.'
        &&& is_share(text, 2, end)
    }
    ||| {
        &&& text.len() > 8 && text.take(8) == seq!['\\', '\\', '?', '\\', 'U', 'N', 'C', '\\']
        &&& is_share(text, 8, end)
    }
}

/// A plain path that follows a prefix: nothing, or a path that starts with `\`.
pub open spec fn is_plain_rest(text: Seq<char>) -> bool {
    text.len() == 0 || (text[0] == '\\' && is_plain_path(text))
}

/// The characters that name something: all but slashes and dots.
pub open spec fn names_in(text: Seq<char>) -> Seq<char> {
    text.filter(|c: char| !is_separator(c) && c != '.')
}

/// What writing a path with forward slashes can give. On Windows each `\` of a
/// plain path becomes `/`, and so does each `\` of a plain path that follows a
/// prefix, while the prefix itself is kept; elsewhere the text is kept. Of any other
/// path nothing but slashes and dots is lost, and without a prefix no `\` stays.
pub open spec fn slashes_to(text: Seq<char>, res: Seq<char>) -> bool {
    &&& is_plain_path(text) ==> res == text || res == forward_slashes(text)
    &&& forall|end: int| #[trigger]
        is_prefix(text, end) && is_plain_rest(text.skip(end)) ==> res == text || res == text.take(
            end,
        ) + forward_slashes(text.skip(end))
    &&& is_unprefixed(text) ==> res == text || !res.contains('\\')
    &&& names_in(res) == names_in(text)
}

/// `dunce::simplified`, which does no I/O. On Windows it takes the prefix `\\?\`
/// off a path that goes on with a drive and needs no such prefix; which paths
/// need it is left unsaid. Any other path, and on other systems every path, comes
/// back unchanged.
#[verifier::external_body]
fn simplified(path: &str) -> (res: String)
    ensures
        simplifies_to(path@, res@),
{
    dunce::simplified(Path::new(path)).to_string_lossy().to_string()
}

/// `regex::Regex::replace` with the one pattern that is used here: an ASCII letter
/// and a colon at the start of the text. Where they stand there, `with` takes
/// their place; otherwise the text comes back unchanged. A `$` in `with` would
/// name a group.
#[verifier::external_body]
fn replace_drive(pattern: &str, text: &str, with: &str) -> (res: String)
    requires
        pattern@ == "^[a-zA-Z]:"@,
        !with@.contains('$'),
    ensures
        has_drive(text@) ==> res@ == with@ + text@.skip(2),
        !has_drive(text@) ==> res@ == text@,
{
    Regex::new(pattern).unwrap().replace(text, with).to_string()
}

/// `path_slash::PathBufExt::to_slash_lossy`. On Windows it writes the components
/// of the path with `/` between them, after the prefix as it stands, if there is one;
/// elsewhere it gives the text back. On Windows empty and `.` components and a last
/// `/` are left out: what exactly becomes of such a path is left unsaid, but that
/// nothing except slashes and dots is lost, and that no `\` stays where there is no
/// prefix.
#[verifier::external_body]
fn to_slash(path: &str) -> (res: String)
    ensures
        slashes_to(path@, res@),
{
    PathBuf::from(path).to_slash_lossy().to_string()
}

/// What preparing a path can give: it is simplified, loses its drive, and is written
/// with forward slashes.
pub open spec fn fixes_to(text: Seq<char>, res: Seq<char>) -> bool {
    exists|simple: Seq<char>| #[trigger]
        simplifies_to(text, simple) && slashes_to(without_drive(simple), res)
}

/// Prepares a Windows path for the plugin runtime's process, which takes neither
/// verbatim prefixes nor drives nor backslashes.
pub fn fix_windows_paths(p: &str) -> (res: String)
    ensures
        fixes_to(p@, res@),
{
    // 1. Remove the verbatim prefix
    let safe_path = simplified(p);
    // 2. Remove the drive and turn the slashes
    let res = fix_simplified_path(safe_path.as_str());
    assert(simplifies_to(p@, safe_path@));
    res
}

/// The same for a path that has been simplified already, or that is not to be.
pub fn fix_simplified_path(simple: &str) -> (res: String)
    ensures
        slashes_to(without_drive(simple@), res@),
{
    let no_drive = strip_drive(simple);
    to_slash(no_drive.as_str())
}

/// The text without its drive, if it has one.
pub fn strip_drive(text: &str) -> (res: String)
    ensures
        res@ == without_drive(text@),
{
    proof {
        reveal_strlit("");
    }
    let res = replace_drive("^[a-zA-Z]:", text, "");
    assert(""@ + text@.skip(2) =~= text@.skip(2));
    res
}

/// What one read of a directory gave.
#[derive(Debug, PartialEq, Eq)]
pub enum EntryRead {
    /// An entry: the text of its path, and whether it is a directory.
    Entry { path: String, is_dir: bool },
    /// There are no more entries.
    End,
    /// The read failed.
    Failed,
}

/// The reads that end a listing.
pub open spec fn ends_listing() -> spec_fn(EntryRead) -> bool {
    |read: EntryRead| !(read is Entry)
}

/// The reads that gave a directory.
pub open spec fn gives_dir() -> spec_fn(EntryRead) -> bool {
    |read: EntryRead| read matches EntryRead::Entry { is_dir, .. } && is_dir
}

/// The directories that a listing holds after one more read.
pub open spec fn listed(dirs: Seq<String>, read: EntryRead) -> Seq<String> {
    if gives_dir()(read) {
        dirs.push(read->path)
    } else {
        dirs
    }
}

/// The directories that a listing holds once it has read `reads`, up to the first
/// read that ends it.
pub open spec fn listed_all(dirs: Seq<String>, reads: Seq<EntryRead>) -> Seq<String>
    decreases reads.len(),
{
    if reads.len() == 0 || ends_listing()(reads[0]) {
        dirs
    } else {
        listed_all(listed(dirs, reads[0]), reads.drop_first())
    }
}

/// The plugin directories among the entries of a directory.
#[derive(Debug)]
pub struct DirListing {
    dirs: Vec<String>,
}

impl View for DirListing {
    type V = Seq<String>;

    closed spec fn view(&self) -> Seq<String> {
        self.dirs@
    }
}

impl DirListing {
    /// A listing that has read nothing yet.
    pub fn new() -> (res: DirListing)
        ensures
            res@ == Seq::<String>::empty(),
    {
        DirListing { dirs: Vec::new() }
    }

    /// Takes what a read gave, and says whether to read on. A directory is kept,
    /// any other entry is passed over, and a failed read ends the listing as the
    /// last entry does.
    pub fn accept(&mut self, read: EntryRead) -> (res: bool)
        ensures
            final(self)@ == listed(old(self)@, read),
            res == !ends_listing()(read),
    {
        match read {
            EntryRead::Entry { path, is_dir } => {
                if is_dir {
                    self.dirs.push(path);
                }
                true
            },
            EntryRead::End => false,
            EntryRead::Failed => false,
        }
    }

    /// The directories, in the order in which they were read.
    pub fn into_dirs(self) -> (res: Vec<String>)
        ensures
            res@ == self@,
    {
        self.dirs
    }
}

} // verus!
