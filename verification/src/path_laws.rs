//! What holds of plugin directories and of their paths.

use crate::paths::{
    ends_listing, fixes_to, forward_slashes, is_plain_rest, is_prefix, is_separator, listed,
    names_in, simplifies_to, slashes_to, without_drive, EntryRead,
};
use crate::text::ascii_lowercase;
use vstd::prelude::*;

verus! {

// Listing

/// A read that gave a directory adds its path, as it is, at the end. Any other read
/// adds nothing, and only the end and a failure end the listing.
pub proof fn law_read_adds_a_directory(dirs: Seq<String>, read: EntryRead)
    ensures
        match read {
            EntryRead::Entry { path, is_dir } => {
                &&& is_dir ==> listed(dirs, read) == dirs.push(path)
                &&& !is_dir ==> listed(dirs, read) == dirs
                &&& !ends_listing()(read)
            },
            EntryRead::End => listed(dirs, read) == dirs && ends_listing()(read),
            EntryRead::Failed => listed(dirs, read) == dirs && ends_listing()(read),
        },
{
}

// Drives

/// A letter and a colon at the start are taken off, whatever follows them, and nothing
/// else is.
pub proof fn law_drive_is_taken_off(letter: char, rest: Seq<char>)
    requires
        ('a' <= letter && letter <= 'z') || ('A' <= letter && letter <= 'Z'),
    ensures
        without_drive(seq![letter, ':'] + rest) == rest,
{
    assert((seq![letter, ':'] + rest).skip(2) =~= rest);
}

/// A text that does not start with a letter and a colon is kept.
pub proof fn law_text_without_drive_is_kept(text: Seq<char>)
    requires
        text.len() < 2 || text[1] != ':' || !(('a' <= text[0] && text[0] <= 'z') || ('A' <= text[0]
            && text[0] <= 'Z')),
    ensures
        without_drive(text) == text,
{
}

// Slashes

/// The text has no drive and no double slash at its start, no empty and no `.`
/// component, and no slash at its end.
pub open spec fn is_usual(text: Seq<char>) -> bool {
    &&& text.len() >= 2 ==> text[1] != ':' && text.last() != '/' && text.last() != '\\'
    &&& forall|i: int, j: int|
        #![trigger text[i], text[j]]
        0 <= i && j == i + 1 && j < text.len() ==> !((text[i] == '/' || text[i] == '\\') && (text[j]
            == '/' || text[j] == '\\'))
    &&& forall|i: int|
        0 <= i < text.len() && #[trigger] text[i] == '.' ==> {
            ||| i > 0 && text[i - 1] != '/' && text[i - 1] != '\\'
            ||| i < text.len() - 1 && text[i + 1] != '/' && text[i + 1] != '\\'
        }
}

/// The text is the same but that slashes may have been turned.
pub open spec fn is_same_path(text: Seq<char>, res: Seq<char>) -> bool {
    &&& res.len() == text.len()
    &&& forall|i: int|
        0 <= i < text.len() ==> #[trigger] res[i] == text[i] || (text[i] == '\\' && res[i] == '/')
}

/// Writing a usual path with forward slashes keeps every character but backslashes, in
/// its place. Either all of them are turned, or none is.
pub proof fn law_only_slashes_are_turned(text: Seq<char>, res: Seq<char>)
    requires
        is_usual(text),
        slashes_to(text, res),
    ensures
        is_same_path(text, res),
        res == text || forall|i: int| 0 <= i < res.len() ==> #[trigger] res[i] != '\\',
{
    assert forall|i: int|
        0 <= i < text.len() - 1 && (#[trigger] text[i] == '/' || text[i] == '\\') implies !(text[i
        + 1] == '/' || text[i + 1] == '\\') by {
        let j = i + 1;
        assert(!((text[i] == '/' || text[i] == '\\') && (text[j] == '/' || text[j] == '\\')));
    }
    if text.len() >= 2 {
        assert(!((text[0] == '/' || text[0] == '\\') && (text[1] == '/' || text[1] == '\\')));
    }
}

/// Whatever the path, every character but slashes and dots that stands in it stands in
/// what comes out, and nothing else but slashes and dots does.
pub proof fn law_no_name_is_lost(text: Seq<char>, res: Seq<char>, c: char)
    requires
        slashes_to(text, res),
        c != '/' && c != '\\' && c != '.',
    ensures
        text.contains(c) <==> res.contains(c),
{
    let pred = |c: char| !is_separator(c) && c != '.';
    assert(names_in(text) == text.filter(pred));
    assert(names_in(res) == res.filter(pred));
    if text.contains(c) {
        let i = choose|i: int| 0 <= i < text.len() && text[i] == c;
        text.lemma_filter_contains(pred, i);
        res.lemma_filter_contains_rev(pred, c);
    }
    if res.contains(c) {
        let i = choose|i: int| 0 <= i < res.len() && res[i] == c;
        res.lemma_filter_contains(pred, i);
        text.lemma_filter_contains_rev(pred, c);
    }
}

/// A path is simplified by at most the four characters of a verbatim prefix before a
/// drive.
pub proof fn law_only_a_verbatim_prefix_goes(text: Seq<char>, res: Seq<char>)
    requires
        simplifies_to(text, res),
    ensures
        res == text || (text.len() >= 6 && text[0] == '\\' && text[1] == '\\' && text[2] == '?'
            && text[3] == '\\' && text[5] == ':' && res == text.skip(4)),
{
    if res != text {
        let start = text.take(4);
        assert(start[0] == text[0] && start[1] == text[1] && start[2] == text[2] && start[3]
            == text[3]);
        assert(text.skip(4)[1] == text[5]);
    }
}

// Whole paths

/// A path with a drive comes out without it, and is otherwise the same path.
pub proof fn law_fixed_path_has_lost_its_drive(letter: char, rest: Seq<char>, res: Seq<char>)
    requires
        ('a' <= letter && letter <= 'z') || ('A' <= letter && letter <= 'Z'),
        is_usual(rest),
        fixes_to(seq![letter, ':'] + rest, res),
    ensures
        is_same_path(rest, res),
        res == rest || forall|i: int| 0 <= i < res.len() ==> #[trigger] res[i] != '\\',
{
    let text = seq![letter, ':'] + rest;
    let simple = choose|simple: Seq<char>| #[trigger]
        simplifies_to(text, simple) && slashes_to(without_drive(simple), res);
    law_only_a_verbatim_prefix_goes(text, simple);
    law_drive_is_taken_off(letter, rest);
    law_only_slashes_are_turned(rest, res);
}

/// A path on one drive comes out as the same path on any other drive does.
pub proof fn law_drives_make_no_difference(
    first: char,
    second: char,
    rest: Seq<char>,
    res: Seq<char>,
)
    requires
        ('a' <= first && first <= 'z') || ('A' <= first && first <= 'Z'),
        ('a' <= second && second <= 'z') || ('A' <= second && second <= 'Z'),
        fixes_to(seq![first, ':'] + rest, res),
    ensures
        fixes_to(seq![second, ':'] + rest, res),
{
    let text = seq![first, ':'] + rest;
    let other = seq![second, ':'] + rest;
    let simple = choose|simple: Seq<char>| #[trigger]
        simplifies_to(text, simple) && slashes_to(without_drive(simple), res);
    law_only_a_verbatim_prefix_goes(text, simple);
    law_drive_is_taken_off(first, rest);
    law_drive_is_taken_off(second, rest);
    assert(simplifies_to(other, other));
}

/// A path without a drive and without a prefix comes out as the same path.
pub proof fn law_path_without_drive_stays(text: Seq<char>, res: Seq<char>)
    requires
        is_usual(text),
        fixes_to(text, res),
    ensures
        is_same_path(text, res),
{
    let simple = choose|simple: Seq<char>| #[trigger]
        simplifies_to(text, simple) && slashes_to(without_drive(simple), res);
    law_only_a_verbatim_prefix_goes(text, simple);
    if simple != text {
        assert(!((text[0] == '/' || text[0] == '\\') && (text[1] == '/' || text[1] == '\\')));
    }
    law_text_without_drive_is_kept(text);
    law_only_slashes_are_turned(text, res);
}

/// A verbatim path comes out without its prefix and its drive, or with both as they are;
/// what follows is the same path.
pub proof fn law_verbatim_path_keeps_its_rest(letter: char, rest: Seq<char>, res: Seq<char>)
    requires
        ('a' <= letter && letter <= 'z') || ('A' <= letter && letter <= 'Z'),
        rest.len() > 0 && rest[0] == '\\',
        is_usual(rest),
        fixes_to(seq!['\\', '\\', '?', '\\', letter, ':'] + rest, res),
    ensures
        is_same_path(rest, res) || {
            &&& res.len() == rest.len() + 6
            &&& res.take(6) == seq!['\\', '\\', '?', '\\', letter, ':']
            &&& is_same_path(rest, res.skip(6))
        },
{
    let prefix = seq!['\\', '\\', '?', '\\', letter, ':'];
    let text = prefix + rest;
    let simple = choose|simple: Seq<char>| #[trigger]
        simplifies_to(text, simple) && slashes_to(without_drive(simple), res);
    law_only_a_verbatim_prefix_goes(text, simple);
    if simple == text {
        law_text_without_drive_is_kept(text);
        assert(text.skip(6) =~= rest);
        assert(text.take(6) =~= prefix);
        assert(text.take(4) =~= seq!['\\', '\\', '?', '\\']);
        assert(text.skip(4)[0] == letter && text.skip(4)[1] == ':');
        assert(is_prefix(text, 6));
        assert forall|i: int|
            0 <= i < rest.len() - 1 && (#[trigger] rest[i] == '/' || rest[i] == '\\') implies !(
        rest[i + 1] == '/' || rest[i + 1] == '\\') by {
            let j = i + 1;
            assert(!((rest[i] == '/' || rest[i] == '\\') && (rest[j] == '/' || rest[j] == '\\')));
        }
        if rest.len() >= 2 {
            assert(!((rest[0] == '/' || rest[0] == '\\') && (rest[1] == '/' || rest[1] == '\\')));
        }
        assert(is_plain_rest(rest));
        assert(res.take(6) =~= prefix);
        if res == text {
            assert(res.skip(6) =~= rest);
        } else {
            assert(res.skip(6) =~= forward_slashes(rest));
        }
    } else {
        assert(simple =~= seq![letter, ':'] + rest);
        law_drive_is_taken_off(letter, rest);
        law_only_slashes_are_turned(rest, res);
    }
}

// Letters

/// Of the ASCII characters, `A` to `Z` become the letters that are as far from `a` as
/// they are from `A`, and any other stays what it is.
pub proof fn law_capital_letters_are_lowered(c: char)
    ensures
        'A' <= c && c <= 'Z' ==> ascii_lowercase(c) as int - 'a' as int == c as int - 'A' as int,
        !('A' <= c && c <= 'Z') ==> ascii_lowercase(c) == c,
{
}

} // verus!
