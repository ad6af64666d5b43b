//! Desktop entries: reading the icon's name out of the text of a desktop file.

use freedesktop_desktop_entry::{DecodeError, DesktopEntry};
use std::path::Path;
use vstd::prelude::*;

verus! {

/// The characters that count as blank at the start of a line: those with the
/// Unicode property White_Space.
pub open spec fn is_blank(c: char) -> bool {
    ||| '\u{9}' <= c <= '\u{D}'
    ||| c == ' '
    ||| c == '\u{85}'
    ||| c == '\u{A0}'
    ||| c == '\u{1680}'
    ||| '\u{2000}' <= c <= '\u{200A}'
    ||| c == '\u{2028}'
    ||| c == '\u{2029}'
    ||| c == '\u{202F}'
    ||| c == '\u{205F}'
    ||| c == '\u{3000}'
}

/// Whether, at the end of `text`, a line has just begun: nothing but blanks
/// has come since the last line feed, or since the start.
pub open spec fn at_line_start(text: Seq<char>) -> bool
    decreases text.len(),
{
    if text.len() == 0 {
        true
    } else if text.last() == '\n' {
        true
    } else {
        is_blank(text.last()) && at_line_start(text.drop_last())
    }
}

/// No line of `text` has `=` as its first character that is not blank: every
/// line that assigns a value names a key.
pub open spec fn keys_named(text: Seq<char>) -> bool {
    forall|i: int| 0 <= i < text.len() && text[i] == '=' ==> !at_line_start(#[trigger] text.take(i))
}

/// Whether a character is blank.
pub fn blank(c: char) -> (b: bool)
    ensures
        b == is_blank(c),
{
    ('\u{9}' <= c && c <= '\u{D}') || c == ' ' || c == '\u{85}' || c == '\u{A0}' || c == '\u{1680}'
        || ('\u{2000}' <= c && c <= '\u{200A}') || c == '\u{2028}' || c == '\u{2029}' || c
        == '\u{202F}' || c == '\u{205F}' || c == '\u{3000}'
}

/// Whether every line of `text` that assigns a value names a key.
pub fn has_keys_named(text: &str) -> (b: bool)
    ensures
        b == keys_named(text@),
{
    let mut fresh = true;
    let mut named = true;
    for c in it: text.chars()
        invariant
            it.seq() == text@,
            fresh == at_line_start(text@.take(it.index())),
            named == keys_named(text@.take(it.index())),
    {
        let ghost n = it.index();
        proof {
            assert(text@.take(n + 1).drop_last() =~= text@.take(n));
            assert forall|i: int| 0 <= i <= n implies #[trigger] text@.take(n + 1).take(i)
                == text@.take(i) by {}
            assert forall|i: int| 0 <= i <= n implies #[trigger] text@.take(n).take(i) == text@.take(
                i,
            ) by {}
            if keys_named(text@.take(n + 1)) {
                assert forall|i: int| 0 <= i < n && text@.take(n)[i] == '=' implies !at_line_start(
                    #[trigger] text@.take(n).take(i),
                ) by {
                    assert(!at_line_start(text@.take(n + 1).take(i)));
                }
            }
            if keys_named(text@.take(n)) && !(c == '=' && fresh) {
                assert forall|i: int| 0 <= i < n + 1 && text@.take(n + 1)[i] == '=' implies
                    !at_line_start(#[trigger] text@.take(n + 1).take(i)) by {
                    if i < n {
                        assert(!at_line_start(text@.take(n).take(i)));
                    }
                }
            }
        }
        if c == '=' && fresh {
            named = false;
        }
        if c == '\n' {
            fresh = true;
        } else if !blank(c) {
            fresh = false;
        }
    }
    proof {
        assert(text@.take(text@.len() as int) =~= text@);
    }
    named
}

/// The error of `DesktopEntry::decode` of the crate freedesktop_desktop_entry.
/// Nothing is said of what it holds.
#[verifier::external_type_specification]
#[verifier::external_body]
pub struct ExDecodeError(DecodeError);

/// The key under which a desktop file names its icon.
pub const ICON_KEY: &'static str = "Icon";

/// What a desktop file says under a key: nothing at all if the path does not
/// tell which application the file describes; else the value of the key in
/// the group `Desktop Entry`, if the text has the key there. It stands for
/// what `DesktopEntry::decode` and then `DesktopEntry::desktop_entry` of the
/// crate freedesktop_desktop_entry give for a path, a text and a key.
pub uninterp spec fn desktop_entry_value(path: Seq<char>, text: Seq<char>, key: Seq<char>) -> Option<
    Option<Seq<char>>,
>;

/// Calls `DesktopEntry::decode` on a path and the text of the file there, and
/// asks the entry that comes back for a key with
/// `DesktopEntry::desktop_entry`. Both compute on their arguments alone, so
/// the contract gives the result a name. `decode` indexes before the first
/// character of a key, and so does not return on a text in which a line
/// begins with `=`: the contract leaves such texts out.
#[verifier::external_body]
fn decode_value(path: &str, text: &str, key: &str) -> (decoded: Result<Option<String>, DecodeError>)
    requires
        keys_named(text@),
    ensures
        decoded matches Ok(value) ==> desktop_entry_value(path@, text@, key@) == Some(
            value.deep_view(),
        ),
        decoded is Err ==> desktop_entry_value(path@, text@, key@).is_none(),
{
    let entry = DesktopEntry::decode(Path::new(path), text)?;
    Ok(entry.desktop_entry(key).map(|value| value.to_string()))
}

/// Why the icon's name could not be read out of a desktop file.
#[derive(Debug, Clone, Copy, PartialEq, Eq)]
pub enum EntryError {
    /// A line of the text assigns a value to no key.
    KeyMissing,
    /// The path does not tell which application the file describes.
    Unnamed,
}

/// What a desktop file at `path` with the text `text` says of its icon: the
/// name of the icon, if it names one.
pub open spec fn entry_icon_of(path: Seq<char>, text: Seq<char>) -> Result<
    Option<Seq<char>>,
    EntryError,
> {
    if !keys_named(text) {
        Err(EntryError::KeyMissing)
    } else {
        match desktop_entry_value(path, text, ICON_KEY@) {
            Some(icon) => Ok(icon),
            None => Err(EntryError::Unnamed),
        }
    }
}

/// The mathematical value of what was read out of a desktop file.
pub open spec fn entry_view(icon: Result<Option<String>, EntryError>) -> Result<
    Option<Seq<char>>,
    EntryError,
> {
    match icon {
        Ok(name) => Ok(name.deep_view()),
        Err(e) => Err(e),
    }
}

/// The name of the icon that the desktop file at `path`, with the text
/// `text`, asks for, if it asks for one.
pub fn entry_icon(path: &str, text: &str) -> (icon: Result<Option<String>, EntryError>)
    ensures
        entry_view(icon) == entry_icon_of(path@, text@),
{
    if !has_keys_named(text) {
        return Err(EntryError::KeyMissing);
    }
    match decode_value(path, text, ICON_KEY) {
        Ok(name) => Ok(name),
        Err(_) => Err(EntryError::Unnamed),
    }
}

} // verus!
