//! The pin file: which release of the language server to use, and the checksum of
//! each of its binaries.
//!
//! ```text
//! [lsp]
//! version = "1.2.3"
//!
//! [lsp.sha256]
//! darwin-arm64 = "sha256:aa2260ff..."
//! ```

use vstd::prelude::*;
use vstd::slice::slice_subrange;

use crate::text::{
    cut, lines, lowered, optional, run, run_length, same, slices, strip_prefix, text_lines,
    to_chars, to_text, trim, CharClass,
};

verus! {

/// A line of the pin file that is neither blank, nor a comment, nor a section
/// header, without the white space around it; and the header of its section, which
/// is empty above the first header.
pub ghost struct Entry {
    /// The header of the section, brackets and all.
    pub section: Seq<char>,
    /// The line.
    pub text: Seq<char>,
}

/// The white space around a text is taken away.
pub open spec fn trimmed(s: Seq<char>) -> Seq<char> {
    trim(s, CharClass::WhiteSpace)
}

/// Whether a trimmed line is blank or a comment.
pub open spec fn skipped(line: Seq<char>) -> bool {
    line.len() == 0 || line[0] == '#'
}

/// Whether a trimmed line is a section header.
pub open spec fn header(line: Seq<char>) -> bool {
    line.len() > 0 && line[0] == '['
}

/// The entries of the lines, where the first of them stand under `section`.
pub open spec fn entries(lines: Seq<Seq<char>>, section: Seq<char>) -> Seq<Entry>
    decreases lines.len(),
{
    if lines.len() == 0 {
        Seq::empty()
    } else {
        let line = trimmed(lines[0]);
        let rest = lines.drop_first();
        if skipped(line) {
            entries(rest, section)
        } else if header(line) {
            entries(rest, line)
        } else {
            seq![Entry { section, text: line }] + entries(rest, section)
        }
    }
}

/// The entries of a pin file.
pub open spec fn pin_entries(pin: Seq<char>) -> Seq<Entry> {
    entries(lines(pin), Seq::empty())
}

/// A value without the white space and the quotes around it.
pub open spec fn unquoted(value: Seq<char>) -> Seq<char> {
    trim(trimmed(value), CharClass::Only('"'))
}

/// The value of an entry of the form `version = "value"`.
pub open spec fn version_value(text: Seq<char>) -> Option<Seq<char>> {
    let rest = trimmed(text.skip("version"@.len() as int));
    if "version"@.is_prefix_of(text) && rest.len() > 0 && rest[0] == '=' {
        Some(unquoted(rest.skip(1)))
    } else {
        None
    }
}

/// The first version among the entries of the section `[lsp]`.
pub open spec fn first_version(list: Seq<Entry>) -> Option<Seq<char>>
    decreases list.len(),
{
    if list.len() == 0 {
        None
    } else if list[0].section == "[lsp]"@ && version_value(list[0].text) is Some {
        version_value(list[0].text)
    } else {
        first_version(list.drop_first())
    }
}

/// The version that the pin file names, or `0.0.0` where it names none.
pub open spec fn version_of(pin: Seq<char>) -> Seq<char> {
    match first_version(pin_entries(pin)) {
        Some(version) => version,
        None => "0.0.0"@,
    }
}

/// The checksum of an entry of the form `key = "sha256:checksum"`, where the prefix
/// may be missing.
pub open spec fn checksum_value(text: Seq<char>, key: Seq<char>) -> Option<Seq<char>> {
    let n = run(text, CharClass::Only('='), false);
    if n < text.len() && trimmed(text.take(n as int)) == key {
        let value = unquoted(text.skip(n as int + 1));
        Some(
            trimmed(
                if "sha256:"@.is_prefix_of(value) {
                    value.skip("sha256:"@.len() as int)
                } else {
                    value
                },
            ),
        )
    } else {
        None
    }
}

/// The first checksum for the key among the entries of the section `[lsp.sha256]`.
pub open spec fn first_checksum(list: Seq<Entry>, key: Seq<char>) -> Option<Seq<char>>
    decreases list.len(),
{
    if list.len() == 0 {
        None
    } else if list[0].section == "[lsp.sha256]"@ && checksum_value(list[0].text, key) is Some {
        checksum_value(list[0].text, key)
    } else {
        first_checksum(list.drop_first(), key)
    }
}

/// The checksum that the pin file states for the key, as it is written there.
pub open spec fn checksum_of(pin: Seq<char>, key: Seq<char>) -> Option<Seq<char>> {
    first_checksum(pin_entries(pin), key)
}

/// Tells whether the trimmed line is blank or a comment.
fn is_skipped(line: &[char]) -> (result: bool)
    ensures
        result == skipped(line@),
{
    line.len() == 0 || line[0] == '#'
}

/// The value of an entry of the form `version = "value"`.
fn read_version(text: &[char]) -> (value: Option<String>)
    ensures
        optional(value) == version_value(text@),
{
    match strip_prefix(text, "version") {
        Some(rest) => {
            let rest = cut(rest, CharClass::WhiteSpace);
            if rest.len() > 0 && rest[0] == '=' {
                let value = slice_subrange(rest, 1, rest.len());
                assert(value@ =~= rest@.skip(1));
                let bare = cut(cut(value, CharClass::WhiteSpace), CharClass::Only('"'));
                Some(to_text(bare))
            } else {
                None
            }
        },
        None => None,
    }
}

/// The version that the pin file names in its section `[lsp]`.
pub fn pinned_version(pin_toml: &str) -> (version: String)
    ensures
        version@ == version_of(pin_toml@),
{
    let chars = to_chars(pin_toml);
    let list = text_lines(chars.as_slice());
    let ghost all = lines(pin_toml@);
    let ghost mut section: Seq<char> = Seq::empty();
    let mut in_lsp_section = false;
    proof {
        reveal_strlit("[lsp]");
        assert("[lsp]"@.len() == 5);
        assert(all.skip(0) =~= all);
    }
    for i in 0..list.len()
        invariant
            slices(list@) == all,
            in_lsp_section == (section == "[lsp]"@),
            first_version(entries(all.skip(i as int), section)) == first_version(
                pin_entries(pin_toml@),
            ),
    {
        let line = cut(list[i], CharClass::WhiteSpace);
        let ghost rest = all.skip(i as int);
        proof {
            assert(list@[i as int]@ == all[i as int]);
            assert(rest[0] == all[i as int]);
            assert(rest.drop_first() =~= all.skip(i + 1));
        }
        if is_skipped(line) {
        } else if line[0] == '[' {
            in_lsp_section = same(line, "[lsp]");
            proof {
                section = line@;
            }
        } else {
            let ghost tail = entries(rest.drop_first(), section);
            assert((seq![Entry { section, text: line@ }] + tail).drop_first() =~= tail);
            if in_lsp_section {
                match read_version(line) {
                    Some(version) => {
                        return version;
                    },
                    None => {},
                }
            }
        }
    }
    "0.0.0".to_owned()
}

/// The checksum of an entry of the form `key = "sha256:checksum"`.
fn read_checksum(text: &[char], key: &str) -> (value: Option<String>)
    ensures
        optional(value) == checksum_value(text@, key@),
{
    let n: usize = run_length(text, CharClass::Only('='), false);
    if n == text.len() {
        return None;
    }
    let name = slice_subrange(text, 0, n);
    assert(name@ =~= text@.take(n as int));
    if !same(cut(name, CharClass::WhiteSpace), key) {
        return None;
    }
    let rest = slice_subrange(text, n + 1, text.len());
    assert(rest@ =~= text@.skip(n + 1));
    let value = cut(cut(rest, CharClass::WhiteSpace), CharClass::Only('"'));
    let digits = match strip_prefix(value, "sha256:") {
        Some(digits) => digits,
        None => value,
    };
    Some(to_text(cut(digits, CharClass::WhiteSpace)))
}

/// The checksum that the pin file states for the key, as it is written there.
pub fn stated_checksum(pin_toml: &str, key: &str) -> (checksum: Option<String>)
    ensures
        optional(checksum) == checksum_of(pin_toml@, key@),
{
    let chars = to_chars(pin_toml);
    let list = text_lines(chars.as_slice());
    let ghost all = lines(pin_toml@);
    let ghost mut section: Seq<char> = Seq::empty();
    let mut in_sha_section = false;
    proof {
        reveal_strlit("[lsp.sha256]");
        assert("[lsp.sha256]"@.len() == 12);
        assert(all.skip(0) =~= all);
    }
    for i in 0..list.len()
        invariant
            slices(list@) == all,
            in_sha_section == (section == "[lsp.sha256]"@),
            first_checksum(entries(all.skip(i as int), section), key@) == checksum_of(
                pin_toml@,
                key@,
            ),
    {
        let line = cut(list[i], CharClass::WhiteSpace);
        let ghost rest = all.skip(i as int);
        proof {
            assert(list@[i as int]@ == all[i as int]);
            assert(rest[0] == all[i as int]);
            assert(rest.drop_first() =~= all.skip(i + 1));
        }
        if is_skipped(line) {
        } else if line[0] == '[' {
            in_sha_section = same(line, "[lsp.sha256]");
            proof {
                section = line@;
            }
        } else {
            let ghost tail = entries(rest.drop_first(), section);
            assert((seq![Entry { section, text: line@ }] + tail).drop_first() =~= tail);
            if in_sha_section {
                match read_checksum(line, key) {
                    Some(checksum) => {
                        return Some(checksum);
                    },
                    None => {},
                }
            }
        }
    }
    None
}

/// The checksum that the pin file states for a platform such as `darwin-arm64`, in
/// lower case and without the prefix `sha256:`.
pub fn pinned_sha(pin_toml: &str, platform_arch: &str) -> (checksum: Option<String>)
    ensures
        optional(checksum) == (match checksum_of(pin_toml@, platform_arch@) {
            Some(stated) => Some(lowered(stated)),
            None => None,
        }),
{
    match stated_checksum(pin_toml, platform_arch) {
        Some(checksum) => Some(checksum.to_lowercase()),
        None => None,
    }
}

} // verus!
