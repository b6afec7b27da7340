//! What holds of all pin files.

use vstd::prelude::*;

use crate::pin::{
    checksum_of, checksum_value, entries, first_checksum, first_version, header, pin_entries,
    skipped, trimmed, unquoted, version_of, version_value, Entry,
};
use crate::text::{lemma_run_is, lemma_trim, lines, trim, CharClass};
use crate::text_laws::{
    all_in, ends_outside, law_trim, law_trim_takes_the_class_only, starts_outside,
};

verus! {

/// A line that is skipped adds no entry.
proof fn lemma_skipped_line(
    before: Seq<Seq<char>>,
    line: Seq<char>,
    behind: Seq<Seq<char>>,
    section: Seq<char>,
)
    requires
        skipped(trimmed(line)),
    ensures
        entries(before + seq![line] + behind, section) == entries(before + behind, section),
    decreases before.len(),
{
    let with = before + seq![line] + behind;
    let without = before + behind;
    if before.len() == 0 {
        assert(with.drop_first() =~= behind);
        assert(without =~= behind);
    } else {
        let rest = before.drop_first();
        assert(with.drop_first() =~= rest + seq![line] + behind);
        assert(without.drop_first() =~= rest + behind);
        let first = trimmed(before[0]);
        let next = if !skipped(first) && header(first) {
            first
        } else {
            section
        };
        lemma_skipped_line(rest, line, behind, next);
    }
}

/// Blank lines and comments do not count: two pin files that differ in one such line name
/// the same version and state the same checksums.
pub proof fn law_comments_do_not_count(
    pin: Seq<char>,
    commented: Seq<char>,
    before: Seq<Seq<char>>,
    line: Seq<char>,
    behind: Seq<Seq<char>>,
    key: Seq<char>,
)
    requires
        lines(pin) == before + behind,
        lines(commented) == before + seq![line] + behind,
        skipped(trimmed(line)),
    ensures
        version_of(commented) == version_of(pin),
        checksum_of(commented, key) == checksum_of(pin, key),
{
    lemma_skipped_line(before, line, behind, Seq::empty());
}

/// The entries of one section.
pub open spec fn section_entries(list: Seq<Entry>, section: Seq<char>) -> Seq<Entry>
    decreases list.len(),
{
    if list.len() == 0 {
        Seq::empty()
    } else if list[0].section == section {
        seq![list[0]] + section_entries(list.drop_first(), section)
    } else {
        section_entries(list.drop_first(), section)
    }
}

/// The version is looked for in its section only.
proof fn lemma_version_section(list: Seq<Entry>)
    ensures
        first_version(section_entries(list, "[lsp]"@)) == first_version(list),
    decreases list.len(),
{
    if list.len() > 0 {
        let rest = section_entries(list.drop_first(), "[lsp]"@);
        lemma_version_section(list.drop_first());
        assert((seq![list[0]] + rest).drop_first() =~= rest);
    }
}

/// A checksum is looked for in its section only.
proof fn lemma_checksum_section(list: Seq<Entry>, key: Seq<char>)
    ensures
        first_checksum(section_entries(list, "[lsp.sha256]"@), key) == first_checksum(list, key),
    decreases list.len(),
{
    if list.len() > 0 {
        let rest = section_entries(list.drop_first(), "[lsp.sha256]"@);
        lemma_checksum_section(list.drop_first(), key);
        assert((seq![list[0]] + rest).drop_first() =~= rest);
    }
}

/// The version comes from the section `[lsp]` and the checksums from `[lsp.sha256]`: what
/// stands in other sections does not count.
pub proof fn law_sections_are_separate(a: Seq<char>, b: Seq<char>, key: Seq<char>)
    ensures
        section_entries(pin_entries(a), "[lsp]"@) == section_entries(pin_entries(b), "[lsp]"@)
            ==> version_of(a) == version_of(b),
        section_entries(pin_entries(a), "[lsp.sha256]"@) == section_entries(
            pin_entries(b),
            "[lsp.sha256]"@,
        ) ==> checksum_of(a, key) == checksum_of(b, key),
{
    lemma_version_section(pin_entries(a));
    lemma_version_section(pin_entries(b));
    lemma_checksum_section(pin_entries(a), key);
    lemma_checksum_section(pin_entries(b), key);
}

/// The header of the section that is open behind the lines.
pub open spec fn open_section(list: Seq<Seq<char>>, section: Seq<char>) -> Seq<char>
    decreases list.len(),
{
    if list.len() == 0 {
        section
    } else {
        let line = trimmed(list[0]);
        open_section(
            list.drop_first(),
            if !skipped(line) && header(line) {
                line
            } else {
                section
            },
        )
    }
}

/// The entries of two lists of lines, one after the other.
proof fn lemma_entries_concat(a: Seq<Seq<char>>, b: Seq<Seq<char>>, section: Seq<char>)
    ensures
        entries(a + b, section) == entries(a, section) + entries(b, open_section(a, section)),
    decreases a.len(),
{
    if a.len() == 0 {
        assert(a + b =~= b);
        assert(entries(a, section) + entries(b, section) =~= entries(b, section));
    } else {
        assert((a + b).drop_first() =~= a.drop_first() + b);
        let line = trimmed(a[0]);
        let next = if !skipped(line) && header(line) {
            line
        } else {
            section
        };
        lemma_entries_concat(a.drop_first(), b, next);
        assert(entries(a + b, section) =~= entries(a, section) + entries(
            b,
            open_section(a, section),
        ));
    }
}

/// Entries that hold no version do not hide the one behind them.
proof fn lemma_version_concat(a: Seq<Entry>, b: Seq<Entry>)
    requires
        first_version(a) is None,
    ensures
        first_version(a + b) == first_version(b),
    decreases a.len(),
{
    if a.len() == 0 {
        assert(a + b =~= b);
    } else {
        assert((a + b).drop_first() =~= a.drop_first() + b);
        lemma_version_concat(a.drop_first(), b);
    }
}

/// Entries that hold no checksum for the key do not hide the one behind them.
proof fn lemma_checksum_concat(a: Seq<Entry>, b: Seq<Entry>, key: Seq<char>)
    requires
        first_checksum(a, key) is None,
    ensures
        first_checksum(a + b, key) == first_checksum(b, key),
    decreases a.len(),
{
    if a.len() == 0 {
        assert(a + b =~= b);
    } else {
        assert((a + b).drop_first() =~= a.drop_first() + b);
        lemma_checksum_concat(a.drop_first(), b, key);
    }
}

/// How a version is written in the pin file.
pub open spec fn version_line(version: Seq<char>) -> Seq<char> {
    "version = \""@ + version + "\""@
}

/// How a checksum is written in the pin file.
pub open spec fn checksum_line(key: Seq<char>, checksum: Seq<char>) -> Seq<char> {
    key + " = \"sha256:"@ + checksum + "\""@
}

/// Whether a text can be read back from between quotes.
pub open spec fn quotable(value: Seq<char>) -> bool {
    value.len() > 0 ==> value[0] != '"' && value.last() != '"'
}

/// A line that starts and ends with a character that is not white space is trimmed.
proof fn lemma_trimmed(line: Seq<char>)
    requires
        line.len() > 0 ==> !CharClass::WhiteSpace.has(line[0]) && !CharClass::WhiteSpace.has(
            line.last(),
        ),
    ensures
        trimmed(line) == line,
{
    let none = Seq::<char>::empty();
    lemma_trim(none, line, none, CharClass::WhiteSpace);
    assert(none + line + none =~= line);
}

/// A value is read back from between a space and quotes.
proof fn lemma_unquoted(value: Seq<char>)
    requires
        quotable(value),
    ensures
        unquoted(seq![' ', '"'] + value + seq!['"']) == value,
{
    let none = Seq::<char>::empty();
    let quoted = seq!['"'] + value + seq!['"'];
    assert(quoted.last() == '"');
    lemma_trim(seq![' '], quoted, none, CharClass::WhiteSpace);
    assert(seq![' '] + quoted + none =~= seq![' ', '"'] + value + seq!['"']);
    lemma_trim(seq!['"'], value, seq!['"'], CharClass::Only('"'));
}

/// The value is read back from a version line.
proof fn lemma_version_line(version: Seq<char>)
    requires
        quotable(version),
    ensures
        version_value(version_line(version)) == Some(version),
        trimmed(version_line(version)) == version_line(version),
        !skipped(version_line(version)),
        !header(version_line(version)),
{
    reveal_strlit("version = \"");
    reveal_strlit("\"");
    reveal_strlit("version");
    let line = version_line(version);
    let none = Seq::<char>::empty();
    assert(line[0] == 'v');
    assert(line.last() == '"');
    lemma_trimmed(line);
    assert("version"@ =~= line.take("version"@.len() as int));
    let rest = line.skip("version"@.len() as int);
    let core = rest.skip(1);
    assert(rest =~= seq![' '] + core + none);
    assert(core[0] == '=');
    assert(core.last() == '"');
    lemma_trim(seq![' '], core, none, CharClass::WhiteSpace);
    assert(core.skip(1) =~= seq![' ', '"'] + version + seq!['"']);
    lemma_unquoted(version);
}

/// The version that is written in the section `[lsp]` is the one that is read, if none is
/// written there above it.
pub proof fn law_version_is_read_back(
    pin: Seq<char>,
    before: Seq<Seq<char>>,
    behind: Seq<Seq<char>>,
    version: Seq<char>,
)
    requires
        lines(pin) == before + seq![version_line(version)] + behind,
        open_section(before, Seq::empty()) == "[lsp]"@,
        first_version(entries(before, Seq::empty())) is None,
        quotable(version),
    ensures
        version_of(pin) == version,
{
    let none = Seq::<char>::empty();
    let line = version_line(version);
    lemma_version_line(version);
    let tail = seq![line] + behind;
    assert(lines(pin) =~= before + tail);
    lemma_entries_concat(before, tail, none);
    lemma_version_concat(entries(before, none), entries(tail, "[lsp]"@));
    assert(tail[0] == line);
    assert(entries(tail, "[lsp]"@)[0] == Entry { section: "[lsp]"@, text: line });
}

/// Whether a text can be the key of a checksum: it has no white space around it, holds no
/// equals sign, and does not start a comment or a header.
pub open spec fn key_text(key: Seq<char>) -> bool {
    &&& key.len() > 0
    &&& !CharClass::WhiteSpace.has(key[0])
    &&& !CharClass::WhiteSpace.has(key.last())
    &&& !key.contains('=')
    &&& key[0] != '#'
    &&& key[0] != '['
}

/// The value is read back from a checksum line.
proof fn lemma_checksum_line(key: Seq<char>, checksum: Seq<char>)
    requires
        key_text(key),
        trimmed(checksum) == checksum,
        checksum.len() > 0 ==> checksum.last() != '"',
    ensures
        checksum_value(checksum_line(key, checksum), key) == Some(checksum),
        trimmed(checksum_line(key, checksum)) == checksum_line(key, checksum),
        !skipped(checksum_line(key, checksum)),
        !header(checksum_line(key, checksum)),
{
    reveal_strlit(" = \"sha256:");
    reveal_strlit("\"");
    reveal_strlit("sha256:");
    let line = checksum_line(key, checksum);
    let none = Seq::<char>::empty();
    let n = key.len() + 1;
    let class = CharClass::Only('=');
    assert(line[0] == key[0]);
    assert(line.last() == '"');
    lemma_trimmed(line);
    assert forall|i: int| 0 <= i < n implies class.has(#[trigger] line[i]) == false by {
        if i < key.len() {
            assert(line[i] == key[i]);
            assert(key.contains(key[i]));
        }
    }
    assert(line[n as int] == '=');
    lemma_run_is(line, class, false, n);
    assert(line.take(n as int) =~= none + key + seq![' ']);
    lemma_trim(none, key, seq![' '], CharClass::WhiteSpace);
    let value = "sha256:"@ + checksum;
    assert(value.last() != '"') by {
        if checksum.len() > 0 {
            assert(value.last() == checksum.last());
        }
    }
    lemma_unquoted(value);
    assert(line.skip(n as int + 1) =~= seq![' ', '"'] + value + seq!['"']);
    assert("sha256:"@ =~= value.take("sha256:"@.len() as int));
    assert(value.skip("sha256:"@.len() as int) =~= checksum);
}

/// The checksum that is written for a key in the section `[lsp.sha256]` is the one that is
/// read, if none is written for it there above.
pub proof fn law_checksum_is_read_back(
    pin: Seq<char>,
    before: Seq<Seq<char>>,
    behind: Seq<Seq<char>>,
    key: Seq<char>,
    checksum: Seq<char>,
)
    requires
        lines(pin) == before + seq![checksum_line(key, checksum)] + behind,
        open_section(before, Seq::empty()) == "[lsp.sha256]"@,
        first_checksum(entries(before, Seq::empty()), key) is None,
        key_text(key),
        trimmed(checksum) == checksum,
        checksum.len() > 0 ==> checksum.last() != '"',
    ensures
        checksum_of(pin, key) == Some(checksum),
{
    let none = Seq::<char>::empty();
    let line = checksum_line(key, checksum);
    lemma_checksum_line(key, checksum);
    let tail = seq![line] + behind;
    assert(lines(pin) =~= before + tail);
    lemma_entries_concat(before, tail, none);
    lemma_checksum_concat(entries(before, none), entries(tail, "[lsp.sha256]"@), key);
    assert(tail[0] == line);
    assert(entries(tail, "[lsp.sha256]"@)[0] == Entry { section: "[lsp.sha256]"@, text: line });
}

/// How one line more changes what a pin file says. White space around the line does not
/// count. A line that is empty or starts with `#` adds nothing, one that starts with `[`
/// opens a section, and any other is an entry of the section that is open.
pub proof fn law_one_line_more(
    pin: Seq<char>,
    before: Seq<Seq<char>>,
    line: Seq<char>,
    section: Seq<char>,
)
    ensures
        ({
            let text = trim(line, CharClass::WhiteSpace);
            let longer = before.push(line);
            let comment = text.len() == 0 || text[0] == '#';
            let opens = text.len() > 0 && text[0] == '[';
            &&& entries(longer, section) == if comment || opens {
                entries(before, section)
            } else {
                entries(before, section).push(
                    Entry { section: open_section(before, section), text },
                )
            }
            &&& open_section(longer, section) == if opens {
                text
            } else {
                open_section(before, section)
            }
        }),
        entries(Seq::empty(), section) == Seq::<Entry>::empty(),
        open_section(Seq::empty(), section) == section,
        pin_entries(pin) == entries(lines(pin), Seq::empty()),
{
    let one = seq![line];
    assert(before.push(line) =~= before + one);
    lemma_entries_concat(before, one, section);
    lemma_open_section(before, line, section);
    let now = open_section(before, section);
    assert(one.drop_first() =~= Seq::empty());
    reveal_with_fuel(entries, 2);
    let none = Seq::<Entry>::empty();
    assert(entries(one.drop_first(), now) =~= none);
    let added = seq![Entry { section: now, text: trimmed(line) }];
    assert(added + none =~= added);
    assert(entries(before, section) + none =~= entries(before, section));
    assert(entries(before, section) + added =~= entries(before, section).push(added[0]));
}

/// A header opens its section, and any other line leaves the open one open.
proof fn lemma_open_section(before: Seq<Seq<char>>, line: Seq<char>, section: Seq<char>)
    ensures
        open_section(before.push(line), section) == if !skipped(trimmed(line)) && header(
            trimmed(line),
        ) {
            trimmed(line)
        } else {
            open_section(before, section)
        },
    decreases before.len(),
{
    let longer = before.push(line);
    if before.len() == 0 {
        assert(longer.drop_first() =~= Seq::empty());
        reveal_with_fuel(open_section, 2);
    } else {
        let first = trimmed(before[0]);
        let next = if !skipped(first) && header(first) {
            first
        } else {
            section
        };
        assert(longer.drop_first() =~= before.drop_first().push(line));
        lemma_open_section(before.drop_first(), line, next);
    }
}

/// What stands in a value: the core, between quotes, between white space.
pub open spec fn value_text(
    before: Seq<char>,
    left: Seq<char>,
    core: Seq<char>,
    right: Seq<char>,
    behind: Seq<char>,
) -> Seq<char> {
    before + left + core + right + behind
}

/// Whether a value is made up so that its core is what is left when the white space and
/// then the quotes around it are taken away.
pub open spec fn value_parts(
    before: Seq<char>,
    left: Seq<char>,
    core: Seq<char>,
    right: Seq<char>,
    behind: Seq<char>,
) -> bool {
    &&& all_in(before, CharClass::WhiteSpace)
    &&& all_in(left, CharClass::Only('"'))
    &&& starts_outside(core, CharClass::Only('"'))
    &&& ends_outside(core, CharClass::Only('"'))
    &&& all_in(right, CharClass::Only('"'))
    &&& all_in(behind, CharClass::WhiteSpace)
    &&& starts_outside(left + core + right, CharClass::WhiteSpace)
    &&& ends_outside(left + core + right, CharClass::WhiteSpace)
}

/// The core of a value is what is read from it.
proof fn lemma_value(
    before: Seq<char>,
    left: Seq<char>,
    core: Seq<char>,
    right: Seq<char>,
    behind: Seq<char>,
)
    requires
        value_parts(before, left, core, right, behind),
    ensures
        unquoted(value_text(before, left, core, right, behind)) == core,
{
    let quoted = left + core + right;
    law_trim(before, quoted, behind, CharClass::WhiteSpace);
    assert(value_text(before, left, core, right, behind) =~= before + quoted + behind);
    law_trim(left, core, right, CharClass::Only('"'));
}

/// What stands in an entry with a version: `version`, an equals sign, and the value, with
/// white space in between and quotes around the value where they are written.
pub proof fn law_version_value(
    gap: Seq<char>,
    before: Seq<char>,
    left: Seq<char>,
    core: Seq<char>,
    right: Seq<char>,
    behind: Seq<char>,
)
    requires
        all_in(gap, CharClass::WhiteSpace),
        value_parts(before, left, core, right, behind),
    ensures
        version_value(
            "version"@ + gap + seq!['='] + value_text(before, left, core, right, behind),
        ) == Some(core),
{
    let class = CharClass::WhiteSpace;
    let none = Seq::<char>::empty();
    let quoted = left + core + right;
    let value = value_text(before, left, core, right, behind);
    let text = "version"@ + gap + seq!['='] + value;
    assert("version"@ =~= text.take("version"@.len() as int));
    let rest = text.skip("version"@.len() as int);
    assert(rest =~= gap + seq!['='] + value);
    if quoted.len() == 0 {
        let blank = before + behind;
        assert forall|i: int| 0 <= i < blank.len() implies class.has(#[trigger] blank[i]) by {
            if i < before.len() {
                assert(class.has(before[i]));
            } else {
                assert(class.has(behind[i - before.len()]));
            }
        }
        law_trim(gap, seq!['='], blank, class);
        assert(rest =~= gap + seq!['='] + blank);
        assert(seq!['='].skip(1) =~= none + none + none + none + none);
        assert(core =~= none);
        lemma_value(none, none, core, none, none);
        assert(value_text(none, none, core, none, none) =~= none);
    } else {
        let core_part = seq!['='] + before + quoted;
        assert(core_part.last() == quoted.last());
        law_trim(gap, core_part, behind, class);
        assert(rest =~= gap + core_part + behind);
        assert(core_part.skip(1) =~= value_text(before, left, core, right, none));
        lemma_value(before, left, core, right, none);
    }
}

/// An entry holds a version exactly if it starts with `version` and an equals sign, with
/// nothing but white space between them.
pub proof fn law_version_entries(text: Seq<char>)
    ensures
        version_value(text) is Some <==> exists|gap: Seq<char>, rest: Seq<char>|
            #![trigger gap + rest]
            all_in(gap, CharClass::WhiteSpace) && rest.len() > 0 && rest[0] == '=' && text
                == "version"@ + (gap + rest),
{
    let class = CharClass::WhiteSpace;
    let tail = text.skip("version"@.len() as int);
    let core = trimmed(tail);
    law_trim_takes_the_class_only(tail, class);
    let (head, end) = choose|head: Seq<char>, end: Seq<char>| #[trigger]
        all_in(head, class) && #[trigger] all_in(end, class) && tail == head + trim(tail, class)
            + end;
    if version_value(text) is Some {
        let rest = core + end;
        assert(tail =~= head + rest);
        assert(text =~= "version"@ + (head + rest)) by {
            assert("version"@ =~= text.take("version"@.len() as int));
        }
    }
    if exists|gap: Seq<char>, rest: Seq<char>|
        #![trigger gap + rest]
        all_in(gap, class) && rest.len() > 0 && rest[0] == '=' && text == "version"@ + (gap
            + rest) {
        let (gap, rest) = choose|gap: Seq<char>, rest: Seq<char>|
            #![trigger gap + rest]
            all_in(gap, class) && rest.len() > 0 && rest[0] == '=' && text == "version"@ + (gap
                + rest);
        assert("version"@ =~= text.take("version"@.len() as int));
        assert(tail =~= gap + rest);
        assert(tail[gap.len() as int] == '=');
        if head.len() > gap.len() {
            assert(tail[gap.len() as int] == head[gap.len() as int]);
            assert(class.has(head[gap.len() as int]));
        } else if core.len() == 0 {
            assert(tail[gap.len() as int] == end[gap.len() - head.len()]);
            assert(class.has(end[gap.len() - head.len()]));
        } else {
            assert(tail[head.len() as int] == core[0]);
            if head.len() < gap.len() {
                assert(tail[head.len() as int] == gap[head.len() as int]);
                assert(class.has(gap[head.len() as int]));
            }
        }
    }
}

/// What stands in an entry with a checksum: the key, an equals sign, and the value, with
/// white space in between and quotes around the value where they are written. The prefix
/// `sha256:` is taken off the value, and so is the white space around what is left. For
/// another key, and without an equals sign, there is none.
pub proof fn law_checksum_value(
    head: Seq<char>,
    key: Seq<char>,
    tail: Seq<char>,
    before: Seq<char>,
    left: Seq<char>,
    core: Seq<char>,
    right: Seq<char>,
    behind: Seq<char>,
    other: Seq<char>,
)
    requires
        all_in(head, CharClass::WhiteSpace),
        starts_outside(key, CharClass::WhiteSpace),
        ends_outside(key, CharClass::WhiteSpace),
        !key.contains('='),
        all_in(tail, CharClass::WhiteSpace),
        value_parts(before, left, core, right, behind),
    ensures
        ({
            let text = head + key + tail + seq!['='] + value_text(
                before,
                left,
                core,
                right,
                behind,
            );
            &&& "sha256:"@.is_prefix_of(core) ==> checksum_value(text, key) == Some(
                trim(core.skip("sha256:"@.len() as int), CharClass::WhiteSpace),
            )
            &&& !"sha256:"@.is_prefix_of(core) ==> checksum_value(text, key) == Some(
                trim(core, CharClass::WhiteSpace),
            )
            &&& other != key ==> checksum_value(text, other) is None
        }),
        !other.contains('=') ==> checksum_value(other, key) is None,
{
    let class = CharClass::Only('=');
    let space = CharClass::WhiteSpace;
    let value = value_text(before, left, core, right, behind);
    let name = head + key + tail;
    let text = name + seq!['='] + value;
    assert forall|i: int| 0 <= i < name.len() implies class.has(#[trigger] text[i]) == false by {
        if i < head.len() {
            assert(text[i] == head[i]);
            assert(space.has(head[i]));
        } else if i < head.len() + key.len() {
            assert(text[i] == key[i - head.len()]);
            assert(key.contains(key[i - head.len()]));
        } else {
            assert(text[i] == tail[i - head.len() - key.len()]);
            assert(space.has(tail[i - head.len() - key.len()]));
        }
    }
    assert(text[name.len() as int] == '=');
    lemma_run_is(text, class, false, name.len());
    assert(text.take(name.len() as int) =~= name);
    assert(text.skip(name.len() as int + 1) =~= value);
    law_trim(head, key, tail, space);
    lemma_value(before, left, core, right, behind);
    if !other.contains('=') {
        assert forall|i: int| 0 <= i < other.len() implies class.has(#[trigger] other[i])
            == false by {
            assert(other.contains(other[i]));
        }
        lemma_run_is(other, class, false, other.len());
    }
}

/// Whether an entry holds a version.
pub open spec fn holds_version(entry: Entry) -> bool {
    entry.section == "[lsp]"@ && version_value(entry.text) is Some
}

/// Whether an entry holds a checksum for the key.
pub open spec fn holds_checksum(entry: Entry, key: Seq<char>) -> bool {
    entry.section == "[lsp.sha256]"@ && checksum_value(entry.text, key) is Some
}

/// The first entry that holds a version decides, and so does the first one that holds a
/// checksum for the key. Without one the version is `0.0.0`, and there is no checksum.
pub proof fn law_first_entry_decides(pin: Seq<char>, key: Seq<char>, i: int)
    ensures
        ({
            let list = pin_entries(pin);
            &&& 0 <= i < list.len() && holds_version(list[i]) && (forall|j: int|
                0 <= j < i ==> !holds_version(#[trigger] list[j])) ==> version_value(list[i].text)
                == Some(version_of(pin))
            &&& (forall|j: int| 0 <= j < list.len() ==> !holds_version(#[trigger] list[j]))
                ==> version_of(pin) == "0.0.0"@
            &&& 0 <= i < list.len() && holds_checksum(list[i], key) && (forall|j: int|
                0 <= j < i ==> !holds_checksum(#[trigger] list[j], key)) ==> checksum_of(pin, key)
                == checksum_value(list[i].text, key)
            &&& (forall|j: int| 0 <= j < list.len() ==> !holds_checksum(#[trigger] list[j], key))
                ==> checksum_of(pin, key) is None
        }),
{
    lemma_first_entry(pin_entries(pin), key, i);
}

/// The first of the entries decides.
proof fn lemma_first_entry(list: Seq<Entry>, key: Seq<char>, i: int)
    ensures
        0 <= i < list.len() && holds_version(list[i]) && (forall|j: int|
            0 <= j < i ==> !holds_version(#[trigger] list[j])) ==> first_version(list)
            == version_value(list[i].text),
        (forall|j: int| 0 <= j < list.len() ==> !holds_version(#[trigger] list[j]))
            ==> first_version(list) is None,
        0 <= i < list.len() && holds_checksum(list[i], key) && (forall|j: int|
            0 <= j < i ==> !holds_checksum(#[trigger] list[j], key)) ==> first_checksum(list, key)
            == checksum_value(list[i].text, key),
        (forall|j: int| 0 <= j < list.len() ==> !holds_checksum(#[trigger] list[j], key))
            ==> first_checksum(list, key) is None,
    decreases list.len(),
{
    if list.len() > 0 {
        let rest = list.drop_first();
        lemma_first_entry(rest, key, i - 1);
        assert forall|j: int| 0 <= j < rest.len() implies #[trigger] rest[j] == list[j + 1] by {}
        if i > 0 {
            assert(0 <= i < list.len() ==> rest[i - 1] == list[i]);
        }
    }
}

} // verus!
