//! What a PHP source file declares.

use vstd::prelude::*;
use vstd::slice::slice_subrange;

use crate::extension::PhpLspExtension;
use crate::text::{
    cut, cut_start, lines, optional, run, run_length, same, slices, strip_prefix, text_lines,
    text_words, to_chars, to_text, trim, trim_start, words, CharClass,
};

verus! {

/// The namespace that a line declares: what stands between `namespace ` and the
/// next semicolon or brace, without the white space around it.
pub open spec fn namespace_of_line(line: Seq<char>) -> Option<Seq<char>> {
    let start = trim_start(line, CharClass::WhiteSpace);
    let rest = start.skip("namespace "@.len() as int);
    let end = run(rest, CharClass::Either(';', '{'), false);
    let name = trim(rest.take(end as int), CharClass::WhiteSpace);
    if "namespace "@.is_prefix_of(start) && name.len() > 0 {
        Some(name)
    } else {
        None
    }
}

/// The namespace that the first of the lines to declare one declares.
pub open spec fn first_namespace(lines: Seq<Seq<char>>) -> Option<Seq<char>>
    decreases lines.len(),
{
    if lines.len() == 0 {
        None
    } else if namespace_of_line(lines[0]) is Some {
        namespace_of_line(lines[0])
    } else {
        first_namespace(lines.drop_first())
    }
}

/// The namespace that a source file declares first.
pub open spec fn namespace_of(source: Seq<char>) -> Option<Seq<char>> {
    first_namespace(lines(source))
}

/// The identifier at the front of a token, behind any ampersands.
pub open spec fn identifier_of(token: Seq<char>) -> Option<Seq<char>> {
    let rest = trim_start(token, CharClass::Only('&'));
    let n = run(rest, CharClass::Identifier, true);
    if n > 0 {
        Some(rest.take(n as int))
    } else {
        None
    }
}

/// Whether a word introduces the declaration of a type.
pub open spec fn type_keyword(word: Seq<char>) -> bool {
    word == "class"@ || word == "interface"@ || word == "trait"@ || word == "enum"@
}

/// The name of the type that the word at `i` introduces, if it introduces one. The
/// word after `new` does not: it starts an anonymous class.
pub open spec fn type_at(words: Seq<Seq<char>>, i: int) -> Option<Seq<char>> {
    if type_keyword(words[i]) && !(i > 0 && words[i - 1] == "new"@) && i + 1 < words.len() {
        identifier_of(words[i + 1])
    } else {
        None
    }
}

/// The name of the first type that the words from `i` on introduce.
pub open spec fn first_type(words: Seq<Seq<char>>, i: int) -> Option<Seq<char>>
    decreases words.len() - i,
{
    if i >= words.len() {
        None
    } else if type_at(words, i) is Some {
        type_at(words, i)
    } else {
        first_type(words, i + 1)
    }
}

/// The name of the first type that a line declares.
pub open spec fn type_of_line(line: Seq<char>) -> Option<Seq<char>> {
    first_type(words(line), 0)
}

/// The name of the first type that the lines declare.
pub open spec fn first_line_type(lines: Seq<Seq<char>>) -> Option<Seq<char>>
    decreases lines.len(),
{
    if lines.len() == 0 {
        None
    } else if type_of_line(lines[0]) is Some {
        type_of_line(lines[0])
    } else {
        first_line_type(lines.drop_first())
    }
}

/// The name of the type that a source file declares first.
pub open spec fn primary_type_of(source: Seq<char>) -> Option<Seq<char>> {
    first_line_type(lines(source))
}

/// The fully qualified name of what a source file declares: the type in its
/// namespace, or else whichever of the two there is.
pub open spec fn symbol_of(source: Seq<char>) -> Option<Seq<char>> {
    match (namespace_of(source), primary_type_of(source)) {
        (Some(namespace), Some(name)) => Some(namespace.push('\\') + name),
        (None, Some(name)) => Some(name),
        (namespace, None) => namespace,
    }
}

/// The namespace that a line declares.
fn read_namespace(line: &[char]) -> (namespace: Option<String>)
    ensures
        optional(namespace) == namespace_of_line(line@),
{
    match strip_prefix(cut_start(line, CharClass::WhiteSpace), "namespace ") {
        Some(rest) => {
            let end: usize = run_length(rest, CharClass::Either(';', '{'), false);
            let head = slice_subrange(rest, 0, end);
            assert(head@ =~= rest@.take(end as int));
            let name = cut(head, CharClass::WhiteSpace);
            if name.len() > 0 {
                Some(to_text(name))
            } else {
                None
            }
        },
        None => None,
    }
}

/// The identifier at the front of a token.
fn read_identifier(token: &[char]) -> (identifier: Option<String>)
    ensures
        optional(identifier) == identifier_of(token@),
{
    let rest = cut_start(token, CharClass::Only('&'));
    let n: usize = run_length(rest, CharClass::Identifier, true);
    if n == 0 {
        return None;
    }
    let name = slice_subrange(rest, 0, n);
    assert(name@ =~= rest@.take(n as int));
    Some(to_text(name))
}

/// Tells whether a word introduces the declaration of a type.
fn is_type_keyword(word: &[char]) -> (result: bool)
    ensures
        result == type_keyword(word@),
{
    same(word, "class") || same(word, "interface") || same(word, "trait") || same(word, "enum")
}

/// The name of the type that the word at `i` introduces.
fn read_type_at(list: &[&[char]], i: usize) -> (name: Option<String>)
    requires
        i < list@.len(),
    ensures
        optional(name) == type_at(slices(list@), i as int),
{
    let ghost all = slices(list@);
    assert(list@[i as int]@ == all[i as int]);
    if !is_type_keyword(list[i]) {
        return None;
    }
    if i > 0 {
        assert(list@[i - 1]@ == all[i - 1]);
        if same(list[i - 1], "new") {
            return None;
        }
    }
    if list.len() - i < 2 {
        return None;
    }
    assert(list@[i + 1]@ == all[i + 1]);
    read_identifier(list[i + 1])
}

/// The name of the first type that a line declares.
fn read_type(line: &[char]) -> (name: Option<String>)
    ensures
        optional(name) == type_of_line(line@),
{
    let list = text_words(line);
    let ghost all = words(line@);
    for i in 0..list.len()
        invariant
            all == words(line@),
            slices(list@) == all,
            first_type(all, i as int) == first_type(all, 0),
    {
        match read_type_at(list.as_slice(), i) {
            Some(name) => {
                return Some(name);
            },
            None => {},
        }
    }
    None
}

impl PhpLspExtension {
    /// The namespace that the source file declares: that of the first line that
    /// starts with `namespace ` and names one.
    pub fn extract_namespace(source: &str) -> (namespace: Option<String>)
        ensures
            optional(namespace) == namespace_of(source@),
    {
        let chars = to_chars(source);
        let list = text_lines(chars.as_slice());
        let ghost all = lines(source@);
        assert(all.skip(0) =~= all);
        for i in 0..list.len()
            invariant
                slices(list@) == all,
                first_namespace(all.skip(i as int)) == namespace_of(source@),
        {
            assert(list@[i as int]@ == all[i as int]);
            assert(all.skip(i as int).drop_first() =~= all.skip(i + 1));
            match read_namespace(list[i]) {
                Some(namespace) => {
                    return Some(namespace);
                },
                None => {},
            }
        }
        None
    }

    /// The identifier at the front of a token: its leading ASCII letters, digits and
    /// underscores, behind any ampersands.
    pub fn extract_identifier(token: &str) -> (identifier: Option<String>)
        ensures
            optional(identifier) == identifier_of(token@),
    {
        let chars = to_chars(token);
        read_identifier(chars.as_slice())
    }

    /// The name of the first class, interface, trait or enum that the source file
    /// declares.
    pub fn extract_primary_type(source: &str) -> (name: Option<String>)
        ensures
            optional(name) == primary_type_of(source@),
    {
        let chars = to_chars(source);
        let list = text_lines(chars.as_slice());
        let ghost all = lines(source@);
        assert(all.skip(0) =~= all);
        for i in 0..list.len()
            invariant
                slices(list@) == all,
                first_line_type(all.skip(i as int)) == primary_type_of(source@),
        {
            assert(list@[i as int]@ == all[i as int]);
            assert(all.skip(i as int).drop_first() =~= all.skip(i + 1));
            match read_type(list[i]) {
                Some(name) => {
                    return Some(name);
                },
                None => {},
            }
        }
        None
    }

    /// The fully qualified name of what the source file declares.
    pub fn declared_symbol(source: &str) -> (symbol: Option<String>)
        ensures
            optional(symbol) == symbol_of(source@),
    {
        match (Self::extract_namespace(source), Self::extract_primary_type(source)) {
            (Some(namespace), Some(name)) => {
                let mut symbol = namespace;
                symbol.push('\\');
                symbol.append(name.as_str());
                Some(symbol)
            },
            (None, Some(name)) => Some(name),
            (namespace, None) => namespace,
        }
    }
}

} // verus!
