//! What holds of all source files.

use vstd::prelude::*;

use crate::php::{
    first_line_type, first_namespace, first_type, identifier_of, namespace_of, namespace_of_line,
    primary_type_of, symbol_of, type_at, type_keyword, type_of_line,
};
use crate::text::{
    identifier_char, lemma_run, lemma_run_is, lemma_trim, lines, run, trim_start, words,
    CharClass,
};
use crate::text_laws::{
    all_in, ends_outside, law_trim, law_trim_start, law_words, none_in, starts_outside,
};

verus! {

/// Whether a text is an identifier.
pub open spec fn identifier(name: Seq<char>) -> bool {
    name.len() > 0 && forall|i: int| 0 <= i < name.len() ==> identifier_char(#[trigger] name[i])
}

/// What is extracted from a token is an identifier.
pub proof fn law_identifiers_are_identifiers(token: Seq<char>)
    ensures
        identifier_of(token) matches Some(name) ==> identifier(name),
{
    let rest = trim_start(token, CharClass::Only('&'));
    lemma_run(rest, CharClass::Identifier, true);
    let n = run(rest, CharClass::Identifier, true);
    assert forall|i: int| 0 <= i < n implies identifier_char(#[trigger] rest.take(n as int)[i]) by {
        assert(CharClass::Identifier.has(rest[i]));
    }
}

/// The first type among the words is an identifier.
proof fn lemma_first_type(list: Seq<Seq<char>>, i: int)
    requires
        0 <= i,
    ensures
        first_type(list, i) matches Some(name) ==> identifier(name),
    decreases list.len() - i,
{
    if i < list.len() {
        if type_at(list, i) is Some {
            law_identifiers_are_identifiers(list[i + 1]);
        } else {
            lemma_first_type(list, i + 1);
        }
    }
}

/// The first type that the lines declare is an identifier.
proof fn lemma_first_line_type(list: Seq<Seq<char>>)
    ensures
        first_line_type(list) matches Some(name) ==> identifier(name),
    decreases list.len(),
{
    if list.len() > 0 {
        lemma_first_type(words(list[0]), 0);
        lemma_first_line_type(list.drop_first());
    }
}

/// The type that a source file declares first has an identifier for a name.
pub proof fn law_primary_type_is_an_identifier(source: Seq<char>)
    ensures
        primary_type_of(source) matches Some(name) ==> identifier(name),
{
    lemma_first_line_type(lines(source));
}

/// The namespace that the lines declare first is not empty.
proof fn lemma_first_namespace(list: Seq<Seq<char>>)
    ensures
        first_namespace(list) matches Some(name) ==> name.len() > 0,
    decreases list.len(),
{
    if list.len() > 0 {
        lemma_first_namespace(list.drop_first());
    }
}

/// What a source file is found to declare is never empty, and something is found exactly
/// if it declares a namespace or a type.
pub proof fn law_symbol_is_not_empty(source: Seq<char>)
    ensures
        symbol_of(source) matches Some(symbol) ==> symbol.len() > 0,
        symbol_of(source) is Some <==> namespace_of(source) is Some || primary_type_of(
            source,
        ) is Some,
{
    lemma_first_namespace(lines(source));
    law_primary_type_is_an_identifier(source);
}

/// Whether a text can be the name of a namespace: it has no white space around it, and
/// nothing that ends it.
pub open spec fn namespace_text(name: Seq<char>) -> bool {
    &&& name.len() > 0
    &&& !CharClass::WhiteSpace.has(name[0])
    &&& !CharClass::WhiteSpace.has(name.last())
    &&& !name.contains(';')
    &&& !name.contains('{')
}

/// The namespace that a line declares is read back from it, however far the line is
/// indented, with a semicolon or a brace behind it, and whatever follows.
pub proof fn law_namespace_is_read_back(
    indent: Seq<char>,
    name: Seq<char>,
    end: char,
    rest: Seq<char>,
)
    requires
        forall|i: int| 0 <= i < indent.len() ==> CharClass::WhiteSpace.has(#[trigger] indent[i]),
        namespace_text(name),
        end == ';' || end == '{',
    ensures
        namespace_of_line(indent + "namespace "@ + name.push(end) + rest) == Some(name),
{
    reveal_strlit("namespace ");
    let line = indent + "namespace "@ + name.push(end) + rest;
    let start = "namespace "@ + name.push(end) + rest;
    assert forall|i: int| 0 <= i < indent.len() implies CharClass::WhiteSpace.has(
        #[trigger] line[i],
    ) == true by {
        assert(line[i] == indent[i]);
    }
    assert(line[indent.len() as int] == 'n');
    lemma_run_is(line, CharClass::WhiteSpace, true, indent.len());
    assert(trim_start(line, CharClass::WhiteSpace) =~= start);
    assert("namespace "@ =~= start.take("namespace "@.len() as int));
    let tail = start.skip("namespace "@.len() as int);
    assert(tail =~= name.push(end) + rest);
    let class = CharClass::Either(';', '{');
    assert forall|i: int| 0 <= i < name.len() implies class.has(#[trigger] tail[i]) == false by {
        assert(tail[i] == name[i]);
        assert(name.contains(name[i]));
    }
    assert(tail[name.len() as int] == end);
    lemma_run_is(tail, class, false, name.len());
    let none = Seq::<char>::empty();
    assert(tail.take(name.len() as int) =~= none + name + none);
    lemma_trim(none, name, none, CharClass::WhiteSpace);
}

/// The first word of a text is what stands before the first white space.
proof fn lemma_first_word(word: Seq<char>, rest: Seq<char>)
    requires
        word.len() > 0,
        forall|i: int| 0 <= i < word.len() ==> !CharClass::WhiteSpace.has(#[trigger] word[i]),
        rest.len() > 0 ==> CharClass::WhiteSpace.has(rest[0]),
    ensures
        words(word + rest) == seq![word] + words(rest),
{
    let s = word + rest;
    let class = CharClass::WhiteSpace;
    assert(s[0] == word[0]);
    lemma_run_is(s, class, true, 0);
    assert(trim_start(s, class) =~= s);
    assert forall|i: int| 0 <= i < word.len() implies class.has(#[trigger] s[i]) == false by {
        assert(s[i] == word[i]);
    }
    if rest.len() > 0 {
        assert(s[word.len() as int] == rest[0]);
    }
    lemma_run_is(s, class, false, word.len());
    assert(s.take(word.len() as int) =~= word);
    assert(s.skip(word.len() as int) =~= rest);
}

/// White space in front of a text does not change its words.
proof fn lemma_words_after_space(s: Seq<char>)
    ensures
        words(seq![' '] + s) == words(s),
{
    let spaced = seq![' '] + s;
    let class = CharClass::WhiteSpace;
    lemma_run(s, class, true);
    assert(spaced.drop_first() =~= s);
    assert(trim_start(spaced, class) =~= trim_start(s, class));
}

/// The type that a line declares at its front is read back from it: its keyword, a space,
/// and its name, with anything behind it that does not go on with the name.
pub proof fn law_type_is_read_back(keyword: Seq<char>, name: Seq<char>, rest: Seq<char>)
    requires
        type_keyword(keyword),
        identifier(name),
        rest.len() > 0 ==> !identifier_char(rest[0]),
    ensures
        type_of_line(keyword + seq![' '] + name + rest) == Some(name),
{
    reveal_strlit("class");
    reveal_strlit("interface");
    reveal_strlit("trait");
    reveal_strlit("enum");
    let space = CharClass::WhiteSpace;
    let n = run(rest, space, false);
    lemma_run(rest, space, false);
    let token = name + rest.take(n as int);
    let tail = rest.skip(n as int);
    let line = keyword + seq![' '] + name + rest;
    let behind = seq![' '] + (token + tail);
    assert(line =~= keyword + behind);
    assert forall|i: int| 0 <= i < keyword.len() implies !space.has(#[trigger] keyword[i]) by {}
    lemma_first_word(keyword, behind);
    lemma_words_after_space(token + tail);
    assert forall|i: int| 0 <= i < token.len() implies !space.has(#[trigger] token[i]) by {
        if i < name.len() {
            assert(identifier_char(name[i]));
        } else {
            assert(space.has(rest[i - name.len()]) == false);
        }
    }
    lemma_first_word(token, tail);
    let list = words(line);
    assert(list[0] == keyword);
    assert(list[1] == token);
    assert(identifier_char(name[0]));
    assert(token[0] == name[0]);
    lemma_run_is(token, CharClass::Only('&'), true, 0);
    assert(trim_start(token, CharClass::Only('&')) =~= token);
    assert forall|i: int| 0 <= i < name.len() implies CharClass::Identifier.has(#[trigger] token[i])
        == true by {
        assert(identifier_char(name[i]));
    }
    if n > 0 {
        assert(token[name.len() as int] == rest[0]);
    }
    lemma_run_is(token, CharClass::Identifier, true, name.len());
    assert(token.take(name.len() as int) =~= name);
    assert(type_at(list, 0) == Some(name));
}

/// The identifier at the front of a token is what stands between its ampersands and the
/// first character that cannot go on with it; there is none if nothing stands there.
pub proof fn law_identifier(ampersands: Seq<char>, name: Seq<char>, rest: Seq<char>)
    requires
        all_in(ampersands, CharClass::Only('&')),
        forall|i: int| 0 <= i < name.len() ==> identifier_char(#[trigger] name[i]),
        rest.len() > 0 ==> !identifier_char(rest[0]) && (name.len() == 0 ==> rest[0] != '&'),
    ensures
        name.len() > 0 ==> identifier_of(ampersands + name + rest) == Some(name),
        name.len() == 0 ==> identifier_of(ampersands + rest) is None,
{
    let tail = name + rest;
    if name.len() > 0 {
        assert(identifier_char(name[0]));
        assert(tail[0] == name[0]);
    } else {
        assert(tail =~= rest);
    }
    law_trim_start(ampersands, tail, CharClass::Only('&'));
    assert(ampersands + tail =~= ampersands + name + rest);
    assert forall|i: int| 0 <= i < name.len() implies CharClass::Identifier.has(#[trigger] tail[i])
        == true by {
        assert(tail[i] == name[i]);
    }
    if rest.len() > 0 {
        assert(tail[name.len() as int] == rest[0]);
    }
    lemma_run_is(tail, CharClass::Identifier, true, name.len());
    assert(tail.take(name.len() as int) =~= name);
}

/// Whether the word at `i` introduces a type: it is one of the four keywords, does not stand
/// right behind `new`, and a word that starts with an identifier follows it.
pub open spec fn introduces(list: Seq<Seq<char>>, i: int) -> bool {
    &&& list[i] == "class"@ || list[i] == "interface"@ || list[i] == "trait"@ || list[i] == "enum"@
    &&& i == 0 || list[i - 1] != "new"@
    &&& i + 1 < list.len()
    &&& identifier_of(list[i + 1]) is Some
}

/// The first type among the words from `k` on is that of the first place that introduces
/// one.
proof fn lemma_first_place(list: Seq<Seq<char>>, k: int, i: int)
    requires
        0 <= k <= i <= list.len(),
        forall|j: int| k <= j < i ==> !introduces(list, j),
        i < list.len() ==> introduces(list, i),
    ensures
        first_type(list, k) == if i < list.len() {
            identifier_of(list[i + 1])
        } else {
            None
        },
    decreases i - k,
{
    if k < i {
        assert(!introduces(list, k));
        lemma_first_place(list, k + 1, i);
    }
}

/// The type of a line is what follows the first word that introduces one, whatever words
/// stand before it. There is none exactly if no word introduces one.
pub proof fn law_first_type_of_a_line(line: Seq<char>, i: int)
    ensures
        0 <= i < words(line).len() && introduces(words(line), i) && (forall|j: int|
            0 <= j < i ==> !introduces(words(line), j)) ==> {
            &&& type_of_line(line) is Some
            &&& type_of_line(line) == identifier_of(words(line)[i + 1])
        },
        type_of_line(line) is None <==> forall|j: int|
            0 <= j < words(line).len() ==> !introduces(words(line), j),
{
    let list = words(line);
    if 0 <= i < list.len() && introduces(list, i) && forall|j: int|
        0 <= j < i ==> !introduces(list, j) {
        lemma_first_place(list, 0, i);
    }
    if forall|j: int| 0 <= j < list.len() ==> !introduces(list, j) {
        lemma_first_place(list, 0, list.len() as int);
    } else {
        let k = choose|k: int| 0 <= k < list.len() && introduces(list, k);
        let first = lemma_least_place(list, k);
        lemma_first_place(list, 0, first);
    }
}

/// Where some place introduces a type, one does first.
proof fn lemma_least_place(list: Seq<Seq<char>>, k: int) -> (first: int)
    requires
        0 <= k < list.len(),
        introduces(list, k),
    ensures
        0 <= first <= k,
        introduces(list, first),
        forall|j: int| 0 <= j < first ==> !introduces(list, j),
    decreases k,
{
    if exists|j: int| 0 <= j < k && introduces(list, j) {
        let j = choose|j: int| 0 <= j < k && introduces(list, j);
        lemma_least_place(list, j)
    } else {
        k
    }
}

/// The words of two texts, where white space ends the first.
proof fn lemma_words_concat(a: Seq<char>, b: Seq<char>)
    requires
        a.len() > 0 ==> CharClass::WhiteSpace.has(a.last()),
    ensures
        words(a + b) == words(a) + words(b),
    decreases a.len(),
{
    let class = CharClass::WhiteSpace;
    let n = run(a, class, true);
    lemma_run(a, class, true);
    let gap = a.take(n as int);
    let t = a.skip(n as int);
    assert forall|i: int| 0 <= i < gap.len() implies class.has(#[trigger] gap[i]) by {
        assert(class.has(a[i]) == true);
    }
    if t.len() == 0 {
        assert(gap =~= a);
        let m = run(b, class, true);
        lemma_run(b, class, true);
        let inner = b.take(m as int);
        let core = b.skip(m as int);
        assert forall|i: int| 0 <= i < (a + inner).len() implies class.has(
            #[trigger] (a + inner)[i],
        ) by {
            if i < a.len() {
                assert(class.has(a[i]) == true);
            } else {
                assert(class.has(b[i - a.len()]) == true);
            }
        }
        law_trim_start(a + inner, core, class);
        assert(a + b =~= a + inner + core);
        assert(words(a) =~= Seq::empty());
        assert(words(a) + words(b) =~= words(b));
    } else {
        let m = run(t, class, false);
        lemma_run(t, class, false);
        let word = t.take(m as int);
        let rest = t.skip(m as int);
        assert(t[0] == a[n as int]);
        assert(t.last() == a.last());
        assert(m > 0);
        assert(m < t.len()) by {
            if m == t.len() {
                assert(class.has(t[t.len() - 1]) == false);
            }
        }
        assert(rest[0] == t[m as int]);
        assert forall|i: int| 0 <= i < word.len() implies !class.has(#[trigger] word[i]) by {
            assert(class.has(t[i]) == false);
        }
        assert(rest.last() == a.last());
        lemma_words_concat(rest, b);
        law_words(gap, word, rest);
        law_words(gap, word, rest + b);
        assert(a =~= gap + word + rest);
        assert(a + b =~= gap + word + (rest + b));
        assert(words(a + b) =~= words(a) + words(b));
    }
}

/// A type is read back from behind any words that are no keywords, such as `abstract` and
/// `final`, unless `new` is the last of them.
pub proof fn law_type_is_read_back_behind_words(
    front: Seq<char>,
    keyword: Seq<char>,
    name: Seq<char>,
    rest: Seq<char>,
)
    requires
        front.len() > 0 ==> CharClass::WhiteSpace.has(front.last()),
        forall|i: int|
            0 <= i < words(front).len() ==> {
                let word = #[trigger] words(front)[i];
                word != "class"@ && word != "interface"@ && word != "trait"@ && word != "enum"@
            },
        words(front).len() > 0 ==> words(front).last() != "new"@,
        keyword == "class"@ || keyword == "interface"@ || keyword == "trait"@ || keyword
            == "enum"@,
        identifier(name),
        rest.len() > 0 ==> !identifier_char(rest[0]),
    ensures
        type_of_line(front + keyword + seq![' '] + name + rest) == Some(name),
{
    let tail = keyword + seq![' '] + name + rest;
    let line = front + keyword + seq![' '] + name + rest;
    let n = words(front).len() as int;
    assert(line =~= front + tail);
    lemma_words_concat(front, tail);
    let token = lemma_words_of_declaration(keyword, name, rest);
    let list = words(line);
    assert(list[n] == words(tail)[0]);
    assert(list[n + 1] == words(tail)[1]);
    assert forall|j: int| 0 <= j < n implies !introduces(list, j) by {
        assert(list[j] == words(front)[j]);
    }
    if n > 0 {
        assert(list[n - 1] == words(front).last());
    }
    assert(introduces(list, n));
    lemma_first_place(list, 0, n);
}

/// The first two words of a declaration are its keyword and a token that the name is read
/// from.
proof fn lemma_words_of_declaration(
    keyword: Seq<char>,
    name: Seq<char>,
    rest: Seq<char>,
) -> (token: Seq<char>)
    requires
        keyword == "class"@ || keyword == "interface"@ || keyword == "trait"@ || keyword
            == "enum"@,
        identifier(name),
        rest.len() > 0 ==> !identifier_char(rest[0]),
    ensures
        words(keyword + seq![' '] + name + rest).len() >= 2,
        words(keyword + seq![' '] + name + rest)[0] == keyword,
        words(keyword + seq![' '] + name + rest)[1] == token,
        identifier_of(token) == Some(name),
{
    reveal_strlit("class");
    reveal_strlit("interface");
    reveal_strlit("trait");
    reveal_strlit("enum");
    let space = CharClass::WhiteSpace;
    let none = Seq::<char>::empty();
    let n = run(rest, space, false);
    lemma_run(rest, space, false);
    let token = name + rest.take(n as int);
    let tail = rest.skip(n as int);
    let line = keyword + seq![' '] + name + rest;
    let behind = seq![' '] + token + tail;
    assert(line =~= none + keyword + behind);
    assert(behind[0] == ' ');
    law_words(none, keyword, behind);
    assert forall|i: int| 0 <= i < token.len() implies !space.has(#[trigger] token[i]) by {
        if i < name.len() {
            assert(identifier_char(name[i]));
        } else {
            assert(space.has(rest[i - name.len()]) == false);
        }
    }
    if tail.len() > 0 {
        assert(tail[0] == rest[n as int]);
    }
    law_words(seq![' '], token, tail);
    if n > 0 {
        assert(rest.take(n as int)[0] == rest[0]);
    }
    law_identifier(none, name, rest.take(n as int));
    assert(none + name + rest.take(n as int) =~= token);
    token
}

/// The namespace of a line: what follows `namespace ` at its front up to a semicolon or a
/// brace or to the end of the line, without the white space around; there is none if that
/// is empty, or if the line starts with anything else.
pub proof fn law_namespace_of_a_line(
    indent: Seq<char>,
    start: Seq<char>,
    head: Seq<char>,
    name: Seq<char>,
    tail: Seq<char>,
    rest: Seq<char>,
)
    requires
        all_in(indent, CharClass::WhiteSpace),
        starts_outside(start, CharClass::WhiteSpace),
        all_in(head, CharClass::WhiteSpace),
        starts_outside(name, CharClass::WhiteSpace),
        ends_outside(name, CharClass::WhiteSpace),
        none_in(name, CharClass::Either(';', '{')),
        all_in(tail, CharClass::WhiteSpace),
        rest.len() > 0 ==> rest[0] == ';' || rest[0] == '{',
    ensures
        !"namespace "@.is_prefix_of(start) ==> namespace_of_line(indent + start) is None,
        namespace_of_line(indent + "namespace "@ + head + name + tail + rest) == if name.len() > 0 {
            Some(name)
        } else {
            None
        },
{
    reveal_strlit("namespace ");
    law_trim_start(indent, start, CharClass::WhiteSpace);
    let behind = head + name + tail + rest;
    let whole = "namespace "@ + behind;
    let line = indent + "namespace "@ + head + name + tail + rest;
    assert(whole[0] == 'n');
    law_trim_start(indent, whole, CharClass::WhiteSpace);
    assert(line =~= indent + whole);
    assert("namespace "@ =~= whole.take("namespace "@.len() as int));
    assert(whole.skip("namespace "@.len() as int) =~= behind);
    let class = CharClass::Either(';', '{');
    let n = head.len() + name.len() + tail.len();
    assert forall|i: int| 0 <= i < n implies class.has(#[trigger] behind[i]) == false by {
        if i < head.len() {
            assert(behind[i] == head[i]);
            assert(CharClass::WhiteSpace.has(head[i]));
        } else if i < head.len() + name.len() {
            assert(behind[i] == name[i - head.len()]);
        } else {
            assert(behind[i] == tail[i - head.len() - name.len()]);
            assert(CharClass::WhiteSpace.has(tail[i - head.len() - name.len()]));
        }
    }
    if rest.len() > 0 {
        assert(behind[n as int] == rest[0]);
    }
    lemma_run_is(behind, class, false, n);
    assert(behind.take(n as int) =~= head + name + tail);
    law_trim(head, name, tail, CharClass::WhiteSpace);
}

/// The first line that declares a namespace decides, and so does the first line that
/// declares a type; there is none exactly if no line declares one.
pub proof fn law_first_line_decides(source: Seq<char>, i: int)
    ensures
        0 <= i < lines(source).len() && namespace_of_line(lines(source)[i]) is Some && (forall|
            j: int,
        |
            0 <= j < i ==> namespace_of_line(#[trigger] lines(source)[j]) is None) ==> namespace_of(
            source,
        ) == namespace_of_line(lines(source)[i]),
        namespace_of(source) is None <==> forall|j: int|
            0 <= j < lines(source).len() ==> namespace_of_line(
                #[trigger] lines(source)[j],
            ) is None,
        0 <= i < lines(source).len() && type_of_line(lines(source)[i]) is Some && (forall|j: int|
            0 <= j < i ==> type_of_line(#[trigger] lines(source)[j]) is None) ==> primary_type_of(
            source,
        ) == type_of_line(lines(source)[i]),
        primary_type_of(source) is None <==> forall|j: int|
            0 <= j < lines(source).len() ==> type_of_line(#[trigger] lines(source)[j]) is None,
{
    lemma_first_namespace_line(lines(source), i);
    lemma_first_type_line(lines(source), i);
}

/// The first of the lines that declares a namespace decides.
proof fn lemma_first_namespace_line(list: Seq<Seq<char>>, i: int)
    ensures
        0 <= i < list.len() && namespace_of_line(list[i]) is Some && (forall|j: int|
            0 <= j < i ==> namespace_of_line(#[trigger] list[j]) is None) ==> first_namespace(list)
            == namespace_of_line(list[i]),
        first_namespace(list) is None <==> forall|j: int|
            0 <= j < list.len() ==> namespace_of_line(#[trigger] list[j]) is None,
    decreases list.len(),
{
    if list.len() > 0 && namespace_of_line(list[0]) is None {
        let rest = list.drop_first();
        lemma_first_namespace_line(rest, i - 1);
        assert forall|j: int| 0 <= j < rest.len() implies #[trigger] rest[j] == list[j + 1] by {}
        assert forall|j: int| 0 < j < list.len() implies #[trigger] list[j] == rest[j - 1] by {}
    }
}

/// The first of the lines that declares a type decides.
proof fn lemma_first_type_line(list: Seq<Seq<char>>, i: int)
    ensures
        0 <= i < list.len() && type_of_line(list[i]) is Some && (forall|j: int|
            0 <= j < i ==> type_of_line(#[trigger] list[j]) is None) ==> first_line_type(list)
            == type_of_line(list[i]),
        first_line_type(list) is None <==> forall|j: int|
            0 <= j < list.len() ==> type_of_line(#[trigger] list[j]) is None,
    decreases list.len(),
{
    if list.len() > 0 && type_of_line(list[0]) is None {
        let rest = list.drop_first();
        lemma_first_type_line(rest, i - 1);
        assert forall|j: int| 0 <= j < rest.len() implies #[trigger] rest[j] == list[j + 1] by {}
        assert forall|j: int| 0 < j < list.len() implies #[trigger] list[j] == rest[j - 1] by {}
    }
}

/// The symbol is the namespace, a backslash and the type; or the one of the two that there
/// is.
pub proof fn law_symbol(source: Seq<char>, namespace: Seq<char>, name: Seq<char>)
    ensures
        namespace_of(source) == Some(namespace) && primary_type_of(source) == Some(name)
            ==> symbol_of(source) == Some(namespace + seq!['\\'] + name),
        namespace_of(source) is None && primary_type_of(source) == Some(name) ==> symbol_of(source)
            == Some(name),
        namespace_of(source) == Some(namespace) && primary_type_of(source) is None ==> symbol_of(
            source,
        ) == Some(namespace),
        namespace_of(source) is None && primary_type_of(source) is None ==> symbol_of(
            source,
        ) is None,
{
    assert(namespace.push('\\') =~= namespace + seq!['\\']);
}

} // verus!
