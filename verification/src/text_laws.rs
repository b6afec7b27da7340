//! What holds of all texts, however they are cut up.

use vstd::prelude::*;
use vstd::utf8::is_ascii_chars;

use crate::text::{
    ascii_lower, join, lemma_run, lemma_run_is, lemma_trim, lemma_trim_end, lines, lower, lowered,
    optional, outcome, run, same_ignoring_case, slices, split, strings, trim, trim_end, trim_start,
    words, CharClass,
};

verus! {

/// Whether all characters of the text lie in the class.
pub open spec fn all_in(s: Seq<char>, class: CharClass) -> bool {
    forall|i: int| 0 <= i < s.len() ==> class.has(#[trigger] s[i])
}

/// Whether no character of the text lies in the class.
pub open spec fn none_in(s: Seq<char>, class: CharClass) -> bool {
    forall|i: int| 0 <= i < s.len() ==> !class.has(#[trigger] s[i])
}

/// Whether the text is empty or starts outside of the class.
pub open spec fn starts_outside(s: Seq<char>, class: CharClass) -> bool {
    s.len() > 0 ==> !class.has(s[0])
}

/// Whether the text is empty or ends outside of the class.
pub open spec fn ends_outside(s: Seq<char>, class: CharClass) -> bool {
    s.len() > 0 ==> !class.has(s.last())
}

/// Which characters a class holds, told by their code points.
pub proof fn law_char_classes(c: char, a: char, b: char)
    ensures
        CharClass::WhiteSpace.has(c) <==> {
            let n = c as u32;
            ||| 0x9 <= n <= 0xd
            ||| n == 0x20
            ||| n == 0x85
            ||| n == 0xa0
            ||| n == 0x1680
            ||| 0x2000 <= n <= 0x200a
            ||| n == 0x2028
            ||| n == 0x2029
            ||| n == 0x202f
            ||| n == 0x205f
            ||| n == 0x3000
        },
        CharClass::Identifier.has(c) <==> {
            let n = c as u32;
            0x30 <= n <= 0x39 || 0x41 <= n <= 0x5a || n == 0x5f || 0x61 <= n <= 0x7a
        },
        CharClass::Only(a).has(c) <==> c == a,
        CharClass::Either(a, b).has(c) <==> c == a || c == b,
{
}

/// Cutting a class off the front leaves what follows the characters of the class there.
pub proof fn law_trim_start(head: Seq<char>, core: Seq<char>, class: CharClass)
    requires
        all_in(head, class),
        starts_outside(core, class),
    ensures
        trim_start(head + core, class) == core,
{
    let s = head + core;
    assert forall|i: int| 0 <= i < head.len() implies class.has(#[trigger] s[i]) == true by {
        assert(s[i] == head[i]);
    }
    if core.len() > 0 {
        assert(s[head.len() as int] == core[0]);
    }
    lemma_run_is(s, class, true, head.len());
    assert(trim_start(s, class) =~= core);
}

/// Cutting a class off the end leaves what stands before the characters of the class there.
pub proof fn law_trim_end(core: Seq<char>, tail: Seq<char>, class: CharClass)
    requires
        ends_outside(core, class),
        all_in(tail, class),
    ensures
        trim_end(core + tail, class) == core,
{
    lemma_trim_end(core, tail, class);
}

/// Cutting a class off both ends leaves what stands between.
pub proof fn law_trim(head: Seq<char>, core: Seq<char>, tail: Seq<char>, class: CharClass)
    requires
        all_in(head, class),
        starts_outside(core, class),
        ends_outside(core, class),
        all_in(tail, class),
    ensures
        trim(head + core + tail, class) == core,
{
    lemma_trim(head, core, tail, class);
}

/// A text is what a class is cut off from, between characters of the class.
pub proof fn law_trim_takes_the_class_only(s: Seq<char>, class: CharClass)
    ensures
        exists|head: Seq<char>, tail: Seq<char>| #[trigger]
            all_in(head, class) && #[trigger] all_in(tail, class) && s == head + trim(s, class)
                + tail,
        starts_outside(trim(s, class), class),
        ends_outside(trim(s, class), class),
{
    let n = run(s, class, true);
    lemma_run(s, class, true);
    let head = s.take(n as int);
    let rest = s.skip(n as int);
    assert forall|i: int| 0 <= i < head.len() implies class.has(#[trigger] head[i]) by {
        assert(class.has(s[i]) == true);
    }
    let tail = lemma_trim_end_parts(rest, class);
    assert(s =~= head + rest);
    assert(head + (trim(s, class) + tail) =~= head + trim(s, class) + tail);
    assert(all_in(head, class) && all_in(tail, class));
    if trim(s, class).len() > 0 {
        assert(trim(s, class)[0] == rest[0]);
        assert(rest[0] == s[n as int]);
    }
}

/// What is cut off the end lies in the class, and what is left does not end in it.
pub proof fn lemma_trim_end_parts(s: Seq<char>, class: CharClass) -> (tail: Seq<char>)
    ensures
        all_in(tail, class),
        s == trim_end(s, class) + tail,
        ends_outside(trim_end(s, class), class),
    decreases s.len(),
{
    if s.len() > 0 && class.has(s.last()) {
        let tail = lemma_trim_end_parts(s.drop_last(), class);
        let left = trim_end(s, class);
        assert(s =~= s.drop_last().push(s.last()));
        assert((left + tail).push(s.last()) =~= left + tail.push(s.last()));
        tail.push(s.last())
    } else {
        assert(s =~= s + Seq::<char>::empty());
        Seq::empty()
    }
}

/// The lines of a text. A newline ends a line, together with a carriage return right before
/// it; at the end of the text neither is needed, and an empty text has no line.
pub proof fn law_lines(line: Seq<char>, rest: Seq<char>)
    requires
        !line.contains('\n'),
    ensures
        lines(line + seq!['\r', '\n'] + rest) == seq![line] + lines(rest),
        (line.len() > 0 ==> line.last() != '\r') ==> lines(line + seq!['\n'] + rest) == seq![line]
            + lines(rest),
        line.len() > 0 ==> lines(line) == seq![line],
        lines(Seq::empty()) == Seq::<Seq<char>>::empty(),
{
    let class = CharClass::Only('\n');
    let long = line + seq!['\r', '\n'] + rest;
    let short = line + seq!['\n'] + rest;
    assert forall|i: int| 0 <= i < line.len() implies line[i] != '\n' by {
        assert(line.contains(line[i]));
    }
    assert forall|i: int| 0 <= i < line.len() + 1 implies class.has(#[trigger] long[i]) == false by {
        if i < line.len() {
            assert(long[i] == line[i]);
        }
    }
    assert(long[line.len() as int + 1] == '\n');
    lemma_run_is(long, class, false, line.len() + 1);
    assert(long.take(line.len() as int + 1) =~= line.push('\r'));
    assert(line.push('\r').drop_last() =~= line);
    assert(long.skip(line.len() as int + 2) =~= rest);
    assert forall|i: int| 0 <= i < line.len() implies class.has(#[trigger] short[i]) == false by {
        assert(short[i] == line[i]);
    }
    assert(short[line.len() as int] == '\n');
    lemma_run_is(short, class, false, line.len());
    assert(short.take(line.len() as int) =~= line);
    assert(short.skip(line.len() as int + 1) =~= rest);
    assert forall|i: int| 0 <= i < line.len() implies class.has(#[trigger] line[i]) == false by {}
    lemma_run_is(line, class, false, line.len());
}

/// The words of a text: what stands between white space, in order.
pub proof fn law_words(gap: Seq<char>, word: Seq<char>, rest: Seq<char>)
    requires
        all_in(gap, CharClass::WhiteSpace),
        word.len() > 0,
        none_in(word, CharClass::WhiteSpace),
        rest.len() > 0 ==> CharClass::WhiteSpace.has(rest[0]),
    ensures
        words(gap) == Seq::<Seq<char>>::empty(),
        words(gap + word + rest) == seq![word] + words(rest),
{
    let class = CharClass::WhiteSpace;
    let none = Seq::<char>::empty();
    law_trim_start(gap, none, class);
    assert(gap + none =~= gap);
    let s = gap + word + rest;
    let t = word + rest;
    assert(t[0] == word[0]);
    law_trim_start(gap, t, class);
    assert(gap + t =~= s);
    assert forall|i: int| 0 <= i < word.len() implies class.has(#[trigger] t[i]) == false by {
        assert(t[i] == word[i]);
    }
    if rest.len() > 0 {
        assert(t[word.len() as int] == rest[0]);
    }
    lemma_run_is(t, class, false, word.len());
    assert(t.take(word.len() as int) =~= word);
    assert(t.skip(word.len() as int) =~= rest);
}

/// A text without the separator is one piece.
pub proof fn law_split_whole(s: Seq<char>, separator: char)
    requires
        !s.contains(separator),
    ensures
        split(s, separator) == seq![s],
{
    let class = CharClass::Only(separator);
    assert forall|i: int| 0 <= i < s.len() implies class.has(#[trigger] s[i]) == false by {
        assert(s.contains(s[i]));
    }
    lemma_run_is(s, class, false, s.len());
}

/// The pieces of two texts with a separator between them are those of the one and
/// those of the other.
pub proof fn law_split_concat(a: Seq<char>, b: Seq<char>, separator: char)
    ensures
        split(a.push(separator) + b, separator) == split(a, separator) + split(b, separator),
    decreases a.len(),
{
    let class = CharClass::Only(separator);
    let s = a.push(separator) + b;
    let n = run(a, class, false);
    lemma_run(a, class, false);
    assert forall|i: int| 0 <= i < n implies class.has(#[trigger] s[i]) == false by {
        assert(s[i] == a[i]);
    }
    lemma_run_is(s, class, false, n);
    assert(s.take(n as int) =~= a.take(n as int));
    if n == a.len() {
        assert(s.skip(n as int + 1) =~= b);
        assert(a.take(n as int) =~= a);
    } else {
        let rest = a.skip(n as int + 1);
        assert(s.skip(n as int + 1) =~= rest.push(separator) + b);
        law_split_concat(rest, b, separator);
        assert(split(s, separator) =~= split(a, separator) + split(b, separator));
    }
}

/// The pieces of a text, joined again, are the text.
pub proof fn law_split_is_undone_by_join(s: Seq<char>, separator: char)
    ensures
        split(s, separator).len() > 0,
        join(split(s, separator), seq![separator]) == s,
    decreases s.len(),
{
    let class = CharClass::Only(separator);
    let n = run(s, class, false);
    lemma_run(s, class, false);
    if n < s.len() {
        let first = s.take(n as int);
        let rest = s.skip(n as int + 1);
        law_split_is_undone_by_join(rest, separator);
        law_join(seq![first], split(rest, separator), seq![separator]);
        assert(join(seq![first], seq![separator]) == first);
        assert(s[n as int] == separator);
        assert(s =~= first + seq![separator] + rest);
    }
}

/// Joined texts: nothing for none, the text itself for one, and the separator between two
/// lists of them.
pub proof fn law_join(a: Seq<Seq<char>>, b: Seq<Seq<char>>, separator: Seq<char>)
    ensures
        join(Seq::empty(), separator) == Seq::<char>::empty(),
        a.len() == 1 ==> join(a, separator) == a[0],
        a.len() > 0 && b.len() > 0 ==> join(a + b, separator) == join(a, separator) + separator
            + join(b, separator),
    decreases b.len(),
{
    if a.len() > 0 && b.len() > 0 {
        let front = b.drop_last();
        assert((a + b).drop_last() =~= a + front);
        assert((a + b).last() == b.last());
        if front.len() == 0 {
            assert(a + front =~= a);
            assert(join(a + b, separator) =~= join(a, separator) + separator + join(b, separator));
        } else {
            law_join(a, front, separator);
            assert(join(a + b, separator) =~= join(a, separator) + separator + join(b, separator));
        }
    }
}

/// ASCII letters in upper case get the code point of the lower-case letter, which is 32
/// higher; all other characters stay as they are.
pub proof fn law_ascii_lower(s: Seq<char>)
    ensures
        ascii_lower(s).len() == s.len(),
        forall|i: int|
            0 <= i < s.len() ==> (#[trigger] ascii_lower(s)[i]) as u32 == if 0x41 <= s[i] as u32
                <= 0x5a {
                s[i] as u32 + 32
            } else {
                s[i] as int
            },
{
}

/// Two characters are the same or the same ASCII letter in either case.
pub open spec fn alike(a: char, b: char) -> bool {
    ||| a == b
    ||| 0x41 <= a as u32 <= 0x5a && b as u32 == a as u32 + 32
    ||| 0x41 <= b as u32 <= 0x5a && a as u32 == b as u32 + 32
}

/// Texts are the same but for the case of ASCII letters exactly if they are as long as each
/// other and alike at each place.
pub proof fn law_same_ignoring_case(a: Seq<char>, b: Seq<char>)
    ensures
        same_ignoring_case(a, b) <==> a.len() == b.len() && forall|i: int|
            0 <= i < a.len() ==> alike(#[trigger] a[i], b[i]),
{
    law_ascii_lower(a);
    law_ascii_lower(b);
    if same_ignoring_case(a, b) {
        assert(ascii_lower(a).len() == ascii_lower(b).len());
        assert forall|i: int| 0 <= i < a.len() implies alike(#[trigger] a[i], b[i]) by {
            assert(ascii_lower(a)[i] == ascii_lower(b)[i]);
        }
    } else if a.len() == b.len() && forall|i: int|
        0 <= i < a.len() ==> alike(#[trigger] a[i], b[i]) {
        assert forall|i: int| 0 <= i < a.len() implies ascii_lower(a)[i] == ascii_lower(b)[i] by {
            assert(alike(a[i], b[i]));
            assert(ascii_lower(a)[i] as u32 == ascii_lower(b)[i] as u32);
        }
        assert(ascii_lower(a) =~= ascii_lower(b));
    }
}

/// In lower case, an ASCII text has its upper-case letters moved by 32 and all else
/// unchanged; any other text is what the rules of Unicode make of it.
pub proof fn law_lowered(s: Seq<char>)
    ensures
        is_ascii_chars(s) ==> lowered(s).len() == s.len() && forall|i: int|
            0 <= i < s.len() ==> (#[trigger] lowered(s)[i]) as u32 == if 0x41 <= s[i] as u32
                <= 0x5a {
                s[i] as u32 + 32
            } else {
                s[i] as int
            },
        !is_ascii_chars(s) ==> lowered(s) == lower(s),
{
    law_ascii_lower(s);
}

/// What a list of strings, an optional string and a result hold is what each of their
/// strings holds.
pub proof fn law_lists_hold_their_texts(
    list: Seq<String>,
    pieces: Seq<&[char]>,
    text: Option<String>,
    result: Result<String, String>,
)
    ensures
        strings(list).len() == list.len(),
        forall|i: int| 0 <= i < list.len() ==> #[trigger] strings(list)[i] == list[i]@,
        slices(pieces).len() == pieces.len(),
        forall|i: int| 0 <= i < pieces.len() ==> #[trigger] slices(pieces)[i] == pieces[i]@,
        text is Some <==> optional(text) is Some,
        text matches Some(t) ==> optional(text)->0 == t@,
        result is Ok <==> outcome(result) is Ok,
        result matches Ok(t) ==> outcome(result)->Ok_0 == t@,
        result matches Err(e) ==> outcome(result)->Err_0 == e@,
{
}

} // verus!
