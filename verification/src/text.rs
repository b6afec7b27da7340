//! Text as a sequence of characters, and the ways in which it is cut up.
//!
//! The specifications speak of `Seq<char>`. The executable functions work on
//! character slices, so that a cut is a sub-slice and never a copy.

use vstd::prelude::*;
use vstd::slice::slice_subrange;

verus! {

/// `String::push` appends one character to the string.
pub assume_specification[ String::push ](text: &mut String, c: char)
    ensures
        final(text)@ == old(text)@.push(c),
;

/// The characters of a string.
pub fn to_chars(text: &str) -> (chars: Vec<char>)
    ensures
        chars@ == text@,
{
    let mut chars: Vec<char> = Vec::new();
    for c in it: text.chars()
        invariant
            it.seq() == text@,
            chars@ == it.seq().take(it.index() as int),
    {
        chars.push(c);
    }
    chars
}

/// The string that holds the given characters.
pub fn to_text(chars: &[char]) -> (text: String)
    ensures
        text@ == chars@,
{
    let mut text = String::new();
    for i in 0..chars.len()
        invariant
            text@ == chars@.take(i as int),
    {
        text.push(chars[i]);
    }
    text
}

/// A set of characters.
#[derive(Clone, Copy)]
pub enum CharClass {
    /// The characters with the Unicode property `White_Space`.
    WhiteSpace,
    /// ASCII letters, ASCII digits and the underscore.
    Identifier,
    /// One character.
    Only(char),
    /// Two characters.
    Either(char, char),
}

/// Whether a character has the Unicode property `White_Space`.
pub open spec fn white_space(c: char) -> bool {
    ||| '\u{9}' <= c <= '\u{d}'
    ||| c == ' '
    ||| c == '\u{85}'
    ||| c == '\u{a0}'
    ||| c == '\u{1680}'
    ||| '\u{2000}' <= c <= '\u{200a}'
    ||| c == '\u{2028}'
    ||| c == '\u{2029}'
    ||| c == '\u{202f}'
    ||| c == '\u{205f}'
    ||| c == '\u{3000}'
}

/// Whether a character is an ASCII letter, an ASCII digit or an underscore.
pub open spec fn identifier_char(c: char) -> bool {
    ||| 'a' <= c <= 'z'
    ||| 'A' <= c <= 'Z'
    ||| '0' <= c <= '9'
    ||| c == '_'
}

impl CharClass {
    /// Whether the class holds the character.
    pub open spec fn has(self, c: char) -> bool {
        match self {
            CharClass::WhiteSpace => white_space(c),
            CharClass::Identifier => identifier_char(c),
            CharClass::Only(a) => c == a,
            CharClass::Either(a, b) => c == a || c == b,
        }
    }

    /// Tells whether the class holds the character.
    pub fn contains(self, c: char) -> (held: bool)
        ensures
            held == self.has(c),
    {
        match self {
            CharClass::WhiteSpace => {
                ('\u{9}' <= c && c <= '\u{d}') || c == ' ' || c == '\u{85}' || c == '\u{a0}'
                    || c == '\u{1680}' || ('\u{2000}' <= c && c <= '\u{200a}') || c == '\u{2028}'
                    || c == '\u{2029}' || c == '\u{202f}' || c == '\u{205f}' || c == '\u{3000}'
            },
            CharClass::Identifier => {
                ('a' <= c && c <= 'z') || ('A' <= c && c <= 'Z') || ('0' <= c && c <= '9')
                    || c == '_'
            },
            CharClass::Only(a) => c == a,
            CharClass::Either(a, b) => c == a || c == b,
        }
    }
}

/// How many characters at the front of `s` lie in `class` (`inside`), or outside
/// of it (not `inside`), before the first one that does not.
pub open spec fn run(s: Seq<char>, class: CharClass, inside: bool) -> nat
    decreases s.len(),
{
    if s.len() > 0 && class.has(s[0]) == inside {
        1 + run(s.drop_first(), class, inside)
    } else {
        0
    }
}

/// `run` is the one length at which the run at the front of `s` ends.
pub proof fn lemma_run_is(s: Seq<char>, class: CharClass, inside: bool, n: nat)
    requires
        n <= s.len(),
        forall|i: int| 0 <= i < n ==> class.has(#[trigger] s[i]) == inside,
        n == s.len() || class.has(s[n as int]) != inside,
    ensures
        run(s, class, inside) == n,
    decreases s.len(),
{
    if n > 0 {
        let rest = s.drop_first();
        assert forall|i: int| 0 <= i < n - 1 implies class.has(#[trigger] rest[i]) == inside by {
            assert(rest[i] == s[i + 1]);
        }
        lemma_run_is(rest, class, inside, (n - 1) as nat);
    }
}

/// What `run` says of the characters of `s`.
pub proof fn lemma_run(s: Seq<char>, class: CharClass, inside: bool)
    ensures
        0 <= run(s, class, inside) <= s.len(),
        forall|i: int|
            0 <= i < run(s, class, inside) ==> class.has(#[trigger] s[i]) == inside,
        run(s, class, inside) < s.len() ==> class.has(s[run(s, class, inside) as int]) != inside,
    decreases s.len(),
{
    if s.len() > 0 && class.has(s[0]) == inside {
        let rest = s.drop_first();
        lemma_run(rest, class, inside);
        assert forall|i: int| 0 <= i < run(s, class, inside) implies class.has(#[trigger] s[i])
            == inside by {
            if i > 0 {
                assert(rest[i - 1] == s[i]);
            }
        }
    }
}

/// The length of the run at the front of the text.
pub fn run_length(s: &[char], class: CharClass, inside: bool) -> (n: usize)
    ensures
        n == run(s@, class, inside),
        n <= s@.len(),
{
    let mut n: usize = 0;
    while n < s.len() && class.contains(s[n]) == inside
        invariant
            n <= s@.len(),
            forall|i: int| 0 <= i < n ==> class.has(#[trigger] s@[i]) == inside,
        decreases s@.len() - n,
    {
        n = n + 1;
    }
    proof {
        lemma_run_is(s@, class, inside, n as nat);
    }
    n
}

/// `s` without the characters of `class` at its front.
pub open spec fn trim_start(s: Seq<char>, class: CharClass) -> Seq<char> {
    s.skip(run(s, class, true) as int)
}

/// `s` without the characters of `class` at its end.
pub open spec fn trim_end(s: Seq<char>, class: CharClass) -> Seq<char>
    decreases s.len(),
{
    if s.len() > 0 && class.has(s.last()) {
        trim_end(s.drop_last(), class)
    } else {
        s
    }
}

/// `s` without the characters of `class` at its front and at its end.
pub open spec fn trim(s: Seq<char>, class: CharClass) -> Seq<char> {
    trim_end(trim_start(s, class), class)
}

/// Cuts the characters of a class off the front.
pub fn cut_start(s: &[char], class: CharClass) -> (rest: &[char])
    ensures
        rest@ == trim_start(s@, class),
{
    let n: usize = run_length(s, class, true);
    let rest = slice_subrange(s, n, s.len());
    assert(rest@ == s@.skip(n as int));
    rest
}

/// Cuts the characters of a class off the end.
pub fn cut_end(s: &[char], class: CharClass) -> (rest: &[char])
    ensures
        rest@ == trim_end(s@, class),
{
    let mut n: usize = s.len();
    assert(s@.take(n as int) == s@);
    while n > 0 && class.contains(s[n - 1])
        invariant
            n <= s@.len(),
            trim_end(s@.take(n as int), class) == trim_end(s@, class),
        decreases n,
    {
        assert(s@.take(n as int).drop_last() == s@.take(n - 1));
        n = n - 1;
    }
    let rest = slice_subrange(s, 0, n);
    assert(rest@ == s@.take(n as int));
    rest
}

/// Cuts the characters of a class off both ends.
pub fn cut(s: &[char], class: CharClass) -> (rest: &[char])
    ensures
        rest@ == trim(s@, class),
{
    cut_end(cut_start(s, class), class)
}

/// Tells whether the characters are those of the given string.
pub fn same(s: &[char], text: &str) -> (equal: bool)
    ensures
        equal == (s@ == text@),
{
    let other = to_chars(text);
    same_chars(s, other.as_slice())
}

/// Tells whether two texts are equal.
pub fn same_chars(s: &[char], other: &[char]) -> (equal: bool)
    ensures
        equal == (s@ == other@),
{
    if s.len() != other.len() {
        return false;
    }
    for i in 0..s.len()
        invariant
            s@.len() == other@.len(),
            forall|j: int| 0 <= j < i ==> s@[j] == other@[j],
    {
        if s[i] != other[i] {
            return false;
        }
    }
    assert(s@ =~= other@);
    true
}

/// What follows the prefix, where the text starts with it.
pub fn strip_prefix<'a>(s: &'a [char], prefix: &str) -> (rest: Option<&'a [char]>)
    ensures
        rest is Some <==> prefix@.is_prefix_of(s@),
        rest matches Some(r) ==> r@ == s@.skip(prefix@.len() as int),
{
    let head = to_chars(prefix);
    if s.len() < head.len() {
        return None;
    }
    if same_chars(slice_subrange(s, 0, head.len()), head.as_slice()) {
        let r = slice_subrange(s, head.len(), s.len());
        assert(r@ == s@.skip(prefix@.len() as int));
        Some(r)
    } else {
        None
    }
}

/// A line without the carriage return that ends it, if one does.
pub open spec fn without_return(line: Seq<char>) -> Seq<char> {
    if line.len() > 0 && line.last() == '\r' {
        line.drop_last()
    } else {
        line
    }
}

/// The lines of a text. A line ends with a newline or with a carriage return and
/// a newline; at the end of the text neither is needed.
pub open spec fn lines(s: Seq<char>) -> Seq<Seq<char>>
    decreases s.len(),
{
    let n = run(s, CharClass::Only('\n'), false);
    if s.len() == 0 {
        Seq::empty()
    } else if n >= s.len() {
        seq![s]
    } else {
        seq![without_return(s.take(n as int))] + lines(s.skip(n as int + 1))
    }
}

/// The maximal runs of characters that are not white space.
pub open spec fn words(s: Seq<char>) -> Seq<Seq<char>>
    decreases s.len(),
{
    let t = trim_start(s, CharClass::WhiteSpace);
    let n = run(t, CharClass::WhiteSpace, false);
    if t.len() == 0 {
        Seq::empty()
    } else {
        proof {
            lemma_run(s, CharClass::WhiteSpace, true);
            lemma_run(t, CharClass::WhiteSpace, false);
        }
        seq![t.take(n as int)] + words(t.skip(n as int))
    }
}

/// The pieces between the separators. There is one more piece than there are
/// separators, and a piece may be empty.
pub open spec fn split(s: Seq<char>, separator: char) -> Seq<Seq<char>>
    decreases s.len(),
{
    let n = run(s, CharClass::Only(separator), false);
    if n >= s.len() {
        seq![s]
    } else {
        proof {
            lemma_run(s, CharClass::Only(separator), false);
        }
        seq![s.take(n as int)] + split(s.skip(n as int + 1), separator)
    }
}

/// The texts in order, with the separator between each two of them.
pub open spec fn join(texts: Seq<Seq<char>>, separator: Seq<char>) -> Seq<char>
    decreases texts.len(),
{
    if texts.len() == 0 {
        Seq::empty()
    } else if texts.len() == 1 {
        texts[0]
    } else {
        join(texts.drop_last(), separator) + separator + texts.last()
    }
}

/// What each slice of a list holds.
pub open spec fn slices(list: Seq<&[char]>) -> Seq<Seq<char>> {
    Seq::new(list.len(), |i: int| list[i]@)
}

/// What each string of a list holds.
pub open spec fn strings(list: Seq<String>) -> Seq<Seq<char>> {
    Seq::new(list.len(), |i: int| list[i]@)
}

/// What an optional string holds.
pub open spec fn optional(text: Option<String>) -> Option<Seq<char>> {
    match text {
        Some(t) => Some(t@),
        None => None,
    }
}

/// What a result of strings holds.
pub open spec fn outcome(result: Result<String, String>) -> Result<Seq<char>, Seq<char>> {
    match result {
        Ok(text) => Ok(text@),
        Err(message) => Err(message@),
    }
}

/// Pushing a slice adds what it holds.
proof fn lemma_slices_push(list: Seq<&[char]>, slice: &[char])
    ensures
        slices(list.push(slice)) == slices(list).push(slice@),
{
    assert(slices(list.push(slice)) =~= slices(list).push(slice@));
}

/// A character, in lower case if it is an ASCII letter.
pub open spec fn ascii_lower_char(c: char) -> char {
    if 'A' <= c <= 'Z' {
        (c as u8 + 32) as char
    } else {
        c
    }
}

/// A text with its ASCII letters in lower case.
pub open spec fn ascii_lower(s: Seq<char>) -> Seq<char> {
    Seq::new(s.len(), |i: int| ascii_lower_char(s[i]))
}

/// Whether two texts differ at most in the case of ASCII letters.
pub open spec fn same_ignoring_case(a: Seq<char>, b: Seq<char>) -> bool {
    ascii_lower(a) == ascii_lower(b)
}

/// What `str::to_lowercase` makes of a text: its lower-case form by the rules of
/// Unicode.
pub uninterp spec fn lower(s: Seq<char>) -> Seq<char>;

/// `str::to_lowercase` gives the lower-case form of a text, which is a function of
/// the text alone. On ASCII text that form has the letters `A` to `Z` in lower case
/// and all else unchanged.
pub assume_specification[ str::to_lowercase ](text: &str) -> (result: String)
    ensures
        result@ == lower(text@),
        vstd::utf8::is_ascii_chars(text@) ==> result@ == ascii_lower(text@),
;

/// The lower-case form of a text, with what that is on ASCII text written out.
pub open spec fn lowered(s: Seq<char>) -> Seq<char> {
    if vstd::utf8::is_ascii_chars(s) {
        ascii_lower(s)
    } else {
        lower(s)
    }
}

/// A character, in lower case if it is an ASCII letter.
fn lower_char(c: char) -> (result: char)
    ensures
        result == ascii_lower_char(c),
{
    if 'A' <= c && c <= 'Z' {
        (c as u8 + 32) as char
    } else {
        c
    }
}

/// Tells whether two texts differ at most in the case of ASCII letters.
pub fn eq_ignoring_case(a: &str, b: &str) -> (equal: bool)
    ensures
        equal == same_ignoring_case(a@, b@),
{
    let left = to_chars(a);
    let right = to_chars(b);
    if left.len() != right.len() {
        assert(ascii_lower(a@).len() != ascii_lower(b@).len());
        return false;
    }
    for i in 0..left.len()
        invariant
            left@ == a@,
            right@ == b@,
            left@.len() == right@.len(),
            forall|j: int| 0 <= j < i ==> ascii_lower(a@)[j] == ascii_lower(b@)[j],
    {
        if lower_char(left[i]) != lower_char(right[i]) {
            assert(ascii_lower(a@)[i as int] != ascii_lower(b@)[i as int]);
            return false;
        }
    }
    assert(ascii_lower(a@) =~= ascii_lower(b@));
    true
}

/// The lines of a text.
pub fn text_lines(s: &[char]) -> (list: Vec<&[char]>)
    ensures
        slices(list@) == lines(s@),
{
    let mut list: Vec<&[char]> = Vec::new();
    let mut rest = s;
    assert(slices(list@) + lines(rest@) =~= lines(s@));
    while rest.len() > 0
        invariant
            slices(list@) + lines(rest@) == lines(s@),
        decreases rest@.len(),
    {
        let n: usize = run_length(rest, CharClass::Only('\n'), false);
        let whole = n == rest.len();
        let returned = !whole && n > 0 && rest[n - 1] == '\r';
        let line = slice_subrange(rest, 0, if returned { n - 1 } else { n });
        let next = slice_subrange(rest, if whole { n } else { n + 1 }, rest.len());
        proof {
            lemma_slices_push(list@, line);
            assert(whole ==> line@ =~= rest@);
            assert(!whole ==> line@ =~= without_return(rest@.take(n as int)));
            assert(!whole ==> next@ =~= rest@.skip(n + 1));
            assert(lines(rest@) =~= seq![line@] + lines(next@));
            assert(slices(list@).push(line@) + lines(next@) =~= slices(list@) + lines(rest@));
        }
        list.push(line);
        rest = next;
    }
    assert(slices(list@) + lines(rest@) =~= slices(list@));
    list
}

/// The words of a text.
pub fn text_words(s: &[char]) -> (list: Vec<&[char]>)
    ensures
        slices(list@) == words(s@),
{
    let mut list: Vec<&[char]> = Vec::new();
    let mut rest = cut_start(s, CharClass::WhiteSpace);
    let ghost mut left: Seq<char> = s@;
    assert(slices(list@) + words(left) =~= words(s@));
    while rest.len() > 0
        invariant
            rest@ == trim_start(left, CharClass::WhiteSpace),
            slices(list@) + words(left) == words(s@),
        decreases rest@.len(),
    {
        let n: usize = run_length(rest, CharClass::WhiteSpace, false);
        let word = slice_subrange(rest, 0, n);
        let tail = slice_subrange(rest, n, rest.len());
        proof {
            lemma_run(left, CharClass::WhiteSpace, true);
            lemma_run(tail@, CharClass::WhiteSpace, true);
            lemma_slices_push(list@, word);
            assert(word@ =~= rest@.take(n as int));
            assert(tail@ =~= rest@.skip(n as int));
            assert(slices(list@).push(word@) + words(tail@) =~= slices(list@) + words(left));
            left = tail@;
        }
        list.push(word);
        rest = cut_start(tail, CharClass::WhiteSpace);
    }
    assert(slices(list@) + words(left) =~= slices(list@));
    list
}

/// The pieces of a text between the separators.
pub fn text_split(s: &[char], separator: char) -> (list: Vec<&[char]>)
    ensures
        slices(list@) == split(s@, separator),
{
    let mut list: Vec<&[char]> = Vec::new();
    let mut rest = s;
    let mut n: usize = run_length(rest, CharClass::Only(separator), false);
    assert(slices(list@) + split(rest@, separator) =~= split(s@, separator));
    while n < rest.len()
        invariant
            n == run(rest@, CharClass::Only(separator), false),
            n <= rest@.len(),
            slices(list@) + split(rest@, separator) == split(s@, separator),
        decreases rest@.len(),
    {
        let piece = slice_subrange(rest, 0, n);
        let next = slice_subrange(rest, n + 1, rest.len());
        proof {
            lemma_slices_push(list@, piece);
            assert(piece@ =~= rest@.take(n as int));
            assert(next@ =~= rest@.skip(n + 1));
            assert(slices(list@).push(piece@) + split(next@, separator) =~= slices(list@) + split(
                rest@,
                separator,
            ));
        }
        list.push(piece);
        rest = next;
        n = run_length(rest, CharClass::Only(separator), false);
    }
    proof {
        lemma_slices_push(list@, rest);
        assert(slices(list@).push(rest@) =~= slices(list@) + split(rest@, separator));
    }
    list.push(rest);
    list
}

/// Joins the strings, with the separator between each two of them.
pub fn join_strings(list: &[String], separator: &str) -> (text: String)
    ensures
        text@ == join(strings(list@), separator@),
{
    let mut text = String::new();
    let ghost all = strings(list@);
    for i in 0..list.len()
        invariant
            all == strings(list@),
            text@ == join(all.take(i as int), separator@),
    {
        assert(all.take(i + 1).drop_last() =~= all.take(i as int));
        if i > 0 {
            text.append(separator);
        }
        text.append(list[i].as_str());
        assert(text@ =~= join(all.take(i + 1), separator@));
    }
    assert(all.take(list@.len() as int) =~= all);
    text
}

/// Characters of the class at the end are cut off, up to one that is not.
pub proof fn lemma_trim_end(core: Seq<char>, tail: Seq<char>, class: CharClass)
    requires
        core.len() > 0 ==> !class.has(core.last()),
        forall|i: int| 0 <= i < tail.len() ==> class.has(#[trigger] tail[i]),
    ensures
        trim_end(core + tail, class) == core,
    decreases tail.len(),
{
    let s = core + tail;
    if tail.len() == 0 {
        assert(s =~= core);
    } else {
        assert(s.last() == tail[tail.len() - 1]);
        assert(s.drop_last() =~= core + tail.drop_last());
        lemma_trim_end(core, tail.drop_last(), class);
    }
}

/// What is left when the characters of a class are cut off both ends.
pub proof fn lemma_trim(head: Seq<char>, core: Seq<char>, tail: Seq<char>, class: CharClass)
    requires
        core.len() > 0 ==> !class.has(core[0]) && !class.has(core.last()),
        forall|i: int| 0 <= i < head.len() ==> class.has(#[trigger] head[i]),
        forall|i: int| 0 <= i < tail.len() ==> class.has(#[trigger] tail[i]),
    ensures
        trim(head + core + tail, class) == core,
{
    let s = head + core + tail;
    if core.len() == 0 {
        assert forall|i: int| 0 <= i < s.len() implies class.has(#[trigger] s[i]) == true by {
            if i < head.len() {
                assert(s[i] == head[i]);
            } else {
                assert(s[i] == tail[i - head.len()]);
            }
        }
        lemma_run_is(s, class, true, s.len());
        assert(trim_start(s, class) =~= core);
    } else {
        assert forall|i: int| 0 <= i < head.len() implies class.has(#[trigger] s[i]) == true by {
            assert(s[i] == head[i]);
        }
        assert(s[head.len() as int] == core[0]);
        lemma_run_is(s, class, true, head.len());
        assert(trim_start(s, class) =~= core + tail);
        lemma_trim_end(core, tail, class);
    }
}

} // verus!
