//! What holds of all paths.

use vstd::prelude::*;

use crate::path::{
    absolute, components, join_path, normalize, normalized, parts, parts_of, relative_path, render,
    Component, Part,
};
use crate::text::{join, lemma_run, run, split, CharClass};
use crate::text_laws::{law_split_concat, law_split_whole};

verus! {

/// Whether a name can stand between two separators and means itself.
pub open spec fn plain_name(name: Seq<char>) -> bool {
    &&& name.len() > 0
    &&& !name.contains('/')
    &&& name != seq!['.']
    &&& name != seq!['.', '.']
}

/// Whether the component can stand at place `i` of some path: the root and the single dot
/// can stand at the front only.
pub open spec fn well_placed(part: Part, i: int) -> bool {
    match part {
        Part::Root => i == 0,
        Part::Cur => i == 0,
        Part::Parent => true,
        Part::Name(name) => plain_name(name),
    }
}

/// Whether the components are those of some path.
pub open spec fn well_formed(list: Seq<Part>) -> bool {
    forall|i: int| 0 <= i < list.len() ==> well_placed(#[trigger] list[i], i)
}

/// Whether the components are names, but for a root at the front.
pub open spec fn plain(list: Seq<Part>) -> bool {
    forall|i: int|
        0 <= i < list.len() ==> well_placed(#[trigger] list[i], i) && list[i] !is Cur && list[i]
            !is Parent
}

/// Whether the components are all names.
pub open spec fn only_names(list: Seq<Part>) -> bool {
    forall|i: int| 0 <= i < list.len() ==> well_placed(#[trigger] list[i], i) && list[i] is Name
}

/// The pieces of two texts with a separator between them are those of the one and
/// those of the other.
proof fn lemma_split_concat(a: Seq<char>, b: Seq<char>, separator: char)
    ensures
        split(a.push(separator) + b, separator) == split(a, separator) + split(b, separator),
{
    law_split_concat(a, b, separator);
}

/// A text without the separator is one piece.
proof fn lemma_split_whole(s: Seq<char>, separator: char)
    requires
        !s.contains(separator),
    ensures
        split(s, separator) == seq![s],
{
    law_split_whole(s, separator);
}

/// There is at least one piece, and no piece holds the separator.
proof fn lemma_split_pieces(s: Seq<char>, separator: char)
    ensures
        split(s, separator).len() > 0,
        forall|i: int|
            0 <= i < split(s, separator).len() ==> !(#[trigger] split(s, separator)[i]).contains(
                separator,
            ),
    decreases s.len(),
{
    let class = CharClass::Only(separator);
    let n = run(s, class, false);
    lemma_run(s, class, false);
    let pieces = split(s, separator);
    if n < s.len() {
        let rest = s.skip(n as int + 1);
        lemma_split_pieces(rest, separator);
        assert forall|i: int| 0 <= i < pieces.len() implies !(#[trigger] pieces[i]).contains(
            separator,
        ) by {
            if i > 0 {
                assert(pieces[i] == split(rest, separator)[i - 1]);
            }
        }
    }
}

/// What two lists of pieces stand for, one after the other.
proof fn lemma_parts_of_concat(x: Seq<Seq<char>>, y: Seq<Seq<char>>)
    ensures
        parts_of(x + y) == parts_of(x) + parts_of(y),
    decreases y.len(),
{
    if y.len() == 0 {
        assert(x + y =~= x);
        assert(parts_of(x) + parts_of(y) =~= parts_of(x));
    } else {
        assert((x + y).drop_last() =~= x + y.drop_last());
        lemma_parts_of_concat(x, y.drop_last());
        assert(parts_of(x + y) =~= parts_of(x) + parts_of(y));
    }
}

/// Pieces without the separator stand for names and for `..`.
proof fn lemma_parts_of(pieces: Seq<Seq<char>>)
    requires
        forall|i: int| 0 <= i < pieces.len() ==> !(#[trigger] pieces[i]).contains('/'),
    ensures
        forall|i: int|
            0 <= i < parts_of(pieces).len() ==> match #[trigger] parts_of(pieces)[i] {
                Part::Parent => true,
                Part::Name(name) => plain_name(name),
                _ => false,
            },
    decreases pieces.len(),
{
    if pieces.len() > 0 {
        lemma_parts_of(pieces.drop_last());
    }
}

/// The components of a path are well formed, and the first is the root exactly if the
/// path is absolute.
pub proof fn lemma_components(path: Seq<char>)
    ensures
        well_formed(components(path)),
        absolute(path) <==> components(path).len() > 0 && components(path)[0] is Root,
{
    lemma_split_pieces(path, '/');
    lemma_parts_of(split(path, '/'));
    let body = parts_of(split(path, '/'));
    let list = components(path);
    assert forall|i: int| 0 <= i < list.len() implies well_placed(#[trigger] list[i], i) by {
        if list.len() == body.len() {
            assert(list[i] == body[i]);
        } else if i > 0 {
            assert(list[i] == body[i - 1]);
        }
    }
    if list.len() == body.len() && list.len() > 0 {
        assert(list[0] == body[0]);
    }
}

/// Resolving dots leaves names, and a root at the front if there was one.
pub proof fn lemma_normalize(list: Seq<Part>)
    requires
        well_formed(list),
    ensures
        plain(normalize(list)),
        (normalize(list).len() > 0 && normalize(list)[0] is Root) <==> (list.len() > 0
            && list[0] is Root),
    decreases list.len(),
{
    if list.len() > 0 {
        let front = list.drop_last();
        assert(well_formed(front)) by {
            assert forall|i: int| 0 <= i < front.len() implies well_placed(#[trigger] front[i], i) by {
                assert(front[i] == list[i]);
            }
        }
        lemma_normalize(front);
        let before = normalize(front);
        let after = normalize(list);
        assert(list.last() == list[list.len() - 1]);
        assert forall|i: int| 0 <= i < after.len() implies well_placed(#[trigger] after[i], i)
            && after[i] !is Cur && after[i] !is Parent by {
            if i < before.len() {
                assert(well_placed(before[i], i));
            }
        }
        if front.len() > 0 {
            assert(front[0] == list[0]);
        }
    }
}

/// The pieces of a plain path stand for its names, and a plain path ends with a name or
/// is the root alone.
proof fn lemma_render(list: Seq<Part>)
    requires
        plain(list),
    ensures
        absolute(render(list)) <==> list.len() > 0 && list[0] is Root,
        parts_of(split(render(list), '/')) == (if absolute(render(list)) {
            list.skip(1)
        } else {
            list
        }),
        !absolute(render(list)) ==> split(render(list), '/')[0] != seq!['.'],
        list.len() > 0 ==> render(list).len() > 0,
        list.len() > 0 && list.last() is Name ==> render(list).last() != '/',
    decreases list.len(),
{
    reveal_with_fuel(parts_of, 3);
    if list.len() == 0 {
        lemma_split_whole(render(list), '/');
        assert(parts_of(split(render(list), '/')) =~= list);
    } else if list.last() is Root {
        assert(list[list.len() - 1] is Root);
        let none = Seq::<char>::empty();
        lemma_split_concat(none, none, '/');
        lemma_split_whole(none, '/');
        assert(render(list) =~= none.push('/') + none);
        assert(parts_of(split(render(list), '/')) =~= list.skip(1));
    } else {
        let front = list.drop_last();
        assert(list[list.len() - 1] is Name);
        let name = list.last()->Name_0;
        assert(plain_name(name));
        assert(plain(front)) by {
            assert forall|i: int| 0 <= i < front.len() implies well_placed(#[trigger] front[i], i)
                && front[i] !is Cur && front[i] !is Parent by {
                assert(front[i] == list[i]);
            }
        }
        lemma_render(front);
        lemma_split_whole(name, '/');
        assert(name.contains(name[0]));
        assert(name.contains(name.last()));
        let base = render(front);
        let path = render(list);
        let pieces = seq![name];
        assert(pieces.drop_last() =~= Seq::empty());
        assert(parts_of(pieces) =~= seq![Part::Name(name)]);
        if front.len() == 0 {
            assert(path =~= name);
            assert(parts_of(split(path, '/')) =~= list);
        } else if front.last() is Root {
            assert(front[front.len() - 1] is Root);
            assert(front.len() == 1);
            let none = Seq::<char>::empty();
            assert(base =~= seq!['/']);
            assert(path =~= none.push('/') + name);
            lemma_split_concat(none, name, '/');
            lemma_split_whole(none, '/');
            lemma_parts_of_concat(split(none, '/'), pieces);
            assert(parts_of(split(path, '/')) =~= list.skip(1));
        } else {
            assert(front[front.len() - 1] is Name);
            assert(path =~= base.push('/') + name);
            lemma_split_concat(base, name, '/');
            lemma_parts_of_concat(split(base, '/'), pieces);
            lemma_split_pieces(base, '/');
            assert(split(path, '/')[0] == split(base, '/')[0]);
            assert(front[0] == list[0]);
            if absolute(base) {
                assert(front.skip(1).push(Part::Name(name)) =~= list.skip(1));
                assert(parts_of(split(path, '/')) =~= list.skip(1));
            } else {
                assert(front.push(Part::Name(name)) =~= list);
                assert(parts_of(split(path, '/')) =~= list);
            }
        }
    }
}

/// The components that a plain path was made of are read back from it.
pub proof fn law_components_read_back(list: Seq<Part>)
    requires
        plain(list),
    ensures
        components(render(list)) == list,
{
    lemma_render(list);
    assert(components(render(list)) =~= list);
}

/// A plain list of components is left as it is when dots are resolved.
proof fn lemma_normalize_plain(list: Seq<Part>)
    requires
        plain(list),
    ensures
        normalize(list) == list,
    decreases list.len(),
{
    if list.len() > 0 {
        let front = list.drop_last();
        assert forall|i: int| 0 <= i < front.len() implies well_placed(#[trigger] front[i], i)
            && front[i] !is Cur && front[i] !is Parent by {
            assert(front[i] == list[i]);
        }
        lemma_normalize_plain(front);
        assert(list[list.len() - 1] == list.last());
        assert(normalize(list) =~= list);
    }
}

/// A path with its dots resolved holds no dots: its components are names, but for a root
/// at the front, which it has exactly if the path had one.
pub proof fn law_normalized_has_no_dots(path: Seq<char>)
    ensures
        plain(components(normalized(path))),
        absolute(normalized(path)) == absolute(path),
{
    lemma_components(path);
    lemma_normalize(components(path));
    law_components_read_back(normalize(components(path)));
    lemma_components(normalized(path));
}

/// Resolving the dots of a path a second time changes nothing.
pub proof fn law_normalize_is_idempotent(path: Seq<char>)
    ensures
        normalized(normalized(path)) == normalized(path),
{
    lemma_components(path);
    lemma_normalize(components(path));
    law_components_read_back(normalize(components(path)));
    lemma_normalize_plain(normalize(components(path)));
}

/// A path that is not empty has components.
proof fn lemma_some_component(path: Seq<char>)
    requires
        path.len() > 0,
    ensures
        components(path).len() > 0,
{
    let class = CharClass::Only('/');
    let pieces = split(path, '/');
    lemma_run(path, class, false);
    if !absolute(path) {
        let first = seq![pieces[0]];
        assert(run(path, class, false) > 0);
        assert(pieces =~= first + pieces.skip(1));
        lemma_parts_of_concat(first, pieces.skip(1));
        assert(first.last() == pieces[0]);
    }
}

/// A path in a worktree never leads out of it: it is relative and holds names only,
/// whatever dots the path given by the user has. The one exception is an absolute path in a
/// worktree with an empty root: it stays absolute.
pub proof fn law_relative_path_stays_inside(root: Seq<char>, path: Seq<char>)
    requires
        root.len() > 0 || !absolute(path),
        relative_path(root, path) is Ok,
    ensures
        !absolute(relative_path(root, path)->Ok_0),
        only_names(components(relative_path(root, path)->Ok_0)),
{
    let list = components(path);
    lemma_components(path);
    lemma_components(root);
    let rest = if absolute(path) {
        list.skip(components(root).len() as int)
    } else {
        list
    };
    assert(well_formed(rest)) by {
        assert forall|i: int| 0 <= i < rest.len() implies well_placed(#[trigger] rest[i], i) by {
            if absolute(path) {
                assert(rest[i] == list[i + components(root).len()]);
            }
        }
    }
    if absolute(path) {
        lemma_some_component(root);
        if rest.len() > 0 {
            assert(rest[0] == list[components(root).len() as int]);
        }
    }
    lemma_normalize(rest);
    let inside = normalize(rest);
    law_components_read_back(inside);
    lemma_components(render(inside));
    assert forall|i: int| 0 <= i < inside.len() implies well_placed(#[trigger] inside[i], i)
        && inside[i] is Name by {
        assert(inside[0] !is Root);
    }
}

/// A single dot at the front counts for nothing.
proof fn lemma_normalize_after_dot(list: Seq<Part>)
    ensures
        normalize(seq![Part::Cur] + list) == normalize(list),
    decreases list.len(),
{
    let dotted = seq![Part::Cur] + list;
    if list.len() == 0 {
        assert(dotted.drop_last() =~= Seq::empty());
        assert(dotted.last() == Part::Cur);
        assert(normalize(dotted.drop_last()) =~= Seq::empty());
    } else {
        assert(dotted.drop_last() =~= seq![Part::Cur] + list.drop_last());
        assert(dotted.last() == list.last());
        lemma_normalize_after_dot(list.drop_last());
    }
}

/// A file is found at the same place in the worktree whether its path is given relative to
/// the root or from the root on.
pub proof fn law_absolute_and_relative_agree(root: Seq<char>, path: Seq<char>)
    requires
        absolute(root),
        !absolute(path),
    ensures
        relative_path(root, join_path(root, path)) == relative_path(root, path),
{
    let whole = join_path(root, path);
    let body = parts_of(split(path, '/'));
    let none = Seq::<char>::empty();
    assert(whole[0] == root[0]);
    let base = if root.last() == '/' {
        root.drop_last()
    } else {
        root
    };
    assert(whole =~= base.push('/') + path);
    lemma_split_concat(base, path, '/');
    lemma_parts_of_concat(split(base, '/'), split(path, '/'));
    if root.last() == '/' {
        assert(root =~= base.push('/') + none);
        lemma_split_concat(base, none, '/');
        lemma_split_whole(none, '/');
        lemma_parts_of_concat(split(base, '/'), split(none, '/'));
        reveal_with_fuel(parts_of, 2);
        assert(parts_of(split(none, '/')) =~= Seq::empty());
        assert(parts_of(split(root, '/')) =~= parts_of(split(base, '/')));
    }
    assert(components(whole) =~= components(root) + body);
    assert(components(whole).take(components(root).len() as int) =~= components(root));
    assert(components(whole).skip(components(root).len() as int) =~= body);
    lemma_normalize_after_dot(body);
}

/// What a list of components stands for is what each of them stands for.
pub proof fn law_components_stand_for_parts(list: Seq<Component>)
    ensures
        parts(list).len() == list.len(),
        forall|i: int|
            0 <= i < list.len() ==> #[trigger] parts(list)[i] == match list[i] {
                Component::RootDir => Part::Root,
                Component::CurDir => Part::Cur,
                Component::ParentDir => Part::Parent,
                Component::Normal(name) => Part::Name(name@),
            },
{
}

/// A path seen from a base: an absolute path is itself, another one follows the base, with
/// just one separator between them if the base is not empty.
pub proof fn law_join_path(base: Seq<char>, path: Seq<char>)
    ensures
        absolute(path) <==> path.len() > 0 && path[0] == '/',
        absolute(path) ==> join_path(base, path) == path,
        !absolute(path) && base.len() == 0 ==> join_path(base, path) == path,
        !absolute(path) && base.len() > 0 && base.last() == '/' ==> join_path(base, path) == base
            + path,
        !absolute(path) && base.len() > 0 && base.last() != '/' ==> join_path(base, path) == base
            + seq!['/'] + path,
{
    if base.len() == 0 {
        assert(base + path =~= path);
    }
    assert(base.push('/') =~= base + seq!['/']);
}

/// What a piece of a path behind a separator adds to its components.
pub open spec fn added(piece: Seq<char>) -> Seq<Part> {
    if piece == Seq::<char>::empty() || piece == seq!['.'] {
        Seq::empty()
    } else if piece == seq!['.', '.'] {
        seq![Part::Parent]
    } else {
        seq![Part::Name(piece)]
    }
}

/// The components of a path, piece by piece: each adds its own to those of what stands
/// before the separator. In front, a separator is the root and a dot is kept.
pub proof fn law_components(path: Seq<char>, piece: Seq<char>)
    requires
        !piece.contains('/'),
    ensures
        components(piece) == if piece == seq!['.'] {
            seq![Part::Cur]
        } else {
            added(piece)
        },
        components(seq!['/'] + piece) == seq![Part::Root] + added(piece),
        path.len() > 0 ==> components(path + seq!['/'] + piece) == components(path) + added(piece),
{
    let none = Seq::<char>::empty();
    let one = seq![piece];
    if piece.len() > 0 {
        assert(piece.contains(piece[0]));
    } else {
        assert(piece =~= none);
    }
    reveal_with_fuel(parts_of, 2);
    lemma_split_whole(piece, '/');
    lemma_split_whole(none, '/');
    assert(one.drop_last() =~= Seq::empty());
    assert(parts_of(one) =~= added(piece));
    assert(seq![none].drop_last() =~= Seq::empty());
    assert(seq![Part::Cur] + Seq::<Part>::empty() =~= seq![Part::Cur]);
    assert(components(piece) =~= if piece == seq!['.'] {
        seq![Part::Cur]
    } else {
        added(piece)
    });
    lemma_split_concat(none, piece, '/');
    assert(none.push('/') + piece =~= seq!['/'] + piece);
    lemma_parts_of_concat(seq![none], one);
    assert(parts_of(seq![none]) + added(piece) =~= added(piece));
    if path.len() > 0 {
        let whole = path + seq!['/'] + piece;
        lemma_split_concat(path, piece, '/');
        assert(path.push('/') + piece =~= whole);
        lemma_parts_of_concat(split(path, '/'), one);
        lemma_split_pieces(path, '/');
        assert(split(whole, '/')[0] == split(path, '/')[0]);
        assert(whole[0] == path[0]);
        assert(components(whole) =~= components(path) + added(piece));
    }
}

/// Components that resolve alike do so with the same components behind them.
proof fn lemma_normalize_behind(a: Seq<Part>, c: Seq<Part>, b: Seq<Part>)
    requires
        normalize(a) == normalize(c),
    ensures
        normalize(a + b) == normalize(c + b),
    decreases b.len(),
{
    if b.len() == 0 {
        assert(a + b =~= a);
        assert(c + b =~= c);
    } else {
        assert((a + b).drop_last() =~= a + b.drop_last());
        assert((c + b).drop_last() =~= c + b.drop_last());
        assert((a + b).last() == (c + b).last());
        lemma_normalize_behind(a, c, b.drop_last());
    }
}

/// How dots are resolved, wherever they stand: a single dot counts for nothing, a name and
/// the two dots behind it cancel out, and two dots at the front or behind the root count
/// for nothing. Components without dots stay as they are.
pub proof fn law_dots_are_resolved(a: Seq<Part>, name: Seq<char>, b: Seq<Part>)
    ensures
        normalize(a + seq![Part::Cur] + b) == normalize(a + b),
        normalize(a + seq![Part::Name(name), Part::Parent] + b) == normalize(a + b),
        normalize(seq![Part::Parent] + b) == normalize(b),
        normalize(seq![Part::Root, Part::Parent] + b) == normalize(seq![Part::Root] + b),
        plain(b) ==> normalize(b) == b,
{
    let none = Seq::<Part>::empty();
    let dot = a + seq![Part::Cur];
    assert(dot.drop_last() =~= a);
    lemma_normalize_behind(dot, a, b);
    let pair = a + seq![Part::Name(name), Part::Parent];
    let named = a + seq![Part::Name(name)];
    assert(pair.drop_last() =~= named);
    assert(named.drop_last() =~= a);
    assert(normalize(named) == normalize(a).push(Part::Name(name)));
    assert(normalize(named).drop_last() =~= normalize(a));
    lemma_normalize_behind(pair, a, b);
    let up = seq![Part::Parent];
    assert(up.drop_last() =~= none);
    assert(none + b =~= b);
    lemma_normalize_behind(up, none, b);
    let root = seq![Part::Root];
    let above = seq![Part::Root, Part::Parent];
    assert(above.drop_last() =~= root);
    assert(root.drop_last() =~= none);
    assert(normalize(root) == root);
    lemma_normalize_behind(above, root, b);
    if plain(b) {
        lemma_normalize_plain(b);
    }
}

/// The components with the given names.
pub open spec fn named_parts(names: Seq<Seq<char>>) -> Seq<Part> {
    Seq::new(names.len(), |i: int| Part::Name(names[i]))
}

/// Whether each of the names can stand between two separators and means itself.
pub open spec fn plain_names(names: Seq<Seq<char>>) -> bool {
    forall|i: int| 0 <= i < names.len() ==> plain_name(#[trigger] names[i])
}

/// The text of a path: its names with one separator between each two of them, and one
/// before the first if the path is absolute.
pub proof fn law_path_text(names: Seq<Seq<char>>)
    requires
        plain_names(names),
    ensures
        render(named_parts(names)) == join(names, seq!['/']),
        render(seq![Part::Root] + named_parts(names)) == seq!['/'] + join(names, seq!['/']),
    decreases names.len(),
{
    let list = named_parts(names);
    let rooted = seq![Part::Root] + list;
    let none = Seq::<char>::empty();
    if names.len() == 0 {
        assert(list =~= Seq::empty());
        assert(rooted.drop_last() =~= Seq::empty());
        assert(rooted.last() == Part::Root);
        assert(render(rooted) =~= seq!['/'] + none);
    } else {
        let front = names.drop_last();
        let name = names.last();
        assert(name == names[names.len() - 1]);
        assert(!absolute(name)) by {
            assert(name.contains(name[0]));
        }
        assert forall|i: int| 0 <= i < front.len() implies plain_name(#[trigger] front[i]) by {
            assert(front[i] == names[i]);
        }
        law_path_text(front);
        assert(list.drop_last() =~= named_parts(front));
        assert(rooted.drop_last() =~= seq![Part::Root] + named_parts(front));
        assert(rooted.last() == Part::Name(name));
        if front.len() == 0 {
            assert(render(list) =~= name);
            assert(render(rooted) =~= seq!['/'] + name);
        } else {
            let before = named_parts(front);
            let above = seq![Part::Root] + before;
            assert(before.last() is Name && above.last() is Name);
            assert(plain(before)) by {
                assert forall|i: int| 0 <= i < before.len() implies well_placed(
                    #[trigger] before[i],
                    i,
                ) && before[i] !is Cur && before[i] !is Parent by {
                    assert(plain_name(front[i]));
                }
            }
            assert(plain(above)) by {
                assert forall|i: int| 0 <= i < above.len() implies well_placed(
                    #[trigger] above[i],
                    i,
                ) && above[i] !is Cur && above[i] !is Parent by {
                    if i > 0 {
                        assert(above[i] == before[i - 1]);
                        assert(plain_name(front[i - 1]));
                    }
                }
            }
            lemma_render(before);
            lemma_render(above);
            assert(render(list) =~= join(names, seq!['/']));
            assert(render(rooted) =~= seq!['/'] + join(names, seq!['/']));
        }
    }
}

/// The text of a path with its dots resolved is made of the names that are left, and of the
/// root if there is one.
pub proof fn law_normalized_text(path: Seq<char>, names: Seq<Seq<char>>)
    ensures
        components(normalized(path)) == normalize(components(path)),
        plain_names(names) && normalize(components(path)) == named_parts(names) ==> normalized(path)
            == join(names, seq!['/']),
        plain_names(names) && normalize(components(path)) == seq![Part::Root] + named_parts(names)
            ==> normalized(path) == seq!['/'] + join(names, seq!['/']),
{
    lemma_components(path);
    lemma_normalize(components(path));
    law_components_read_back(normalize(components(path)));
    if plain_names(names) {
        law_path_text(names);
    }
}

/// Where a path lies in a worktree. A relative path lies where it says. An absolute one
/// lies at what its components have behind those of the root, and is refused, with a message
/// that names the root, exactly if it does not start with them. Dots are resolved, and the
/// text is that of a path without any.
pub proof fn law_relative_path(root: Seq<char>, path: Seq<char>)
    ensures
        relative_path(root, path) is Err <==> path.len() > 0 && path[0] == '/' && !components(
            root,
        ).is_prefix_of(components(path)),
        relative_path(root, path) matches Err(message) ==> message == "path must be inside "@
            + root,
        relative_path(root, path) matches Ok(inside) ==> {
            &&& normalized(inside) == inside
            &&& components(inside) == if path.len() > 0 && path[0] == '/' {
                normalize(components(path).skip(components(root).len() as int))
            } else {
                normalize(components(path))
            }
        },
{
    let list = components(path);
    lemma_components(path);
    if relative_path(root, path) is Ok {
        let rest = if absolute(path) {
            list.skip(components(root).len() as int)
        } else {
            list
        };
        assert(well_formed(rest)) by {
            assert forall|i: int| 0 <= i < rest.len() implies well_placed(
                #[trigger] rest[i],
                i,
            ) by {
                if absolute(path) {
                    assert(rest[i] == list[i + components(root).len()]);
                }
            }
        }
        lemma_normalize(rest);
        law_components_read_back(normalize(rest));
        lemma_normalize_plain(normalize(rest));
    }
}

} // verus!
