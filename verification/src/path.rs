//! Slash-separated paths.
//!
//! The extension runs as a WebAssembly component, where `/` is the one separator
//! and a path is absolute exactly if it starts with it.

use vstd::prelude::*;
use vstd::slice::slice_subrange;

use crate::extension::PhpLspExtension;
use crate::text::{outcome, slices, split, text_split, to_chars, to_text};

verus! {

/// One component of a path, as the specifications see it.
pub ghost enum Part {
    /// The separator at the front of an absolute path.
    Root,
    /// A `.` at the front of a relative path.
    Cur,
    /// A `..`.
    Parent,
    /// Any other name.
    Name(Seq<char>),
}

/// One component of a path.
#[derive(Debug, PartialEq, Eq)]
pub enum Component {
    /// The separator at the front of an absolute path.
    RootDir,
    /// A `.` at the front of a relative path.
    CurDir,
    /// A `..`.
    ParentDir,
    /// Any other name.
    Normal(String),
}

impl View for Component {
    type V = Part;

    open spec fn view(&self) -> Part {
        match self {
            Component::RootDir => Part::Root,
            Component::CurDir => Part::Cur,
            Component::ParentDir => Part::Parent,
            Component::Normal(name) => Part::Name(name@),
        }
    }
}

/// What each component of a list stands for.
pub open spec fn parts(list: Seq<Component>) -> Seq<Part> {
    Seq::new(list.len(), |i: int| list[i]@)
}

/// Whether a path starts with the separator.
pub open spec fn absolute(path: Seq<char>) -> bool {
    path.len() > 0 && path[0] == '/'
}

/// What a piece between two separators stands for: nothing, if it is empty or a
/// single dot.
pub open spec fn part_of(piece: Seq<char>) -> Option<Part> {
    if piece.len() == 0 || piece == seq!['.'] {
        None
    } else if piece == seq!['.', '.'] {
        Some(Part::Parent)
    } else {
        Some(Part::Name(piece))
    }
}

/// What the pieces stand for, in order.
pub open spec fn parts_of(pieces: Seq<Seq<char>>) -> Seq<Part>
    decreases pieces.len(),
{
    if pieces.len() == 0 {
        Seq::empty()
    } else {
        match part_of(pieces.last()) {
            Some(part) => parts_of(pieces.drop_last()).push(part),
            None => parts_of(pieces.drop_last()),
        }
    }
}

/// The components of a path. Repeated separators and single dots count for
/// nothing, but for a dot at the front of a relative path.
pub open spec fn components(path: Seq<char>) -> Seq<Part> {
    let pieces = split(path, '/');
    if absolute(path) {
        seq![Part::Root] + parts_of(pieces)
    } else if pieces[0] == seq!['.'] {
        seq![Part::Cur] + parts_of(pieces)
    } else {
        parts_of(pieces)
    }
}

/// The components with each `.` left out and each `..` taking the name before it
/// away. A `..` with no name before it counts for nothing.
pub open spec fn normalize(list: Seq<Part>) -> Seq<Part>
    decreases list.len(),
{
    if list.len() == 0 {
        Seq::empty()
    } else {
        let before = normalize(list.drop_last());
        match list.last() {
            Part::Root => seq![Part::Root],
            Part::Cur => before,
            Part::Parent => if before.len() > 0 && before.last() is Name {
                before.drop_last()
            } else {
                before
            },
            Part::Name(name) => before.push(Part::Name(name)),
        }
    }
}

/// The path that `path` names, seen from `base`.
pub open spec fn join_path(base: Seq<char>, path: Seq<char>) -> Seq<char> {
    if absolute(path) {
        path
    } else if base.len() == 0 || base.last() == '/' {
        base + path
    } else {
        base.push('/') + path
    }
}

/// How a component is written.
pub open spec fn part_text(part: Part) -> Seq<char> {
    match part {
        Part::Root => seq!['/'],
        Part::Cur => seq!['.'],
        Part::Parent => seq!['.', '.'],
        Part::Name(name) => name,
    }
}

/// The path that is made of the components.
pub open spec fn render(list: Seq<Part>) -> Seq<char>
    decreases list.len(),
{
    if list.len() == 0 {
        Seq::empty()
    } else {
        join_path(render(list.drop_last()), part_text(list.last()))
    }
}

/// The path with its dots resolved.
pub open spec fn normalized(path: Seq<char>) -> Seq<char> {
    render(normalize(components(path)))
}

impl Component {
    /// Tells whether two components stand for the same.
    pub fn same(&self, other: &Component) -> (equal: bool)
        ensures
            equal == (self@ == other@),
    {
        match (self, other) {
            (Component::RootDir, Component::RootDir) => true,
            (Component::CurDir, Component::CurDir) => true,
            (Component::ParentDir, Component::ParentDir) => true,
            (Component::Normal(a), Component::Normal(b)) => *a == *b,
            _ => false,
        }
    }

    /// How the component is written.
    pub fn as_text(&self) -> (text: String)
        ensures
            text@ == part_text(self@),
    {
        match self {
            Component::RootDir => {
                let text = to_text(&['/']);
                assert(text@ =~= seq!['/']);
                text
            },
            Component::CurDir => {
                let text = to_text(&['.']);
                assert(text@ =~= seq!['.']);
                text
            },
            Component::ParentDir => {
                let text = to_text(&['.', '.']);
                assert(text@ =~= seq!['.', '.']);
                text
            },
            Component::Normal(name) => name.clone(),
        }
    }
}

/// Pushing a component adds what it stands for.
proof fn lemma_parts_push(list: Seq<Component>, component: Component)
    ensures
        parts(list.push(component)) == parts(list).push(component@),
{
    assert(parts(list.push(component)) =~= parts(list).push(component@));
}

/// What a piece between two separators stands for.
fn component_of(piece: &[char]) -> (component: Option<Component>)
    ensures
        component matches Some(c) ==> part_of(piece@) == Some(c@),
        component is None ==> part_of(piece@) is None,
{
    if piece.len() == 0 {
        return None;
    }
    if piece.len() == 1 && piece[0] == '.' {
        assert(piece@ =~= seq!['.']);
        return None;
    }
    if piece.len() == 2 && piece[0] == '.' && piece[1] == '.' {
        assert(piece@ =~= seq!['.', '.']);
        return Some(Component::ParentDir);
    }
    Some(Component::Normal(to_text(piece)))
}

/// Cuts a path into its components.
pub fn path_components(path: &str) -> (list: Vec<Component>)
    ensures
        parts(list@) == components(path@),
{
    let chars = to_chars(path);
    let pieces = text_split(chars.as_slice(), '/');
    let ghost all = split(path@, '/');
    assert(slices(pieces@) == all);
    assert(all.len() > 0);
    let mut list: Vec<Component> = Vec::new();
    let first = pieces[0];
    assert(first@ == all[0]);
    if chars.len() > 0 && chars[0] == '/' {
        list.push(Component::RootDir);
    } else if first.len() == 1 && first[0] == '.' {
        assert(first@ =~= seq!['.']);
        list.push(Component::CurDir);
    }
    let ghost head = parts(list@);
    assert(head + parts_of(all.take(0)) =~= head);
    for i in 0..pieces.len()
        invariant
            slices(pieces@) == all,
            parts(list@) == head + parts_of(all.take(i as int)),
    {
        assert(all.take(i + 1).drop_last() =~= all.take(i as int));
        assert(pieces@[i as int]@ == all[i as int]);
        match component_of(pieces[i]) {
            Some(component) => {
                proof {
                    lemma_parts_push(list@, component);
                }
                list.push(component);
            },
            None => {},
        }
        assert(parts(list@) =~= head + parts_of(all.take(i + 1)));
    }
    assert(all.take(all.len() as int) =~= all);
    assert(parts(list@) =~= components(path@));
    list
}

/// The components without dots.
pub fn normalize_components(list: &[Component]) -> (result: Vec<Component>)
    ensures
        parts(result@) == normalize(parts(list@)),
{
    let ghost all = parts(list@);
    let mut result: Vec<Component> = Vec::new();
    assert(parts(result@) =~= normalize(all.take(0)));
    for i in 0..list.len()
        invariant
            all == parts(list@),
            parts(result@) == normalize(all.take(i as int)),
    {
        assert(all.take(i + 1).drop_last() =~= all.take(i as int));
        let ghost before = result@;
        match &list[i] {
            Component::RootDir => {
                result.clear();
                result.push(Component::RootDir);
                assert(parts(result@) =~= seq![Part::Root]);
            },
            Component::CurDir => {},
            Component::ParentDir => {
                let named = if result.len() > 0 {
                    match &result[result.len() - 1] {
                        Component::Normal(_) => true,
                        _ => false,
                    }
                } else {
                    false
                };
                if named {
                    result.pop();
                    assert(parts(result@) =~= parts(before).drop_last());
                }
            },
            Component::Normal(name) => {
                let component = Component::Normal(name.clone());
                proof {
                    lemma_parts_push(before, component);
                }
                result.push(component);
            },
        }
    }
    assert(all.take(all.len() as int) =~= all);
    result
}

/// The path that `path` names, seen from `base`.
pub fn joined(base: &str, path: &str) -> (result: String)
    ensures
        result@ == join_path(base@, path@),
{
    let tail = to_chars(path);
    if tail.len() > 0 && tail[0] == '/' {
        return path.to_owned();
    }
    let head = to_chars(base);
    let mut result = base.to_owned();
    if head.len() > 0 && head[head.len() - 1] != '/' {
        result.push('/');
    }
    result.append(path);
    result
}

/// The path that is made of the components.
pub fn rendered(list: &[Component]) -> (path: String)
    ensures
        path@ == render(parts(list@)),
{
    let ghost all = parts(list@);
    let mut path = String::new();
    assert(path@ =~= render(all.take(0)));
    for i in 0..list.len()
        invariant
            all == parts(list@),
            path@ == render(all.take(i as int)),
    {
        assert(all.take(i + 1).drop_last() =~= all.take(i as int));
        path = joined(path.as_str(), list[i].as_text().as_str());
    }
    assert(all.take(all.len() as int) =~= all);
    path
}

/// Tells whether the components start with those of the prefix.
pub fn starts_with(list: &[Component], prefix: &[Component]) -> (found: bool)
    ensures
        found == parts(prefix@).is_prefix_of(parts(list@)),
{
    if list.len() < prefix.len() {
        return false;
    }
    for i in 0..prefix.len()
        invariant
            prefix@.len() <= list@.len(),
            forall|j: int| 0 <= j < i ==> parts(prefix@)[j] == parts(list@)[j],
    {
        if !list[i].same(&prefix[i]) {
            assert(parts(prefix@)[i as int] != parts(list@).take(parts(prefix@).len() as int)[i as int]);
            return false;
        }
    }
    assert(parts(prefix@) =~= parts(list@).take(parts(prefix@).len() as int));
    true
}

/// Where a path given by the user lies in the worktree: the path itself, if it is
/// relative, else what follows the root of the worktree in it; dots resolved.
/// An absolute path that does not lie below the root is an error.
pub open spec fn relative_path(root: Seq<char>, path: Seq<char>) -> Result<Seq<char>, Seq<char>> {
    if !absolute(path) {
        Ok(normalized(path))
    } else if components(root).is_prefix_of(components(path)) {
        Ok(render(normalize(components(path).skip(components(root).len() as int))))
    } else {
        Err("path must be inside "@ + root)
    }
}

impl PhpLspExtension {
    /// The path with its dots resolved: a `.` counts for nothing, and a `..` takes
    /// the name before it away, if there is one.
    pub fn normalize_path(path: &str) -> (result: String)
        ensures
            result@ == normalized(path@),
    {
        rendered(normalize_components(path_components(path).as_slice()).as_slice())
    }

    /// Where a path given by the user lies in the worktree with the given root.
    pub fn worktree_relative_path(root: &str, path: &str) -> (result: Result<String, String>)
        ensures
            outcome(result) == relative_path(root@, path@),
    {
        let list = path_components(path);
        let chars = to_chars(path);
        if chars.len() == 0 || chars[0] != '/' {
            return Ok(Self::normalize_path(path));
        }
        let prefix = path_components(root);
        if !starts_with(list.as_slice(), prefix.as_slice()) {
            let mut message = "path must be inside ".to_owned();
            message.append(root);
            return Err(message);
        }
        let rest = slice_subrange(list.as_slice(), prefix.len(), list.len());
        assert(parts(rest@) =~= parts(list@).skip(prefix@.len() as int));
        Ok(rendered(normalize_components(rest).as_slice()))
    }
}

} // verus!
