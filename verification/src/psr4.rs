//! PSR-4 autoloading: which namespace belongs to which directory.

use vstd::prelude::*;
use vstd::slice::slice_subrange;

use crate::extension::PhpLspExtension;
use crate::json::{lemma_array, lemma_object, parse_json, parsed_json, Json, JsonTree};
use crate::path::{
    components, normalized, part_text, parts, path_components, starts_with, Component, Part,
};
use crate::text::{cut_end, join, join_strings, outcome, strings, to_chars, to_text, trim_end};
use crate::text::CharClass;

verus! {

/// A namespace and the directory that its files lie in. `T` is `String`, and
/// `Seq<char>` in specifications.
#[derive(Debug, PartialEq, Eq)]
pub struct Mapping<T> {
    /// The namespace, without a backslash at its end.
    pub namespace: T,
    /// The directory, seen from the root of the project.
    pub base_path: T,
}

impl View for Mapping<String> {
    type V = Mapping<Seq<char>>;

    open spec fn view(&self) -> Mapping<Seq<char>> {
        Mapping { namespace: self.namespace@, base_path: self.base_path@ }
    }
}

/// What each mapping of a list holds.
pub open spec fn mappings(list: Seq<Mapping<String>>) -> Seq<Mapping<Seq<char>>> {
    Seq::new(list.len(), |i: int| list[i]@)
}

/// The value of the first entry with the key.
pub open spec fn first_value(entries: Seq<(Seq<char>, JsonTree)>, key: Seq<char>) -> Option<
    JsonTree,
>
    decreases entries.len(),
{
    if entries.len() == 0 {
        None
    } else if entries[0].0 == key {
        Some(entries[0].1)
    } else {
        first_value(entries.drop_first(), key)
    }
}

/// The value that an object has for the key.
pub open spec fn field(tree: JsonTree, key: Seq<char>) -> Option<JsonTree> {
    match tree {
        JsonTree::Object(entries) => first_value(entries, key),
        _ => None,
    }
}

/// The strings among the items.
pub open spec fn texts_among(items: Seq<JsonTree>) -> Seq<Seq<char>>
    decreases items.len(),
{
    if items.len() == 0 {
        Seq::empty()
    } else {
        match items.last() {
            JsonTree::Text(text) => texts_among(items.drop_last()).push(text),
            _ => texts_among(items.drop_last()),
        }
    }
}

/// The directories that an entry states for a namespace: one, or an array of them.
pub open spec fn directories(tree: JsonTree) -> Seq<Seq<char>> {
    match tree {
        JsonTree::Text(path) => seq![path],
        JsonTree::Array(items) => texts_among(items),
        _ => Seq::empty(),
    }
}

/// The mapping of a namespace, as it is written, to a directory, as it is written.
pub open spec fn mapping_to(namespace: Seq<char>, path: Seq<char>) -> Mapping<Seq<char>> {
    Mapping {
        namespace: trim_end(namespace, CharClass::Only('\\')),
        base_path: normalized(path),
    }
}

/// The mappings of a namespace to the directories, in order.
pub open spec fn mappings_to(namespace: Seq<char>, paths: Seq<Seq<char>>) -> Seq<
    Mapping<Seq<char>>,
> {
    Seq::new(paths.len(), |i: int| mapping_to(namespace, paths[i]))
}

/// The mappings that the entries state, in order.
pub open spec fn stated_mappings(entries: Seq<(Seq<char>, JsonTree)>) -> Seq<Mapping<Seq<char>>>
    decreases entries.len(),
{
    if entries.len() == 0 {
        Seq::empty()
    } else {
        stated_mappings(entries.drop_last()) + mappings_to(
            entries.last().0,
            directories(entries.last().1),
        )
    }
}

/// The mappings in the object `psr-4` of the block with the given name.
pub open spec fn block_mappings(root: JsonTree, block: Seq<char>) -> Seq<Mapping<Seq<char>>> {
    match field(root, block) {
        Some(tree) => match field(tree, "psr-4"@) {
            Some(JsonTree::Object(entries)) => stated_mappings(entries),
            _ => Seq::empty(),
        },
        None => Seq::empty(),
    }
}

/// The mappings of a project, whose `composer.json` is given: those for its own code,
/// then those for its tests and tools.
pub open spec fn project_mappings(root: JsonTree) -> Seq<Mapping<Seq<char>>> {
    block_mappings(root, "autoload"@) + block_mappings(root, "autoload-dev"@)
}

/// The value that an object has for the key.
fn get<'a>(json: &'a Json, key: &str) -> (value: Option<&'a Json>)
    ensures
        field(json@, key@) == (match value {
            Some(v) => Some(v@),
            None => None,
        }),
{
    match json {
        Json::Object(entries) => {
            let ghost all = json@->Object_0;
            let name = key.to_owned();
            proof {
                lemma_object(*json);
                assert(all.skip(0) =~= all);
            }
            for i in 0..entries.len()
                invariant
                    name@ == key@,
                    *json == Json::Object(*entries),
                    json@ == JsonTree::Object(all),
                    all.len() == entries@.len(),
                    forall|j: int|
                        0 <= j < entries@.len() ==> #[trigger] all[j] == (
                            entries@[j].0@,
                            entries@[j].1@,
                        ),
                    first_value(all.skip(i as int), key@) == field(json@, key@),
            {
                assert(all.skip(i as int).drop_first() =~= all.skip(i + 1));
                assert(all.skip(i as int)[0] == all[i as int]);
                if entries[i].0 == name {
                    return Some(&entries[i].1);
                }
            }
            None
        },
        _ => None,
    }
}

/// Pushing a mapping adds what it holds.
proof fn lemma_mappings_push(list: Seq<Mapping<String>>, mapping: Mapping<String>)
    ensures
        mappings(list.push(mapping)) == mappings(list).push(mapping@),
{
    assert(mappings(list.push(mapping)) =~= mappings(list).push(mapping@));
}

/// The mapping of a namespace, as it is written, to a directory, as it is written.
fn new_mapping(namespace: &str, path: &str) -> (mapping: Mapping<String>)
    ensures
        mapping@ == mapping_to(namespace@, path@),
{
    let chars = to_chars(namespace);
    Mapping {
        namespace: to_text(cut_end(chars.as_slice(), CharClass::Only('\\'))),
        base_path: PhpLspExtension::normalize_path(path),
    }
}

/// Adds the mappings of a namespace to the directories that its entry states.
fn add_mappings(list: &mut Vec<Mapping<String>>, namespace: &str, value: &Json)
    ensures
        mappings(final(list)@) == mappings(old(list)@) + mappings_to(
            namespace@,
            directories(value@),
        ),
{
    let ghost before = mappings(list@);
    match value {
        Json::Text(path) => {
            let mapping = new_mapping(namespace, path.as_str());
            proof {
                lemma_mappings_push(list@, mapping);
            }
            list.push(mapping);
            assert(mappings(list@) =~= before + mappings_to(namespace@, directories(value@)));
        },
        Json::Array(items) => {
            let ghost all = value@->Array_0;
            proof {
                lemma_array(*value);
                assert(mappings(list@) =~= before + mappings_to(
                    namespace@,
                    texts_among(all.take(0)),
                ));
            }
            for i in 0..items.len()
                invariant
                    all.len() == items@.len(),
                    forall|j: int| 0 <= j < items@.len() ==> #[trigger] all[j] == items@[j]@,
                    mappings(list@) == before + mappings_to(
                        namespace@,
                        texts_among(all.take(i as int)),
                    ),
            {
                assert(all.take(i + 1).drop_last() =~= all.take(i as int));
                assert(all.take(i + 1).last() == all[i as int]);
                match &items[i] {
                    Json::Text(path) => {
                        let mapping = new_mapping(namespace, path.as_str());
                        proof {
                            lemma_mappings_push(list@, mapping);
                        }
                        list.push(mapping);
                        assert(mappings(list@) =~= before + mappings_to(
                            namespace@,
                            texts_among(all.take(i + 1)),
                        ));
                    },
                    _ => {},
                }
            }
            assert(all.take(all.len() as int) =~= all);
        },
        _ => {
            assert(mappings(list@) =~= before + mappings_to(namespace@, directories(value@)));
        },
    }
}

/// Adds the mappings in the object `psr-4` of the block with the given name.
fn add_block(list: &mut Vec<Mapping<String>>, root: &Json, block: &str)
    ensures
        mappings(final(list)@) == mappings(old(list)@) + block_mappings(root@, block@),
{
    let ghost before = mappings(list@);
    assert(before + Seq::<Mapping<Seq<char>>>::empty() =~= before);
    let tree = match get(root, block) {
        Some(tree) => tree,
        None => {
            return ;
        },
    };
    match get(tree, "psr-4") {
        Some(psr4) => {
            match psr4 {
                Json::Object(entries) => {
                    let ghost all = psr4@->Object_0;
                    proof {
                        lemma_object(*psr4);
                        assert(mappings(list@) =~= before + stated_mappings(all.take(0)));
                    }
                    for i in 0..entries.len()
                        invariant
                            all.len() == entries@.len(),
                            forall|j: int|
                                0 <= j < entries@.len() ==> #[trigger] all[j] == (
                                    entries@[j].0@,
                                    entries@[j].1@,
                                ),
                            mappings(list@) == before + stated_mappings(all.take(i as int)),
                    {
                        assert(all.take(i + 1).drop_last() =~= all.take(i as int));
                        assert(all.take(i + 1).last() == all[i as int]);
                        add_mappings(list, entries[i].0.as_str(), &entries[i].1);
                        assert(mappings(list@) =~= before + stated_mappings(all.take(i + 1)));
                    }
                    assert(all.take(all.len() as int) =~= all);
                },
                _ => {},
            }
        },
        None => {},
    }
}

/// The mappings of a project, whose `composer.json` is given.
pub fn project_psr4(root: &Json) -> (list: Vec<Mapping<String>>)
    ensures
        mappings(list@) == project_mappings(root@),
{
    let mut list: Vec<Mapping<String>> = Vec::new();
    assert(mappings(list@) =~= Seq::empty());
    add_block(&mut list, root, "autoload");
    add_block(&mut list, root, "autoload-dev");
    assert(mappings(list@) =~= project_mappings(root@));
    list
}

/// The mappings of a project, given what came of reading its `composer.json`.
pub open spec fn read_mappings(composer: Result<Seq<char>, Seq<char>>) -> Result<
    Seq<Mapping<Seq<char>>>,
    Seq<char>,
> {
    match composer {
        Ok(text) => match parsed_json(text) {
            Ok(root) => Ok(project_mappings(root)),
            Err(error) => Err("invalid composer.json: "@ + error),
        },
        Err(error) => Err("failed to read composer.json: "@ + error),
    }
}

/// How the components are written, those that count for nothing left out.
pub open spec fn names(list: Seq<Part>) -> Seq<Seq<char>>
    decreases list.len(),
{
    if list.len() == 0 {
        Seq::empty()
    } else {
        let name = part_text(list.last());
        if name.len() == 0 || name == seq!['.'] {
            names(list.drop_last())
        } else {
            names(list.drop_last()).push(name)
        }
    }
}

/// The components as a namespace: their names, with backslashes between them.
pub open spec fn namespace_of_parts(list: Seq<Part>) -> Seq<char> {
    join(names(list), "\\"@)
}

/// The components of the directory that holds what the components lead to.
pub open spec fn parent(list: Seq<Part>) -> Seq<Part> {
    if list.len() == 0 || list.last() is Root {
        Seq::empty()
    } else {
        list.drop_last()
    }
}

/// How deep the directory of a mapping lies.
pub open spec fn weight(mapping: Mapping<Seq<char>>) -> nat {
    components(mapping.base_path).len()
}

/// Whether a file lies below the directory of a mapping.
pub open spec fn applies(mapping: Mapping<Seq<char>>, path: Seq<char>) -> bool {
    components(mapping.base_path).is_prefix_of(components(path))
}

/// The namespace that a mapping gives to a file below its directory, whose components
/// are given: its own, and the names of the directories in between.
pub open spec fn namespace_under(mapping: Mapping<Seq<char>>, list: Seq<Part>) -> Seq<char> {
    let suffix = namespace_of_parts(parent(list.skip(weight(mapping) as int)));
    if suffix.len() == 0 {
        mapping.namespace
    } else {
        mapping.namespace.push('\\') + suffix
    }
}

/// The mapping with the deepest directory that the file lies below; the first of them
/// if there are several.
pub open spec fn best_mapping(list: Seq<Mapping<Seq<char>>>, path: Seq<char>) -> Option<
    Mapping<Seq<char>>,
>
    decreases list.len(),
{
    if list.len() == 0 {
        None
    } else {
        let before = best_mapping(list.drop_last(), path);
        let last = list.last();
        if applies(last, path) && (before is None || weight(last) > weight(before->0)) {
            Some(last)
        } else {
            before
        }
    }
}

/// The namespace that the mappings give to a file.
pub open spec fn mapped_namespace(list: Seq<Mapping<Seq<char>>>, path: Seq<char>) -> Result<
    Seq<char>,
    Seq<char>,
> {
    match best_mapping(list, path) {
        Some(mapping) => Ok(namespace_under(mapping, components(path))),
        None => Err("no PSR-4 mapping matched "@ + path),
    }
}

/// The namespace that a project gives to a file, given what came of reading its
/// `composer.json`.
pub open spec fn expected_namespace(
    composer: Result<Seq<char>, Seq<char>>,
    path: Seq<char>,
) -> Result<Seq<char>, Seq<char>> {
    match read_mappings(composer) {
        Ok(list) => mapped_namespace(list, path),
        Err(error) => Err(error),
    }
}

/// The components as a namespace.
fn to_namespace(list: &[Component]) -> (namespace: String)
    ensures
        namespace@ == namespace_of_parts(parts(list@)),
{
    let ghost all = parts(list@);
    let mut found: Vec<String> = Vec::new();
    assert(strings(found@) =~= names(all.take(0)));
    for i in 0..list.len()
        invariant
            all == parts(list@),
            strings(found@) == names(all.take(i as int)),
    {
        assert(all.take(i + 1).drop_last() =~= all.take(i as int));
        assert(all.take(i + 1).last() == all[i as int]);
        let name = list[i].as_text();
        let chars = to_chars(name.as_str());
        if chars.len() == 0 {
        } else if chars.len() == 1 && chars[0] == '.' {
            assert(chars@ =~= seq!['.']);
        } else {
            let ghost before = found@;
            found.push(name);
            assert(strings(found@) =~= strings(before).push(name@));
        }
    }
    assert(all.take(all.len() as int) =~= all);
    join_strings(found.as_slice(), "\\")
}

/// The namespace that a mapping gives to a file below its directory.
fn qualify(mapping: &Mapping<String>, depth: usize, list: &[Component]) -> (namespace: String)
    requires
        depth <= list@.len(),
        depth == weight(mapping@),
    ensures
        namespace@ == namespace_under(mapping@, parts(list@)),
{
    let end: usize = if depth == list.len() {
        depth
    } else {
        match &list[list.len() - 1] {
            Component::RootDir => depth,
            _ => list.len() - 1,
        }
    };
    let inner = slice_subrange(list, depth, end);
    assert(parts(inner@) =~= parent(parts(list@).skip(depth as int)));
    let suffix = to_namespace(inner);
    if suffix.as_str().is_empty() {
        mapping.namespace.clone()
    } else {
        let mut namespace = mapping.namespace.clone();
        namespace.push('\\');
        namespace.append(suffix.as_str());
        namespace
    }
}

/// The namespace that the mappings give to a file.
pub fn namespace_from_mappings(list: &[Mapping<String>], relative_path: &str) -> (result: Result<
    String,
    String,
>)
    ensures
        outcome(result) == mapped_namespace(mappings(list@), relative_path@),
{
    let path = path_components(relative_path);
    let ghost all = mappings(list@);
    let mut best: Option<(usize, usize)> = None;
    for i in 0..list.len()
        invariant
            all == mappings(list@),
            parts(path@) == components(relative_path@),
            best_mapping(all.take(i as int), relative_path@) == (match best {
                Some((index, _)) => Some(all[index as int]),
                None => None,
            }),
            best matches Some((index, depth)) ==> index < list@.len() && depth == weight(
                all[index as int],
            ) && depth <= path@.len(),
    {
        assert(all.take(i + 1).drop_last() =~= all.take(i as int));
        assert(all.take(i + 1).last() == all[i as int]);
        let base = path_components(list[i].base_path.as_str());
        if starts_with(path.as_slice(), base.as_slice()) {
            let depth: usize = base.len();
            let better = match best {
                Some((_, best_depth)) => depth > best_depth,
                None => true,
            };
            if better {
                best = Some((i, depth));
            }
        }
    }
    assert(all.take(all.len() as int) =~= all);
    match best {
        Some((index, depth)) => Ok(qualify(&list[index], depth, path.as_slice())),
        None => {
            let mut message = "no PSR-4 mapping matched ".to_owned();
            message.append(relative_path);
            Err(message)
        },
    }
}

impl PhpLspExtension {
    /// The PSR-4 mappings of the project, given what came of reading its
    /// `composer.json`.
    pub fn read_project_psr4(composer: Result<String, String>) -> (result: Result<
        Vec<Mapping<String>>,
        String,
    >)
        ensures
            read_mappings(outcome(composer)) == (match result {
                Ok(list) => Ok(mappings(list@)),
                Err(message) => Err(message@),
            }),
    {
        let text = match composer {
            Ok(text) => text,
            Err(error) => {
                let mut message = "failed to read composer.json: ".to_owned();
                message.append(error.as_str());
                return Err(message);
            },
        };
        match parse_json(text.as_str()) {
            Ok(root) => Ok(project_psr4(&root)),
            Err(error) => {
                let mut message = "invalid composer.json: ".to_owned();
                message.append(error.as_str());
                Err(message)
            },
        }
    }

    /// A path as a namespace: the names on it, with backslashes between them.
    pub fn namespace_suffix(path: &str) -> (suffix: String)
        ensures
            suffix@ == namespace_of_parts(components(path@)),
    {
        to_namespace(path_components(path).as_slice())
    }

    /// The namespace that the project expects in a file, given what came of reading its
    /// `composer.json`.
    pub fn expected_namespace_for_path(
        composer: Result<String, String>,
        relative_path: &str,
    ) -> (result: Result<String, String>)
        ensures
            outcome(result) == expected_namespace(outcome(composer), relative_path@),
    {
        match Self::read_project_psr4(composer) {
            Ok(list) => namespace_from_mappings(list.as_slice(), relative_path),
            Err(message) => Err(message),
        }
    }
}

} // verus!
