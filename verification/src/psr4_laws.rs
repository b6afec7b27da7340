//! What holds of all PSR-4 mappings.

use vstd::prelude::*;

use crate::json::{parsed_json, JsonTree};
use crate::path::{components, normalized, part_text, Part};
use crate::path_laws::{
    law_normalized_has_no_dots, lemma_components, plain, plain_name, well_placed,
};
use crate::psr4::{
    applies, best_mapping, block_mappings, directories, expected_namespace, field, first_value,
    mapped_namespace, mapping_to, mappings, mappings_to, names, namespace_of_parts, namespace_under,
    parent, project_mappings, read_mappings, stated_mappings, texts_among, weight, Mapping,
};
use crate::text::{join, trim_end, CharClass};
use crate::text_laws::{all_in, ends_outside, law_trim_end, lemma_trim_end_parts};

verus! {

/// Whether no backslash ends the namespace of a mapping, and its directory holds no dots.
pub open spec fn clean(mapping: Mapping<Seq<char>>) -> bool {
    &&& mapping.namespace.len() > 0 ==> mapping.namespace.last() != '\\'
    &&& plain(components(mapping.base_path))
}

/// What is left when the characters of a class are cut off the end does not end with one.
proof fn lemma_trim_end_last(s: Seq<char>, class: CharClass)
    ensures
        trim_end(s, class).len() > 0 ==> !class.has(trim_end(s, class).last()),
    decreases s.len(),
{
    if s.len() > 0 && class.has(s.last()) {
        lemma_trim_end_last(s.drop_last(), class);
    }
}

/// The mappings that the entries state are clean.
proof fn lemma_stated_mappings(entries: Seq<(Seq<char>, JsonTree)>)
    ensures
        forall|i: int|
            0 <= i < stated_mappings(entries).len() ==> clean(
                #[trigger] stated_mappings(entries)[i],
            ),
    decreases entries.len(),
{
    if entries.len() > 0 {
        let before = stated_mappings(entries.drop_last());
        let namespace = entries.last().0;
        let paths = directories(entries.last().1);
        lemma_stated_mappings(entries.drop_last());
        assert forall|i: int| 0 <= i < stated_mappings(entries).len() implies clean(
            #[trigger] stated_mappings(entries)[i],
        ) by {
            if i < before.len() {
                assert(stated_mappings(entries)[i] == before[i]);
            } else {
                let path = paths[i - before.len()];
                assert(stated_mappings(entries)[i] == mapping_to(namespace, path));
                lemma_trim_end_last(namespace, CharClass::Only('\\'));
                law_normalized_has_no_dots(path);
            }
        }
    }
}

/// The mappings of one block are clean.
proof fn lemma_block_mappings(root: JsonTree, block: Seq<char>)
    ensures
        forall|i: int|
            0 <= i < block_mappings(root, block).len() ==> clean(
                #[trigger] block_mappings(root, block)[i],
            ),
{
    if let Some(tree) = field(root, block) {
        if let Some(JsonTree::Object(entries)) = field(tree, "psr-4"@) {
            lemma_stated_mappings(entries);
        }
    }
}

/// However a project writes its mappings, no backslash ends a namespace and no directory
/// holds dots.
pub proof fn law_mappings_are_clean(root: JsonTree)
    ensures
        forall|i: int|
            0 <= i < project_mappings(root).len() ==> clean(#[trigger] project_mappings(root)[i]),
{
    let own = block_mappings(root, "autoload"@);
    let dev = block_mappings(root, "autoload-dev"@);
    lemma_block_mappings(root, "autoload"@);
    lemma_block_mappings(root, "autoload-dev"@);
    assert forall|i: int| 0 <= i < project_mappings(root).len() implies clean(
        #[trigger] project_mappings(root)[i],
    ) by {
        if i < own.len() {
            assert(project_mappings(root)[i] == own[i]);
        } else {
            assert(project_mappings(root)[i] == dev[i - own.len()]);
        }
    }
}

/// Whether the file at the path lies below the directory of the mapping: its components
/// start with those of the directory.
pub open spec fn below(mapping: Mapping<Seq<char>>, path: Seq<char>) -> bool {
    components(mapping.base_path).is_prefix_of(components(path))
}

/// How many components the directory of the mapping has.
pub open spec fn depth(mapping: Mapping<Seq<char>>) -> nat {
    components(mapping.base_path).len()
}

/// Whether the mapping at `i` is the one with the deepest directory that the file lies
/// below, and the first of them.
pub open spec fn chosen(list: Seq<Mapping<Seq<char>>>, path: Seq<char>, i: int) -> bool {
    &&& 0 <= i < list.len()
    &&& below(list[i], path)
    &&& forall|j: int|
        0 <= j < list.len() && below(#[trigger] list[j], path) ==> {
            &&& depth(list[j]) <= depth(list[i])
            &&& j < i ==> depth(list[j]) < depth(list[i])
        }
}

/// The mapping with the deepest directory decides, and the first of them if there are
/// several; there is none only if the file lies below no directory at all.
pub proof fn law_deepest_mapping_decides(list: Seq<Mapping<Seq<char>>>, path: Seq<char>)
    ensures
        best_mapping(list, path) matches Some(mapping) ==> exists|i: int| #[trigger]
            chosen(list, path, i) && list[i] == mapping,
        best_mapping(list, path) is None ==> forall|i: int|
            0 <= i < list.len() ==> !below(#[trigger] list[i], path),
    decreases list.len(),
{
    if list.len() > 0 {
        let front = list.drop_last();
        let last = list.len() - 1;
        law_deepest_mapping_decides(front, path);
        let before = best_mapping(front, path);
        if below(list.last(), path) && (before is None || depth(list.last()) > depth(
            before->0,
        )) {
            assert forall|j: int|
                0 <= j < list.len() && below(#[trigger] list[j], path) implies depth(list[j])
                <= depth(list[last]) && (j < last ==> depth(list[j]) < depth(list[last])) by {
                if j < last {
                    assert(front[j] == list[j]);
                    if before is Some {
                        let i = choose|i: int| #[trigger]
                            chosen(front, path, i) && front[i] == before->0;
                        assert(chosen(front, path, i));
                    }
                }
            }
            assert(chosen(list, path, last));
        } else if before is Some {
            let i = choose|i: int| #[trigger] chosen(front, path, i) && front[i] == before->0;
            assert forall|j: int|
                0 <= j < list.len() && below(#[trigger] list[j], path) implies depth(list[j])
                <= depth(list[i]) && (j < i ==> depth(list[j]) < depth(list[i])) by {
                if j < last {
                    assert(front[j] == list[j]);
                }
            }
            assert(front[i] == list[i]);
            assert(chosen(list, path, i));
        } else {
            assert forall|i: int| 0 <= i < list.len() implies !below(
                #[trigger] list[i],
                path,
            ) by {
                if i < last {
                    assert(front[i] == list[i]);
                }
            }
        }
    }
}

/// A file gets a namespace exactly if it lies below the directory of some mapping.
pub proof fn law_namespace_where_mapped(list: Seq<Mapping<Seq<char>>>, path: Seq<char>)
    ensures
        mapped_namespace(list, path) is Ok <==> exists|i: int|
            0 <= i < list.len() && below(#[trigger] list[i], path),
{
    law_deepest_mapping_decides(list, path);
    if best_mapping(list, path) is Some {
        let i = choose|i: int| #[trigger]
            chosen(list, path, i) && list[i] == best_mapping(list, path)->0;
        assert(below(list[i], path));
    }
}

/// The components of directories with the given names.
pub open spec fn directory_parts(directories: Seq<Seq<char>>) -> Seq<Part> {
    Seq::new(directories.len(), |i: int| Part::Name(directories[i]))
}

/// Whether each of the names can be that of a directory.
pub open spec fn directory_names(directories: Seq<Seq<char>>) -> bool {
    forall|i: int|
        0 <= i < directories.len() ==> (#[trigger] directories[i]).len() > 0 && directories[i]
            != seq!['.']
}

/// Directories are written by their names.
proof fn lemma_directory_names(directories: Seq<Seq<char>>)
    requires
        directory_names(directories),
    ensures
        names(directory_parts(directories)) == directories,
    decreases directories.len(),
{
    let list = directory_parts(directories);
    if directories.len() > 0 {
        let front = directories.drop_last();
        assert forall|i: int| 0 <= i < front.len() implies (#[trigger] front[i]).len() > 0
            && front[i] != seq!['.'] by {
            assert(front[i] == directories[i]);
        }
        lemma_directory_names(front);
        assert(list.drop_last() =~= directory_parts(front));
        assert(directories[directories.len() - 1] == directories.last());
        assert(names(list) =~= directories);
    } else {
        assert(names(list) =~= directories);
    }
}

/// The namespace mirrors the directories: a file right in the directory of a mapping gets
/// its namespace, and one further down gets the names of the directories on the way added
/// to it.
pub proof fn law_namespace_mirrors_directories(
    mapping: Mapping<Seq<char>>,
    directories: Seq<Seq<char>>,
    file: Seq<char>,
    path: Seq<char>,
)
    requires
        directory_names(directories),
        components(path) == components(mapping.base_path) + directory_parts(directories) + seq![
            Part::Name(file),
        ],
    ensures
        applies(mapping, path),
        namespace_under(mapping, components(path)) == if directories.len() == 0 {
            mapping.namespace
        } else {
            mapping.namespace.push('\\') + join(directories, "\\"@)
        },
{
    let base = components(mapping.base_path);
    let list = components(path);
    let inner = directory_parts(directories);
    assert(list.take(base.len() as int) =~= base);
    assert(list.skip(weight(mapping) as int) =~= inner + seq![Part::Name(file)]);
    assert(parent(inner + seq![Part::Name(file)]) =~= inner);
    lemma_directory_names(directories);
    if directories.len() > 0 {
        assert(directories[directories.len() - 1] == directories.last());
        assert(join(directories, "\\"@).len() > 0);
    }
}

/// The namespace with the components added to it: a backslash and how it is written for
/// each of them, but for the single dot, which counts for nothing.
pub open spec fn appended(namespace: Seq<char>, list: Seq<Part>) -> Seq<char>
    decreases list.len(),
{
    if list.len() == 0 {
        namespace
    } else {
        let before = appended(namespace, list.drop_last());
        match list.last() {
            Part::Root => before + seq!['\\', '/'],
            Part::Cur => before,
            Part::Parent => before + seq!['\\', '.', '.'],
            Part::Name(name) => before + seq!['\\'] + name,
        }
    }
}

/// Whether the names among the components are those of directories and files.
spec fn names_plain(list: Seq<Part>) -> bool {
    forall|i: int|
        0 <= i < list.len() ==> (#[trigger] list[i] matches Part::Name(name) ==> plain_name(name))
}

/// What is added is the suffix behind one backslash, if there is one.
proof fn lemma_appended(namespace: Seq<char>, list: Seq<Part>)
    requires
        names_plain(list),
    ensures
        names(list).len() == 0 ==> appended(namespace, list) == namespace && namespace_of_parts(
            list,
        ).len() == 0,
        names(list).len() > 0 ==> {
            &&& namespace_of_parts(list).len() > 0
            &&& appended(namespace, list) == namespace.push('\\') + namespace_of_parts(list)
        },
    decreases list.len(),
{
    reveal_strlit("\\");
    if list.len() > 0 {
        let front = list.drop_last();
        assert forall|i: int| 0 <= i < front.len() implies (#[trigger] front[i] matches Part::Name(
            name,
        ) ==> plain_name(name)) by {
            assert(front[i] == list[i]);
        }
        lemma_appended(namespace, front);
        assert(list[list.len() - 1] == list.last());
        if list.last() !is Cur {
            let text = part_text(list.last());
            let before = names(front);
            assert(text.len() > 0 && text != seq!['.']) by {
                match list.last() {
                    Part::Root => {
                        assert(text[0] == '/' && seq!['.'][0] == '.');
                    },
                    Part::Parent => {
                        assert(text.len() == 2 && seq!['.'].len() == 1);
                    },
                    _ => {},
                }
            }
            assert(names(list) == before.push(text));
            assert(before.push(text).drop_last() =~= before);
            assert(appended(namespace, list) =~= namespace.push('\\') + namespace_of_parts(list));
        }
    }
}

/// A path as a namespace: what its components add to a namespace, without the backslash in
/// front.
pub proof fn law_suffix(path: Seq<char>)
    ensures
        appended(Seq::empty(), components(path)) == if namespace_of_parts(components(path)).len()
            == 0 {
            Seq::empty()
        } else {
            seq!['\\'] + namespace_of_parts(components(path))
        },
{
    let list = components(path);
    lemma_components(path);
    assert forall|i: int| 0 <= i < list.len() implies (#[trigger] list[i] matches Part::Name(name)
        ==> plain_name(name)) by {
        assert(well_placed(list[i], i));
    }
    lemma_appended(Seq::empty(), list);
    assert(Seq::<char>::empty().push('\\') =~= seq!['\\']);
}

/// The mapping that is chosen is the best one.
proof fn lemma_chosen(list: Seq<Mapping<Seq<char>>>, path: Seq<char>, i: int)
    requires
        chosen(list, path, i),
    ensures
        best_mapping(list, path) == Some(list[i]),
{
    law_deepest_mapping_decides(list, path);
    assert(below(list[i], path));
    let k = choose|k: int| #[trigger]
        chosen(list, path, k) && list[k] == best_mapping(list, path)->0;
    assert(chosen(list, path, k));
    assert(below(list[k], path));
    assert(k == i);
}

/// The namespace of a file. The deepest mapping that it lies below, the first of them,
/// decides. To the namespace of that is added each component between the directory of the
/// mapping and the last component, which is the file; where nothing lies between, the
/// namespace is that of the mapping.
pub proof fn law_namespace_of_a_file(
    list: Seq<Mapping<Seq<char>>>,
    path: Seq<char>,
    i: int,
    inner: Seq<Part>,
    file: Part,
)
    requires
        chosen(list, path, i),
    ensures
        components(path) == components(list[i].base_path) + inner + seq![file] && file !is Root
            ==> mapped_namespace(list, path) == Ok::<_, Seq<char>>(
            appended(list[i].namespace, inner),
        ),
        components(path) == components(list[i].base_path) ==> mapped_namespace(list, path) == Ok::<
            _,
            Seq<char>,
        >(list[i].namespace),
        components(path) == components(list[i].base_path) + seq![Part::Root] ==> mapped_namespace(
            list,
            path,
        ) == Ok::<_, Seq<char>>(list[i].namespace),
{
    let mapping = list[i];
    let base = components(mapping.base_path);
    let all = components(path);
    lemma_chosen(list, path, i);
    lemma_components(path);
    let none = Seq::<Part>::empty();
    lemma_appended(mapping.namespace, none);
    if all == base + inner + seq![file] && file !is Root {
        assert(all.skip(weight(mapping) as int) =~= inner + seq![file]);
        assert(parent(inner + seq![file]) =~= inner);
        assert forall|j: int| 0 <= j < inner.len() implies (#[trigger] inner[j] matches Part::Name(
            name,
        ) ==> plain_name(name)) by {
            assert(all[j + base.len()] == inner[j]);
            assert(well_placed(all[j + base.len()], j + base.len() as int));
        }
        lemma_appended(mapping.namespace, inner);
    }
    if all == base {
        assert(all.skip(weight(mapping) as int) =~= none);
    }
    if all == base + seq![Part::Root] {
        assert(all.skip(weight(mapping) as int) =~= seq![Part::Root]);
    }
}

/// The namespace of a file in directories, however many: that of the deepest mapping, and a
/// backslash and its name for each of the directories below that of the mapping.
pub proof fn law_namespace_of_a_file_in_directories(
    list: Seq<Mapping<Seq<char>>>,
    path: Seq<char>,
    i: int,
    directories: Seq<Seq<char>>,
    file: Seq<char>,
)
    requires
        chosen(list, path, i),
        components(path) == components(list[i].base_path) + directory_parts(directories) + seq![
            Part::Name(file),
        ],
    ensures
        mapped_namespace(list, path) == Ok::<_, Seq<char>>(
            if directories.len() == 0 {
                list[i].namespace
            } else {
                list[i].namespace + seq!['\\'] + join(directories, seq!['\\'])
            },
        ),
{
    let all = components(path);
    let base = components(list[i].base_path);
    lemma_components(path);
    reveal_strlit("\\");
    assert("\\"@ =~= seq!['\\']);
    assert forall|j: int| 0 <= j < directories.len() implies (#[trigger] directories[j]).len() > 0
        && directories[j] != seq!['.'] by {
        assert(all[j + base.len()] == Part::Name(directories[j]));
        assert(well_placed(all[j + base.len()], j + base.len() as int));
    }
    law_namespace_mirrors_directories(list[i], directories, file, path);
    lemma_chosen(list, path, i);
    assert(list[i].namespace.push('\\') =~= list[i].namespace + seq!['\\']);
}

/// A file that lies below the directory of no mapping has no namespace, and the message
/// names it.
pub proof fn law_no_namespace(list: Seq<Mapping<Seq<char>>>, path: Seq<char>)
    requires
        forall|i: int| 0 <= i < list.len() ==> !below(#[trigger] list[i], path),
    ensures
        mapped_namespace(list, path) == Err::<Seq<char>, _>("no PSR-4 mapping matched "@ + path),
{
    law_deepest_mapping_decides(list, path);
    if best_mapping(list, path) is Some {
        let k = choose|k: int| #[trigger]
            chosen(list, path, k) && list[k] == best_mapping(list, path)->0;
        assert(below(list[k], path));
    }
}

/// What a project expects of a file: what its mappings give to it, if its `composer.json`
/// can be read and is JSON; else a message that says which of the two failed, and why.
pub proof fn law_expected_namespace(text: Seq<char>, error: Seq<char>, path: Seq<char>)
    ensures
        read_mappings(Err(error)) == Err::<Seq<Mapping<Seq<char>>>, _>(
            "failed to read composer.json: "@ + error,
        ),
        expected_namespace(Err(error), path) == Err::<Seq<char>, _>(
            "failed to read composer.json: "@ + error,
        ),
        match parsed_json(text) {
            Ok(root) => {
                &&& read_mappings(Ok(text)) == Ok::<_, Seq<char>>(project_mappings(root))
                &&& expected_namespace(Ok(text), path) == mapped_namespace(
                    project_mappings(root),
                    path,
                )
            },
            Err(reason) => {
                &&& read_mappings(Ok(text)) == Err::<Seq<Mapping<Seq<char>>>, _>(
                    "invalid composer.json: "@ + reason,
                )
                &&& expected_namespace(Ok(text), path) == Err::<Seq<char>, _>(
                    "invalid composer.json: "@ + reason,
                )
            },
        },
{
}

/// Whether the entry at `k` is the first one with the key.
pub open spec fn entry_at(
    entries: Seq<(Seq<char>, JsonTree)>,
    key: Seq<char>,
    k: int,
) -> bool {
    &&& 0 <= k < entries.len()
    &&& entries[k].0 == key
    &&& forall|j: int| 0 <= j < k ==> (#[trigger] entries[j]).0 != key
}

/// The value of a key in an object is that of the first entry with the key; where no entry
/// has the key there is none, nor in anything but an object.
pub proof fn law_field(tree: JsonTree, key: Seq<char>, k: int)
    ensures
        tree matches JsonTree::Object(entries) ==> {
            &&& entry_at(entries, key, k) ==> field(tree, key) == Some(entries[k].1)
            &&& field(tree, key) is Some ==> exists|j: int| #[trigger]
                entry_at(entries, key, j) && field(tree, key) == Some(entries[j].1)
        },
        tree !is Object ==> field(tree, key) is None,
{
    if let JsonTree::Object(entries) = tree {
        lemma_first_value(entries, key, k);
    }
}

/// The value of the first entry with the key.
proof fn lemma_first_value(entries: Seq<(Seq<char>, JsonTree)>, key: Seq<char>, k: int)
    ensures
        entry_at(entries, key, k) ==> first_value(entries, key) == Some(entries[k].1),
        first_value(entries, key) is Some ==> exists|j: int| #[trigger]
            entry_at(entries, key, j) && first_value(entries, key) == Some(entries[j].1),
    decreases entries.len(),
{
    if entries.len() > 0 {
        let rest = entries.drop_first();
        lemma_first_value(rest, key, k - 1);
        assert forall|j: int| 0 <= j < rest.len() implies #[trigger] rest[j] == entries[j + 1] by {}
        if entries[0].0 == key {
            assert(entry_at(entries, key, 0));
            if k > 0 && entry_at(entries, key, k) {
                assert(entries[0].0 != key);
            }
        } else {
            if entry_at(entries, key, k) {
                assert(rest[k - 1] == entries[k]);
                assert(entry_at(rest, key, k - 1));
            }
            if first_value(entries, key) is Some {
                let j = choose|j: int| #[trigger]
                    entry_at(rest, key, j) && first_value(rest, key) == Some(rest[j].1);
                assert(entries[j + 1] == rest[j]);
                assert forall|m: int| 0 <= m < j + 1 implies (#[trigger] entries[m]).0 != key by {
                    if m > 0 {
                        assert(rest[m - 1] == entries[m]);
                    }
                }
                assert(entry_at(entries, key, j + 1));
            }
        }
    }
}

/// Whether the document is an object that has, under the name of the block, an object that
/// has, under `psr-4`, an object with these entries.
pub open spec fn has_psr4(
    root: JsonTree,
    block: Seq<char>,
    entries: Seq<(Seq<char>, JsonTree)>,
) -> bool {
    exists|top: Seq<(Seq<char>, JsonTree)>, k: int, inner: Seq<(Seq<char>, JsonTree)>, m: int|
        #![trigger entry_at(top, block, k), entry_at(inner, "psr-4"@, m)]
        {
            &&& root == JsonTree::Object(top)
            &&& entry_at(top, block, k)
            &&& top[k].1 == JsonTree::Object(inner)
            &&& entry_at(inner, "psr-4"@, m)
            &&& inner[m].1 == JsonTree::Object(entries)
        }
}

/// Whether an entry states the directory: as a string, or as a string in an array.
pub open spec fn states(value: JsonTree, path: Seq<char>) -> bool {
    ||| value == JsonTree::Text(path)
    ||| value matches JsonTree::Array(items) && items.contains(JsonTree::Text(path))
}

/// Whether the project writes, in the block, that the namespace lies in the directory.
pub open spec fn written(
    root: JsonTree,
    block: Seq<char>,
    namespace: Seq<char>,
    path: Seq<char>,
) -> bool {
    exists|entries: Seq<(Seq<char>, JsonTree)>, i: int|
        #![trigger has_psr4(root, block, entries), entries[i]]
        {
            &&& has_psr4(root, block, entries)
            &&& 0 <= i < entries.len()
            &&& entries[i].0 == namespace
            &&& states(entries[i].1, path)
        }
}

/// Whether the mapping is what is written: the namespace without the backslashes at its
/// end, and the directory with its dots resolved.
pub open spec fn stands_for(
    mapping: Mapping<Seq<char>>,
    namespace: Seq<char>,
    path: Seq<char>,
) -> bool {
    &&& mapping.base_path == normalized(path)
    &&& ends_outside(mapping.namespace, CharClass::Only('\\'))
    &&& exists|tail: Seq<char>| #[trigger]
        all_in(tail, CharClass::Only('\\')) && namespace == mapping.namespace + tail
}

/// What is written stands for one mapping.
proof fn lemma_stands_for(mapping: Mapping<Seq<char>>, namespace: Seq<char>, path: Seq<char>)
    ensures
        stands_for(mapping, namespace, path) <==> mapping == mapping_to(namespace, path),
{
    let class = CharClass::Only('\\');
    if stands_for(mapping, namespace, path) {
        let tail = choose|tail: Seq<char>| #[trigger]
            all_in(tail, class) && namespace == mapping.namespace + tail;
        law_trim_end(mapping.namespace, tail, class);
    }
    let tail = lemma_trim_end_parts(namespace, class);
    assert(all_in(tail, class));
}

/// The strings among the items are just those that the items hold.
proof fn lemma_texts_among(items: Seq<JsonTree>, path: Seq<char>)
    ensures
        texts_among(items).contains(path) <==> items.contains(JsonTree::Text(path)),
    decreases items.len(),
{
    if items.len() > 0 {
        let front = items.drop_last();
        lemma_texts_among(front, path);
        let before = texts_among(front);
        assert(items =~= front.push(items.last()));
        if items.contains(JsonTree::Text(path)) {
            let i = choose|i: int| 0 <= i < items.len() && items[i] == JsonTree::Text(path);
            if i < front.len() {
                assert(front[i] == items[i]);
                let k = choose|k: int| 0 <= k < before.len() && before[k] == path;
                assert(texts_among(items)[k] == path);
            } else {
                assert(texts_among(items).last() == path);
            }
        }
        if texts_among(items).contains(path) {
            let k = choose|k: int|
                0 <= k < texts_among(items).len() && texts_among(items)[k] == path;
            if k < before.len() {
                assert(before[k] == path);
                let i = choose|i: int| 0 <= i < front.len() && front[i] == JsonTree::Text(path);
                assert(items[i] == front[i]);
            } else {
                assert(items[items.len() - 1] == JsonTree::Text(path));
            }
        }
    }
}

/// The directories of an entry are just those that it states.
proof fn lemma_directories(value: JsonTree, path: Seq<char>)
    ensures
        directories(value).contains(path) <==> states(value, path),
{
    match value {
        JsonTree::Text(text) => {
            assert(directories(value)[0] == text);
        },
        JsonTree::Array(items) => {
            lemma_texts_among(items, path);
        },
        _ => {},
    }
}

/// The mappings that entries state are just those that one of them states.
proof fn lemma_stated(entries: Seq<(Seq<char>, JsonTree)>, mapping: Mapping<Seq<char>>)
    ensures
        stated_mappings(entries).contains(mapping) <==> exists|i: int, path: Seq<char>|
            #![trigger entries[i], mapping_to(entries[i].0, path)]
            0 <= i < entries.len() && states(entries[i].1, path) && mapping == mapping_to(
                entries[i].0,
                path,
            ),
    decreases entries.len(),
{
    if entries.len() > 0 {
        let front = entries.drop_last();
        let n = entries.len() - 1;
        let before = stated_mappings(front);
        let namespace = entries.last().0;
        let paths = directories(entries.last().1);
        let added = mappings_to(namespace, paths);
        let all = stated_mappings(entries);
        lemma_stated(front, mapping);
        assert(entries[n] == entries.last());
        if all.contains(mapping) {
            let k = choose|k: int| 0 <= k < all.len() && all[k] == mapping;
            if k < before.len() {
                assert(before[k] == mapping);
                let (i, path) = choose|i: int, path: Seq<char>|
                    #![trigger front[i], mapping_to(front[i].0, path)]
                    0 <= i < front.len() && states(front[i].1, path) && mapping == mapping_to(
                        front[i].0,
                        path,
                    );
                assert(entries[i] == front[i]);
                assert(mapping == mapping_to(entries[i].0, path));
            } else {
                let path = paths[k - before.len()];
                assert(added[k - before.len()] == mapping);
                assert(paths.contains(path));
                lemma_directories(entries.last().1, path);
                assert(mapping == mapping_to(entries[n].0, path));
            }
        }
        if exists|i: int, path: Seq<char>|
            #![trigger entries[i], mapping_to(entries[i].0, path)]
            0 <= i < entries.len() && states(entries[i].1, path) && mapping == mapping_to(
                entries[i].0,
                path,
            ) {
            let (i, path) = choose|i: int, path: Seq<char>|
                #![trigger entries[i], mapping_to(entries[i].0, path)]
                0 <= i < entries.len() && states(entries[i].1, path) && mapping == mapping_to(
                    entries[i].0,
                    path,
                );
            if i < n {
                assert(front[i] == entries[i]);
                assert(mapping == mapping_to(front[i].0, path));
                let k = choose|k: int| 0 <= k < before.len() && before[k] == mapping;
                assert(all[k] == mapping);
            } else {
                lemma_directories(entries.last().1, path);
                let k = choose|k: int| 0 <= k < paths.len() && paths[k] == path;
                assert(added[k] == mapping);
                assert(all[before.len() + k] == mapping);
            }
        }
    }
}

/// The mappings of a block are those that its entries state, if it has any.
proof fn lemma_block(root: JsonTree, block: Seq<char>, entries: Seq<(Seq<char>, JsonTree)>)
    ensures
        has_psr4(root, block, entries) ==> block_mappings(root, block) == stated_mappings(entries),
        block_mappings(root, block).len() > 0 ==> exists|own: Seq<(Seq<char>, JsonTree)>| #[trigger]
            has_psr4(root, block, own),
{
    if has_psr4(root, block, entries) {
        let (top, k, inner, m) = choose|
            top: Seq<(Seq<char>, JsonTree)>,
            k: int,
            inner: Seq<(Seq<char>, JsonTree)>,
            m: int,
        |
            #![trigger entry_at(top, block, k), entry_at(inner, "psr-4"@, m)]
            {
                &&& root == JsonTree::Object(top)
                &&& entry_at(top, block, k)
                &&& top[k].1 == JsonTree::Object(inner)
                &&& entry_at(inner, "psr-4"@, m)
                &&& inner[m].1 == JsonTree::Object(entries)
            };
        law_field(root, block, k);
        law_field(top[k].1, "psr-4"@, m);
    }
    if block_mappings(root, block).len() > 0 {
        law_field(root, block, 0);
        let tree = field(root, block)->0;
        law_field(tree, "psr-4"@, 0);
        let own = field(tree, "psr-4"@)->0->Object_0;
        let top = root->Object_0;
        let inner = tree->Object_0;
        let k = choose|k: int| #[trigger]
            entry_at(top, block, k) && field(root, block) == Some(top[k].1);
        let m = choose|m: int| #[trigger]
            entry_at(inner, "psr-4"@, m) && field(tree, "psr-4"@) == Some(inner[m].1);
        assert(entry_at(top, block, k) && entry_at(inner, "psr-4"@, m));
        assert(has_psr4(root, block, own));
    }
}

/// The mappings of a block are just those that are written in it.
proof fn lemma_block_contains(root: JsonTree, block: Seq<char>, mapping: Mapping<Seq<char>>)
    ensures
        block_mappings(root, block).contains(mapping) <==> exists|
            namespace: Seq<char>,
            path: Seq<char>,
        |
            #![trigger written(root, block, namespace, path)]
            written(root, block, namespace, path) && stands_for(mapping, namespace, path),
{
    lemma_block(root, block, Seq::empty());
    if block_mappings(root, block).contains(mapping) {
        let own = choose|own: Seq<(Seq<char>, JsonTree)>| #[trigger] has_psr4(root, block, own);
        lemma_block(root, block, own);
        lemma_stated(own, mapping);
        let (i, path) = choose|i: int, path: Seq<char>|
            #![trigger own[i], mapping_to(own[i].0, path)]
            0 <= i < own.len() && states(own[i].1, path) && mapping == mapping_to(own[i].0, path);
        lemma_stands_for(mapping, own[i].0, path);
        assert(written(root, block, own[i].0, path));
    }
    if exists|namespace: Seq<char>, path: Seq<char>|
        #![trigger written(root, block, namespace, path)]
        written(root, block, namespace, path) && stands_for(mapping, namespace, path) {
        let (namespace, path) = choose|namespace: Seq<char>, path: Seq<char>|
            #![trigger written(root, block, namespace, path)]
            written(root, block, namespace, path) && stands_for(mapping, namespace, path);
        let (own, i) = choose|own: Seq<(Seq<char>, JsonTree)>, i: int|
            #![trigger has_psr4(root, block, own), own[i]]
            {
                &&& has_psr4(root, block, own)
                &&& 0 <= i < own.len()
                &&& own[i].0 == namespace
                &&& states(own[i].1, path)
            };
        lemma_stands_for(mapping, namespace, path);
        lemma_block(root, block, own);
        assert(mapping == mapping_to(own[i].0, path));
        lemma_stated(own, mapping);
    }
}

/// The mappings of a project are all those that its `composer.json` writes in the object
/// `psr-4` of `autoload` and of `autoload-dev`, each directory as a string or as a string in
/// an array, and no others.
pub proof fn law_mappings_are_those_written(root: JsonTree, mapping: Mapping<Seq<char>>)
    ensures
        project_mappings(root).contains(mapping) <==> exists|
            namespace: Seq<char>,
            path: Seq<char>,
        |
            #![trigger written(root, "autoload"@, namespace, path)]
            #![trigger written(root, "autoload-dev"@, namespace, path)]
            (written(root, "autoload"@, namespace, path) || written(
                root,
                "autoload-dev"@,
                namespace,
                path,
            )) && stands_for(mapping, namespace, path),
{
    let own = block_mappings(root, "autoload"@);
    let dev = block_mappings(root, "autoload-dev"@);
    let all = project_mappings(root);
    lemma_block_contains(root, "autoload"@, mapping);
    lemma_block_contains(root, "autoload-dev"@, mapping);
    if all.contains(mapping) {
        let k = choose|k: int| 0 <= k < all.len() && all[k] == mapping;
        if k < own.len() {
            assert(own[k] == mapping);
        } else {
            assert(dev[k - own.len()] == mapping);
        }
    }
    if own.contains(mapping) {
        let k = choose|k: int| 0 <= k < own.len() && own[k] == mapping;
        assert(all[k] == mapping);
    }
    if dev.contains(mapping) {
        let k = choose|k: int| 0 <= k < dev.len() && dev[k] == mapping;
        assert(all[own.len() + k] == mapping);
    }
}

/// The mappings come in order: those of `autoload` before those of `autoload-dev`, entry by
/// entry.
pub proof fn law_blocks_in_order(
    root: JsonTree,
    own: Seq<(Seq<char>, JsonTree)>,
    dev: Seq<(Seq<char>, JsonTree)>,
)
    ensures
        has_psr4(root, "autoload"@, own) && has_psr4(root, "autoload-dev"@, dev)
            ==> project_mappings(root) == stated_mappings(own) + stated_mappings(dev),
        has_psr4(root, "autoload"@, own) && (forall|other: Seq<(Seq<char>, JsonTree)>|
            !has_psr4(root, "autoload-dev"@, other)) ==> project_mappings(root) == stated_mappings(
            own,
        ),
        has_psr4(root, "autoload-dev"@, dev) && (forall|other: Seq<(Seq<char>, JsonTree)>|
            !has_psr4(root, "autoload"@, other)) ==> project_mappings(root) == stated_mappings(dev),
{
    lemma_block(root, "autoload"@, own);
    lemma_block(root, "autoload-dev"@, dev);
    let first = block_mappings(root, "autoload"@);
    let second = block_mappings(root, "autoload-dev"@);
    if first.len() == 0 {
        assert(first + second =~= second);
    }
    if second.len() == 0 {
        assert(first + second =~= first);
    }
}

/// The strings among two lists of items, one after the other.
proof fn lemma_texts_concat(a: Seq<JsonTree>, b: Seq<JsonTree>)
    ensures
        texts_among(a + b) == texts_among(a) + texts_among(b),
    decreases b.len(),
{
    if b.len() == 0 {
        assert(a + b =~= a);
        assert(texts_among(a) + texts_among(b) =~= texts_among(a));
    } else {
        assert((a + b).drop_last() =~= a + b.drop_last());
        lemma_texts_concat(a, b.drop_last());
        assert(texts_among(a + b) =~= texts_among(a) + texts_among(b));
    }
}

/// The mappings of entries come entry by entry, and those of an array item by item. A
/// string gives the one mapping that is written, and anything else gives none.
pub proof fn law_entries_in_order(
    a: Seq<(Seq<char>, JsonTree)>,
    b: Seq<(Seq<char>, JsonTree)>,
    namespace: Seq<char>,
    x: Seq<JsonTree>,
    y: Seq<JsonTree>,
    path: Seq<char>,
    mapping: Mapping<Seq<char>>,
    other: JsonTree,
)
    requires
        stands_for(mapping, namespace, path),
        other !is Text,
    ensures
        stated_mappings(Seq::empty()) == Seq::<Mapping<Seq<char>>>::empty(),
        stated_mappings(a + b) == stated_mappings(a) + stated_mappings(b),
        stated_mappings(seq![(namespace, JsonTree::Text(path))]) == seq![mapping],
        stated_mappings(seq![(namespace, JsonTree::Array(x + y))]) == stated_mappings(
            seq![(namespace, JsonTree::Array(x))],
        ) + stated_mappings(seq![(namespace, JsonTree::Array(y))]),
        stated_mappings(seq![(namespace, JsonTree::Array(seq![JsonTree::Text(path)]))])
            == seq![mapping],
        stated_mappings(seq![(namespace, JsonTree::Array(seq![other]))]) == Seq::<
            Mapping<Seq<char>>,
        >::empty(),
        other !is Array ==> stated_mappings(seq![(namespace, other)]) == Seq::<
            Mapping<Seq<char>>,
        >::empty(),
{
    lemma_stated_concat(a, b);
    lemma_stands_for(mapping, namespace, path);
    lemma_stated_one(namespace, JsonTree::Text(path));
    lemma_stated_one(namespace, JsonTree::Array(x + y));
    lemma_stated_one(namespace, JsonTree::Array(x));
    lemma_stated_one(namespace, JsonTree::Array(y));
    let one = seq![JsonTree::Text(path)];
    let odd = seq![other];
    lemma_stated_one(namespace, JsonTree::Array(one));
    lemma_stated_one(namespace, JsonTree::Array(odd));
    lemma_stated_one(namespace, other);
    lemma_texts_concat(x, y);
    reveal_with_fuel(texts_among, 2);
    assert(one.drop_last() =~= Seq::empty());
    assert(odd.drop_last() =~= Seq::empty());
    assert(texts_among(one) =~= seq![path]);
    assert(mappings_to(namespace, seq![path]) =~= seq![mapping]);
    assert(mappings_to(namespace, Seq::empty()) =~= Seq::empty());
    assert(mappings_to(namespace, texts_among(x + y)) =~= mappings_to(namespace, texts_among(x))
        + mappings_to(namespace, texts_among(y)));
}

/// The mappings of one entry are those to its directories.
proof fn lemma_stated_one(namespace: Seq<char>, value: JsonTree)
    ensures
        stated_mappings(seq![(namespace, value)]) == mappings_to(namespace, directories(value)),
{
    let one = seq![(namespace, value)];
    reveal_with_fuel(stated_mappings, 2);
    assert(one.drop_last() =~= Seq::empty());
    assert(stated_mappings(one) =~= mappings_to(namespace, directories(value)));
}

/// The mappings of two lists of entries, one after the other.
proof fn lemma_stated_concat(a: Seq<(Seq<char>, JsonTree)>, b: Seq<(Seq<char>, JsonTree)>)
    ensures
        stated_mappings(a + b) == stated_mappings(a) + stated_mappings(b),
    decreases b.len(),
{
    if b.len() == 0 {
        assert(a + b =~= a);
        assert(stated_mappings(a) + stated_mappings(b) =~= stated_mappings(a));
    } else {
        assert((a + b).drop_last() =~= a + b.drop_last());
        lemma_stated_concat(a, b.drop_last());
        assert(stated_mappings(a + b) =~= stated_mappings(a) + stated_mappings(b));
    }
}

/// What a list of mappings holds is what each of them holds.
pub proof fn law_mappings_hold_their_texts(list: Seq<Mapping<String>>)
    ensures
        mappings(list).len() == list.len(),
        forall|i: int|
            0 <= i < list.len() ==> (#[trigger] mappings(list)[i]).namespace == list[i].namespace@
                && mappings(list)[i].base_path == list[i].base_path@,
{
}

} // verus!
