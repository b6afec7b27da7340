//! What holds of every slash command.

use vstd::prelude::*;
use vstd::utf8::encode_utf8;

use crate::path::relative_path;
use crate::php::symbol_of;
use crate::psr4::expected_namespace;
use crate::slash::{
    argument_of, command_named, needed_file, one_section, output_outcome, task_of, task_output,
    Command, Output, SlashCommandOutput, SlashCommandOutputSection, SlashTask,
};
use crate::text::{join, CharClass};
use crate::text_laws::{all_in, ends_outside, law_trim, starts_outside};

verus! {

/// The path of a command is what its arguments make up with spaces between them, without the
/// white space around; without one there is a message.
pub proof fn law_argument(
    args: Seq<Seq<char>>,
    head: Seq<char>,
    path: Seq<char>,
    tail: Seq<char>,
)
    requires
        join(args, seq![' ']) == head + path + tail,
        all_in(head, CharClass::WhiteSpace),
        starts_outside(path, CharClass::WhiteSpace),
        ends_outside(path, CharClass::WhiteSpace),
        all_in(tail, CharClass::WhiteSpace),
    ensures
        path.len() > 0 ==> argument_of(args) == Ok::<_, Seq<char>>(path),
        path.len() == 0 ==> argument_of(args) == Err::<Seq<char>, _>(
            "missing file path argument"@,
        ),
{
    reveal_strlit(" ");
    assert(" "@ =~= seq![' ']);
    law_trim(head, path, tail, CharClass::WhiteSpace);
}

/// Each command has the one name that it is called by, and no other name calls one.
pub proof fn law_command_names(name: Seq<char>)
    ensures
        name == "tusk-copy-namespace"@ <==> command_named(name) == Some(Command::CopyNamespace),
        name == "tusk-namespace-for-path"@ <==> command_named(name) == Some(
            Command::NamespaceForPath,
        ),
        name != "tusk-copy-namespace"@ && name != "tusk-namespace-for-path"@ <==> command_named(
            name,
        ) is None,
{
    reveal_strlit("tusk-copy-namespace");
    reveal_strlit("tusk-namespace-for-path");
    assert("tusk-copy-namespace"@.len() != "tusk-namespace-for-path"@.len());
}

/// What a command needs. It fails without a worktree, then for a name that is none, then
/// without a path, then for a path outside of the worktree; otherwise it is about the file at
/// that path in the worktree.
pub proof fn law_task(name: Seq<char>, args: Seq<Seq<char>>, root: Seq<char>)
    ensures
        task_of(name, args, None) == Err::<SlashTask<Seq<char>>, _>(
            "slash commands require an open worktree"@,
        ),
        name != "tusk-copy-namespace"@ && name != "tusk-namespace-for-path"@ ==> task_of(
            name,
            args,
            Some(root),
        ) == Err::<SlashTask<Seq<char>>, _>("unknown slash command: \""@ + name + "\""@),
        name == "tusk-copy-namespace"@ || name == "tusk-namespace-for-path"@ ==> match argument_of(
            args,
        ) {
            Err(message) => task_of(name, args, Some(root)) == Err::<SlashTask<Seq<char>>, _>(
                message,
            ),
            Ok(path) => match relative_path(root, path) {
                Err(message) => task_of(name, args, Some(root)) == Err::<
                    SlashTask<Seq<char>>,
                    _,
                >(message),
                Ok(inside) => {
                    &&& task_of(name, args, Some(root)) matches Ok(task)
                    &&& task.relative_path == inside
                    &&& task.command == if name == "tusk-copy-namespace"@ {
                        Command::CopyNamespace
                    } else {
                        Command::NamespaceForPath
                    }
                },
            },
        },
{
}

/// The file that a command reads: the one that it is about for `tusk-copy-namespace`, and
/// `composer.json` for `tusk-namespace-for-path`.
pub proof fn law_needed_file(path: Seq<char>)
    ensures
        needed_file(SlashTask { command: Command::CopyNamespace, relative_path: path }) == path,
        needed_file(SlashTask { command: Command::NamespaceForPath, relative_path: path })
            == "composer.json"@,
{
}

/// Whether an output is the text, in one section from its first to its last byte, with the
/// label.
pub open spec fn shows(output: Output, label: Seq<char>, text: Seq<char>) -> bool {
    &&& output.text == text
    &&& output.sections.len() == 1
    &&& output.sections[0].label == label
    &&& output.sections[0].start == 0
    &&& encode_utf8(text).len() <= u32::MAX ==> output.sections[0].end == encode_utf8(text).len()
    &&& encode_utf8(text).len() <= usize::MAX ==> output.sections[0].end == encode_utf8(text).len()
        % 0x1_0000_0000
}

/// A number cut to 32 bits.
proof fn lemma_cut(n: usize)
    ensures
        n as u32 == n as nat % 0x1_0000_0000,
{
    assert(n as u32 == n as u64 % 0x1_0000_0000) by (bit_vector);
}

/// An output shows its text under its label, whatever they are.
pub proof fn law_output(label: Seq<char>, text: Seq<char>)
    ensures
        shows(one_section(label, text), label, text),
{
    lemma_cut(encode_utf8(text).len() as usize);
}

/// The output of `tusk-copy-namespace`: the symbol that the file declares; or a message that
/// names the file, if it declares none or could not be read.
pub proof fn law_copied_namespace(path: Seq<char>, source: Seq<char>, error: Seq<char>)
    ensures
        ({
            let task = SlashTask { command: Command::CopyNamespace, relative_path: path };
            &&& match symbol_of(source) {
                Some(symbol) => {
                    &&& task_output(task, Ok(source)) matches Ok(output)
                    &&& shows(output, "Namespace: "@ + path, symbol)
                },
                None => task_output(task, Ok(source)) == Err::<Output, _>(
                    "no namespace or primary type found in "@ + path,
                ),
            }
            &&& task_output(task, Err(error)) == Err::<Output, _>(
                "failed to read "@ + path + ": "@ + error,
            )
        }),
{
    if let Some(symbol) = symbol_of(source) {
        law_output("Namespace: "@ + path, symbol);
    }
}

/// The output of `tusk-namespace-for-path`: the namespace that the project expects in the
/// file, or the message that says why there is none.
pub proof fn law_namespace_for_path(path: Seq<char>, composer: Result<Seq<char>, Seq<char>>)
    ensures
        ({
            let task = SlashTask { command: Command::NamespaceForPath, relative_path: path };
            match expected_namespace(composer, path) {
                Ok(namespace) => {
                    &&& task_output(task, composer) matches Ok(output)
                    &&& shows(output, "Expected namespace: "@ + path, namespace)
                },
                Err(message) => task_output(task, composer) == Err::<Output, _>(message),
            }
        }),
{
    if let Ok(namespace) = expected_namespace(composer, path) {
        law_output("Expected namespace: "@ + path, namespace);
    }
}

/// What a task and an output hold is what each of their parts holds.
pub proof fn law_outputs_hold_their_parts(
    task: SlashTask<String>,
    section: SlashCommandOutputSection,
    output: SlashCommandOutput,
    message: String,
)
    ensures
        task@.command == task.command,
        task@.relative_path == task.relative_path@,
        section@.start == section.start,
        section@.end == section.end,
        section@.label == section.label@,
        output@.text == output.text@,
        output@.sections.len() == output.sections@.len(),
        forall|i: int|
            0 <= i < output.sections@.len() ==> #[trigger] output@.sections[i]
                == output.sections@[i]@,
        output_outcome(Ok(output)) == Ok::<_, Seq<char>>(output@),
        output_outcome(Err(message)) == Err::<Output, _>(message@),
{
}

} // verus!
