//! The slash commands.
//!
//! A slash command is decided in two steps, between which one file of the worktree is
//! read: `run_slash_command` tells what the command needs, `file_to_read` which file
//! that is, and `finish_slash_command` makes the output.

use vstd::prelude::*;
use vstd::string::StringSliceAdditionalSpecFns;
use vstd::utf8::encode_utf8;

use crate::extension::PhpLspExtension;
use crate::path::relative_path;
use crate::php::symbol_of;
use crate::psr4::expected_namespace;
use crate::text::{cut, join, join_strings, outcome, strings, to_chars, to_text, trim, CharClass};

verus! {

/// A slash command of the extension.
#[derive(Clone, Copy, PartialEq, Eq, Structural, Debug)]
pub enum Command {
    /// `tusk-copy-namespace`: what a file declares.
    CopyNamespace,
    /// `tusk-namespace-for-path`: the namespace that the project expects in a file.
    NamespaceForPath,
}

/// A slash command about one file. `T` is `String`, and `Seq<char>` in specifications.
#[derive(Debug, PartialEq, Eq)]
pub struct SlashTask<T> {
    /// The command.
    pub command: Command,
    /// Where the file lies in the worktree.
    pub relative_path: T,
}

/// A section of an output: from byte `start` up to byte `end`.
#[derive(Debug, PartialEq, Eq)]
pub struct SlashCommandOutputSection {
    /// Where the section starts.
    pub start: u32,
    /// Where the section ends.
    pub end: u32,
    /// How the section is labelled.
    pub label: String,
}

/// The output of a slash command.
#[derive(Debug, PartialEq, Eq)]
pub struct SlashCommandOutput {
    /// The text.
    pub text: String,
    /// The sections of the text.
    pub sections: Vec<SlashCommandOutputSection>,
}

/// A section, as the specifications see it.
pub ghost struct Section {
    /// Where the section starts.
    pub start: u32,
    /// Where the section ends.
    pub end: u32,
    /// How the section is labelled.
    pub label: Seq<char>,
}

/// An output, as the specifications see it.
pub ghost struct Output {
    /// The text.
    pub text: Seq<char>,
    /// The sections of the text.
    pub sections: Seq<Section>,
}

impl View for SlashTask<String> {
    type V = SlashTask<Seq<char>>;

    open spec fn view(&self) -> SlashTask<Seq<char>> {
        SlashTask { command: self.command, relative_path: self.relative_path@ }
    }
}

impl View for SlashCommandOutputSection {
    type V = Section;

    open spec fn view(&self) -> Section {
        Section { start: self.start, end: self.end, label: self.label@ }
    }
}

impl View for SlashCommandOutput {
    type V = Output;

    open spec fn view(&self) -> Output {
        Output {
            text: self.text@,
            sections: Seq::new(self.sections@.len(), |i: int| self.sections@[i]@),
        }
    }
}

/// What the output of a command, or the reason why there is none, holds.
pub open spec fn output_outcome(result: Result<SlashCommandOutput, String>) -> Result<Output, Seq<char>> {
    match result {
        Ok(output) => Ok(output@),
        Err(message) => Err(message@),
    }
}

/// The length of a text in bytes, in the 32 bits that a section has for it.
pub open spec fn byte_length(text: Seq<char>) -> u32 {
    (encode_utf8(text).len() as usize) as u32
}

/// The output with the given text, all of it in one section.
pub open spec fn one_section(label: Seq<char>, text: Seq<char>) -> Output {
    Output {
        text,
        sections: seq![Section { start: 0, end: byte_length(text), label }],
    }
}

/// The path that the arguments of a command make up: the arguments with spaces between
/// them, without the white space around.
pub open spec fn argument_of(args: Seq<Seq<char>>) -> Result<Seq<char>, Seq<char>> {
    let path = trim(join(args, " "@), CharClass::WhiteSpace);
    if path.len() == 0 {
        Err("missing file path argument"@)
    } else {
        Ok(path)
    }
}

/// The command with the given name.
pub open spec fn command_named(name: Seq<char>) -> Option<Command> {
    if name == "tusk-copy-namespace"@ {
        Some(Command::CopyNamespace)
    } else if name == "tusk-namespace-for-path"@ {
        Some(Command::NamespaceForPath)
    } else {
        None
    }
}

/// What a command needs, given its name, its arguments and the root of the worktree, if
/// one is open.
pub open spec fn task_of(
    name: Seq<char>,
    args: Seq<Seq<char>>,
    root: Option<Seq<char>>,
) -> Result<SlashTask<Seq<char>>, Seq<char>> {
    match (root, command_named(name), argument_of(args)) {
        (None, _, _) => Err("slash commands require an open worktree"@),
        (Some(_), None, _) => Err("unknown slash command: \""@ + name + "\""@),
        (Some(_), Some(_), Err(message)) => Err(message),
        (Some(root), Some(command), Ok(path)) => match relative_path(root, path) {
            Ok(relative_path) => Ok(SlashTask { command, relative_path }),
            Err(message) => Err(message),
        },
    }
}

/// The file that a command reads.
pub open spec fn needed_file(task: SlashTask<Seq<char>>) -> Seq<char> {
    match task.command {
        Command::CopyNamespace => task.relative_path,
        Command::NamespaceForPath => "composer.json"@,
    }
}

/// The output of `tusk-copy-namespace`, given what came of reading the file.
pub open spec fn copied_namespace(
    relative_path: Seq<char>,
    source: Result<Seq<char>, Seq<char>>,
) -> Result<Output, Seq<char>> {
    match source {
        Ok(text) => match symbol_of(text) {
            Some(symbol) => Ok(one_section("Namespace: "@ + relative_path, symbol)),
            None => Err("no namespace or primary type found in "@ + relative_path),
        },
        Err(error) => Err("failed to read "@ + relative_path + ": "@ + error),
    }
}

/// The output of `tusk-namespace-for-path`, given what came of reading `composer.json`.
pub open spec fn namespace_for_path(
    relative_path: Seq<char>,
    composer: Result<Seq<char>, Seq<char>>,
) -> Result<Output, Seq<char>> {
    match expected_namespace(composer, relative_path) {
        Ok(namespace) => Ok(one_section("Expected namespace: "@ + relative_path, namespace)),
        Err(message) => Err(message),
    }
}

/// The output of a command, given what came of reading the file that it needs.
pub open spec fn task_output(
    task: SlashTask<Seq<char>>,
    content: Result<Seq<char>, Seq<char>>,
) -> Result<Output, Seq<char>> {
    match task.command {
        Command::CopyNamespace => copied_namespace(task.relative_path, content),
        Command::NamespaceForPath => namespace_for_path(task.relative_path, content),
    }
}

/// Two texts, one after the other.
fn concat(first: &str, second: &str) -> (text: String)
    ensures
        text@ == first@ + second@,
{
    let mut text = first.to_owned();
    text.append(second);
    text
}

impl PhpLspExtension {
    /// The output with the given text, all of it in one section with the given label.
    pub fn slash_output(label: String, text: String) -> (output: SlashCommandOutput)
        ensures
            output@ == one_section(label@, text@),
    {
        let end: u32 = text.as_str().len() as u32;
        let output = SlashCommandOutput {
            text,
            sections: vec![SlashCommandOutputSection { start: 0, end, label }],
        };
        assert(output@.sections =~= one_section(label@, text@).sections);
        output
    }

    /// The path that the arguments of a command make up.
    pub fn path_argument(args: &[String]) -> (result: Result<String, String>)
        ensures
            outcome(result) == argument_of(strings(args@)),
    {
        let text = join_strings(args, " ");
        let chars = to_chars(text.as_str());
        let path = cut(chars.as_slice(), CharClass::WhiteSpace);
        if path.len() == 0 {
            Err("missing file path argument".to_owned())
        } else {
            Ok(to_text(path))
        }
    }

    /// The output of `tusk-copy-namespace`: what the file declares.
    pub fn run_copy_namespace(relative_path: &str, source: Result<String, String>) -> (result:
        Result<SlashCommandOutput, String>)
        ensures
            output_outcome(result) == copied_namespace(relative_path@, outcome(source)),
    {
        match source {
            Ok(text) => match Self::declared_symbol(text.as_str()) {
                Some(symbol) => Ok(
                    Self::slash_output(concat("Namespace: ", relative_path), symbol),
                ),
                None => Err(concat("no namespace or primary type found in ", relative_path)),
            },
            Err(error) => {
                let mut message = concat("failed to read ", relative_path);
                message.append(": ");
                message.append(error.as_str());
                Err(message)
            },
        }
    }

    /// The output of `tusk-namespace-for-path`: the namespace that the project expects in
    /// the file.
    pub fn run_namespace_for_path(relative_path: &str, composer: Result<String, String>) -> (result:
        Result<SlashCommandOutput, String>)
        ensures
            output_outcome(result) == namespace_for_path(relative_path@, outcome(composer)),
    {
        match Self::expected_namespace_for_path(composer, relative_path) {
            Ok(namespace) => Ok(
                Self::slash_output(concat("Expected namespace: ", relative_path), namespace),
            ),
            Err(message) => Err(message),
        }
    }

    /// What a slash command needs, given its name, its arguments and the root of the
    /// worktree, if one is open.
    pub fn run_slash_command(name: &str, args: &[String], root: Option<&str>) -> (result: Result<
        SlashTask<String>,
        String,
    >)
        ensures
            task_of(name@, strings(args@), (match root {
                Some(r) => Some(r@),
                None => None,
            })) == (match result {
                Ok(task) => Ok(task@),
                Err(message) => Err(message@),
            }),
    {
        let root = match root {
            Some(root) => root,
            None => {
                return Err("slash commands require an open worktree".to_owned());
            },
        };
        let command = match named_command(name) {
            Some(command) => command,
            None => {
                let mut message = concat("unknown slash command: \"", name);
                message.append("\"");
                return Err(message);
            },
        };
        let path = match Self::path_argument(args) {
            Ok(path) => path,
            Err(message) => {
                return Err(message);
            },
        };
        match Self::worktree_relative_path(root, path.as_str()) {
            Ok(relative_path) => Ok(SlashTask { command, relative_path }),
            Err(message) => Err(message),
        }
    }

    /// The file of the worktree that a slash command reads.
    pub fn file_to_read(task: &SlashTask<String>) -> (file: String)
        ensures
            file@ == needed_file(task@),
    {
        match task.command {
            Command::CopyNamespace => task.relative_path.clone(),
            Command::NamespaceForPath => "composer.json".to_owned(),
        }
    }

    /// The output of a slash command, given what came of reading the file that it needs.
    pub fn finish_slash_command(task: &SlashTask<String>, content: Result<String, String>) -> (result:
        Result<SlashCommandOutput, String>)
        ensures
            output_outcome(result) == task_output(task@, outcome(content)),
    {
        match task.command {
            Command::CopyNamespace => Self::run_copy_namespace(
                task.relative_path.as_str(),
                content,
            ),
            Command::NamespaceForPath => Self::run_namespace_for_path(
                task.relative_path.as_str(),
                content,
            ),
        }
    }
}

/// The command with the given name.
pub fn named_command(name: &str) -> (command: Option<Command>)
    ensures
        command == command_named(name@),
{
    let text = name.to_owned();
    if text == "tusk-copy-namespace".to_owned() {
        Some(Command::CopyNamespace)
    } else if text == "tusk-namespace-for-path".to_owned() {
        Some(Command::NamespaceForPath)
    } else {
        None
    }
}

/// The section of an output spans its whole text, if that has no more bytes than a section
/// can count.
pub proof fn law_section_spans_text(label: Seq<char>, text: Seq<char>)
    requires
        encode_utf8(text).len() <= u32::MAX,
    ensures
        one_section(label, text).sections.len() == 1,
        one_section(label, text).sections[0].start == 0,
        one_section(label, text).sections[0].end == encode_utf8(text).len(),
{
}

} // verus!
