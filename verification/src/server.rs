//! The command that starts the language server.

use vstd::prelude::*;

use crate::extension::PhpLspExtension;
use crate::text::strings;

verus! {

/// What the settings say of the language server binary.
#[derive(Debug, PartialEq, Eq)]
pub struct BinarySettings {
    /// Where the binary lies.
    pub path: Option<String>,
    /// The arguments to start it with.
    pub arguments: Option<Vec<String>>,
}

/// The command that starts the language server.
#[derive(Debug, PartialEq, Eq)]
pub struct ServerCommand {
    /// The path of the binary.
    pub command: String,
    /// The arguments.
    pub args: Vec<String>,
    /// The environment variables that are set.
    pub env: Vec<(String, String)>,
}

/// The arguments that the language server is started with: the configured ones, or
/// those that have it speak over its standard streams.
pub open spec fn server_arguments(configured: Option<Vec<String>>) -> Seq<Seq<char>> {
    match configured {
        Some(args) => strings(args@),
        None => seq!["--transport"@, "stdio"@],
    }
}

impl PhpLspExtension {
    /// The path and the arguments in the settings, if there are any.
    pub fn configured_binary(binary: Option<BinarySettings>) -> (configured: (
        Option<String>,
        Option<Vec<String>>,
    ))
        ensures
            binary matches Some(b) ==> configured == (b.path, b.arguments),
            binary is None ==> configured == (None::<String>, None::<Vec<String>>),
    {
        match binary {
            Some(b) => (b.path, b.arguments),
            None => (None, None),
        }
    }

    /// The command that starts the language server, given the path of its binary, or why
    /// there is none, and the arguments in the settings.
    pub fn language_server_command(
        binary_path: Result<String, String>,
        configured_args: Option<Vec<String>>,
    ) -> (result: Result<ServerCommand, String>)
        ensures
            match binary_path {
                Ok(path) => {
                    &&& result is Ok
                    &&& result->Ok_0.command == path
                    &&& strings(result->Ok_0.args@) == server_arguments(configured_args)
                    &&& configured_args matches Some(args) ==> result->Ok_0.args@ == args@
                    &&& result->Ok_0.env@.len() == 0
                },
                Err(message) => result == Err::<ServerCommand, String>(message),
            },
    {
        match binary_path {
            Ok(command) => {
                let args = match configured_args {
                    Some(args) => args,
                    None => {
                        let args = vec!["--transport".to_owned(), "stdio".to_owned()];
                        assert(strings(args@) =~= seq!["--transport"@, "stdio"@]);
                        args
                    },
                };
                Ok(ServerCommand { command, args, env: Vec::new() })
            },
            Err(message) => Err(message),
        }
    }
}

/// Where arguments are configured, the server is started with just those: as many of them,
/// each the same at the same place, also where there are none. Where none are configured it
/// is told to speak over its standard streams.
pub proof fn law_server_arguments(args: Vec<String>)
    ensures
        server_arguments(Some(args)).len() == args@.len(),
        forall|i: int|
            0 <= i < args@.len() ==> #[trigger] server_arguments(Some(args))[i] == args@[i]@,
        server_arguments(None).len() == 2,
        server_arguments(None)[0] == "--transport"@,
        server_arguments(None)[1] == "stdio"@,
{
}

} // verus!
