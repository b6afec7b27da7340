use tusk_php::extension::PhpLspExtension;
use tusk_php::server::{BinarySettings, ServerCommand};

#[test]
fn the_server_speaks_over_its_standard_streams() {
    assert_eq!(
        PhpLspExtension::language_server_command(Ok("/bin/tusk-php".to_string()), None),
        Ok(ServerCommand {
            command: "/bin/tusk-php".to_string(),
            args: vec!["--transport".to_string(), "stdio".to_string()],
            env: vec![],
        })
    );
}

#[test]
fn configured_arguments_are_used() {
    let settings = BinarySettings {
        path: Some("bin/x".to_string()),
        arguments: Some(vec!["-v".to_string()]),
    };
    let (path, arguments) = PhpLspExtension::configured_binary(Some(settings));
    assert_eq!(path, Some("bin/x".to_string()));
    let command =
        PhpLspExtension::language_server_command(Ok("b".to_string()), arguments).unwrap();
    assert_eq!(command.args, vec!["-v".to_string()]);
    let empty = PhpLspExtension::language_server_command(Ok("b".to_string()), Some(vec![]));
    assert_eq!(empty.unwrap().args, Vec::<String>::new());
    assert_eq!(PhpLspExtension::configured_binary(None), (None, None));
}

#[test]
fn without_a_binary_there_is_no_command() {
    assert_eq!(
        PhpLspExtension::language_server_command(Err("why".to_string()), None),
        Err("why".to_string())
    );
}
