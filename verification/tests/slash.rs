use tusk_php::extension::PhpLspExtension;
use tusk_php::slash::{
    named_command, Command, SlashCommandOutput, SlashCommandOutputSection, SlashTask,
};

fn args(list: &[&str]) -> Vec<String> {
    list.iter().map(|arg| arg.to_string()).collect()
}

fn output(label: &str, text: &str) -> SlashCommandOutput {
    SlashCommandOutput {
        text: text.to_string(),
        sections: vec![SlashCommandOutputSection {
            start: 0,
            end: text.len() as u32,
            label: label.to_string(),
        }],
    }
}

#[test]
fn arguments_make_up_a_path() {
    let path = |list: &[&str]| PhpLspExtension::path_argument(&args(list));
    assert_eq!(path(&["src/A.php"]), Ok("src/A.php".to_string()));
    assert_eq!(path(&[" my", "dir/A.php\n"]), Ok("my dir/A.php".to_string()));
    let missing = Err("missing file path argument".to_string());
    assert_eq!(path(&[]), missing);
    assert_eq!(path(&["", " ", "\t"]), missing);
}

#[test]
fn an_output_is_one_section_of_bytes() {
    let found = PhpLspExtension::slash_output("label".to_string(), "\u{e9}\u{4e2d}a".to_string());
    assert_eq!(found.sections[0].end, 6);
    assert_eq!(found, output("label", "\u{e9}\u{4e2d}a"));
}

#[test]
fn commands_have_names() {
    assert_eq!(named_command("tusk-copy-namespace"), Some(Command::CopyNamespace));
    assert_eq!(named_command("tusk-namespace-for-path"), Some(Command::NamespaceForPath));
    assert_eq!(named_command("tusk"), None);
}

#[test]
fn a_command_about_a_file_needs_one_file() {
    let copy = PhpLspExtension::run_slash_command(
        "tusk-copy-namespace",
        &args(&["/proj/src/../A.php"]),
        Some("/proj"),
    )
    .unwrap();
    assert_eq!(
        copy,
        SlashTask { command: Command::CopyNamespace, relative_path: "A.php".to_string() }
    );
    assert_eq!(PhpLspExtension::file_to_read(&copy), "A.php");
    let find = PhpLspExtension::run_slash_command(
        "tusk-namespace-for-path",
        &args(&["src/A.php"]),
        Some("/proj"),
    )
    .unwrap();
    assert_eq!(find.relative_path, "src/A.php");
    assert_eq!(PhpLspExtension::file_to_read(&find), "composer.json");
}

#[test]
fn a_command_can_fail_before_it_reads() {
    let run = |name: &str, list: &[&str], root: Option<&str>| {
        PhpLspExtension::run_slash_command(name, &args(list), root)
    };
    assert_eq!(
        run("nonsense", &[], None),
        Err("slash commands require an open worktree".to_string())
    );
    assert_eq!(
        run("nonsense", &[], Some("/proj")),
        Err("unknown slash command: \"nonsense\"".to_string())
    );
    assert_eq!(
        run("tusk-copy-namespace", &[], Some("/proj")),
        Err("missing file path argument".to_string())
    );
    assert_eq!(
        run("tusk-namespace-for-path", &["/etc/passwd"], Some("/proj")),
        Err("path must be inside /proj".to_string())
    );
}

#[test]
fn what_a_file_declares_is_copied() {
    let task = SlashTask { command: Command::CopyNamespace, relative_path: "a.php".to_string() };
    let finish = |content: Result<&str, &str>| {
        let content = content.map(|t| t.to_string()).map_err(|e| e.to_string());
        PhpLspExtension::finish_slash_command(&task, content)
    };
    assert_eq!(
        finish(Ok("namespace App;\nclass User {}")),
        Ok(output("Namespace: a.php", "App\\User"))
    );
    assert_eq!(
        finish(Ok("echo 1;")),
        Err("no namespace or primary type found in a.php".to_string())
    );
    assert_eq!(finish(Err("denied")), Err("failed to read a.php: denied".to_string()));
}

#[test]
fn the_namespace_of_a_path_is_told() {
    let task = SlashTask {
        command: Command::NamespaceForPath,
        relative_path: "src/Http/A.php".to_string(),
    };
    let composer = "{\"autoload\": {\"psr-4\": {\"App\\\\\": \"src/\"}}}".to_string();
    assert_eq!(
        PhpLspExtension::finish_slash_command(&task, Ok(composer)),
        Ok(output("Expected namespace: src/Http/A.php", "App\\Http"))
    );
    assert_eq!(
        PhpLspExtension::finish_slash_command(&task, Ok("{}".to_string())),
        Err("no PSR-4 mapping matched src/Http/A.php".to_string())
    );
    assert_eq!(
        PhpLspExtension::finish_slash_command(&task, Err("gone".to_string())),
        Err("failed to read composer.json: gone".to_string())
    );
}
