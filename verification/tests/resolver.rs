use tusk_php::checksum::sha256_hex;
use tusk_php::extension::PhpLspExtension;
use tusk_php::release::{describe_release, platform_name, release_from_pin, Architecture, Os};
use tusk_php::resolver::{checked, expects, Action, Event, Request, Resolution};

type Answer = Event<String, Vec<u8>>;

fn text(value: &str) -> String {
    value.to_string()
}

fn pin(sha: &str) -> String {
    format!("[lsp]\nversion = \"v1.2.3\"\n[lsp.sha256]\nlinux-amd64 = \"sha256:{}\"\n", sha)
}

fn request(configured: Option<&str>, pin_toml: String) -> Request<String> {
    Request {
        configured_path: configured.map(text),
        root_path: text("/proj"),
        pin_toml,
        os: Os::Linux,
        arch: Architecture::X8664,
    }
}

/// Runs a resolution with the given answers, and checks that they answer the given actions.
fn play(
    extension: &mut PhpLspExtension,
    request: Request<String>,
    script: Vec<(Action<String>, Answer)>,
) -> Result<String, String> {
    let (mut resolution, mut action) = extension.language_server_binary_path(request);
    for (wanted, answer) in script {
        assert_eq!(action, wanted);
        assert!(expects(&resolution, &answer));
        let step = extension.advance(resolution, answer);
        resolution = step.0;
        action = step.1;
    }
    assert_eq!(resolution, Resolution::Finished);
    match action {
        Action::Finish(result) => result,
        other => panic!("unfinished: {:?}", other),
    }
}

fn which(found: Option<&str>) -> (Action<String>, Answer) {
    (Action::Which(text("tusk-php")), Event::Which(found.map(text)))
}

fn is_file(path: &str, found: bool) -> (Action<String>, Answer) {
    (Action::IsFile(text(path)), Event::IsFile(found))
}

const BINARY: &str = "tusk-php-v1.2.3/tusk-php";

fn make_directory() -> (Action<String>, Answer) {
    (Action::CreateDirectory(text("tusk-php-v1.2.3")), Event::DirectoryCreated)
}

fn download(result: Result<(), &str>) -> (Action<String>, Answer) {
    let url = "https://github.com/Tusk-PHP/lsp/releases/download/v1.2.3/tusk-php-linux-amd64";
    (
        Action::Download { url: text(url), path: text(BINARY) },
        Event::Downloaded(result.map_err(text)),
    )
}

fn read(result: Result<&[u8], &str>) -> (Action<String>, Answer) {
    (Action::Read(text(BINARY)), Event::Read(result.map(|b| b.to_vec()).map_err(text)))
}

fn remove() -> (Action<String>, Answer) {
    (Action::Remove(text(BINARY)), Event::Removed)
}

fn enable(result: Result<(), &str>) -> (Action<String>, Answer) {
    (Action::MakeExecutable(text(BINARY)), Event::MadeExecutable(result.map_err(text)))
}

#[test]
fn the_remembered_binary_comes_first() {
    let mut extension = PhpLspExtension { cached_binary_path: Some(text("/old")) };
    let script = vec![is_file("/old", true)];
    assert_eq!(play(&mut extension, request(Some("x"), pin("")), script), Ok(text("/old")));
    assert_eq!(extension.cached_binary_path, Some(text("/old")));
}

#[test]
fn the_path_comes_before_the_settings() {
    let mut extension = PhpLspExtension { cached_binary_path: Some(text("/old")) };
    let script = vec![is_file("/old", false), which(Some("/usr/bin/tusk-php"))];
    assert_eq!(
        play(&mut extension, request(Some("/opt/tusk-php"), pin("")), script),
        Ok(text("/usr/bin/tusk-php"))
    );
    assert_eq!(extension.cached_binary_path, Some(text("/usr/bin/tusk-php")));
}

#[test]
fn the_configured_binary_is_seen_from_the_worktree() {
    for (raw, path) in [
        ("/opt/tusk-php", "/opt/tusk-php"),
        ("bin/tusk-php", "/proj/bin/tusk-php"),
        ("./x", "/proj/./x"),
        ("", "/proj/"),
    ] {
        let mut extension = PhpLspExtension::new();
        let script = vec![which(None), is_file(path, true)];
        assert_eq!(play(&mut extension, request(Some(raw), pin("")), script), Ok(text(path)));
        assert_eq!(extension.cached_binary_path, Some(text(path)));
    }
}

#[test]
fn a_release_that_is_there_is_checked() {
    let sha = sha256_hex(b"binary");
    let mut extension = PhpLspExtension::new();
    let script =
        vec![which(None), is_file(BINARY, true), read(Ok(b"binary")), enable(Ok(()))];
    assert_eq!(play(&mut extension, request(None, pin(&sha)), script), Ok(text(BINARY)));
    assert_eq!(extension.cached_binary_path, Some(text(BINARY)));
}

#[test]
fn a_release_is_downloaded_and_checked() {
    let sha = sha256_hex(b"binary").to_uppercase();
    let mut extension = PhpLspExtension::new();
    let script = vec![
        which(None),
        is_file("/proj/bin", false),
        is_file(BINARY, false),
        make_directory(),
        download(Ok(())),
        read(Ok(b"binary")),
        enable(Ok(())),
    ];
    assert_eq!(play(&mut extension, request(Some("bin"), pin(&sha)), script), Ok(text(BINARY)));
}

#[test]
fn a_release_with_another_checksum_is_downloaded_once_more() {
    let sha = sha256_hex(b"binary");
    let mut extension = PhpLspExtension::new();
    let script = vec![
        which(None),
        is_file(BINARY, true),
        read(Ok(b"stale")),
        remove(),
        make_directory(),
        download(Ok(())),
        read(Ok(b"binary")),
        enable(Ok(())),
    ];
    assert_eq!(play(&mut extension, request(None, pin(&sha)), script), Ok(text(BINARY)));
}

#[test]
fn a_release_with_another_checksum_is_never_used() {
    let sha = sha256_hex(b"binary");
    let mut extension = PhpLspExtension { cached_binary_path: Some(text("/old")) };
    let script = vec![
        is_file("/old", false),
        which(None),
        is_file("/proj/c", false),
        is_file(BINARY, false),
        make_directory(),
        download(Ok(())),
        read(Ok(b"wrong")),
        remove(),
        make_directory(),
        download(Ok(())),
        read(Ok(b"still wrong")),
        remove(),
    ];
    assert_eq!(
        play(&mut extension, request(Some("c"), pin(&sha)), script),
        Err(format!(
            "checksum mismatch for downloaded tusk-php v1.2.3 (linux-amd64): expected {}, got {}",
            sha,
            sha256_hex(b"still wrong")
        ))
    );
    assert_eq!(extension.cached_binary_path, Some(text("/old")));
}

#[test]
fn a_failed_download_tells_what_to_do() {
    let script = || vec![which(None), is_file(BINARY, false), make_directory(), download(Err("404"))];
    let mut extension = PhpLspExtension::new();
    assert_eq!(
        play(&mut extension, request(None, pin("aa")), script()),
        Err(text(
            "tusk-php language server not found: not on PATH and the release \
             download failed (404). Install tusk-php manually or ensure network \
             access to GitHub releases."
        ))
    );
    let mut with_settings = script();
    with_settings.insert(1, is_file("/proj/c", false));
    assert_eq!(
        play(&mut extension, request(Some("c"), pin("aa")), with_settings),
        Err(text(
            "tusk-php language server not found: not on PATH, configured \
             binary.path does not exist on the target host, and the release \
             download failed (404). Install tusk-php on the remote PATH or \
             unset/correct lsp.tusk-php.binary.path."
        ))
    );
    assert_eq!(extension.cached_binary_path, None);
}

#[test]
fn a_failed_second_download_is_an_error() {
    let script = vec![
        which(None),
        is_file(BINARY, true),
        read(Ok(b"stale")),
        remove(),
        make_directory(),
        download(Err("offline")),
    ];
    assert_eq!(
        play(&mut PhpLspExtension::new(), request(None, pin("aa")), script),
        Err(text("re-download after checksum mismatch failed: offline"))
    );
}

#[test]
fn a_binary_that_cannot_be_read_is_an_error() {
    let script = vec![which(None), is_file(BINARY, true), read(Err("denied"))];
    assert_eq!(
        play(&mut PhpLspExtension::new(), request(None, pin("aa")), script),
        Err(text("failed to read tusk-php-v1.2.3/tusk-php: denied"))
    );
    let again = vec![
        which(None),
        is_file(BINARY, true),
        read(Ok(b"stale")),
        remove(),
        make_directory(),
        download(Ok(())),
        read(Err("denied")),
    ];
    assert_eq!(
        play(&mut PhpLspExtension::new(), request(None, pin("aa")), again),
        Err(text("failed to read tusk-php-v1.2.3/tusk-php after re-download: denied"))
    );
}

#[test]
fn a_binary_that_cannot_be_made_executable_is_an_error() {
    let sha = sha256_hex(b"binary");
    let script =
        vec![which(None), is_file(BINARY, true), read(Ok(b"binary")), enable(Err("read-only"))];
    let mut extension = PhpLspExtension::new();
    assert_eq!(
        play(&mut extension, request(None, pin(&sha)), script),
        Err(text("read-only"))
    );
    assert_eq!(extension.cached_binary_path, None);
}

#[test]
fn without_a_release_there_is_no_binary() {
    let mut other = request(None, pin("aa"));
    other.arch = Architecture::X86;
    assert_eq!(
        play(&mut PhpLspExtension::new(), other, vec![which(None)]),
        Err(text("Unsupported arch"))
    );
    let mut mac = request(None, pin("aa"));
    mac.os = Os::Mac;
    assert_eq!(
        play(&mut PhpLspExtension::new(), mac, vec![which(None)]),
        Err(text("no pinned checksum for darwin-amd64 in tusk-lsp.toml"))
    );
}

#[test]
fn an_event_must_answer_the_action() {
    let (resolution, _) = PhpLspExtension::new().language_server_binary_path(request(None, pin("")));
    assert!(expects(&resolution, &Event::Which(None)));
    assert!(!expects(&resolution, &Event::IsFile(true)));
    assert!(!expects(&Resolution::Finished, &Event::Which(None)));
}

#[test]
fn releases_are_named_by_platform() {
    assert_eq!(platform_name(Os::Mac, Architecture::Aarch64), Some(text("darwin-arm64")));
    assert_eq!(platform_name(Os::Windows, Architecture::X8664), Some(text("windows-amd64")));
    assert_eq!(platform_name(Os::Linux, Architecture::X86), None);
    let release = describe_release(
        Os::Windows,
        Architecture::Aarch64,
        text("v2"),
        Some(text("ff")),
    )
    .unwrap();
    assert_eq!(release.platform_arch, "windows-arm64");
    assert_eq!(release.directory, "tusk-php-v2");
    assert_eq!(release.binary_path, "tusk-php-v2/tusk-php.exe");
    assert_eq!(
        release.url,
        "https://github.com/Tusk-PHP/lsp/releases/download/v2/tusk-php-windows-arm64.exe"
    );
    let pinned = release_from_pin(&pin("ABcd"), Os::Linux, Architecture::X8664).unwrap();
    assert_eq!(pinned.expected_sha, "abcd");
}

#[test]
fn a_binary_is_accepted_by_its_digest_alone() {
    let release = || {
        let sha = Some(sha256_hex(b"binary"));
        describe_release(Os::Linux, Architecture::X8664, text("v2"), sha).unwrap()
    };
    let accepted = |bytes: &[u8]| {
        matches!(
            checked(release(), false, false, &sha256_hex(bytes)).1,
            Action::MakeExecutable(_)
        )
    };
    assert!(accepted(b"binary"));
    assert!(!accepted(b"Binary"));
    assert!(!accepted(b""));
}

#[test]
fn a_binary_is_accepted_by_the_checksum_in_the_pin_file() {
    let sha = sha256_hex(b"binary");
    for stated in [sha.clone(), sha.to_uppercase(), format!(" {} ", sha)] {
        let release = release_from_pin(&pin(&stated), Os::Linux, Architecture::X8664).unwrap();
        assert_eq!(release.version, "v1.2.3");
        assert_eq!(release.platform_arch, "linux-amd64");
        assert_eq!(release.expected_sha, sha);
        assert_eq!(
            checked(release, false, false, &sha256_hex(b"binary")).1,
            Action::MakeExecutable(text(BINARY))
        );
    }
}

#[test]
fn a_binary_that_is_gone_counts_as_none() {
    let mut extension = PhpLspExtension { cached_binary_path: Some(text("/old")) };
    let (resolution, action) = extension.language_server_binary_path(request(None, pin("aa")));
    assert_eq!(action, Action::IsFile(text("/old")));
    assert_eq!(
        extension.advance(resolution, Event::IsFile(false)),
        PhpLspExtension::new().language_server_binary_path(request(None, pin("aa")))
    );
}

#[test]
fn a_checksum_is_compared_whatever_its_case() {
    let release = || {
        describe_release(Os::Linux, Architecture::X8664, text("v2"), Some(text("aBcD"))).unwrap()
    };
    let path = text("tusk-php-v2/tusk-php");
    assert_eq!(
        checked(release(), false, false, "AbCd").1,
        Action::MakeExecutable(path.clone())
    );
    assert_eq!(checked(release(), false, false, "abce").1, Action::Remove(path.clone()));
    assert_eq!(
        checked(release(), true, true, "abce").0,
        Resolution::Rejecting {
            error: text(
                "checksum mismatch for downloaded tusk-php v2 (linux-amd64): expected aBcD, got abce"
            ),
        }
    );
}

#[test]
fn a_remembered_path_was_found_before() {
    let mut extension = PhpLspExtension::new();
    let first = vec![which(Some("/bin/tusk-php"))];
    assert_eq!(
        play(&mut extension, request(None, pin("")), first),
        Ok(text("/bin/tusk-php"))
    );
    let second = vec![is_file("/bin/tusk-php", true)];
    assert_eq!(
        play(&mut extension, request(None, pin("")), second),
        Ok(text("/bin/tusk-php"))
    );
}
