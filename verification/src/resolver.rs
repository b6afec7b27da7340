//! How the language server binary is found.
//!
//! Finding the binary alternates between decisions and actions on the host. The
//! decisions are made here: `language_server_binary_path` states the first action,
//! and `advance` takes what came of an action and states the next one, until that is
//! `Finish`. In order of precedence the binary is
//!
//! 1. the one found last time, if it is still a file;
//! 2. the one on the `PATH` of the host of the worktree;
//! 3. the configured one, if it is a file there;
//! 4. the pinned release, downloaded if need be, once its checksum was found to be
//!    the stated one.

use vstd::prelude::*;

use crate::checksum::{checksum, sha256_hex};
use crate::extension::PhpLspExtension;
use crate::path::{join_path, joined};
use crate::release::{pinned_release, release_from_pin, Architecture, Os, Release};
use crate::text::{eq_ignoring_case, optional, outcome, same_ignoring_case};

verus! {

/// What a resolution starts from. `T` is `String`, and `Seq<char>` in specifications.
#[derive(Debug, PartialEq, Eq)]
pub struct Request<T> {
    /// The path of the binary in the settings.
    pub configured_path: Option<T>,
    /// The root of the worktree.
    pub root_path: T,
    /// The text of the pin file.
    pub pin_toml: T,
    /// The operating system.
    pub os: Os,
    /// The architecture.
    pub arch: Architecture,
}

/// How far a resolution has come: which action it waits for.
#[derive(Debug, PartialEq, Eq)]
pub enum Resolution<T> {
    /// Whether the binary found last time is still a file.
    Cached { path: T, request: Request<T> },
    /// The lookup on the `PATH`.
    OnPath { request: Request<T> },
    /// Whether the configured binary is a file.
    Configured { path: T, request: Request<T> },
    /// Whether the binary of the release is there already.
    Installed { release: Release<T>, configured_missing: bool },
    /// Making the directory for the binary.
    MakingDirectory { release: Release<T>, configured_missing: bool, retry: bool },
    /// The download.
    Downloading { release: Release<T>, configured_missing: bool, retry: bool },
    /// Reading the binary, to check it.
    Checking { release: Release<T>, configured_missing: bool, retry: bool },
    /// Removing a binary with another checksum, to download it once more.
    Replacing { release: Release<T>, configured_missing: bool },
    /// Removing a binary with another checksum for good.
    Rejecting { error: T },
    /// Making the binary executable.
    Enabling { release: Release<T> },
    /// Nothing more.
    Finished,
}

/// What the host is asked to do next.
#[derive(Debug, PartialEq, Eq)]
pub enum Action<T> {
    /// Tell whether there is a regular file at the path.
    IsFile(T),
    /// Look a program up on the `PATH` of the worktree.
    Which(T),
    /// Make a directory and its parents; a failure shows in what follows.
    CreateDirectory(T),
    /// Download a file, uncompressed.
    Download { url: T, path: T },
    /// Read a file.
    Read(T),
    /// Remove a file; a failure shows in what follows.
    Remove(T),
    /// Make a file executable.
    MakeExecutable(T),
    /// Nothing: this is the path of the binary, or why there is none.
    Finish(Result<T, T>),
}

/// What came of an action. `B` is `Vec<u8>`, and `Seq<u8>` in specifications.
#[derive(Debug, PartialEq, Eq)]
pub enum Event<T, B> {
    /// Whether there is a regular file.
    IsFile(bool),
    /// Where the program was found.
    Which(Option<T>),
    /// The making of the directory was tried.
    DirectoryCreated,
    /// Whether the download succeeded.
    Downloaded(Result<(), T>),
    /// What the file holds.
    Read(Result<B, T>),
    /// The removal was tried.
    Removed,
    /// Whether the file was made executable.
    MadeExecutable(Result<(), T>),
}

impl View for Request<String> {
    type V = Request<Seq<char>>;

    open spec fn view(&self) -> Request<Seq<char>> {
        Request {
            configured_path: optional(self.configured_path),
            root_path: self.root_path@,
            pin_toml: self.pin_toml@,
            os: self.os,
            arch: self.arch,
        }
    }
}

impl View for Resolution<String> {
    type V = Resolution<Seq<char>>;

    open spec fn view(&self) -> Resolution<Seq<char>> {
        match *self {
            Resolution::Cached { path, request } => Resolution::Cached {
                path: path@,
                request: request@,
            },
            Resolution::OnPath { request } => Resolution::OnPath { request: request@ },
            Resolution::Configured { path, request } => Resolution::Configured {
                path: path@,
                request: request@,
            },
            Resolution::Installed { release, configured_missing } => Resolution::Installed {
                release: release@,
                configured_missing,
            },
            Resolution::MakingDirectory { release, configured_missing, retry } => {
                Resolution::MakingDirectory { release: release@, configured_missing, retry }
            },
            Resolution::Downloading { release, configured_missing, retry } => {
                Resolution::Downloading { release: release@, configured_missing, retry }
            },
            Resolution::Checking { release, configured_missing, retry } => Resolution::Checking {
                release: release@,
                configured_missing,
                retry,
            },
            Resolution::Replacing { release, configured_missing } => Resolution::Replacing {
                release: release@,
                configured_missing,
            },
            Resolution::Rejecting { error } => Resolution::Rejecting { error: error@ },
            Resolution::Enabling { release } => Resolution::Enabling { release: release@ },
            Resolution::Finished => Resolution::Finished,
        }
    }
}

impl View for Action<String> {
    type V = Action<Seq<char>>;

    open spec fn view(&self) -> Action<Seq<char>> {
        match *self {
            Action::IsFile(path) => Action::IsFile(path@),
            Action::Which(program) => Action::Which(program@),
            Action::CreateDirectory(path) => Action::CreateDirectory(path@),
            Action::Download { url, path } => Action::Download { url: url@, path: path@ },
            Action::Read(path) => Action::Read(path@),
            Action::Remove(path) => Action::Remove(path@),
            Action::MakeExecutable(path) => Action::MakeExecutable(path@),
            Action::Finish(result) => Action::Finish(outcome(result)),
        }
    }
}

/// What came of an attempt, with its error as text.
pub open spec fn attempt(result: Result<(), String>) -> Result<(), Seq<char>> {
    match result {
        Ok(done) => Ok(done),
        Err(error) => Err(error@),
    }
}

impl View for Event<String, Vec<u8>> {
    type V = Event<Seq<char>, Seq<u8>>;

    open spec fn view(&self) -> Event<Seq<char>, Seq<u8>> {
        match *self {
            Event::IsFile(found) => Event::IsFile(found),
            Event::Which(path) => Event::Which(optional(path)),
            Event::DirectoryCreated => Event::DirectoryCreated,
            Event::Downloaded(result) => Event::Downloaded(attempt(result)),
            Event::Read(Ok(bytes)) => Event::Read(Ok(bytes@)),
            Event::Read(Err(error)) => Event::Read(Err(error@)),
            Event::Removed => Event::Removed,
            Event::MadeExecutable(result) => Event::MadeExecutable(attempt(result)),
        }
    }
}

/// A resolution and the action that it waits for, as the specifications see them.
pub type Step = (Resolution<Seq<char>>, Action<Seq<char>>);

/// Whether the event is what comes of the action that the resolution waits for.
pub open spec fn expected(
    resolution: Resolution<Seq<char>>,
    event: Event<Seq<char>, Seq<u8>>,
) -> bool {
    match resolution {
        Resolution::Cached { .. } => event is IsFile,
        Resolution::OnPath { .. } => event is Which,
        Resolution::Configured { .. } => event is IsFile,
        Resolution::Installed { .. } => event is IsFile,
        Resolution::MakingDirectory { .. } => event is DirectoryCreated,
        Resolution::Downloading { .. } => event is Downloaded,
        Resolution::Checking { .. } => event is Read,
        Resolution::Replacing { .. } => event is Removed,
        Resolution::Rejecting { .. } => event is Removed,
        Resolution::Enabling { .. } => event is MadeExecutable,
        Resolution::Finished => false,
    }
}

/// The end of a resolution.
pub open spec fn finish(result: Result<Seq<char>, Seq<char>>) -> Step {
    (Resolution::Finished, Action::Finish(result))
}

/// The lookup on the `PATH`.
pub open spec fn look_up(request: Request<Seq<char>>) -> Step {
    (Resolution::OnPath { request }, Action::Which("tusk-php"@))
}

/// The first step: the binary found last time, if there is one, else the lookup on
/// the `PATH`.
pub open spec fn first_step(cached: Option<Seq<char>>, request: Request<Seq<char>>) -> Step {
    match cached {
        Some(path) => (Resolution::Cached { path, request }, Action::IsFile(path)),
        None => look_up(request),
    }
}

/// The step to the pinned release.
pub open spec fn release_step(request: Request<Seq<char>>, configured_missing: bool) -> Step {
    match pinned_release(request.pin_toml, request.os, request.arch) {
        Ok(release) => (
            Resolution::Installed { release, configured_missing },
            Action::IsFile(release.binary_path),
        ),
        Err(message) => finish(Err(message)),
    }
}

/// The step to the configured binary, seen from the root of the worktree, or to the
/// pinned release if none is configured.
pub open spec fn configured_step(request: Request<Seq<char>>) -> Step {
    match request.configured_path {
        Some(raw) => {
            let path = join_path(request.root_path, raw);
            (Resolution::Configured { path, request }, Action::IsFile(path))
        },
        None => release_step(request, false),
    }
}

/// The step to a download.
pub open spec fn download_step(
    release: Release<Seq<char>>,
    configured_missing: bool,
    retry: bool,
) -> Step {
    (
        Resolution::MakingDirectory { release, configured_missing, retry },
        Action::CreateDirectory(release.directory),
    )
}

/// The step to the check of a binary.
pub open spec fn check_step(
    release: Release<Seq<char>>,
    configured_missing: bool,
    retry: bool,
) -> Step {
    (
        Resolution::Checking { release, configured_missing, retry },
        Action::Read(release.binary_path),
    )
}

/// Why there is no binary when the first download failed.
pub open spec fn download_error(configured_missing: bool, error: Seq<char>) -> Seq<char> {
    if configured_missing {
        "tusk-php language server not found: not on PATH, configured binary.path does not exist on the target host, and the release download failed ("@
            + error
            + "). Install tusk-php on the remote PATH or unset/correct lsp.tusk-php.binary.path."@
    } else {
        "tusk-php language server not found: not on PATH and the release download failed ("@ + error
            + "). Install tusk-php manually or ensure network access to GitHub releases."@
    }
}

/// Why there is no binary when the second one has another checksum, too.
pub open spec fn mismatch_error(release: Release<Seq<char>>, actual: Seq<char>) -> Seq<char> {
    "checksum mismatch for downloaded tusk-php "@ + release.version + " ("@ + release.platform_arch
        + "): expected "@ + release.expected_sha + ", got "@ + actual
}

/// The step once the checksum of the binary is known: a binary with the stated
/// checksum is made executable, another one is removed.
pub open spec fn checked_step(
    release: Release<Seq<char>>,
    configured_missing: bool,
    retry: bool,
    actual: Seq<char>,
) -> Step {
    if same_ignoring_case(actual, release.expected_sha) {
        (Resolution::Enabling { release }, Action::MakeExecutable(release.binary_path))
    } else if retry {
        (
            Resolution::Rejecting { error: mismatch_error(release, actual) },
            Action::Remove(release.binary_path),
        )
    } else {
        (
            Resolution::Replacing { release, configured_missing },
            Action::Remove(release.binary_path),
        )
    }
}

/// Why there is no binary when it could not be read.
pub open spec fn read_error(
    release: Release<Seq<char>>,
    retry: bool,
    error: Seq<char>,
) -> Seq<char> {
    "failed to read "@ + release.binary_path + (if retry {
        " after re-download: "@
    } else {
        ": "@
    }) + error
}

/// The step after an event that the resolution expects.
pub open spec fn next_step(
    resolution: Resolution<Seq<char>>,
    event: Event<Seq<char>, Seq<u8>>,
) -> Step {
    match (resolution, event) {
        (Resolution::Cached { path, request }, Event::IsFile(found)) => if found {
            finish(Ok(path))
        } else {
            look_up(request)
        },
        (Resolution::OnPath { request }, Event::Which(Some(path))) => finish(Ok(path)),
        (Resolution::OnPath { request }, Event::Which(None)) => configured_step(request),
        (Resolution::Configured { path, request }, Event::IsFile(found)) => if found {
            finish(Ok(path))
        } else {
            release_step(request, true)
        },
        (Resolution::Installed { release, configured_missing }, Event::IsFile(found)) => if found {
            check_step(release, configured_missing, false)
        } else {
            download_step(release, configured_missing, false)
        },
        (
            Resolution::MakingDirectory { release, configured_missing, retry },
            Event::DirectoryCreated,
        ) => (
            Resolution::Downloading { release, configured_missing, retry },
            Action::Download { url: release.url, path: release.binary_path },
        ),
        (
            Resolution::Downloading { release, configured_missing, retry },
            Event::Downloaded(Ok(_)),
        ) => check_step(release, configured_missing, retry),
        (
            Resolution::Downloading { release, configured_missing, retry },
            Event::Downloaded(Err(error)),
        ) => if retry {
            finish(Err("re-download after checksum mismatch failed: "@ + error))
        } else {
            finish(Err(download_error(configured_missing, error)))
        },
        (Resolution::Checking { release, configured_missing, retry }, Event::Read(Ok(bytes))) => {
            checked_step(release, configured_missing, retry, checksum(bytes))
        },
        (Resolution::Checking { release, configured_missing, retry }, Event::Read(Err(error))) => {
            finish(Err(read_error(release, retry, error)))
        },
        (Resolution::Replacing { release, configured_missing }, Event::Removed) => {
            download_step(release, configured_missing, true)
        },
        (Resolution::Rejecting { error }, Event::Removed) => finish(Err(error)),
        (Resolution::Enabling { release }, Event::MadeExecutable(Ok(_))) => finish(
            Ok(release.binary_path),
        ),
        (Resolution::Enabling { release }, Event::MadeExecutable(Err(error))) => finish(Err(error)),
        _ => arbitrary(),
    }
}

/// The path that is remembered after a step, where `cached` was before it.
pub open spec fn remembered(cached: Option<Seq<char>>, step: Step) -> Option<Seq<char>> {
    match step.1 {
        Action::Finish(Ok(path)) => Some(path),
        _ => cached,
    }
}

/// What a step of a resolution stands for.
pub open spec fn step_of(step: (Resolution<String>, Action<String>)) -> Step {
    (step.0@, step.1@)
}

/// The end of a resolution.
fn finished(result: Result<String, String>) -> (step: (Resolution<String>, Action<String>))
    ensures
        step_of(step) == finish(outcome(result)),
{
    (Resolution::Finished, Action::Finish(result))
}

/// The lookup on the `PATH`.
fn start_lookup(request: Request<String>) -> (step: (Resolution<String>, Action<String>))
    ensures
        step_of(step) == look_up(request@),
{
    (Resolution::OnPath { request }, Action::Which("tusk-php".to_owned()))
}

/// The step to the pinned release.
fn start_release(request: &Request<String>, configured_missing: bool) -> (step: (
    Resolution<String>,
    Action<String>,
))
    ensures
        step_of(step) == release_step(request@, configured_missing),
{
    match release_from_pin(request.pin_toml.as_str(), request.os, request.arch) {
        Ok(release) => {
            let path = release.binary_path.clone();
            (Resolution::Installed { release, configured_missing }, Action::IsFile(path))
        },
        Err(message) => finished(Err(message)),
    }
}

/// The step to the configured binary, or to the pinned release if none is configured.
fn start_configured(request: Request<String>) -> (step: (Resolution<String>, Action<String>))
    ensures
        step_of(step) == configured_step(request@),
{
    let path = match &request.configured_path {
        Some(raw) => joined(request.root_path.as_str(), raw.as_str()),
        None => {
            return start_release(&request, false);
        },
    };
    let file = path.clone();
    (Resolution::Configured { path, request }, Action::IsFile(file))
}

/// The step to a download.
fn start_download(release: Release<String>, configured_missing: bool, retry: bool) -> (step: (
    Resolution<String>,
    Action<String>,
))
    ensures
        step_of(step) == download_step(release@, configured_missing, retry),
{
    let directory = release.directory.clone();
    (
        Resolution::MakingDirectory { release, configured_missing, retry },
        Action::CreateDirectory(directory),
    )
}

/// The step to the check of a binary.
fn start_check(release: Release<String>, configured_missing: bool, retry: bool) -> (step: (
    Resolution<String>,
    Action<String>,
))
    ensures
        step_of(step) == check_step(release@, configured_missing, retry),
{
    let path = release.binary_path.clone();
    (Resolution::Checking { release, configured_missing, retry }, Action::Read(path))
}

/// Why there is no binary when the first download failed.
fn download_message(configured_missing: bool, error: &str) -> (message: String)
    ensures
        message@ == download_error(configured_missing, error@),
{
    if configured_missing {
        let mut message =
            "tusk-php language server not found: not on PATH, configured binary.path does not exist on the target host, and the release download failed (".to_owned();
        message.append(error);
        message.append(
            "). Install tusk-php on the remote PATH or unset/correct lsp.tusk-php.binary.path.",
        );
        message
    } else {
        let mut message =
            "tusk-php language server not found: not on PATH and the release download failed (".to_owned();
        message.append(error);
        message.append(
            "). Install tusk-php manually or ensure network access to GitHub releases.",
        );
        message
    }
}

/// Why there is no binary when the second one has another checksum, too.
fn mismatch_message(release: &Release<String>, actual: &str) -> (message: String)
    ensures
        message@ == mismatch_error(release@, actual@),
{
    let mut message = "checksum mismatch for downloaded tusk-php ".to_owned();
    message.append(release.version.as_str());
    message.append(" (");
    message.append(release.platform_arch.as_str());
    message.append("): expected ");
    message.append(release.expected_sha.as_str());
    message.append(", got ");
    message.append(actual);
    message
}

/// Why there is no binary when it could not be read.
fn read_message(release: &Release<String>, retry: bool, error: &str) -> (message: String)
    ensures
        message@ == read_error(release@, retry, error@),
{
    let mut message = "failed to read ".to_owned();
    message.append(release.binary_path.as_str());
    message.append(
        if retry {
            " after re-download: "
        } else {
            ": "
        },
    );
    message.append(error);
    message
}

/// The step once the checksum of the binary is known.
pub fn checked(
    release: Release<String>,
    configured_missing: bool,
    retry: bool,
    actual_sha: &str,
) -> (step: (Resolution<String>, Action<String>))
    ensures
        step_of(step) == checked_step(release@, configured_missing, retry, actual_sha@),
{
    let path = release.binary_path.clone();
    if eq_ignoring_case(actual_sha, release.expected_sha.as_str()) {
        (Resolution::Enabling { release }, Action::MakeExecutable(path))
    } else if retry {
        let error = mismatch_message(&release, actual_sha);
        (Resolution::Rejecting { error }, Action::Remove(path))
    } else {
        (Resolution::Replacing { release, configured_missing }, Action::Remove(path))
    }
}

/// Tells whether the event is what comes of the action that the resolution waits for.
pub fn expects(resolution: &Resolution<String>, event: &Event<String, Vec<u8>>) -> (result: bool)
    ensures
        result == expected(resolution@, event@),
{
    match (resolution, event) {
        (Resolution::Cached { .. }, Event::IsFile(_)) => true,
        (Resolution::OnPath { .. }, Event::Which(_)) => true,
        (Resolution::Configured { .. }, Event::IsFile(_)) => true,
        (Resolution::Installed { .. }, Event::IsFile(_)) => true,
        (Resolution::MakingDirectory { .. }, Event::DirectoryCreated) => true,
        (Resolution::Downloading { .. }, Event::Downloaded(_)) => true,
        (Resolution::Checking { .. }, Event::Read(_)) => true,
        (Resolution::Replacing { .. }, Event::Removed) => true,
        (Resolution::Rejecting { .. }, Event::Removed) => true,
        (Resolution::Enabling { .. }, Event::MadeExecutable(_)) => true,
        _ => false,
    }
}

/// The step after an event.
fn step_after(resolution: Resolution<String>, event: Event<String, Vec<u8>>) -> (step: (
    Resolution<String>,
    Action<String>,
))
    requires
        expected(resolution@, event@),
    ensures
        step_of(step) == next_step(resolution@, event@),
{
    match (resolution, event) {
        (Resolution::Cached { path, request }, Event::IsFile(found)) => if found {
            finished(Ok(path))
        } else {
            start_lookup(request)
        },
        (Resolution::OnPath { request }, Event::Which(found)) => match found {
            Some(path) => finished(Ok(path)),
            None => start_configured(request),
        },
        (Resolution::Configured { path, request }, Event::IsFile(found)) => if found {
            finished(Ok(path))
        } else {
            start_release(&request, true)
        },
        (Resolution::Installed { release, configured_missing }, Event::IsFile(found)) => if found {
            start_check(release, configured_missing, false)
        } else {
            start_download(release, configured_missing, false)
        },
        (
            Resolution::MakingDirectory { release, configured_missing, retry },
            Event::DirectoryCreated,
        ) => {
            let url = release.url.clone();
            let path = release.binary_path.clone();
            (
                Resolution::Downloading { release, configured_missing, retry },
                Action::Download { url, path },
            )
        },
        (
            Resolution::Downloading { release, configured_missing, retry },
            Event::Downloaded(result),
        ) => match result {
            Ok(_) => start_check(release, configured_missing, retry),
            Err(error) => if retry {
                let mut message = "re-download after checksum mismatch failed: ".to_owned();
                message.append(error.as_str());
                finished(Err(message))
            } else {
                finished(Err(download_message(configured_missing, error.as_str())))
            },
        },
        (Resolution::Checking { release, configured_missing, retry }, Event::Read(result)) => {
            match result {
                Ok(bytes) => {
                    let actual_sha = sha256_hex(bytes.as_slice());
                    checked(release, configured_missing, retry, actual_sha.as_str())
                },
                Err(error) => finished(Err(read_message(&release, retry, error.as_str()))),
            }
        },
        (Resolution::Replacing { release, configured_missing }, Event::Removed) => {
            start_download(release, configured_missing, true)
        },
        (Resolution::Rejecting { error }, Event::Removed) => finished(Err(error)),
        (Resolution::Enabling { release }, Event::MadeExecutable(result)) => match result {
            Ok(_) => finished(Ok(release.binary_path)),
            Err(error) => finished(Err(error)),
        },
        _ => vstd::pervasive::unreached(),
    }
}

impl PhpLspExtension {
    /// Starts to look for the language server binary.
    pub fn language_server_binary_path(&self, request: Request<String>) -> (step: (
        Resolution<String>,
        Action<String>,
    ))
        ensures
            step_of(step) == first_step(optional(self.cached_binary_path), request@),
    {
        match &self.cached_binary_path {
            Some(path) => (
                Resolution::Cached { path: path.clone(), request },
                Action::IsFile(path.clone()),
            ),
            None => start_lookup(request),
        }
    }

    /// Goes on with what came of the last action. A path that the resolution finishes
    /// with is remembered.
    pub fn advance(
        &mut self,
        resolution: Resolution<String>,
        event: Event<String, Vec<u8>>,
    ) -> (step: (Resolution<String>, Action<String>))
        requires
            expected(resolution@, event@),
        ensures
            step_of(step) == next_step(resolution@, event@),
            optional(final(self).cached_binary_path) == remembered(
                optional(old(self).cached_binary_path),
                step_of(step),
            ),
    {
        let step = step_after(resolution, event);
        match &step.1 {
            Action::Finish(Ok(path)) => {
                self.cached_binary_path = Some(path.clone());
            },
            _ => {},
        }
        step
    }
}

} // verus!
