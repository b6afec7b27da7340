//! The release of the language server that the pin file names.

use vstd::prelude::*;

use crate::pin::{checksum_of, pinned_sha, pinned_version, version_of};
use crate::text::{lowered, optional};

verus! {

/// An operating system.
#[derive(Clone, Copy, PartialEq, Eq, Structural, Debug)]
pub enum Os {
    /// macOS.
    Mac,
    /// Linux.
    Linux,
    /// Windows.
    Windows,
}

/// A processor architecture.
#[derive(Clone, Copy, PartialEq, Eq, Structural, Debug)]
pub enum Architecture {
    /// AArch64.
    Aarch64,
    /// x86.
    X86,
    /// x86-64.
    X8664,
}

/// A release of the language server for one platform: where it is found and where
/// it is put. `T` is `String`, and `Seq<char>` in specifications.
#[derive(Debug, PartialEq, Eq)]
pub struct Release<T> {
    /// The version.
    pub version: T,
    /// The platform and the architecture, such as `darwin-arm64`.
    pub platform_arch: T,
    /// The checksum that the pin file states for the binary.
    pub expected_sha: T,
    /// The directory that the binary is put into.
    pub directory: T,
    /// Where the binary is put.
    pub binary_path: T,
    /// Where the binary is downloaded from.
    pub url: T,
}

impl View for Release<String> {
    type V = Release<Seq<char>>;

    open spec fn view(&self) -> Release<Seq<char>> {
        Release {
            version: self.version@,
            platform_arch: self.platform_arch@,
            expected_sha: self.expected_sha@,
            directory: self.directory@,
            binary_path: self.binary_path@,
            url: self.url@,
        }
    }
}

/// What a release, or the reason why there is none, holds.
pub open spec fn release_outcome(result: Result<Release<String>, String>) -> Result<
    Release<Seq<char>>,
    Seq<char>,
> {
    match result {
        Ok(release) => Ok(release@),
        Err(message) => Err(message@),
    }
}

/// How releases name an operating system.
pub open spec fn os_name(os: Os) -> Seq<char> {
    match os {
        Os::Mac => "darwin"@,
        Os::Linux => "linux"@,
        Os::Windows => "windows"@,
    }
}

/// How releases name an architecture. There is no release for x86.
pub open spec fn arch_name(arch: Architecture) -> Option<Seq<char>> {
    match arch {
        Architecture::Aarch64 => Some("arm64"@),
        Architecture::X86 => None,
        Architecture::X8664 => Some("amd64"@),
    }
}

/// The name of a platform and an architecture, such as `darwin-arm64`.
pub open spec fn platform_arch(os: Os, arch: Architecture) -> Option<Seq<char>> {
    match arch_name(arch) {
        Some(name) => Some(os_name(os) + "-"@ + name),
        None => None,
    }
}

/// What ends the name of an executable file.
pub open spec fn executable_suffix(os: Os) -> Seq<char> {
    if os == Os::Windows {
        ".exe"@
    } else {
        ""@
    }
}

/// The release for a platform, given the version and the checksum that the pin file
/// states for it.
pub open spec fn release_with(
    os: Os,
    arch: Architecture,
    version: Seq<char>,
    expected_sha: Option<Seq<char>>,
) -> Result<Release<Seq<char>>, Seq<char>> {
    match (platform_arch(os, arch), expected_sha) {
        (None, _) => Err("Unsupported arch"@),
        (Some(name), None) => Err("no pinned checksum for "@ + name + " in tusk-lsp.toml"@),
        (Some(name), Some(sha)) => Ok(
            Release {
                version,
                platform_arch: name,
                expected_sha: sha,
                directory: "tusk-php-"@ + version,
                binary_path: "tusk-php-"@ + version + "/tusk-php"@ + executable_suffix(os),
                url: "https://github.com/Tusk-PHP/lsp/releases/download/"@ + version + "/tusk-php-"@
                    + name + executable_suffix(os),
            },
        ),
    }
}

/// The checksum that the pin file states for a platform, in lower case.
pub open spec fn expected_checksum(pin: Seq<char>, os: Os, arch: Architecture) -> Option<
    Seq<char>,
> {
    match platform_arch(os, arch) {
        Some(name) => match checksum_of(pin, name) {
            Some(stated) => Some(lowered(stated)),
            None => None,
        },
        None => None,
    }
}

/// The release that the pin file names for a platform.
pub open spec fn pinned_release(pin: Seq<char>, os: Os, arch: Architecture) -> Result<
    Release<Seq<char>>,
    Seq<char>,
> {
    release_with(os, arch, version_of(pin), expected_checksum(pin, os, arch))
}

/// How releases name a platform and an architecture.
pub fn platform_name(os: Os, arch: Architecture) -> (name: Option<String>)
    ensures
        optional(name) == platform_arch(os, arch),
{
    let mut name = match os {
        Os::Mac => "darwin".to_owned(),
        Os::Linux => "linux".to_owned(),
        Os::Windows => "windows".to_owned(),
    };
    name.append("-");
    match arch {
        Architecture::Aarch64 => name.append("arm64"),
        Architecture::X86 => {
            return None;
        },
        Architecture::X8664 => name.append("amd64"),
    }
    Some(name)
}

/// The release for a platform, given the version and the checksum that the pin file
/// states for it.
pub fn describe_release(
    os: Os,
    arch: Architecture,
    version: String,
    expected_sha: Option<String>,
) -> (result: Result<Release<String>, String>)
    ensures
        release_outcome(result) == release_with(os, arch, version@, optional(expected_sha)),
{
    let name = match platform_name(os, arch) {
        Some(name) => name,
        None => {
            return Err("Unsupported arch".to_owned());
        },
    };
    let sha = match expected_sha {
        Some(sha) => sha,
        None => {
            let mut message = "no pinned checksum for ".to_owned();
            message.append(name.as_str());
            message.append(" in tusk-lsp.toml");
            return Err(message);
        },
    };
    let suffix = match os {
        Os::Windows => ".exe",
        _ => "",
    };
    let mut directory = "tusk-php-".to_owned();
    directory.append(version.as_str());
    let mut binary_path = directory.clone();
    binary_path.append("/tusk-php");
    binary_path.append(suffix);
    let mut url = "https://github.com/Tusk-PHP/lsp/releases/download/".to_owned();
    url.append(version.as_str());
    url.append("/tusk-php-");
    url.append(name.as_str());
    url.append(suffix);
    Ok(Release { version, platform_arch: name, expected_sha: sha, directory, binary_path, url })
}

/// The release that the pin file names for a platform.
pub fn release_from_pin(pin_toml: &str, os: Os, arch: Architecture) -> (result: Result<
    Release<String>,
    String,
>)
    ensures
        release_outcome(result) == pinned_release(pin_toml@, os, arch),
{
    let expected_sha = match platform_name(os, arch) {
        Some(name) => pinned_sha(pin_toml, name.as_str()),
        None => None,
    };
    describe_release(os, arch, pinned_version(pin_toml), expected_sha)
}

/// A release is what the pin file says: it has the version that is named there, and there
/// is one exactly if the platform is supported and a checksum is stated for it, which is
/// then the expected one, in lower case.
pub proof fn law_release_is_what_is_pinned(pin: Seq<char>, os: Os, arch: Architecture)
    ensures
        pinned_release(pin, os, arch) is Ok <==> (platform_arch(os, arch) matches Some(name)
            && checksum_of(pin, name) is Some),
        pinned_release(pin, os, arch) matches Ok(release) ==> {
            &&& release.version == version_of(pin)
            &&& platform_arch(os, arch) == Some(release.platform_arch)
            &&& checksum_of(pin, release.platform_arch) matches Some(stated)
            &&& release.expected_sha == lowered(stated)
        },
{
}

} // verus!
