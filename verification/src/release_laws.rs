//! What holds of every release, told by the texts that it is made of.

use vstd::prelude::*;

use crate::pin::{checksum_of, version_of};
use crate::release::{
    executable_suffix, pinned_release, platform_arch, release_outcome, release_with, Architecture,
    Os, Release,
};
use crate::text::lowered;

verus! {

/// Whether a release has the given version and checksum, is for the given platform, and is
/// the file `asset` on the release page, put in place as `binary`.
pub open spec fn describes(
    release: Release<Seq<char>>,
    version: Seq<char>,
    sha: Seq<char>,
    platform: Seq<char>,
    asset: Seq<char>,
    binary: Seq<char>,
) -> bool {
    &&& release.version == version
    &&& release.expected_sha == sha
    &&& release.platform_arch == platform
    &&& release.url == "https://github.com/Tusk-PHP/lsp/releases/download/"@ + version + "/"@
        + asset
    &&& release.directory == "tusk-php-"@ + version
    &&& release.binary_path == "tusk-php-"@ + version + "/"@ + binary
}

/// The release for each platform, for every version and checksum: the file of a platform
/// is named after it, and ends in `.exe` on Windows alone, as the binary does.
pub proof fn law_release_of_each_platform(version: Seq<char>, sha: Seq<char>)
    ensures
        release_with(Os::Mac, Architecture::Aarch64, version, Some(sha)) matches Ok(release) && describes(
            release,
            version,
            sha,
            "darwin-arm64"@,
            "tusk-php-darwin-arm64"@,
            "tusk-php"@,
        ),
        release_with(Os::Mac, Architecture::X8664, version, Some(sha)) matches Ok(release) && describes(
            release,
            version,
            sha,
            "darwin-amd64"@,
            "tusk-php-darwin-amd64"@,
            "tusk-php"@,
        ),
        release_with(Os::Linux, Architecture::Aarch64, version, Some(sha)) matches Ok(release) && describes(
            release,
            version,
            sha,
            "linux-arm64"@,
            "tusk-php-linux-arm64"@,
            "tusk-php"@,
        ),
        release_with(Os::Linux, Architecture::X8664, version, Some(sha)) matches Ok(release) && describes(
            release,
            version,
            sha,
            "linux-amd64"@,
            "tusk-php-linux-amd64"@,
            "tusk-php"@,
        ),
        release_with(Os::Windows, Architecture::Aarch64, version, Some(sha)) matches Ok(release) && describes(
            release,
            version,
            sha,
            "windows-arm64"@,
            "tusk-php-windows-arm64.exe"@,
            "tusk-php.exe"@,
        ),
        release_with(Os::Windows, Architecture::X8664, version, Some(sha)) matches Ok(release) && describes(
            release,
            version,
            sha,
            "windows-amd64"@,
            "tusk-php-windows-amd64.exe"@,
            "tusk-php.exe"@,
        ),
{
    reveal_strlit("/");
    reveal_strlit("-");
    reveal_strlit("");
    reveal_strlit(".exe");
    reveal_strlit("/tusk-php");
    reveal_strlit("/tusk-php-");
    reveal_strlit("tusk-php");
    reveal_strlit("tusk-php.exe");
    reveal_strlit("darwin");
    reveal_strlit("linux");
    reveal_strlit("windows");
    reveal_strlit("arm64");
    reveal_strlit("amd64");
    reveal_strlit("darwin-arm64");
    reveal_strlit("tusk-php-darwin-arm64");
    lemma_described(
        Os::Mac,
        Architecture::Aarch64,
        version,
        sha,
        "darwin-arm64"@,
        "tusk-php-darwin-arm64"@,
        "tusk-php"@,
        ""@,
    );
    reveal_strlit("darwin-amd64");
    reveal_strlit("tusk-php-darwin-amd64");
    lemma_described(
        Os::Mac,
        Architecture::X8664,
        version,
        sha,
        "darwin-amd64"@,
        "tusk-php-darwin-amd64"@,
        "tusk-php"@,
        ""@,
    );
    reveal_strlit("linux-arm64");
    reveal_strlit("tusk-php-linux-arm64");
    lemma_described(
        Os::Linux,
        Architecture::Aarch64,
        version,
        sha,
        "linux-arm64"@,
        "tusk-php-linux-arm64"@,
        "tusk-php"@,
        ""@,
    );
    reveal_strlit("linux-amd64");
    reveal_strlit("tusk-php-linux-amd64");
    lemma_described(
        Os::Linux,
        Architecture::X8664,
        version,
        sha,
        "linux-amd64"@,
        "tusk-php-linux-amd64"@,
        "tusk-php"@,
        ""@,
    );
    reveal_strlit("windows-arm64");
    reveal_strlit("tusk-php-windows-arm64.exe");
    lemma_described(
        Os::Windows,
        Architecture::Aarch64,
        version,
        sha,
        "windows-arm64"@,
        "tusk-php-windows-arm64.exe"@,
        "tusk-php.exe"@,
        ".exe"@,
    );
    reveal_strlit("windows-amd64");
    reveal_strlit("tusk-php-windows-amd64.exe");
    lemma_described(
        Os::Windows,
        Architecture::X8664,
        version,
        sha,
        "windows-amd64"@,
        "tusk-php-windows-amd64.exe"@,
        "tusk-php.exe"@,
        ".exe"@,
    );
}

/// A release is put together from its texts.
proof fn lemma_described(
    os: Os,
    arch: Architecture,
    version: Seq<char>,
    sha: Seq<char>,
    platform: Seq<char>,
    asset: Seq<char>,
    binary: Seq<char>,
    ending: Seq<char>,
)
    requires
        platform_arch(os, arch) matches Some(name) && name =~= platform,
        executable_suffix(os) == ending,
        "/tusk-php-"@ + platform + ending =~= "/"@ + asset,
        "/tusk-php"@ + ending =~= "/"@ + binary,
    ensures
        release_with(os, arch, version, Some(sha)) matches Ok(release) && describes(
            release,
            version,
            sha,
            platform,
            asset,
            binary,
        ),
{
    let release = release_with(os, arch, version, Some(sha))->Ok_0;
    let page = "https://github.com/Tusk-PHP/lsp/releases/download/"@ + version;
    assert(page + "/tusk-php-"@ + platform + ending =~= page + ("/tusk-php-"@ + platform + ending));
    assert(page + ("/"@ + asset) =~= page + "/"@ + asset);
    let place = "tusk-php-"@ + version;
    assert(place + "/tusk-php"@ + ending =~= place + ("/tusk-php"@ + ending));
    assert(place + ("/"@ + binary) =~= place + "/"@ + binary);
}

/// There is no release for x86, and none for a platform without a checksum; the message
/// names the platform.
pub proof fn law_no_release(os: Os, version: Seq<char>, sha: Option<Seq<char>>)
    ensures
        release_with(os, Architecture::X86, version, sha) == Err::<Release<Seq<char>>, Seq<char>>(
            "Unsupported arch"@,
        ),
        release_with(Os::Mac, Architecture::Aarch64, version, None) == Err::<
            Release<Seq<char>>,
            Seq<char>,
        >("no pinned checksum for darwin-arm64 in tusk-lsp.toml"@),
        release_with(Os::Mac, Architecture::X8664, version, None) == Err::<
            Release<Seq<char>>,
            Seq<char>,
        >("no pinned checksum for darwin-amd64 in tusk-lsp.toml"@),
        release_with(Os::Linux, Architecture::Aarch64, version, None) == Err::<
            Release<Seq<char>>,
            Seq<char>,
        >("no pinned checksum for linux-arm64 in tusk-lsp.toml"@),
        release_with(Os::Linux, Architecture::X8664, version, None) == Err::<
            Release<Seq<char>>,
            Seq<char>,
        >("no pinned checksum for linux-amd64 in tusk-lsp.toml"@),
        release_with(Os::Windows, Architecture::Aarch64, version, None) == Err::<
            Release<Seq<char>>,
            Seq<char>,
        >("no pinned checksum for windows-arm64 in tusk-lsp.toml"@),
        release_with(Os::Windows, Architecture::X8664, version, None) == Err::<
            Release<Seq<char>>,
            Seq<char>,
        >("no pinned checksum for windows-amd64 in tusk-lsp.toml"@),
{
    reveal_strlit("-");
    reveal_strlit("darwin");
    reveal_strlit("linux");
    reveal_strlit("windows");
    reveal_strlit("arm64");
    reveal_strlit("amd64");
    reveal_strlit("no pinned checksum for ");
    reveal_strlit(" in tusk-lsp.toml");
    reveal_strlit("no pinned checksum for darwin-arm64 in tusk-lsp.toml");
    assert(release_with(Os::Mac, Architecture::Aarch64, version, None)->Err_0
        =~= "no pinned checksum for darwin-arm64 in tusk-lsp.toml"@);
    reveal_strlit("no pinned checksum for darwin-amd64 in tusk-lsp.toml");
    assert(release_with(Os::Mac, Architecture::X8664, version, None)->Err_0
        =~= "no pinned checksum for darwin-amd64 in tusk-lsp.toml"@);
    reveal_strlit("no pinned checksum for linux-arm64 in tusk-lsp.toml");
    assert(release_with(Os::Linux, Architecture::Aarch64, version, None)->Err_0
        =~= "no pinned checksum for linux-arm64 in tusk-lsp.toml"@);
    reveal_strlit("no pinned checksum for linux-amd64 in tusk-lsp.toml");
    assert(release_with(Os::Linux, Architecture::X8664, version, None)->Err_0
        =~= "no pinned checksum for linux-amd64 in tusk-lsp.toml"@);
    reveal_strlit("no pinned checksum for windows-arm64 in tusk-lsp.toml");
    assert(release_with(Os::Windows, Architecture::Aarch64, version, None)->Err_0
        =~= "no pinned checksum for windows-arm64 in tusk-lsp.toml"@);
    reveal_strlit("no pinned checksum for windows-amd64 in tusk-lsp.toml");
    assert(release_with(Os::Windows, Architecture::X8664, version, None)->Err_0
        =~= "no pinned checksum for windows-amd64 in tusk-lsp.toml"@);
}

/// The release that a pin file names for a platform is the one with the version and the
/// checksum that it states, in lower case, under the name of the platform; where it states
/// no checksum under that name, there is none.
pub proof fn law_pinned_release(pin: Seq<char>, os: Os)
    ensures
        pinned_release(pin, os, Architecture::X86) == Err::<Release<Seq<char>>, Seq<char>>(
            "Unsupported arch"@,
        ),
        match checksum_of(pin, "darwin-arm64"@) {
            Some(stated) => pinned_release(pin, Os::Mac, Architecture::Aarch64) matches Ok(release)
                && describes(
                release,
                version_of(pin),
                lowered(stated),
                "darwin-arm64"@,
                "tusk-php-darwin-arm64"@,
                "tusk-php"@,
            ),
            None => pinned_release(pin, Os::Mac, Architecture::Aarch64) == Err::<
                Release<Seq<char>>,
                Seq<char>,
            >("no pinned checksum for darwin-arm64 in tusk-lsp.toml"@),
        },
        match checksum_of(pin, "darwin-amd64"@) {
            Some(stated) => pinned_release(pin, Os::Mac, Architecture::X8664) matches Ok(release)
                && describes(
                release,
                version_of(pin),
                lowered(stated),
                "darwin-amd64"@,
                "tusk-php-darwin-amd64"@,
                "tusk-php"@,
            ),
            None => pinned_release(pin, Os::Mac, Architecture::X8664) == Err::<
                Release<Seq<char>>,
                Seq<char>,
            >("no pinned checksum for darwin-amd64 in tusk-lsp.toml"@),
        },
        match checksum_of(pin, "linux-arm64"@) {
            Some(stated) => pinned_release(pin, Os::Linux, Architecture::Aarch64) matches Ok(release)
                && describes(
                release,
                version_of(pin),
                lowered(stated),
                "linux-arm64"@,
                "tusk-php-linux-arm64"@,
                "tusk-php"@,
            ),
            None => pinned_release(pin, Os::Linux, Architecture::Aarch64) == Err::<
                Release<Seq<char>>,
                Seq<char>,
            >("no pinned checksum for linux-arm64 in tusk-lsp.toml"@),
        },
        match checksum_of(pin, "linux-amd64"@) {
            Some(stated) => pinned_release(pin, Os::Linux, Architecture::X8664) matches Ok(release)
                && describes(
                release,
                version_of(pin),
                lowered(stated),
                "linux-amd64"@,
                "tusk-php-linux-amd64"@,
                "tusk-php"@,
            ),
            None => pinned_release(pin, Os::Linux, Architecture::X8664) == Err::<
                Release<Seq<char>>,
                Seq<char>,
            >("no pinned checksum for linux-amd64 in tusk-lsp.toml"@),
        },
        match checksum_of(pin, "windows-arm64"@) {
            Some(stated) => pinned_release(pin, Os::Windows, Architecture::Aarch64) matches Ok(release)
                && describes(
                release,
                version_of(pin),
                lowered(stated),
                "windows-arm64"@,
                "tusk-php-windows-arm64.exe"@,
                "tusk-php.exe"@,
            ),
            None => pinned_release(pin, Os::Windows, Architecture::Aarch64) == Err::<
                Release<Seq<char>>,
                Seq<char>,
            >("no pinned checksum for windows-arm64 in tusk-lsp.toml"@),
        },
        match checksum_of(pin, "windows-amd64"@) {
            Some(stated) => pinned_release(pin, Os::Windows, Architecture::X8664) matches Ok(release)
                && describes(
                release,
                version_of(pin),
                lowered(stated),
                "windows-amd64"@,
                "tusk-php-windows-amd64.exe"@,
                "tusk-php.exe"@,
            ),
            None => pinned_release(pin, Os::Windows, Architecture::X8664) == Err::<
                Release<Seq<char>>,
                Seq<char>,
            >("no pinned checksum for windows-amd64 in tusk-lsp.toml"@),
        },
{
    let version = version_of(pin);
    law_no_release(os, version, None);
    lemma_pinned(pin, Os::Mac, Architecture::Aarch64, "darwin-arm64"@);
    lemma_pinned(pin, Os::Mac, Architecture::X8664, "darwin-amd64"@);
    lemma_pinned(pin, Os::Linux, Architecture::Aarch64, "linux-arm64"@);
    lemma_pinned(pin, Os::Linux, Architecture::X8664, "linux-amd64"@);
    lemma_pinned(pin, Os::Windows, Architecture::Aarch64, "windows-arm64"@);
    lemma_pinned(pin, Os::Windows, Architecture::X8664, "windows-amd64"@);
}

/// A pinned release is the one with what the pin file states for the platform.
proof fn lemma_pinned(pin: Seq<char>, os: Os, arch: Architecture, platform: Seq<char>)
    requires
        platform == match (os, arch) {
            (Os::Mac, Architecture::Aarch64) => "darwin-arm64"@,
            (Os::Mac, _) => "darwin-amd64"@,
            (Os::Linux, Architecture::Aarch64) => "linux-arm64"@,
            (Os::Linux, _) => "linux-amd64"@,
            (Os::Windows, Architecture::Aarch64) => "windows-arm64"@,
            (Os::Windows, _) => "windows-amd64"@,
        },
        arch != Architecture::X86,
    ensures
        pinned_release(pin, os, arch) == release_with(
            os,
            arch,
            version_of(pin),
            match checksum_of(pin, platform) {
                Some(stated) => Some(lowered(stated)),
                None => None,
            },
        ),
        checksum_of(pin, platform) matches Some(stated) ==> {
            &&& release_with(os, arch, version_of(pin), Some(lowered(stated))) is Ok
            &&& describes(
                release_with(os, arch, version_of(pin), Some(lowered(stated)))->Ok_0,
                version_of(pin),
                lowered(stated),
                platform,
                match (os, arch) {
                    (Os::Mac, Architecture::Aarch64) => "tusk-php-darwin-arm64"@,
                    (Os::Mac, _) => "tusk-php-darwin-amd64"@,
                    (Os::Linux, Architecture::Aarch64) => "tusk-php-linux-arm64"@,
                    (Os::Linux, _) => "tusk-php-linux-amd64"@,
                    (Os::Windows, Architecture::Aarch64) => "tusk-php-windows-arm64.exe"@,
                    (Os::Windows, _) => "tusk-php-windows-amd64.exe"@,
                },
                match os {
                    Os::Windows => "tusk-php.exe"@,
                    _ => "tusk-php"@,
                },
            )
        },
{
    law_release_of_each_platform(version_of(pin), Seq::empty());
    match checksum_of(pin, platform) {
        Some(stated) => {
            law_release_of_each_platform(version_of(pin), lowered(stated));
        },
        None => {},
    }
}

/// What a release with strings holds is what each of its strings holds.
pub proof fn law_release_holds_its_texts(release: Release<String>, message: String)
    ensures
        release_outcome(Ok(release)) == Ok::<_, Seq<char>>(release@),
        release_outcome(Err(message)) == Err::<Release<Seq<char>>, _>(message@),
        release@.version == release.version@,
        release@.platform_arch == release.platform_arch@,
        release@.expected_sha == release.expected_sha@,
        release@.directory == release.directory@,
        release@.binary_path == release.binary_path@,
        release@.url == release.url@,
{
}

} // verus!
