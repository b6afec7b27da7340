use tusk_php::pin::{pinned_sha, pinned_version, stated_checksum};

const PIN: &str = "# pinned release\n\n[other]\nversion = \"9.9.9\"\ndarwin-arm64 = \"no\"\n\n[lsp]\n# version = \"0.1.0\"\nversions = \"8.8.8\"\nversion = \"v1.4.2\"\nversion = \"v1.5.0\"\n\n[lsp.sha256]\ndarwin-arm64  = \"sha256:AA2260ff\"\nlinux-amd64 = \" sha256:0b \"\nlinux-arm64=  bb\nwindows-amd64\nversion = \"7.7.7\"\nlinux-amd64 = \"sha256:cc\"\n";

#[test]
fn the_version_comes_from_its_section() {
    assert_eq!(pinned_version(PIN), "v1.4.2");
}

#[test]
fn without_a_version_there_is_a_fallback() {
    assert_eq!(pinned_version(""), "0.0.0");
    assert_eq!(pinned_version("version = \"1.0.0\""), "0.0.0");
    assert_eq!(pinned_version("[lsp.sha256]\nversion = \"1.0.0\""), "0.0.0");
    assert_eq!(pinned_version("[lsp] # pinned\nversion = \"1.0.0\""), "0.0.0");
    assert_eq!(pinned_version("[lsp]\nversion: 1.0.0"), "0.0.0");
}

#[test]
fn a_version_may_be_written_in_several_ways() {
    assert_eq!(pinned_version("[lsp]\r\n  version=1.0.0  \r\n"), "1.0.0");
    assert_eq!(pinned_version("  [lsp]  \nversion\t=\t\"1.0.0\""), "1.0.0");
    assert_eq!(pinned_version("[lsp]\nversion = \"\""), "");
    assert_eq!(pinned_version("[lsp]\nversion = \"\"1.0\"\""), "1.0");
}

#[test]
fn a_checksum_comes_from_its_section_in_lower_case() {
    assert_eq!(pinned_sha(PIN, "darwin-arm64"), Some("aa2260ff".to_string()));
    assert_eq!(stated_checksum(PIN, "darwin-arm64"), Some("AA2260ff".to_string()));
    assert_eq!(pinned_sha(PIN, "linux-arm64"), Some("bb".to_string()));
    assert_eq!(pinned_sha(PIN, "version"), Some("7.7.7".to_string()));
}

#[test]
fn a_prefix_behind_a_space_is_no_prefix() {
    assert_eq!(pinned_sha(PIN, "linux-amd64"), Some("sha256:0b".to_string()));
}

#[test]
fn without_a_checksum_there_is_none() {
    assert_eq!(pinned_sha(PIN, "windows-amd64"), None);
    assert_eq!(pinned_sha(PIN, "linux"), None);
    assert_eq!(pinned_sha("", "linux-amd64"), None);
    assert_eq!(pinned_sha("[lsp]\nlinux-amd64 = \"sha256:aa\"", "linux-amd64"), None);
}

#[test]
fn a_checksum_is_lowered_by_the_rules_of_unicode() {
    let pin = "[lsp.sha256]\nk = \"sha256:\u{c9}A\u{130}\"";
    assert_eq!(pinned_sha(pin, "k"), Some("\u{c9}A\u{130}".to_lowercase()));
    assert_eq!(stated_checksum(pin, "k"), Some("\u{c9}A\u{130}".to_string()));
}

#[test]
fn comments_and_blank_lines_do_not_count() {
    let lines: Vec<&str> = PIN.lines().collect();
    for i in 0..=lines.len() {
        for extra in ["# version = \"x\"", "   ", "  #[lsp]", ""] {
            let mut longer = lines.clone();
            longer.insert(i, extra);
            let text = longer.join("\n");
            assert_eq!(pinned_version(&text), pinned_version(PIN));
            assert_eq!(pinned_sha(&text, "darwin-arm64"), pinned_sha(PIN, "darwin-arm64"));
        }
    }
}

#[test]
fn sections_are_separate() {
    let a = "[lsp]\nversion = \"1\"\n[x]\nversion = \"2\"\n[lsp.sha256]\nk = \"3\"\n";
    let b = "[lsp.sha256]\nk = \"3\"\n[lsp]\nversion = \"1\"\n";
    assert_eq!(pinned_version(a), pinned_version(b));
    assert_eq!(pinned_sha(a, "k"), pinned_sha(b, "k"));
}

#[test]
fn what_is_written_is_read_back() {
    for version in ["1.2.3", "", "v 1", "a\"b"] {
        let text = format!("[lsp]\nversion = \"{}\"\n", version);
        assert_eq!(pinned_version(&text), version);
    }
    for checksum in ["", "00ff", "aa bb", "\"x"] {
        let text = format!("[lsp.sha256]\nlinux-amd64 = \"sha256:{}\"\n", checksum);
        assert_eq!(pinned_sha(&text, "linux-amd64"), Some(checksum.to_string()));
    }
}
