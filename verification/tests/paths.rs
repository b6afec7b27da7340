use std::path::{Component as StdComponent, Path, PathBuf};

use tusk_php::extension::PhpLspExtension;
use tusk_php::path::{joined, path_components, rendered, starts_with, Component};

const PATHS: [&str; 24] = [
    "",
    ".",
    "..",
    "/",
    "//",
    "a",
    "a/b",
    "a//b/",
    "./a",
    "././a/.",
    "a/./b",
    "a/../b",
    "../a",
    "a/../../b",
    "/a/../../b",
    "/./a",
    "/..",
    ".../..a/.b",
    "/proj",
    "/proj/",
    "/proj/src/A.php",
    "/project/x",
    " a / b ",
    "\u{e9}/\u{4e2d}",
];

fn std_components(path: &str) -> Vec<Component> {
    Path::new(path)
        .components()
        .map(|component| match component {
            StdComponent::RootDir => Component::RootDir,
            StdComponent::CurDir => Component::CurDir,
            StdComponent::ParentDir => Component::ParentDir,
            StdComponent::Normal(name) => Component::Normal(name.to_str().unwrap().to_string()),
            StdComponent::Prefix(_) => unreachable!(),
        })
        .collect()
}

fn std_normalize(path: &Path) -> PathBuf {
    let mut normalized = PathBuf::new();
    for component in path.components() {
        match component {
            StdComponent::CurDir => {}
            StdComponent::ParentDir => {
                normalized.pop();
            }
            other => normalized.push(other.as_os_str()),
        }
    }
    normalized
}

#[test]
fn components_are_those_of_the_standard_library() {
    for path in PATHS {
        assert_eq!(path_components(path), std_components(path), "{:?}", path);
    }
}

#[test]
fn paths_are_joined_as_by_the_standard_library() {
    for base in PATHS {
        for path in PATHS {
            let wanted = PathBuf::from(base).join(path);
            assert_eq!(joined(base, path), wanted.to_str().unwrap());
        }
    }
}

#[test]
fn prefixes_are_those_of_the_standard_library() {
    for base in PATHS {
        for path in PATHS {
            assert_eq!(
                starts_with(&path_components(path), &path_components(base)),
                Path::new(path).starts_with(base),
                "{:?} {:?}",
                path,
                base
            );
        }
    }
}

#[test]
fn dots_are_resolved() {
    assert_eq!(PhpLspExtension::normalize_path("./src/../app/./Models"), "app/Models");
    assert_eq!(PhpLspExtension::normalize_path("../../a"), "a");
    assert_eq!(PhpLspExtension::normalize_path("/../a//b/.."), "/a");
    assert_eq!(PhpLspExtension::normalize_path("a/.."), "");
    for path in PATHS {
        let wanted = std_normalize(Path::new(path));
        assert_eq!(PhpLspExtension::normalize_path(path), wanted.to_str().unwrap(), "{:?}", path);
    }
}

#[test]
fn a_resolved_path_holds_no_dots_and_stays_as_it_is() {
    for path in PATHS {
        let once = PhpLspExtension::normalize_path(path);
        assert_eq!(PhpLspExtension::normalize_path(&once), once);
        assert_eq!(once.starts_with('/'), path.starts_with('/'));
        let list = path_components(&once);
        assert_eq!(rendered(&list), once);
        for component in list {
            assert!(!matches!(component, Component::CurDir | Component::ParentDir));
        }
    }
}

#[test]
fn a_path_is_seen_from_the_root_of_the_worktree() {
    let root = "/home/me/proj";
    let seen = |path: &str| PhpLspExtension::worktree_relative_path(root, path);
    assert_eq!(seen("src/A.php"), Ok("src/A.php".to_string()));
    assert_eq!(seen("./src/../A.php"), Ok("A.php".to_string()));
    assert_eq!(seen("/home/me/proj/src/A.php"), Ok("src/A.php".to_string()));
    assert_eq!(seen("/home/me//proj/./src"), Ok("src".to_string()));
    assert_eq!(seen("/home/me/proj"), Ok("".to_string()));
    let message = "path must be inside /home/me/proj".to_string();
    assert_eq!(seen("/home/me/project/A.php"), Err(message.clone()));
    assert_eq!(seen("/etc/passwd"), Err(message));
}

#[test]
fn relative_paths_are_those_of_the_standard_library() {
    for root in PATHS {
        for path in PATHS {
            let candidate = PathBuf::from(path);
            let wanted = if candidate.is_absolute() {
                match candidate.strip_prefix(root) {
                    Ok(rest) => Ok(rest.to_path_buf()),
                    Err(_) => Err(format!("path must be inside {}", Path::new(root).display())),
                }
            } else {
                Ok(candidate)
            };
            assert_eq!(
                PhpLspExtension::worktree_relative_path(root, path),
                wanted.map(|p| std_normalize(&p).to_str().unwrap().to_string()),
                "{:?} {:?}",
                root,
                path
            );
        }
    }
}

#[test]
fn a_path_in_the_worktree_stays_in_it() {
    let root = "/proj";
    for path in ["../../etc/passwd", "/proj/../../etc/passwd", "a/../../../b"] {
        let inside = PhpLspExtension::worktree_relative_path(root, path).unwrap();
        for component in path_components(&inside) {
            assert!(matches!(component, Component::Normal(_)));
        }
    }
}

#[test]
fn an_absolute_path_leads_to_the_same_file_as_a_relative_one() {
    for root in ["/", "/proj", "/proj/", "/a/./b"] {
        for path in ["src/A.php", "./A.php", "../A.php", "a/../../b", ""] {
            let whole = joined(root, path);
            assert_eq!(
                PhpLspExtension::worktree_relative_path(root, &whole),
                PhpLspExtension::worktree_relative_path(root, path)
            );
        }
    }
}
