use oxidizr_arch::errors::Error;
use oxidizr_arch::paths::{backup_path, ensure_under_root, is_safe_path, SafePath};

#[test]
fn test_backup_path() {
    let backup = backup_path("/usr/bin/ls");
    assert_eq!(backup, "/usr/bin/.ls.oxidizr.bak");

    let backup2 = backup_path("/usr/sbin/visudo");
    assert_eq!(backup2, "/usr/sbin/.visudo.oxidizr.bak");
}

#[test]
fn test_safe_path_validation() {
    assert!(is_safe_path("/usr/bin/ls"));
    assert!(is_safe_path("relative/path"));
    assert!(!is_safe_path("../etc/passwd"));
    assert!(!is_safe_path("/usr/../etc/shadow"));
    assert!(!is_safe_path("./../../root"));
}

#[test]
fn test_from_rooted_joins_under_root() {
    let sp = SafePath::from_rooted("/tmp/t1", "/usr/bin/ls").unwrap();
    assert_eq!(sp.as_str(), "/tmp/t1/usr/bin/ls");
    assert_eq!(sp.root_str(), "/tmp/t1");

    let rel = SafePath::from_rooted("/tmp/t1", "usr/bin/ls").unwrap();
    assert_eq!(rel.as_str(), "/tmp/t1/usr/bin/ls");
}

#[test]
fn test_from_rooted_normalizes_dots() {
    let sp = SafePath::from_rooted("/tmp/t1", "usr/./bin/../bin/ls").unwrap();
    assert_eq!(sp.as_str(), "/tmp/t1/usr/bin/ls");

    // `..` may climb inside the root's subtree but not out of it.
    let inside = SafePath::from_rooted("/tmp/t1", "a/b/../c").unwrap();
    assert_eq!(inside.as_str(), "/tmp/t1/a/c");
}

#[test]
fn test_from_rooted_rejects_escape() {
    // Root confinement: inputs with `../` either fail with PathEscapesRoot
    // or still resolve under the root.
    match SafePath::from_rooted("/tmp/t1", "../etc/passwd") {
        Err(Error::PathEscapesRoot(p)) => assert_eq!(p, "../etc/passwd"),
        Err(e) => panic!("expected PathEscapesRoot, got {:?}", e),
        Ok(sp) => panic!("expected PathEscapesRoot, resolved to {}", sp.as_str()),
    }
    match SafePath::from_rooted("/tmp/t1", "a/../../escape") {
        Err(Error::PathEscapesRoot(_)) => {}
        Err(e) => panic!("expected PathEscapesRoot, got {:?}", e),
        Ok(sp) => panic!("expected PathEscapesRoot, resolved to {}", sp.as_str()),
    }
    // The escape error carries exit code 1 (a general failure).
    match SafePath::from_rooted("/", "..") {
        Err(e) => assert_eq!(e.exit_code(), 1),
        Ok(sp) => panic!("expected an error, resolved to {}", sp.as_str()),
    }
}

#[test]
fn test_from_rooted_live_root() {
    let sp = SafePath::from_rooted("/", "/usr/bin/ls").unwrap();
    assert_eq!(sp.as_str(), "/usr/bin/ls");
    assert_eq!(sp.root_str(), "/");
}

#[test]
fn test_ensure_under_root() {
    assert_eq!(ensure_under_root("/tmp/t1", "/usr/bin/ls"), "/tmp/t1/usr/bin/ls");
    assert_eq!(ensure_under_root("/tmp/t1", "usr/bin/ls"), "/tmp/t1/usr/bin/ls");
}

#[test]
fn test_backup_path_no_directory() {
    assert_eq!(backup_path("ls"), ".ls.oxidizr.bak");
}
