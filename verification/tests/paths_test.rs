use cmd2ai::paths::{canonicalize_within_base_dir, is_option_like, safe_resolve_path};
use tempfile::TempDir;

#[test]
fn test_is_option_like() {
    assert!(is_option_like("-a"));
    assert!(is_option_like("--help"));
    assert!(is_option_like("-"));
    assert!(!is_option_like("path"));
    assert!(!is_option_like("file.txt"));
    assert!(!is_option_like(""));
}

#[test]
fn test_safe_resolve_path_within_base() {
    let temp_dir = TempDir::new().unwrap();
    let base_dir = temp_dir.path().to_str().unwrap().to_string();

    let file = tempfile::Builder::new()
        .prefix("test")
        .suffix(".txt")
        .tempfile_in(temp_dir.path())
        .unwrap();
    let name = file.path().file_name().unwrap().to_str().unwrap().to_string();

    let resolved = safe_resolve_path(&name, &base_dir).unwrap();
    assert_eq!(
        resolved,
        file.path().canonicalize().unwrap().to_str().unwrap().to_string()
    );
}

#[test]
fn test_safe_resolve_path_rejects_traversal() {
    let temp_dir = TempDir::new().unwrap();
    let base_dir = temp_dir.path().to_str().unwrap().to_string();

    let result = safe_resolve_path("../../../etc/passwd", &base_dir);
    assert!(result.is_err());
    let err_msg = result.unwrap_err();
    assert!(
        err_msg.contains("Path traversal detected")
            || err_msg.contains("Failed to resolve path")
            || err_msg.contains("escapes base directory")
    );
}

#[test]
fn test_safe_resolve_path_rejects_absolute() {
    let temp_dir = TempDir::new().unwrap();
    let base_dir = temp_dir.path().to_str().unwrap().to_string();

    let result = safe_resolve_path("/etc/passwd", &base_dir);
    assert!(result.is_err());
}

#[test]
fn test_safe_resolve_path_rejects_empty() {
    let temp_dir = TempDir::new().unwrap();
    let base_dir = temp_dir.path().to_str().unwrap().to_string();

    let result = safe_resolve_path("", &base_dir);
    assert!(result.is_err());
    assert!(result.unwrap_err().contains("non-empty"));
}

#[test]
fn test_safe_resolve_path_rejects_oversized() {
    let temp_dir = TempDir::new().unwrap();
    let base_dir = temp_dir.path().to_str().unwrap().to_string();

    let long = "a".repeat(5000);
    let result = safe_resolve_path(&long, &base_dir);
    assert!(result.is_err());
    assert!(result.unwrap_err().contains("under 4096"));
}

#[test]
fn test_canonicalize_within_base_dir() {
    let temp_dir = TempDir::new().unwrap();
    let base_dir = temp_dir.path().to_str().unwrap().to_string();

    let file = tempfile::Builder::new()
        .prefix("test")
        .suffix(".txt")
        .tempfile_in(temp_dir.path())
        .unwrap();
    let name = file.path().file_name().unwrap().to_str().unwrap().to_string();

    let canonical = canonicalize_within_base_dir(&name, &base_dir).unwrap();
    assert!(canonical.starts_with('/'));
    assert!(canonical.contains(&name));
}

#[test]
fn test_resolve_dot_within_base_stays_inside() {
    let temp_dir = TempDir::new().unwrap();
    let base_dir = temp_dir.path().to_str().unwrap().to_string();

    let resolved = safe_resolve_path(".", &base_dir).unwrap();
    let canonical_base = temp_dir
        .path()
        .canonicalize()
        .unwrap()
        .to_str()
        .unwrap()
        .to_string();
    assert_eq!(resolved, canonical_base);
}
