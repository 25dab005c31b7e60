use std::path::PathBuf;

use basecamp_team::{
    artifact_markdown_path, normalize_artifact_tags, resolve_note_path,
    validate_context_relative_path, validate_note_filename,
};

fn strings(values: &[&str]) -> Vec<String> {
    values.iter().map(|v| v.to_string()).collect()
}

#[test]
fn note_filename_validation_and_path_join_are_sandboxed() {
    assert!(validate_note_filename("../escape.md").is_err());
    assert!(validate_note_filename("notes/escape.md").is_err());

    let filename = validate_note_filename("today.md").expect("expected valid markdown filename");
    let workspace = PathBuf::from("/tmp/basecamp-workspace");
    let resolved = resolve_note_path("/tmp/basecamp-workspace", &filename);

    assert_eq!(PathBuf::from(resolved), workspace.join("today.md"));
}

#[test]
fn context_relative_paths_block_traversal_and_allow_nested_files() {
    assert!(validate_context_relative_path("../escape.txt", "path", false).is_err());
    assert!(validate_context_relative_path("/tmp/escape.txt", "path", false).is_err());
    assert!(validate_context_relative_path("nested/../escape.txt", "path", false).is_err());

    let valid = validate_context_relative_path("nested/file.txt", "path", false).expect("path should validate");
    assert_eq!(PathBuf::from(valid), PathBuf::from("nested/file.txt"));
}

#[test]
fn artifact_filename_and_path_join_are_sandboxed() {
    assert!(basecamp_team::validate_artifact_filename("../escape.md").is_err());
    assert!(basecamp_team::validate_artifact_filename("nested/escape.md").is_err());

    let camp_dir = PathBuf::from("/tmp/basecamp-camp");
    let path = artifact_markdown_path("/tmp/basecamp-camp", "artifact-id.md").expect("artifact path should resolve");

    assert_eq!(PathBuf::from(path), camp_dir.join("artifacts").join("artifact-id.md"));
}

#[test]
fn note_filename_errors() {
    assert_eq!(validate_note_filename(" "), Err("filename is required.".to_string()));
    assert_eq!(validate_note_filename("today.txt"), Err("filename must end with .md".to_string()));
    let long = format!("{}.md", "a".repeat(118));
    assert_eq!(validate_note_filename(&long), Err("filename must be 120 characters or less.".to_string()));
    assert_eq!(validate_note_filename(" today.md "), Ok("today.md".to_string()));
}

#[test]
fn artifact_tags_are_trimmed_sorted_and_deduplicated() {
    let tags = strings(&[" beta", "Alpha", "", "alpha", "BETA ", "gamma", "  "]);
    assert_eq!(normalize_artifact_tags(&tags), strings(&["Alpha", "beta", "gamma"]));
}

#[test]
fn artifact_tag_normalization_is_idempotent() {
    let tags = strings(&["Zeta", "alpha", " ALPHA ", "mu", "Mu", "zeta"]);
    let once = normalize_artifact_tags(&tags);
    assert_eq!(normalize_artifact_tags(&once), once);
}
