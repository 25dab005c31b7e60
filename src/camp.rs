//! File names and paths of a camp's notes, context files and artifacts.

use vstd::prelude::*;

use crate::ident::{simple_identifier, validate_simple_identifier};
use crate::layout::{below, join_name};
use crate::sandbox::{relative_path, validate_relative_path};
use crate::text::{has_char, has_substr, str_has_char, str_has_substr, trim, trim_str};

verus! {

/// Whether `s` ends with `.md`.
pub open spec fn ends_with_md(s: Seq<char>) -> bool {
    s.len() >= 3 && s.subrange(s.len() - 3, s.len() as int) == ".md"@
}

fn text_ends_with_md(s: &str) -> (r: bool)
    ensures
        r == ends_with_md(s@),
{
    proof {
        reveal_strlit(".md");
    }
    let n = s.unicode_len();
    if n < 3 {
        return false;
    }
    let r = s.get_char(n - 3) == '.' && s.get_char(n - 2) == 'm' && s.get_char(n - 1) == 'd';
    let ghost tail = s@.subrange(n - 3, n as int);
    assert(tail[0] == s@[n - 3] && tail[1] == s@[n - 2] && tail[2] == s@[n - 1]);
    if r {
        assert(tail =~= ".md"@);
    }
    r
}

/// No `/`, no `\` and no `..`.
pub open spec fn no_traversal(t: Seq<char>) -> bool {
    !has_char(t, '/') && !has_char(t, '\\') && !has_substr(t, ".."@)
}

/// What `validate_note_filename` returns; the length limit counts UTF-8 bytes.
pub open spec fn note_filename(raw: Seq<char>) -> Result<Seq<char>, Seq<char>> {
    let t = trim(raw);
    if t.len() == 0 {
        Err("filename is required."@)
    } else if (vstd::utf8::encode_utf8(t).len() as usize) > 120 {
        Err("filename must be 120 characters or less."@)
    } else if !ends_with_md(t) {
        Err("filename must end with .md"@)
    } else if !no_traversal(t) {
        Err("filename must not contain path separators or traversal segments."@)
    } else {
        Ok(t)
    }
}

/// Checks the file name of a note: trimmed, at most 120 bytes, a `.md`
/// name, and no path separators or traversal.
pub fn validate_note_filename(filename: &str) -> (r: Result<String, String>)
    ensures
        note_filename(filename@) is Ok <==> r is Ok,
        r is Ok ==> r->Ok_0@ == note_filename(filename@)->Ok_0,
        r is Err ==> r->Err_0@ == note_filename(filename@)->Err_0,
{
    let t = trim_str(filename);
    if t.unicode_len() == 0 {
        return Err("filename is required.".to_string());
    }
    if t.as_str().len() > 120 {
        return Err("filename must be 120 characters or less.".to_string());
    }
    if !text_ends_with_md(t.as_str()) {
        return Err("filename must end with .md".to_string());
    }
    if str_has_char(t.as_str(), '/') || str_has_char(t.as_str(), '\\') || str_has_substr(t.as_str(), "..") {
        return Err("filename must not contain path separators or traversal segments.".to_string());
    }
    Ok(t)
}

/// Where a note is written in the workspace.
pub fn resolve_note_path(workspace_path: &str, filename: &str) -> (r: String)
    ensures
        r@ == below(workspace_path@, filename@),
{
    join_name(workspace_path, filename)
}

/// Checks a path relative to a camp's context folder.
pub fn validate_context_relative_path(path: &str, field_name: &str, allow_empty: bool) -> (r: Result<String, String>)
    ensures
        relative_path(path@, field_name@, allow_empty) is Ok <==> r is Ok,
        r is Ok ==> r->Ok_0@ == relative_path(path@, field_name@, allow_empty)->Ok_0,
        r is Err ==> r->Err_0@ == relative_path(path@, field_name@, allow_empty)->Err_0,
{
    validate_relative_path(path, field_name, allow_empty)
}

/// Checks an identifier of a camp's records: trimmed, not empty, path-safe.
pub fn validate_identifier(value: &str, field_name: &str) -> (r: Result<String, String>)
    ensures
        simple_identifier(value@, field_name@) is Ok <==> r is Ok,
        r is Ok ==> r->Ok_0@ == simple_identifier(value@, field_name@)->Ok_0,
        r is Err ==> r->Err_0@ == simple_identifier(value@, field_name@)->Err_0,
{
    validate_simple_identifier(value, field_name)
}

/// What `validate_artifact_filename` returns.
pub open spec fn artifact_filename(raw: Seq<char>) -> Result<Seq<char>, Seq<char>> {
    let t = trim(raw);
    if t.len() == 0 {
        Err("artifact filename is required."@)
    } else if !ends_with_md(t) {
        Err("artifact filename must end with .md."@)
    } else if !no_traversal(t) {
        Err("artifact filename must not contain path separators or traversal segments."@)
    } else {
        Ok(t)
    }
}

/// Checks the file name of a camp artifact: trimmed, a `.md` name, no path
/// separators or traversal.
pub fn validate_artifact_filename(filename: &str) -> (r: Result<String, String>)
    ensures
        artifact_filename(filename@) is Ok <==> r is Ok,
        r is Ok ==> r->Ok_0@ == artifact_filename(filename@)->Ok_0,
        r is Err ==> r->Err_0@ == artifact_filename(filename@)->Err_0,
{
    let t = trim_str(filename);
    if t.unicode_len() == 0 {
        return Err("artifact filename is required.".to_string());
    }
    if !text_ends_with_md(t.as_str()) {
        return Err("artifact filename must end with .md.".to_string());
    }
    if str_has_char(t.as_str(), '/') || str_has_char(t.as_str(), '\\') || str_has_substr(t.as_str(), "..") {
        return Err("artifact filename must not contain path separators or traversal segments.".to_string());
    }
    Ok(t)
}

/// The markdown file of a camp artifact, in the camp's artifacts folder.
pub fn artifact_markdown_path(camp_dir: &str, filename: &str) -> (r: Result<String, String>)
    ensures
        artifact_filename(filename@) is Ok <==> r is Ok,
        r is Ok ==> r->Ok_0@ == below(below(camp_dir@, "artifacts"@), artifact_filename(filename@)->Ok_0),
        r is Err ==> r->Err_0@ == artifact_filename(filename@)->Err_0,
{
    let name = validate_artifact_filename(filename)?;
    let dir = join_name(camp_dir, "artifacts");
    Ok(join_name(dir.as_str(), name.as_str()))
}

} // verus!
