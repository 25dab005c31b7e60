//! The tool sandbox: relative paths that cannot leave an agent's context
//! directory, and what each tool call is to do there.

use vstd::prelude::*;
use vstd::string::*;

use crate::text::{cat, cat3, has_char, has_substr, is_ws, lemma_trim_keeps_first, starts_with, str_eq, str_has_char, str_has_substr, str_starts_with, trim, trim_str};

verus! {

/// Message of every path that would leave the sandbox.
pub open spec fn escape_message() -> Seq<char> {
    "Path escapes the agent context directory."@
}

/// A relative path that names something above its root, or uses `\`.
pub open spec fn is_traversal(raw: Seq<char>) -> bool {
    has_substr(raw, ".."@) || has_char(raw, '\\')
}

/// A path that starts at the file-system root.
pub open spec fn is_absolute(t: Seq<char>) -> bool {
    t.len() > 0 && t[0] == '/'
}

/// What `validate_relative_path` returns for `raw` under field name `field`.
pub open spec fn relative_path(raw: Seq<char>, field: Seq<char>, allow_empty: bool) -> Result<
    Seq<char>,
    Seq<char>,
> {
    let t = trim(raw);
    if t.len() == 0 {
        if allow_empty {
            Ok(t)
        } else {
            Err(field + " is required."@)
        }
    } else if is_absolute(t) {
        Err(field + " must be a relative path."@)
    } else if is_traversal(raw) {
        Err(field + " must not contain traversal segments or absolute path markers."@)
    } else {
        Ok(t)
    }
}

/// Checks that `path`, once trimmed, is relative and stays below its root:
/// no leading `/`, no `..` and no `\`. An empty path is accepted only where
/// `allow_empty` says so.
pub fn validate_relative_path(path: &str, field_name: &str, allow_empty: bool) -> (r: Result<String, String>)
    ensures
        relative_path(path@, field_name@, allow_empty) is Ok <==> r is Ok,
        r is Ok ==> r->Ok_0@ == relative_path(path@, field_name@, allow_empty)->Ok_0,
        r is Err ==> r->Err_0@ == relative_path(path@, field_name@, allow_empty)->Err_0,
{
    let t = trim_str(path);
    if t.unicode_len() == 0 {
        if allow_empty {
            return Ok(t);
        }
        return Err(cat(field_name, " is required."));
    }
    if t.as_str().get_char(0) == '/' {
        return Err(cat(field_name, " must be a relative path."));
    }
    if str_has_substr(path, "..") || str_has_char(path, '\\') {
        return Err(cat(field_name, " must not contain traversal segments or absolute path markers."));
    }
    Ok(t)
}

/// `target` is `root` or lies below it.
pub open spec fn within_root(root: Seq<char>, target: Seq<char>) -> bool {
    target == root || starts_with(target, root + "/"@) || (root.len() > 0 && root[root.len() - 1] == '/'
        && starts_with(target, root))
}

/// Succeeds when the resolved `target` is `root` or lies below it.
pub fn ensure_within_root(root: &str, target: &str) -> (r: Result<(), String>)
    ensures
        r is Ok <==> within_root(root@, target@),
        r is Err ==> r->Err_0@ == escape_message(),
{
    let n = root.unicode_len();
    let below = cat(root, "/");
    if str_eq(root, target) || str_starts_with(target, below.as_str()) || (n > 0 && root.get_char(n - 1) == '/'
        && str_starts_with(target, root)) {
        Ok(())
    } else {
        Err("Path escapes the agent context directory.".to_string())
    }
}

/// `rel` below `root`; the root itself for an empty `rel`.
pub open spec fn joined(root: Seq<char>, rel: Seq<char>) -> Seq<char> {
    if rel.len() == 0 {
        root
    } else {
        root + "/"@ + rel
    }
}

pub fn join_path(root: &str, rel: &str) -> (r: String)
    ensures
        r@ == joined(root@, rel@),
{
    if rel.unicode_len() == 0 {
        root.to_string()
    } else {
        cat3(root, "/", rel)
    }
}

/// Where a tool's path argument points below `root`, or why it may not be used.
pub open spec fn tool_target(root: Seq<char>, raw: Seq<char>, allow_empty: bool) -> Result<
    Seq<char>,
    Seq<char>,
> {
    match relative_path(raw, "path"@, allow_empty) {
        Ok(rel) => Ok(joined(root, rel)),
        Err(e) => if trim(raw).len() == 0 {
            Err(e)
        } else {
            Err(escape_message())
        },
    }
}

/// Resolves a tool's path argument below `root`. An absolute path or one
/// that climbs out is refused as an escape from the context directory.
pub fn resolve_tool_path(root: &str, raw: &str, allow_empty: bool) -> (r: Result<String, String>)
    ensures
        tool_target(root@, raw@, allow_empty) is Ok <==> r is Ok,
        r is Ok ==> r->Ok_0@ == tool_target(root@, raw@, allow_empty)->Ok_0,
        r is Err ==> r->Err_0@ == tool_target(root@, raw@, allow_empty)->Err_0,
{
    match validate_relative_path(raw, "path", allow_empty) {
        Ok(rel) => Ok(join_path(root, rel.as_str())),
        Err(e) => {
            if trim_str(raw).unicode_len() == 0 {
                Err(e)
            } else {
                Err("Path escapes the agent context directory.".to_string())
            }
        },
    }
}

/// A path argument with `..`, `\` or a leading `/` never resolves: the tool
/// reports an escape from the context directory.
pub proof fn escaping_paths_refused(root: Seq<char>, raw: Seq<char>, allow_empty: bool)
    requires
        has_substr(raw, ".."@) || has_char(raw, '\\') || (raw.len() > 0 && raw[0] == '/'),
    ensures
        tool_target(root, raw, allow_empty) == Err::<Seq<char>, Seq<char>>(escape_message()),
{
    if raw.len() > 0 && raw[0] == '/' {
        lemma_trim_keeps_first(raw);
    } else if has_char(raw, '\\') {
        let i = choose|i: int| 0 <= i < raw.len() && raw[i] == '\\';
        lemma_not_blank(raw, i);
    } else {
        let i = choose|i: int| crate::text::occurs_at(raw, ".."@, i);
        reveal_strlit("..");
        assert(raw.subrange(i, i + 2)[0] == raw[i]);
        assert(raw[i] == '.');
        lemma_not_blank(raw, i);
    }
}

proof fn lemma_not_blank(raw: Seq<char>, i: int)
    requires
        0 <= i < raw.len(),
        !is_ws(raw[i]),
    ensures
        trim(raw).len() > 0,
{
    crate::text::lemma_trim_nonblank(raw, i);
}

} // verus!
