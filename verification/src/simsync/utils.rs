//! Paths, identifiers and the clock.
use vstd::prelude::*;
use crate::paths::{has_parent_dir, has_parent_dir_component, is_absolute, is_absolute_spec, join_path, path_join, path_within, within_spec};
use crate::text::{concat2, contains_char, has_infix, str_contains};

verus! {

/// The `Mods` folder of a game folder.
pub fn mods_path(base: &str) -> (r: String)
    ensures
        r@ == path_join(base@, "Mods"@),
{
    join_path(base, "Mods")
}

/// The `Saves` folder of a game folder.
pub fn saves_path(base: &str) -> (r: String)
    ensures
        r@ == path_join(base@, "Saves"@),
{
    join_path(base, "Saves")
}

/// Seconds since the Unix epoch, or 0 when the clock reads earlier than the epoch.
/// What it returns depends on the clock alone.
#[verifier::external_body]
pub fn timestamp_now() -> u64 {
    std::time::SystemTime::now().duration_since(std::time::UNIX_EPOCH).unwrap_or_default().as_secs()
}

/// An identifier that can be used as a file name: not empty, and free of `/`,
/// `\`, `..` and NUL.
pub open spec fn valid_id(id: Seq<char>) -> bool {
    id.len() > 0 && !id.contains('/') && !id.contains('\\') && !has_infix(id, seq!['.', '.'])
        && !id.contains('\0')
}

/// Checks that `id` can name a file: an error for an empty identifier, and one for
/// an identifier holding a path separator, `..` or NUL.
pub fn sanitize_id(id: &str) -> (r: Result<(), String>)
    ensures
        r is Ok <==> valid_id(id@),
        id@.len() == 0 ==> (r matches Err(e) && e@ == "ID cannot be empty"@),
        id@.len() > 0 && !valid_id(id@) ==> (r matches Err(e) && e@
            == "Invalid ID: contains path separators or traversal"@),
{
    if id.is_empty() {
        return Err("ID cannot be empty".to_string());
    }
    let dots = str_contains(id, "..");
    proof {
        reveal_strlit("..");
        assert(".."@ =~= seq!['.', '.']);
    }
    if contains_char(id, '/') || contains_char(id, '\\') || dots || contains_char(id, '\0') {
        return Err("Invalid ID: contains path separators or traversal".to_string());
    }
    Ok(())
}

/// A relative path that stays below its base when judged by its text alone: not
/// absolute and without a `..` component.
pub open spec fn lexically_safe(relative: Seq<char>) -> bool {
    !is_absolute_spec(relative) && !has_parent_dir(relative)
}

/// The textual half of a safe join: rejects an absolute `relative` and one with a
/// `..` component, and otherwise gives `relative` joined onto `base`. The
/// application then resolves links on disk and checks the result with
/// [`check_contained`].
pub fn join_within(base: &str, relative: &str) -> (r: Result<String, String>)
    ensures
        is_absolute_spec(relative@) ==> (r matches Err(e) && e@ == "Absolute path rejected: "@ + relative@),
        !is_absolute_spec(relative@) && has_parent_dir(relative@) ==> (r matches Err(e) && e@
            == "Path traversal rejected: "@ + relative@),
        lexically_safe(relative@) ==> (r matches Ok(p) && p@ == path_join(base@, relative@)),
{
    if is_absolute(relative) {
        return Err(concat2("Absolute path rejected: ", relative));
    }
    if has_parent_dir_component(relative) {
        return Err(concat2("Path traversal rejected: ", relative));
    }
    Ok(join_path(base, relative))
}

/// The on-disk half of a safe join: `resolved` (a canonical path) must lie within
/// `base_resolved` (the canonical base folder).
pub fn check_contained(resolved: &str, base_resolved: &str, relative: &str) -> (r: Result<(), String>)
    ensures
        r is Ok <==> within_spec(resolved@, base_resolved@),
        r matches Err(e) ==> e@ == "Path escapes base directory: "@ + relative@,
{
    if path_within(resolved, base_resolved) {
        Ok(())
    } else {
        Err(concat2("Path escapes base directory: ", relative))
    }
}

} // verus!
