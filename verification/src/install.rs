//! Installing mod files into a game's mods folder: the checks on each file and the
//! result reported for it.
use vstd::prelude::*;
use crate::paths::{file_name, file_name_spec, join_path, path_join};
use crate::simsync::files::{lower_extension, lower_extension_spec};
use crate::text::{concat2, concat3, contains_char, copy_str, decimal, decimal_string, has_infix, str_contains, str_eq};

verus! {

/// Files larger than this (2 GiB) are not installed.
pub const MAX_INSTALL_FILE_SIZE: u64 = 2147483648;

/// What happened to one file.
#[derive(Debug, Clone, Copy, PartialEq, Eq, Structural)]
pub enum InstallStatus {
    Success,
    Duplicate,
    InvalidExtension,
    Failed,
}

/// The report for one file.
#[derive(Debug, Clone)]
pub struct InstallResult {
    pub source: String,
    pub destination: String,
    pub status: InstallStatus,
    pub message: Option<String>,
}

/// The result `r` reports `status` for `source` at `dest` with message `msg`.
pub open spec fn reports(r: InstallResult, source: Seq<char>, dest: Seq<char>, status: InstallStatus, msg: Option<
    Seq<char>,
>) -> bool {
    &&& r.source@ == source
    &&& r.destination@ == dest
    &&& r.status == status
    &&& match (r.message, msg) {
        (Some(m), Some(n)) => m@ == n,
        (None, None) => true,
        _ => false,
    }
}

fn report(source: &str, dest: String, status: InstallStatus, msg: Option<String>) -> (r: InstallResult)
    ensures
        r.source@ == source@,
        r.destination == dest,
        r.status == status,
        r.message == msg,
{
    InstallResult { source: copy_str(source), destination: dest, status, message: msg }
}

/// A file name that stays inside the folder it is joined to: free of `/`, `\`,
/// `..` and NUL.
pub open spec fn safe_file_name(name: Seq<char>) -> bool {
    !name.contains('/') && !name.contains('\\') && !has_infix(name, seq!['.', '.']) && !name.contains('\0')
}

/// Whether `name` can be joined to a folder without leaving it.
pub fn is_safe_file_name(name: &str) -> (b: bool)
    ensures
        b == safe_file_name(name@),
{
    let dots = str_contains(name, "..");
    proof {
        reveal_strlit("..");
        assert(".."@ =~= seq!['.', '.']);
    }
    !(contains_char(name, '/') || contains_char(name, '\\') || dots || contains_char(name, '\0'))
}

/// A file name is refused exactly when it holds `/`, `\\`, two dots in a row or
/// NUL; any other character, a space among them, is allowed.
pub proof fn file_names_are_refused_only_for_separators_dots_and_nul(name: Seq<char>)
    ensures
        safe_file_name(name) <==> !(exists|i: int| 0 <= i < name.len() && (#[trigger] name[i] == '/' || name[i] == '\\' || name[i]
            == '\0' || (i + 1 < name.len() && name[i] == '.' && name[i + 1] == '.'))),
{
    assert forall|i: int| 0 <= i < name.len() && (#[trigger] name[i] == '/' || name[i] == '\\' || name[i] == '\0' || (i + 1
        < name.len() && name[i] == '.' && name[i + 1] == '.')) implies !safe_file_name(name) by {
        if i + 1 < name.len() && name[i] == '.' && name[i + 1] == '.' {
            assert(name.subrange(i, i + 2) =~= seq!['.', '.']);
        } else {
            assert(name.contains(name[i]));
        }
    }
    if !safe_file_name(name) {
        if has_infix(name, seq!['.', '.']) {
            let i = choose|i: int| 0 <= i && i + 2 <= name.len() && #[trigger] name.subrange(i, i + 2) == seq!['.', '.'];
            assert(name.subrange(i, i + 2)[0] == name[i] && name.subrange(i, i + 2)[1] == name[i + 1]);
            assert(name[i] == '.');
        } else if name.contains('/') {
            let i = choose|i: int| 0 <= i < name.len() && name[i] == '/';
            assert(name[i] == '/');
        } else if name.contains('\\') {
            let i = choose|i: int| 0 <= i < name.len() && name[i] == '\\';
            assert(name[i] == '\\');
        } else {
            let i = choose|i: int| 0 <= i < name.len() && name[i] == '\0';
            assert(name[i] == '\0');
        }
    }
}

/// `ext` is one of `exts`.
pub open spec fn listed(exts: Seq<String>, ext: Seq<char>) -> bool {
    exists|i: int| 0 <= i < exts.len() && (#[trigger] exts[i])@ == ext
}

/// The extensions written as `.a, .b, ...`.
pub open spec fn extension_list(exts: Seq<String>) -> Seq<char>
    decreases exts.len(),
{
    if exts.len() == 0 {
        Seq::<char>::empty()
    } else if exts.len() == 1 {
        "."@ + exts[0]@
    } else {
        extension_list(exts.drop_last()) + ", "@ + "."@ + exts.last()@
    }
}

fn is_listed(exts: &Vec<String>, ext: &str) -> (b: bool)
    ensures
        b == listed(exts@, ext@),
{
    let mut i: usize = 0;
    while i < exts.len()
        invariant
            i <= exts.len(),
            forall|j: int| 0 <= j < i ==> (#[trigger] exts@[j])@ != ext@,
        decreases exts.len() - i,
    {
        if str_eq(exts[i].as_str(), ext) {
            return true;
        }
        i += 1;
    }
    false
}

/// The extensions written as `.a, .b, ...`.
pub fn format_extension_list(exts: &Vec<String>) -> (r: String)
    ensures
        r@ == extension_list(exts@),
{
    let mut r = String::new();
    let mut i: usize = 0;
    while i < exts.len()
        invariant
            i <= exts.len(),
            r@ == extension_list(exts@.take(i as int)),
        decreases exts.len() - i,
    {
        assert(exts@.take(i + 1).drop_last() =~= exts@.take(i as int));
        if i > 0 {
            r.append(", ");
        }
        r.append(".");
        r.append(exts[i].as_str());
        proof {
            if i == 0 {
                assert(r@ =~= "."@ + exts@.take(1)[0]@);
            }
        }
        i += 1;
    }
    assert(exts@.take(exts.len() as int) =~= exts@);
    r
}

/// The message for a file whose extension the game does not take.
pub open spec fn bad_extension_message(ext: Seq<char>, label: Seq<char>, exts: Seq<String>) -> Seq<char> {
    "Invalid extension '."@ + ext + "'. Supported for "@ + label + ": "@ + extension_list(exts)
}

/// The first checks on a file to install: it must exist, and its lowercased
/// extension must be one the game takes (the report then lists those extensions
/// under the game's label).
pub fn check_install_source(source: &str, is_file: bool, valid_exts: &Vec<String>, game_label: &str) -> (r:
    Result<(), InstallResult>)
    ensures
        !is_file ==> (r matches Err(res) && reports(
            res,
            source@,
            Seq::<char>::empty(),
            InstallStatus::Failed,
            Some("File does not exist"@),
        )),
        is_file && !listed(valid_exts@, lower_extension_spec(source@)) ==> (r matches Err(res) && reports(
            res,
            source@,
            Seq::<char>::empty(),
            InstallStatus::InvalidExtension,
            Some(bad_extension_message(lower_extension_spec(source@), game_label@, valid_exts@)),
        )),
        is_file && listed(valid_exts@, lower_extension_spec(source@)) ==> r is Ok,
{
    if !is_file {
        return Err(report(source, String::new(), InstallStatus::Failed, Some("File does not exist".to_string())));
    }
    let ext = lower_extension(source);
    if !is_listed(valid_exts, ext.as_str()) {
        let mut msg = concat3("Invalid extension '.", ext.as_str(), "'. Supported for ");
        msg.append(game_label);
        msg.append(": ");
        let list = format_extension_list(valid_exts);
        msg.append(list.as_str());
        return Err(report(source, String::new(), InstallStatus::InvalidExtension, Some(msg)));
    }
    Ok(())
}

/// The name a file is installed under: its file name, or `unknown`.
pub open spec fn install_name_spec(source: Seq<char>) -> Seq<char> {
    match file_name_spec(source) {
        Some(n) => n,
        None => "unknown"@,
    }
}

/// The next checks, once the file's size is known: at most 2 GiB, and a file name
/// that stays inside the mods folder. Gives the file name to install under.
pub fn check_install_size_and_name(source: &str, size: u64) -> (r: Result<String, InstallResult>)
    ensures
        size > MAX_INSTALL_FILE_SIZE ==> (r matches Err(res) && reports(
            res,
            source@,
            Seq::<char>::empty(),
            InstallStatus::Failed,
            Some("File exceeds 2 GB size limit"@),
        )),
        size <= MAX_INSTALL_FILE_SIZE && !safe_file_name(install_name_spec(source@)) ==> (r matches Err(res)
            && reports(res, source@, Seq::<char>::empty(), InstallStatus::Failed, Some("Invalid filename"@))),
        size <= MAX_INSTALL_FILE_SIZE && safe_file_name(install_name_spec(source@)) ==> (r matches Ok(n) && n@
            == install_name_spec(source@)),
{
    if size > MAX_INSTALL_FILE_SIZE {
        return Err(
            report(source, String::new(), InstallStatus::Failed, Some("File exceeds 2 GB size limit".to_string())),
        );
    }
    let name = match file_name(source) {
        Some(n) => n,
        None => "unknown".to_string(),
    };
    if !is_safe_file_name(name.as_str()) {
        return Err(report(source, String::new(), InstallStatus::Failed, Some("Invalid filename".to_string())));
    }
    Ok(name)
}

/// The report when a file of the same name is already installed at `dest`: the
/// first hashing error if either file could not be hashed, else a duplicate,
/// identical or not.
pub fn duplicate_result(source: &str, dest: &str, source_hash: Result<String, String>, dest_hash: Result<
    String,
    String,
>) -> (r: InstallResult)
    ensures
        match (source_hash, dest_hash) {
            (Err(e), _) => reports(r, source@, dest@, InstallStatus::Failed, Some(e@)),
            (Ok(_), Err(e)) => reports(r, source@, dest@, InstallStatus::Failed, Some(e@)),
            (Ok(a), Ok(b)) => if a@ == b@ {
                reports(r, source@, dest@, InstallStatus::Duplicate, Some("Identical file already exists"@))
            } else {
                reports(
                    r,
                    source@,
                    dest@,
                    InstallStatus::Duplicate,
                    Some("File with same name but different content exists"@),
                )
            },
        },
{
    let a = match source_hash {
        Err(e) => {
            return report(source, copy_str(dest), InstallStatus::Failed, Some(e));
        },
        Ok(h) => h,
    };
    let b = match dest_hash {
        Err(e) => {
            return report(source, copy_str(dest), InstallStatus::Failed, Some(e));
        },
        Ok(h) => h,
    };
    if str_eq(a.as_str(), b.as_str()) {
        report(source, copy_str(dest), InstallStatus::Duplicate, Some("Identical file already exists".to_string()))
    } else {
        report(
            source,
            copy_str(dest),
            InstallStatus::Duplicate,
            Some("File with same name but different content exists".to_string()),
        )
    }
}

/// The report after copying `source` to `dest`.
pub fn copy_result(source: &str, dest: &str, copied: Result<(), String>) -> (r: InstallResult)
    ensures
        copied is Ok ==> reports(r, source@, dest@, InstallStatus::Success, None),
        copied matches Err(e) ==> reports(r, source@, dest@, InstallStatus::Failed, Some("Copy failed: "@ + e@)),
{
    match copied {
        Ok(()) => report(source, copy_str(dest), InstallStatus::Success, None),
        Err(e) => report(source, copy_str(dest), InstallStatus::Failed, Some(concat2("Copy failed: ", e.as_str()))),
    }
}

/// How to settle a name clash when installing.
#[derive(Debug, Clone, Copy, PartialEq, Eq, Structural)]
pub enum DuplicateStrategy {
    Overwrite,
    Rename,
}

/// Reads a clash strategy: `overwrite` or `rename`.
pub fn parse_strategy(strategy: &str) -> (r: Result<DuplicateStrategy, String>)
    ensures
        strategy@ == "overwrite"@ ==> r == Ok::<DuplicateStrategy, String>(DuplicateStrategy::Overwrite),
        strategy@ == "rename"@ ==> r == Ok::<DuplicateStrategy, String>(DuplicateStrategy::Rename),
        strategy@ != "overwrite"@ && strategy@ != "rename"@ ==> (r matches Err(e) && e@ == "Unknown strategy: "@
            + strategy@),
{
    proof {
        reveal_strlit("overwrite");
        reveal_strlit("rename");
        assert("overwrite"@ != "rename"@) by {
            assert("overwrite"@.len() != "rename"@.len());
        }
    }
    if str_eq(strategy, "overwrite") {
        Ok(DuplicateStrategy::Overwrite)
    } else if str_eq(strategy, "rename") {
        Ok(DuplicateStrategy::Rename)
    } else {
        Err(concat2("Unknown strategy: ", strategy))
    }
}

/// The file name tried for the `counter`-th renamed copy: `stem_counter.ext`.
pub open spec fn renamed_file_name(stem: Seq<char>, ext: Seq<char>, counter: nat) -> Seq<char> {
    stem + "_"@ + decimal(counter) + "."@ + ext
}

/// The path tried for the `counter`-th renamed copy in `mods_dir`.
pub fn renamed_destination(mods_dir: &str, stem: &str, ext: &str, counter: u32) -> (r: String)
    ensures
        r@ == path_join(mods_dir@, renamed_file_name(stem@, ext@, counter as nat)),
{
    let mut name = concat2(stem, "_");
    let num = decimal_string(counter as u64);
    name.append(num.as_str());
    name.append(".");
    name.append(ext);
    join_path(mods_dir, name.as_str())
}

/// Renamed copies are numbered from 1 up to this.
pub const MAX_RENAME_COUNTER: u32 = 999;

/// The next number to try after `counter` was taken, or the error once the
/// numbers are used up.
pub fn next_rename_counter(counter: u32) -> (r: Result<u32, String>)
    requires
        counter >= 1,
    ensures
        counter < MAX_RENAME_COUNTER ==> r == Ok::<u32, String>((counter + 1) as u32),
        counter >= MAX_RENAME_COUNTER ==> (r matches Err(e) && e@ == "Too many duplicates"@),
{
    if counter >= MAX_RENAME_COUNTER {
        return Err("Too many duplicates".to_string());
    }
    Ok(counter + 1)
}

/// The check before settling a clash: the source must still exist, and have a
/// file name that stays inside the mods folder.
pub fn check_duplicate_source(is_file: bool, name: Option<String>) -> (r: Result<String, String>)
    ensures
        !is_file ==> (r matches Err(e) && e@ == "Source file no longer exists"@),
        is_file ==> match name {
            None => r matches Err(e) && e@ == "Invalid filename"@,
            Some(n) => if safe_file_name(n@) {
                r matches Ok(m) && m@ == n@
            } else {
                r matches Err(e) && e@ == "Invalid filename"@
            },
        },
{
    if !is_file {
        return Err("Source file no longer exists".to_string());
    }
    match name {
        None => Err("Invalid filename".to_string()),
        Some(n) => {
            if is_safe_file_name(n.as_str()) {
                Ok(n)
            } else {
                Err("Invalid filename".to_string())
            }
        },
    }
}

/// The report after overwriting the installed file at `dest`.
pub fn overwrite_result(source: String, dest: String) -> (r: InstallResult)
    ensures
        reports(r, source@, dest@, InstallStatus::Success, Some("Overwritten"@)),
{
    InstallResult { source, destination: dest, status: InstallStatus::Success, message: Some("Overwritten".to_string()) }
}

/// The report after installing a renamed copy as `new_name` at `dest`.
pub fn rename_result(source: String, dest: String, new_name: &str) -> (r: InstallResult)
    ensures
        reports(r, source@, dest@, InstallStatus::Success, Some("Renamed to "@ + new_name@)),
{
    InstallResult {
        source,
        destination: dest,
        status: InstallStatus::Success,
        message: Some(concat2("Renamed to ", new_name)),
    }
}

} // verus!
