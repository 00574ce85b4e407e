//! Mod profiles: building, naming and ordering them.
use vstd::prelude::*;
use crate::digest::{is_hyphenated_id, new_random_id};
use crate::order::{same_order_per_time, sort_newest_first, Dated, newest_first};
use crate::paths::{file_name, file_name_spec};
use crate::simsync::state::{AppState, FileInfo, FileManifest, FileType, ModProfile, ProfileMod};
use crate::simsync::utils::{sanitize_id, timestamp_now, valid_id};
use crate::text::{concat2, has_infix, has_suffix, str_ends_with};

verus! {

impl Dated for ModProfile {
    open spec fn created(&self) -> u64 {
        self.created_at
    }

    fn created_at_value(&self) -> (r: u64) {
        self.created_at
    }
}

/// The files of a manifest that a profile records: mods and custom content, in
/// manifest order.
pub open spec fn mod_files(files: Seq<FileInfo>) -> Seq<FileInfo>
    decreases files.len(),
{
    if files.len() == 0 {
        Seq::<FileInfo>::empty()
    } else {
        let r = mod_files(files.drop_last());
        if files.last().file_type == FileType::Mod || files.last().file_type == FileType::CustomContent {
            r.push(files.last())
        } else {
            r
        }
    }
}

/// The name a profile shows for a file: its file name, or `unknown`.
pub open spec fn display_name(path: Seq<char>) -> Seq<char> {
    match file_name_spec(path) {
        Some(n) => n,
        None => "unknown"@,
    }
}

/// `m` is the profile entry of the scanned file `f`.
pub open spec fn entry_of(m: ProfileMod, f: FileInfo) -> bool {
    &&& m.relative_path@ == f.relative_path@
    &&& m.hash@ == f.hash@
    &&& m.size == f.size
    &&& m.name@ == display_name(f.relative_path@)
}

/// `mods` are the profile entries of the mod files among `files`, in order.
pub open spec fn entries_of(mods: Seq<ProfileMod>, files: Seq<FileInfo>) -> bool {
    let fs = mod_files(files);
    mods.len() == fs.len() && forall|i: int| 0 <= i < mods.len() ==> entry_of(#[trigger] mods[i], fs[i])
}

/// The profile entries for the mods and custom content of `manifest`.
pub fn profile_mods(manifest: &FileManifest) -> (r: Vec<ProfileMod>)
    ensures
        entries_of(r@, manifest.files@),
{
    let files = &manifest.files;
    let mut r: Vec<ProfileMod> = Vec::new();
    let mut i: usize = 0;
    while i < files.len()
        invariant
            i <= files.len(),
            entries_of(r@, files@.take(i as int)),
        decreases files.len() - i,
    {
        assert(files@.take(i + 1).drop_last() =~= files@.take(i as int));
        let f = &files[i];
        if f.file_type == FileType::Mod || f.file_type == FileType::CustomContent {
            let name = match file_name(f.relative_path.as_str()) {
                Some(n) => n,
                None => "unknown".to_string(),
            };
            let ghost old_r = r@;
            r.push(ProfileMod { relative_path: f.relative_path.clone(), hash: f.hash.clone(), size: f.size, name });
            assert(files@.take(i + 1).last() == *f);
            assert forall|j: int| 0 <= j < r@.len() implies entry_of(
                #[trigger] r@[j],
                mod_files(files@.take(i + 1))[j],
            ) by {
                if j < old_r.len() {
                    assert(r@[j] == old_r[j]);
                }
            }
        }
        i += 1;
    }
    assert(files@.take(files.len() as int) =~= files@);
    r
}

/// A new profile of the mods of `manifest`, under a fresh random identifier and
/// stamped with the current time.
pub fn new_profile(manifest: &FileManifest, name: String, desc: String, icon: String, author: String) -> (r:
    ModProfile)
    ensures
        is_hyphenated_id(r.id@),
        valid_id(r.id@),
        r.name@ == name@,
        r.description@ == desc@,
        r.icon@ == icon@,
        r.author@ == author@,
        entries_of(r.mods@, manifest.files@),
{
    let mods = profile_mods(manifest);
    let id = new_random_id();
    proof {
        lemma_hyphenated_id_is_valid(id@);
    }
    ModProfile { id, name, description: desc, icon, author, created_at: timestamp_now(), mods }
}

/// A hyphenated random identifier can name a file.
pub proof fn lemma_hyphenated_id_is_valid(id: Seq<char>)
    requires
        is_hyphenated_id(id),
    ensures
        valid_id(id),
{
    assert(id[0] != '/');
    assert(!id.contains('/')) by {
        if id.contains('/') {
            let k = choose|k: int| 0 <= k < id.len() && id[k] == '/';
            assert(id[k] == '/');
        }
    }
    assert(!id.contains('\\')) by {
        if id.contains('\\') {
            let k = choose|k: int| 0 <= k < id.len() && id[k] == '\\';
            assert(id[k] == '\\');
        }
    }
    assert(!id.contains('\0')) by {
        if id.contains('\0') {
            let k = choose|k: int| 0 <= k < id.len() && id[k] == '\0';
            assert(id[k] == '\0');
        }
    }
    assert(!has_infix(id, seq!['.', '.'])) by {
        if has_infix(id, seq!['.', '.']) {
            let k = choose|k: int| 0 <= k && k + 2 <= id.len() && #[trigger] id.subrange(k, k + 2) == seq!['.', '.'];
            assert(id.subrange(k, k + 2)[0] == id[k]);
        }
    }
}

/// The file a profile is stored in: its identifier with `.json` appended.
pub fn profile_file_name(id: &str) -> (r: String)
    ensures
        r@ == id@ + ".json"@,
{
    concat2(id, ".json")
}

/// Where an exported profile is written: `dest`, with `.simsync-profile` appended
/// unless it already ends so.
pub fn export_destination(dest: String) -> (r: String)
    ensures
        has_suffix(dest@, ".simsync-profile"@) ==> r@ == dest@,
        !has_suffix(dest@, ".simsync-profile"@) ==> r@ == dest@ + ".simsync-profile"@,
{
    if str_ends_with(dest.as_str(), ".simsync-profile") {
        dest
    } else {
        concat2(dest.as_str(), ".simsync-profile")
    }
}

/// The check before a profile is loaded: the identifier must name a file and a
/// game folder must be set.
pub fn check_load_profile(state: &AppState, id: &str) -> (r: Result<(), String>)
    ensures
        r is Ok <==> valid_id(id@) && state.sims4_path is Some,
        id@.len() == 0 ==> (r matches Err(e) && e@ == "ID cannot be empty"@),
        id@.len() > 0 && !valid_id(id@) ==> (r matches Err(e) && e@
            == "Invalid ID: contains path separators or traversal"@),
        valid_id(id@) && state.sims4_path is None ==> (r matches Err(e) && e@ == "Sims 4 path not set"@),
{
    sanitize_id(id)?;
    if state.sims4_path.is_none() {
        return Err("Sims 4 path not set".to_string());
    }
    Ok(())
}

/// The profiles, newest first; profiles of the same time keep their order.
pub fn sort_profiles(profiles: Vec<ModProfile>) -> (r: Vec<ModProfile>)
    ensures
        r@.to_multiset() == profiles@.to_multiset(),
        newest_first(r@),
        same_order_per_time(r@, profiles@),
{
    sort_newest_first(profiles)
}

} // verus!
