//! Sync plans: starting and finishing a sync, and settling conflicts.
use vstd::prelude::*;
use crate::paths::{extension, extension_of, extension_spec, file_name_spec, file_stem, file_stem_spec, is_sep, last_index_of, last_sep_index, lemma_last_index_at, lemma_last_index_of, lemma_last_sep_at, lemma_last_sep_index, lemma_no_sep, parent, parent_spec, stem_of};
use crate::simsync::state::{AppState, FileInfo, FileManifest, Resolution, SyncAction, SyncPlan};
use crate::text::{concat2, concat3, copy_str, decimal, decimal_string, str_eq};

verus! {

/// A copy of a file record.
pub fn clone_file_info(f: &FileInfo) -> (r: FileInfo)
    ensures
        r == *f,
{
    FileInfo {
        relative_path: f.relative_path.clone(),
        size: f.size,
        hash: f.hash.clone(),
        modified: f.modified,
        file_type: f.file_type,
    }
}

/// A copy of a sync step.
pub fn clone_action(a: &SyncAction) -> (r: SyncAction)
    ensures
        r == *a,
{
    match a {
        SyncAction::SendToRemote(f) => SyncAction::SendToRemote(clone_file_info(f)),
        SyncAction::ReceiveFromRemote(f) => SyncAction::ReceiveFromRemote(clone_file_info(f)),
        SyncAction::Conflict { local, remote } => SyncAction::Conflict {
            local: clone_file_info(local),
            remote: clone_file_info(remote),
        },
        SyncAction::Delete(p) => SyncAction::Delete(p.clone()),
    }
}

/// The index of the first file recorded under `path`, or -1.
pub open spec fn first_file_index(files: Seq<FileInfo>, path: Seq<char>) -> int
    decreases files.len(),
{
    if files.len() == 0 {
        -1
    } else if files[0].relative_path@ == path {
        0
    } else {
        let k = first_file_index(files.drop_first(), path);
        if k < 0 {
            -1
        } else {
            k + 1
        }
    }
}

/// The file a manifest records under `path`.
pub open spec fn manifest_entry(m: FileManifest, path: Seq<char>) -> Option<FileInfo> {
    let k = first_file_index(m.files@, path);
    if k < 0 {
        None
    } else {
        Some(m.files@[k])
    }
}

/// `first_file_index` is the position of the first file with that path, or -1
/// when no file has it.
pub proof fn lemma_first_file_index(files: Seq<FileInfo>, path: Seq<char>)
    ensures
        -1 <= first_file_index(files, path) < files.len(),
        first_file_index(files, path) >= 0 ==> files[first_file_index(files, path)].relative_path@ == path,
        forall|j: int|
            0 <= j < files.len() && (first_file_index(files, path) < 0 || j < first_file_index(files, path))
                ==> #[trigger] files[j].relative_path@ != path,
    decreases files.len(),
{
    if files.len() > 0 && files[0].relative_path@ != path {
        lemma_first_file_index(files.drop_first(), path);
        assert forall|j: int|
            0 <= j < files.len() && (first_file_index(files, path) < 0 || j < first_file_index(
                files,
                path,
            )) implies #[trigger] files[j].relative_path@ != path by {
            if j > 0 {
                assert(files.drop_first()[j - 1] == files[j]);
            }
        }
    }
}

/// The file `manifest` records under `path`.
pub fn find_file(manifest: &FileManifest, path: &str) -> (r: Option<FileInfo>)
    ensures
        r == manifest_entry(*manifest, path@),
{
    proof {
        lemma_first_file_index(manifest.files@, path@);
    }
    let mut i: usize = 0;
    while i < manifest.files.len()
        invariant
            i <= manifest.files.len(),
            forall|j: int| 0 <= j < i ==> #[trigger] manifest.files@[j].relative_path@ != path@,
            -1 <= first_file_index(manifest.files@, path@) < manifest.files.len(),
            first_file_index(manifest.files@, path@) >= 0 ==> manifest.files@[first_file_index(
                manifest.files@,
                path@,
            )].relative_path@ == path@,
            forall|j: int|
                0 <= j < manifest.files.len() && (first_file_index(manifest.files@, path@) < 0 || j
                    < first_file_index(manifest.files@, path@)) ==> #[trigger] manifest.files@[j].relative_path@
                    != path@,
        decreases manifest.files.len() - i,
    {
        if str_eq(manifest.files[i].relative_path.as_str(), path) {
            return Some(clone_file_info(&manifest.files[i]));
        }
        i += 1;
    }
    None
}

/// The step is a conflict whose local file is `path`.
pub open spec fn conflict_for(a: SyncAction, path: Seq<char>) -> bool {
    match a {
        SyncAction::Conflict { local, .. } => local.relative_path@ == path,
        _ => false,
    }
}

/// The step is a conflict.
pub open spec fn is_conflict(a: SyncAction) -> bool {
    a is Conflict
}

/// The steps of `s` other than the conflicts over `path`, in order.
pub open spec fn without_conflict(s: Seq<SyncAction>, path: Seq<char>) -> Seq<SyncAction>
    decreases s.len(),
{
    if s.len() == 0 {
        Seq::<SyncAction>::empty()
    } else {
        let r = without_conflict(s.drop_last(), path);
        if conflict_for(s.last(), path) {
            r
        } else {
            r.push(s.last())
        }
    }
}

/// The name under which the remote copy of `path` is kept beside the local one:
/// `_remote` is added to the file stem.
pub open spec fn remote_copy_name_spec(p: Seq<char>) -> Seq<char> {
    let ext = match extension_spec(p) {
        Some(e) => e,
        None => Seq::<char>::empty(),
    };
    let stem = match file_stem_spec(p) {
        Some(s) => s,
        None => "file"@,
    };
    let par = match parent_spec(p) {
        Some(q) => q,
        None => Seq::<char>::empty(),
    };
    if par.len() == 0 {
        if ext.len() == 0 {
            stem + "_remote"@
        } else {
            stem + "_remote."@ + ext
        }
    } else if ext.len() == 0 {
        par + "/"@ + stem + "_remote"@
    } else {
        par + "/"@ + stem + "_remote."@ + ext
    }
}

/// The file name `f` with `_remote` added to its stem.
spec fn remote_tail(f: Seq<char>) -> Seq<char> {
    match extension_of(f) {
        Some(e) => stem_of(f) + "_remote."@ + e,
        None => stem_of(f) + "_remote"@,
    }
}

/// Adding `_remote` to the stem of a file name keeps the name free of separators
/// and keeps its first character, its extension, and its stem but for the added
/// `_remote`.
proof fn lemma_remote_tail(f: Seq<char>)
    requires
        f.len() > 0,
        forall|k: int| 0 <= k < f.len() ==> !is_sep(#[trigger] f[k]),
    ensures
        remote_tail(f).len() > 0,
        remote_tail(f)[0] == f[0],
        forall|k: int| 0 <= k < remote_tail(f).len() ==> !is_sep(#[trigger] remote_tail(f)[k]),
        stem_of(remote_tail(f)) == stem_of(f) + "_remote"@,
        extension_of(remote_tail(f)) == extension_of(f),
        remote_tail(f) != seq!['.', '.'],
{
    reveal_strlit("_remote");
    reveal_strlit("_remote.");
    lemma_last_index_of(f, '.');
    let d = last_index_of(f, '.');
    let stem = stem_of(f);
    let tail = remote_tail(f);
    assert(stem.len() > 0);
    assert(stem[0] == f[0]);
    assert forall|k: int| 0 <= k < stem.len() implies #[trigger] stem[k] == f[k] by {}
    if d > 0 {
        let e = f.subrange(d + 1, f.len() as int);
        assert(tail =~= stem + "_remote."@ + e);
        assert forall|k: int| 0 <= k < tail.len() implies !is_sep(#[trigger] tail[k]) by {
            if k < stem.len() {
                assert(tail[k] == f[k]);
            } else if k >= stem.len() + 8 {
                assert(tail[k] == f[d + 1 + (k - stem.len() - 8)]);
            }
        }
        assert forall|k: int| stem.len() + 7 < k < tail.len() implies #[trigger] tail[k] != '.' by {
            assert(tail[k] == f[d + 1 + (k - stem.len() - 8)]);
        }
        lemma_last_index_at(tail, '.', stem.len() + 7int);
        assert(tail.subrange(0, stem.len() + 7int) =~= stem + "_remote"@);
        assert(tail.subrange(stem.len() + 8int, tail.len() as int) =~= e);
    } else {
        assert(stem == f);
        assert(tail =~= f + "_remote"@);
        assert forall|k: int| 0 <= k < tail.len() implies !is_sep(#[trigger] tail[k]) by {
            if k < f.len() {
                assert(tail[k] == f[k]);
            }
        }
        assert forall|k: int| d < k < tail.len() && k >= 0 implies #[trigger] tail[k] != '.' by {
            if k < f.len() {
                assert(tail[k] == f[k]);
            }
        }
        if d == 0 {
            lemma_last_index_at(tail, '.', 0);
        } else {
            lemma_last_index_of(tail, '.');
            if last_index_of(tail, '.') >= 0 {
                assert(tail[last_index_of(tail, '.')] == '.');
            }
        }
    }
    assert(tail.len() > 2);
}

/// A path made of `par`, a separator and a file name `tail` free of separators (or
/// of `tail` alone when `par` is empty) has `tail` as file name and `par`, which is
/// the parent of `p`, as parent, when `tail` starts as the file name of `p` does.
proof fn lemma_same_folder(p: Seq<char>, tail: Seq<char>)
    requires
        file_name_spec(p) is Some,
        parent_spec(p) is Some,
        tail.len() > 2,
        tail[0] == file_name_spec(p)->0[0],
        forall|k: int| 0 <= k < tail.len() ==> !is_sep(#[trigger] tail[k]),
    ensures
        ({
            let par = parent_spec(p)->0;
            let name = if par.len() == 0 { tail } else { par + "/"@ + tail };
            &&& file_name_spec(name) == Some(tail) || tail == seq!['.', '.']
            &&& parent_spec(name) == parent_spec(p)
        }),
{
    reveal_strlit("/");
    lemma_last_sep_index(p);
    let l = last_sep_index(p);
    let par = parent_spec(p)->0;
    if par.len() == 0 {
        lemma_no_sep(tail);
        assert(tail.subrange(0, tail.len() as int) =~= tail);
    } else {
        let name = par + "/"@ + tail;
        assert forall|k: int| par.len() < k < name.len() implies !is_sep(#[trigger] name[k]) by {
            assert(name[k] == tail[k - par.len() - 1]);
        }
        lemma_last_sep_at(name, par.len() as int);
        assert(name.subrange(par.len() + 1int, name.len() as int) =~= tail);
        assert(name.subrange(0, par.len() as int) =~= par);
        assert(p[l + 1] == file_name_spec(p)->0[0]);
    }
}

/// The copy kept beside a file when both versions are kept is named by adding
/// `_remote` to the whole file stem (as `Path::file_stem` gives it, so
/// `hair.v2.package` becomes `hair.v2_remote.package`), in the same folder and
/// with the same extension. The law needs a file name, a parent, and an extension
/// that is not empty (a name ending in `.` loses its dot).
pub proof fn remote_copy_keeps_stem_extension_and_folder(p: Seq<char>)
    requires
        file_name_spec(p) is Some,
        parent_spec(p) is Some,
        extension_spec(p) != Some(Seq::<char>::empty()),
    ensures
        file_stem_spec(remote_copy_name_spec(p)) == Some(file_stem_spec(p)->0 + "_remote"@),
        extension_spec(remote_copy_name_spec(p)) == extension_spec(p),
        parent_spec(remote_copy_name_spec(p)) == parent_spec(p),
{
    reveal_strlit("_remote");
    reveal_strlit("_remote.");
    reveal_strlit("/");
    lemma_last_sep_index(p);
    let l = last_sep_index(p);
    let f = file_name_spec(p)->0;
    assert(f == p.subrange(l + 1, p.len() as int));
    assert forall|k: int| 0 <= k < f.len() implies !is_sep(#[trigger] f[k]) by {
        assert(f[k] == p[l + 1 + k]);
    }
    lemma_remote_tail(f);
    let tail = remote_tail(f);
    lemma_same_folder(p, tail);
    let par = parent_spec(p)->0;
    let name = remote_copy_name_spec(p);
    let stem = stem_of(f);
    assert(file_stem_spec(p) == Some(stem));
    assert(extension_spec(p) == extension_of(f));
    match extension_of(f) {
        Some(e) => {
            if e.len() == 0 {
                assert(e =~= Seq::<char>::empty());
            }
            assert(tail == stem + "_remote."@ + e);
            if par.len() == 0 {
                assert(name == stem + "_remote."@ + e);
            } else {
                assert(name == par + "/"@ + stem + "_remote."@ + e);
                assert(name =~= par + "/"@ + tail);
            }
        },
        None => {
            assert(tail == stem + "_remote"@);
            if par.len() == 0 {
                assert(name == stem + "_remote"@);
            } else {
                assert(name == par + "/"@ + stem + "_remote"@);
                assert(name =~= par + "/"@ + tail);
            }
        },
    }
}

/// The name under which the remote copy of `path` is kept.
pub fn remote_copy_name(path: &str) -> (r: String)
    ensures
        r@ == remote_copy_name_spec(path@),
{
    let ext = match extension(path) {
        Some(e) => e,
        None => String::new(),
    };
    let stem = match file_stem(path) {
        Some(s) => s,
        None => "file".to_string(),
    };
    let par = match parent(path) {
        Some(q) => q,
        None => String::new(),
    };
    let mut r = if par.as_str().is_empty() {
        stem
    } else {
        let mut t = par;
        t.append("/");
        t.append(stem.as_str());
        t
    };
    if ext.as_str().is_empty() {
        r.append("_remote");
    } else {
        r.append("_remote.");
        r.append(ext.as_str());
    }
    r
}

/// `g` is the remote file `f` renamed for keeping both copies of `path`.
pub open spec fn renamed_remote_copy(g: FileInfo, f: FileInfo, path: Seq<char>) -> bool {
    &&& g.relative_path@ == remote_copy_name_spec(path)
    &&& g.size == f.size
    &&& g.hash == f.hash
    &&& g.modified == f.modified
    &&& g.file_type == f.file_type
}

/// `after` is the plan `before` once the conflict over `path` is settled with
/// `resolution`, the remote side holding `remote` at `path`: the conflicts over
/// `path` are gone, every other step stays in order, and the chosen copy is
/// appended.
pub open spec fn settled(
    before: Seq<SyncAction>,
    after: Seq<SyncAction>,
    remote: Option<FileInfo>,
    path: Seq<char>,
    resolution: Resolution,
) -> bool {
    let kept = without_conflict(before, path);
    match (resolution, remote) {
        (Resolution::UseTheirs, Some(f)) => after == kept.push(SyncAction::ReceiveFromRemote(f)),
        (Resolution::KeepBoth, Some(f)) => {
            &&& after.len() == kept.len() + 1
            &&& after.take(kept.len() as int) == kept
            &&& after.last() matches SyncAction::ReceiveFromRemote(g) && renamed_remote_copy(g, f, path)
        },
        _ => after == kept,
    }
}

fn is_conflict_for(a: &SyncAction, path: &str) -> (b: bool)
    ensures
        b == conflict_for(*a, path@),
{
    match a {
        SyncAction::Conflict { local, .. } => str_eq(local.relative_path.as_str(), path),
        _ => false,
    }
}

/// The steps of `actions` other than the conflicts over `path`.
pub fn drop_conflicts_for(actions: &Vec<SyncAction>, path: &str) -> (r: Vec<SyncAction>)
    ensures
        r@ == without_conflict(actions@, path@),
{
    let mut r: Vec<SyncAction> = Vec::new();
    let mut i: usize = 0;
    while i < actions.len()
        invariant
            i <= actions.len(),
            r@ == without_conflict(actions@.take(i as int), path@),
        decreases actions.len() - i,
    {
        assert(actions@.take(i + 1).drop_last() =~= actions@.take(i as int));
        if !is_conflict_for(&actions[i], path) {
            r.push(clone_action(&actions[i]));
        }
        i += 1;
    }
    assert(actions@.take(actions.len() as int) =~= actions@);
    r
}

/// The plan once the conflict over `path` is settled with `resolution`.
pub fn settle_conflict(plan: &SyncPlan, remote: Option<FileInfo>, path: &str, resolution: Resolution) -> (r:
    SyncPlan)
    ensures
        r.total_bytes == plan.total_bytes,
        settled(plan.actions@, r.actions@, remote, path@, resolution),
{
    let mut actions = drop_conflicts_for(&plan.actions, path);
    let ghost kept = actions@;
    match resolution {
        Resolution::KeepMine => {},
        Resolution::UseTheirs => {
            if let Some(f) = remote {
                actions.push(SyncAction::ReceiveFromRemote(f));
            }
        },
        Resolution::KeepBoth => {
            if let Some(f) = remote {
                let renamed = FileInfo {
                    relative_path: remote_copy_name(path),
                    size: f.size,
                    hash: f.hash,
                    modified: f.modified,
                    file_type: f.file_type,
                };
                actions.push(SyncAction::ReceiveFromRemote(renamed));
                assert(actions@.take(kept.len() as int) =~= kept);
            }
        },
    }
    SyncPlan { actions, total_bytes: plan.total_bytes }
}

/// What the remote side holds at `path`, as far as its manifest is known.
pub open spec fn remote_entry(state: AppState, path: Seq<char>) -> Option<FileInfo> {
    match state.remote_manifest {
        Some(m) => manifest_entry(m, path),
        None => None,
    }
}

/// Settles the conflict over `path`: refused while a sync runs; otherwise, when a
/// plan exists, its conflicts over `path` are dropped and, for "use theirs" and
/// "keep both", the remote file (renamed with `_remote` for "keep both") is
/// appended to be received. Nothing else changes.
pub fn resolve_conflict(state: &mut AppState, path: &str, resolution: Resolution) -> (r: Result<(), String>)
    ensures
        old(state).is_syncing ==> (r matches Err(e) && e@
            == "Cannot resolve conflicts while sync is in progress"@) && *final(state) == *old(state),
        !old(state).is_syncing ==> r is Ok,
        old(state).is_syncing || old(state).sync_plan is None ==> *final(state) == *old(state),
        !old(state).is_syncing && old(state).sync_plan is Some ==> {
            let p = old(state).sync_plan->0;
            &&& final(state).sync_plan matches Some(q)
            &&& q.total_bytes == p.total_bytes
            &&& settled(p.actions@, q.actions@, remote_entry(*old(state), path@), path@, resolution)
            &&& *final(state) == (AppState { sync_plan: final(state).sync_plan, ..*old(state) })
        },
{
    if state.is_syncing {
        return Err("Cannot resolve conflicts while sync is in progress".to_string());
    }
    let remote_file = match &state.remote_manifest {
        Some(m) => find_file(m, path),
        None => None,
    };
    let new_plan = match &state.sync_plan {
        Some(plan) => Some(settle_conflict(plan, remote_file, path, resolution)),
        None => None,
    };
    if new_plan.is_some() {
        state.sync_plan = new_plan;
    }
    Ok(())
}

/// Dropping the conflicts over a path leaves none of them, and only steps of the
/// plan.
pub proof fn lemma_without_conflict(s: Seq<SyncAction>, path: Seq<char>)
    ensures
        without_conflict(s, path).len() <= s.len(),
        forall|i: int|
            0 <= i < without_conflict(s, path).len() ==> !conflict_for(
                #[trigger] without_conflict(s, path)[i],
                path,
            ),
        forall|i: int|
            0 <= i < without_conflict(s, path).len() ==> s.contains(#[trigger] without_conflict(s, path)[i]),
        forall|j: int| 0 <= j < s.len() && !conflict_for(#[trigger] s[j], path) ==> without_conflict(s, path).contains(s[j]),
    decreases s.len(),
{
    if s.len() > 0 {
        let t = s.drop_last();
        lemma_without_conflict(t, path);
        let r = without_conflict(t, path);
        assert forall|i: int| 0 <= i < r.len() implies s.contains(#[trigger] r[i]) by {
            let k = choose|k: int| 0 <= k < t.len() && t[k] == r[i];
            assert(s[k] == t[k]);
        }
        assert forall|j: int| 0 <= j < s.len() && !conflict_for(#[trigger] s[j], path) implies without_conflict(
            s,
            path,
        ).contains(s[j]) by {
            if j < s.len() - 1 {
                assert(t[j] == s[j]);
                let k = choose|k: int| 0 <= k < r.len() && r[k] == t[j];
                if !conflict_for(s.last(), path) {
                    assert(without_conflict(s, path)[k] == r[k]);
                }
            } else {
                assert(without_conflict(s, path)[r.len() as int] == s[j]);
            }
        }
        if !conflict_for(s.last(), path) {
            assert forall|i: int| 0 <= i < without_conflict(s, path).len() implies s.contains(
                #[trigger] without_conflict(s, path)[i],
            ) by {
                if i < r.len() {
                    assert(without_conflict(s, path)[i] == r[i]);
                } else {
                    assert(s[s.len() - 1] == s.last());
                }
            }
        }
    }
}

/// Settling a conflict leaves no conflict over its path in the plan, and keeps
/// every step of the plan that was not such a conflict.
pub proof fn settled_plan_has_no_conflict_for_path(
    before: Seq<SyncAction>,
    after: Seq<SyncAction>,
    remote: Option<FileInfo>,
    path: Seq<char>,
    resolution: Resolution,
)
    requires
        settled(before, after, remote, path, resolution),
    ensures
        forall|i: int| 0 <= i < after.len() ==> !conflict_for(#[trigger] after[i], path),
        forall|j: int| 0 <= j < before.len() && !conflict_for(#[trigger] before[j], path) ==> after.contains(before[j]),
        after.len() <= before.len() + 1,
{
    lemma_without_conflict(before, path);
    let kept = without_conflict(before, path);
    assert forall|i: int| 0 <= i < after.len() implies !conflict_for(#[trigger] after[i], path) by {
        if i < kept.len() {
            assert(after.take(kept.len() as int)[i] == after[i]);
        }
    }
    assert forall|j: int| 0 <= j < before.len() && !conflict_for(#[trigger] before[j], path) implies after.contains(
        before[j],
    ) by {
        let k = choose|k: int| 0 <= k < kept.len() && kept[k] == before[j];
        assert(after.take(kept.len() as int)[k] == after[k]);
    }
}

/// Settling the same conflict again with "keep mine" leaves the plan as it is.
pub proof fn settling_twice_changes_nothing(before: Seq<SyncAction>, after: Seq<SyncAction>, remote: Option<
    FileInfo,
>, path: Seq<char>, resolution: Resolution, again: Seq<SyncAction>)
    requires
        settled(before, after, remote, path, resolution),
        settled(after, again, remote, path, Resolution::KeepMine),
    ensures
        again == after,
{
    settled_plan_has_no_conflict_for_path(before, after, remote, path, resolution);
    lemma_without_conflict_keeps_clean(after, path);
}

proof fn lemma_without_conflict_keeps_clean(s: Seq<SyncAction>, path: Seq<char>)
    requires
        forall|i: int| 0 <= i < s.len() ==> !conflict_for(#[trigger] s[i], path),
    ensures
        without_conflict(s, path) == s,
    decreases s.len(),
{
    if s.len() > 0 {
        assert forall|i: int| 0 <= i < s.drop_last().len() implies !conflict_for(
            #[trigger] s.drop_last()[i],
            path,
        ) by {
            assert(s.drop_last()[i] == s[i]);
        }
        lemma_without_conflict_keeps_clean(s.drop_last(), path);
        assert(s.drop_last().push(s.last()) =~= s);
    }
}

/// Some step of the plan is a conflict.
pub open spec fn has_conflict(s: Seq<SyncAction>) -> bool {
    exists|i: int| 0 <= i < s.len() && is_conflict(#[trigger] s[i])
}

fn plan_has_conflict(actions: &Vec<SyncAction>) -> (b: bool)
    ensures
        b == has_conflict(actions@),
{
    let mut i: usize = 0;
    while i < actions.len()
        invariant
            i <= actions.len(),
            forall|j: int| 0 <= j < i ==> !is_conflict(#[trigger] actions@[j]),
        decreases actions.len() - i,
    {
        if let SyncAction::Conflict { .. } = &actions[i] {
            return true;
        }
        i += 1;
    }
    false
}

fn clone_plan(p: &SyncPlan) -> (r: SyncPlan)
    ensures
        r.actions@ == p.actions@,
        r.total_bytes == p.total_bytes,
{
    let mut actions: Vec<SyncAction> = Vec::new();
    let mut i: usize = 0;
    while i < p.actions.len()
        invariant
            i <= p.actions.len(),
            actions@ == p.actions@.take(i as int),
        decreases p.actions.len() - i,
    {
        actions.push(clone_action(&p.actions[i]));
        i += 1;
        assert(actions@ =~= p.actions@.take(i as int));
    }
    assert(p.actions@.take(p.actions.len() as int) =~= p.actions@);
    SyncPlan { actions, total_bytes: p.total_bytes }
}

/// Starts running the stored plan. Refused while a sync runs, when no plan is
/// stored, and while the plan holds a conflict (the state is then unchanged); when
/// no game folder is set the plan is used up and the start refused. Otherwise the
/// plan and the game folder are handed out, the plan is used up and the sync is
/// marked as running.
pub fn begin_sync(state: &mut AppState) -> (r: Result<(SyncPlan, String), String>)
    ensures
        old(state).is_syncing ==> (r matches Err(e) && e@ == "Sync is already in progress"@)
            && *final(state) == *old(state),
        !old(state).is_syncing ==> match old(state).sync_plan {
            None => (r matches Err(e) && e@ == "No sync plan computed."@) && *final(state) == *old(state),
            Some(p) => if has_conflict(p.actions@) {
                (r matches Err(e) && e@ == "Resolve all conflicts before syncing"@) && *final(state) == *old(
                    state)
            } else {
                match old(state).sims4_path {
                    None => (r matches Err(e) && e@ == "Sims 4 path not set"@) && *final(state) == (AppState {
                        sync_plan: None,
                        ..*old(state)
                    }),
                    Some(base) => (r matches Ok((q, b)) && q.actions@ == p.actions@ && q.total_bytes == p.total_bytes && b@ == base@) && *final(state) == (AppState {
                        sync_plan: None,
                        is_syncing: true,
                        ..*old(state)
                    }),
                }
            },
        },
{
    if state.is_syncing {
        return Err("Sync is already in progress".to_string());
    }
    let plan = match &state.sync_plan {
        None => {
            return Err("No sync plan computed.".to_string());
        },
        Some(p) => clone_plan(p),
    };
    if plan_has_conflict(&plan.actions) {
        return Err("Resolve all conflicts before syncing".to_string());
    }
    state.sync_plan = None;
    let base = match &state.sims4_path {
        None => {
            return Err("Sims 4 path not set".to_string());
        },
        Some(b) => b.clone(),
    };
    state.is_syncing = true;
    Ok((plan, base))
}

/// Marks the sync as finished, whatever its outcome.
pub fn end_sync(state: &mut AppState)
    ensures
        *final(state) == (AppState { is_syncing: false, ..*old(state) }),
{
    state.is_syncing = false;
}

/// The outcome of a sync run in which `failures` files could not be synced.
pub fn sync_outcome(failures: u64) -> (r: Result<(), String>)
    ensures
        failures == 0 ==> r is Ok,
        failures > 0 ==> (r matches Err(e) && e@ == decimal(failures as nat) + " file(s) failed to sync"@),
{
    if failures == 0 {
        return Ok(());
    }
    let mut e = decimal_string(failures);
    e.append(" file(s) failed to sync");
    Err(e)
}

/// The check before a sync plan is computed: files must have been scanned, and a
/// remote manifest must be known.
pub fn check_plan_inputs(state: &AppState) -> (r: Result<(), String>)
    ensures
        state.local_manifest.files@.len() == 0 ==> (r matches Err(e) && e@
            == "No files scanned. Scan your files first."@),
        state.local_manifest.files@.len() > 0 && state.remote_manifest is None ==> (r matches Err(e) && e@
            == "No remote manifest available. Connect to a peer first."@),
        r is Ok <==> state.local_manifest.files@.len() > 0 && state.remote_manifest is Some,
{
    if state.local_manifest.files.len() == 0 {
        return Err("No files scanned. Scan your files first.".to_string());
    }
    if state.remote_manifest.is_none() {
        return Err("No remote manifest available. Connect to a peer first.".to_string());
    }
    Ok(())
}

/// What running one step of a plan asks of the outside: fetch a file from the peer,
/// report a file the peer fetches from us (with its size), delete a file of the game
/// folder, or nothing (a conflict is skipped).
#[derive(Debug)]
pub enum SyncStep {
    Receive(String),
    Send(String, u64),
    Delete(String),
    Skip,
}

/// How the outside work of a step went: done, failed with a message, or (for a
/// deletion) refused because the path leaves the game folder.
#[derive(Debug)]
pub enum StepOutcome {
    Done,
    Failed(String),
    Rejected(String),
}

/// The step that a plan action asks for.
pub open spec fn step_of(a: SyncAction) -> SyncStep {
    match a {
        SyncAction::ReceiveFromRemote(f) => SyncStep::Receive(f.relative_path),
        SyncAction::SendToRemote(f) => SyncStep::Send(f.relative_path, f.size),
        SyncAction::Delete(p) => SyncStep::Delete(p),
        SyncAction::Conflict { .. } => SyncStep::Skip,
    }
}

/// A running sync: the index of the next action, the number of files done, and the
/// messages of the failures so far.
pub struct SyncRun {
    pub next: usize,
    pub done: u64,
    pub errors: Vec<String>,
}

/// The run is within its plan: it has not gone past the last action, and no more
/// files are done than actions were run.
pub open spec fn run_ok(run: SyncRun, plan: SyncPlan) -> bool {
    run.next <= plan.actions@.len() && run.done <= run.next
}

/// A run that has not started.
pub fn start_run() -> (r: SyncRun)
    ensures
        r.next == 0,
        r.done == 0,
        r.errors@.len() == 0,
{
    SyncRun { next: 0, done: 0, errors: Vec::new() }
}

/// The step of the next action of the plan, or nothing when every action has run.
pub fn next_step(plan: &SyncPlan, run: &SyncRun) -> (r: Option<SyncStep>)
    ensures
        run.next < plan.actions@.len() ==> r == Some(step_of(plan.actions@[run.next as int])),
        run.next >= plan.actions@.len() ==> r is None,
{
    if run.next >= plan.actions.len() {
        return None;
    }
    match &plan.actions[run.next] {
        SyncAction::ReceiveFromRemote(f) => Some(SyncStep::Receive(f.relative_path.clone())),
        SyncAction::SendToRemote(f) => Some(SyncStep::Send(f.relative_path.clone(), f.size)),
        SyncAction::Delete(p) => Some(SyncStep::Delete(p.clone())),
        SyncAction::Conflict { .. } => Some(SyncStep::Skip),
    }
}

/// The failure message a step records for an outcome, if any: a failed fetch names
/// the file; a failed or refused deletion says so.
pub open spec fn failure_message(step: SyncStep, outcome: StepOutcome) -> Option<Seq<char>> {
    match (step, outcome) {
        (SyncStep::Receive(p), StepOutcome::Failed(e)) => Some(p@ + ": "@ + e@),
        (SyncStep::Receive(p), StepOutcome::Rejected(e)) => Some(p@ + ": "@ + e@),
        (SyncStep::Delete(p), StepOutcome::Failed(e)) => Some("Delete "@ + p@ + ": "@ + e@),
        (SyncStep::Delete(p), StepOutcome::Rejected(e)) => Some("Delete "@ + p@ + ": path rejected: "@ + e@),
        _ => None,
    }
}

/// Whether a step counts as a file done: a fetch that worked, every reported send,
/// and every deletion, whether it worked or not.
pub open spec fn counts_as_done(step: SyncStep, outcome: StepOutcome) -> bool {
    match step {
        SyncStep::Receive(_) => outcome is Done,
        SyncStep::Send(_, _) => true,
        SyncStep::Delete(_) => true,
        SyncStep::Skip => false,
    }
}

/// Records how the next action of the plan went and moves on to the one after it.
pub fn record_step(plan: &SyncPlan, run: &mut SyncRun, outcome: StepOutcome)
    requires
        run_ok(*old(run), *plan),
        old(run).next < plan.actions@.len(),
    ensures
        run_ok(*final(run), *plan),
        final(run).next == old(run).next + 1,
        ({
            let step = step_of(plan.actions@[old(run).next as int]);
            &&& final(run).done == old(run).done + if counts_as_done(step, outcome) { 1int } else { 0int }
            &&& match failure_message(step, outcome) {
                Some(m) => final(run).errors@.len() == old(run).errors@.len() + 1 && final(run).errors@.drop_last()
                    == old(run).errors@ && final(run).errors@.last()@ == m,
                None => final(run).errors@ == old(run).errors@,
            }
        }),
{
    let step = match next_step(plan, run) {
        Some(s) => s,
        None => {
            return;
        },
    };
    let actions_len = plan.actions.len();
    assert(run.next < actions_len);
    let counted = match (&step, &outcome) {
        (SyncStep::Receive(_), StepOutcome::Done) => true,
        (SyncStep::Receive(_), _) => false,
        (SyncStep::Skip, _) => false,
        _ => true,
    };
    let message: Option<String> = match (&step, &outcome) {
        (SyncStep::Receive(p), StepOutcome::Failed(e)) => Some(concat3(p.as_str(), ": ", e.as_str())),
        (SyncStep::Receive(p), StepOutcome::Rejected(e)) => Some(concat3(p.as_str(), ": ", e.as_str())),
        (SyncStep::Delete(p), StepOutcome::Failed(e)) => {
            let mut m = concat3("Delete ", p.as_str(), ": ");
            m.append(e.as_str());
            Some(m)
        },
        (SyncStep::Delete(p), StepOutcome::Rejected(e)) => {
            let mut m = concat3("Delete ", p.as_str(), ": path rejected: ");
            m.append(e.as_str());
            Some(m)
        },
        _ => None,
    };
    if let Some(m) = message {
        run.errors.push(m);
    }
    if counted {
        run.done = run.done + 1;
    }
    run.next = run.next + 1;
}

/// The outcome of a finished run: every action ran; it failed when any file did.
pub fn finish_run(plan: &SyncPlan, run: &SyncRun) -> (r: Result<(), String>)
    requires
        run.next == plan.actions@.len(),
    ensures
        run.errors@.len() == 0 ==> r is Ok,
        run.errors@.len() > 0 ==> (r matches Err(e) && e@ == decimal(run.errors@.len()) + " file(s) failed to sync"@),
{
    sync_outcome(run.errors.len() as u64)
}

} // verus!
