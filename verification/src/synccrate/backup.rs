//! Backups of a game's content folders: labels, summaries, which automatic backups
//! to prune, and where restored files go.
use vstd::prelude::*;
use vstd::utf8::encode_utf8;
use crate::order::{oldest_first, same_order_per_time, sort_newest_first, sort_oldest_first, newest_first, Dated};
use crate::paths::{has_parent_dir, has_parent_dir_component, is_absolute, is_absolute_spec, join_path, path_join};
use crate::synccrate::files::{game_label, game_label_spec, lookup, resolve_game, resolved_game, set_value, target_game, target_game_id, value_of, AppState};
use crate::synccrate::registry::{clone_content_types, first_game_index, get_game_def, same_content_types};
use crate::synccrate::registry::ContentType;
use crate::digest::{is_hyphenated_id, new_random_id};
use crate::simsync::profiles::lemma_hyphenated_id_is_valid;
use crate::simsync::utils::valid_id;
use crate::text::{concat2, concat3, copy_str, decimal, has_control, str_eq, str_has_control, trim, trim_spec};

verus! {

/// Backups stop once they would hold more files than this.
pub const MAX_BACKUP_FILES: usize = 100000;

/// Labels are at most this many bytes long.
pub const MAX_BACKUP_LABEL_LEN: usize = 128;

/// What a backup holds.
#[derive(Debug, Clone)]
pub struct BackupInfo {
    pub id: String,
    pub created_at: u64,
    pub label: String,
    pub file_count: usize,
    pub total_size: u64,
    pub mods_count: usize,
    pub saves_count: usize,
    pub tray_count: usize,
    pub screenshots_count: usize,
    pub game: String,
    pub auto: bool,
}

/// One file of a backup: its path within its category folder, its size and its
/// category.
#[derive(Debug, Clone)]
pub struct BackupFileEntry {
    pub relative_path: String,
    pub size: u64,
    pub category: String,
}

impl Dated for BackupInfo {
    open spec fn created(&self) -> u64 {
        self.created_at
    }

    fn created_at_value(&self) -> (r: u64) {
        self.created_at
    }
}

/// A fresh random identifier for a new backup; it can name the backup's folder.
pub fn new_backup_id() -> (r: String)
    ensures
        is_hyphenated_id(r@),
        valid_id(r@),
{
    let id = new_random_id();
    proof {
        lemma_hyphenated_id_is_valid(id@);
    }
    id
}

/// The game a backup without a game entry belongs to.
pub fn default_game() -> (s: String)
    ensures
        s@ == "sims4"@,
{
    "sims4".to_string()
}

/// A label is used trimmed; it must then be 1 to 128 bytes long and free of
/// control characters.
pub open spec fn label_ok(label: Seq<char>) -> bool {
    let t = trim_spec(label);
    t.len() > 0 && encode_utf8(t).len() <= MAX_BACKUP_LABEL_LEN && !has_control(t)
}

/// Why a label is refused: its trimmed length first, then control characters.
pub open spec fn label_error(label: Seq<char>) -> Seq<char> {
    let t = trim_spec(label);
    if t.len() == 0 || encode_utf8(t).len() > MAX_BACKUP_LABEL_LEN {
        "Label must be 1-128 characters"@
    } else {
        "Label contains invalid characters"@
    }
}

/// Checks a backup label and gives it trimmed.
pub fn validate_backup_label(label: &str) -> (r: Result<String, String>)
    ensures
        label_ok(label@) ==> (r matches Ok(s) && s@ == trim_spec(label@)),
        !label_ok(label@) ==> (r matches Err(e) && e@ == label_error(label@)),
{
    let t = trim(label);
    if t.as_str().is_empty() || t.as_str().as_bytes().len() > MAX_BACKUP_LABEL_LEN {
        return Err("Label must be 1-128 characters".to_string());
    }
    if str_has_control(t.as_str()) {
        return Err("Label contains invalid characters".to_string());
    }
    Ok(t)
}

/// The label of an automatic backup.
pub fn auto_backup_label(prefix: &str, now: &str) -> (r: String)
    ensures
        r@ == "Auto: "@ + prefix@ + " "@ + now@,
{
    let mut r = concat2("Auto: ", prefix);
    r.append(" ");
    r.append(now);
    r
}

/// A decimal digit.
pub open spec fn is_digit(c: char) -> bool {
    '0' <= c && c <= '9'
}

/// A date and time to the minute as `%Y-%m-%d %H:%M` writes it: a year of at least
/// four characters ending in four digits, then `-MM-DD HH:MM` in two-digit fields.
pub open spec fn is_minute_stamp(s: Seq<char>) -> bool {
    let n = s.len() as int;
    &&& n >= 16
    &&& forall|k: int| n - 16 <= k < n - 12 ==> is_digit(#[trigger] s[k])
    &&& s[n - 12] == '-' && s[n - 9] == '-' && s[n - 6] == ' ' && s[n - 3] == ':'
    &&& is_digit(s[n - 11]) && is_digit(s[n - 10]) && is_digit(s[n - 8]) && is_digit(s[n - 7])
    &&& is_digit(s[n - 5]) && is_digit(s[n - 4]) && is_digit(s[n - 2]) && is_digit(s[n - 1])
}

/// `chrono::Local::now().format("%Y-%m-%d %H:%M")`: the local date and time to the
/// minute, in that format (chrono pads the year to four digits, with a sign outside
/// 0 to 9999, and each other field to two). Which date and time it gives depends on
/// the clock and the time zone.
#[verifier::external_body]
pub(crate) fn local_minute_stamp() -> (r: String)
    ensures
        is_minute_stamp(r@),
{
    chrono::Local::now().format("%Y-%m-%d %H:%M").to_string()
}

/// The label of the backup taken before restoring the backup labelled `label`.
pub fn safety_backup_label(label: &str) -> (r: String)
    ensures
        r@ == "Pre-restore safety backup ("@ + label@ + ")"@,
{
    concat3("Pre-restore safety backup (", label, ")")
}

/// The number recorded for category `cat`: the last count given for it, or 0.
pub open spec fn count_for(counts: Seq<(String, usize)>, cat: Seq<char>) -> usize
    decreases counts.len(),
{
    if counts.len() == 0 {
        0
    } else if counts.last().0@ == cat {
        counts.last().1
    } else {
        count_for(counts.drop_last(), cat)
    }
}

fn count_lookup(counts: &Vec<(String, usize)>, cat: &str) -> (r: usize)
    ensures
        r == count_for(counts@, cat@),
{
    let mut k: usize = counts.len();
    assert(counts@.subrange(0, k as int) =~= counts@);
    while k > 0
        invariant
            k <= counts.len(),
            count_for(counts@, cat@) == count_for(counts@.subrange(0, k as int), cat@),
        decreases k,
    {
        assert(counts@.subrange(0, k as int).last() == counts@[k - 1]);
        assert(counts@.subrange(0, k as int).drop_last() =~= counts@.subrange(0, k - 1));
        if str_eq(counts[k - 1].0.as_str(), cat) {
            return counts[k - 1].1;
        }
        k -= 1;
    }
    0
}

/// The total size of the files of a backup.
pub open spec fn total_size_of(entries: Seq<BackupFileEntry>) -> int
    decreases entries.len(),
{
    if entries.len() == 0 {
        0
    } else {
        total_size_of(entries.drop_last()) + entries.last().size
    }
}

proof fn lemma_total_size_monotone(entries: Seq<BackupFileEntry>, i: int)
    requires
        0 <= i <= entries.len(),
    ensures
        0 <= total_size_of(entries.take(i)) <= total_size_of(entries),
    decreases entries.len() - i,
{
    if i < entries.len() {
        lemma_total_size_monotone(entries, i + 1);
        assert(entries.take(i + 1).drop_last() =~= entries.take(i));
    } else {
        assert(entries.take(i) =~= entries);
    }
    lemma_total_size_nonneg(entries.take(i));
}

proof fn lemma_total_size_nonneg(entries: Seq<BackupFileEntry>)
    ensures
        total_size_of(entries) >= 0,
    decreases entries.len(),
{
    if entries.len() > 0 {
        lemma_total_size_nonneg(entries.drop_last());
    }
}

/// The summary of a backup: its files' number and total size, and the files of
/// each of the usual categories (`mods`, `saves`, `tray`, `screenshots`) as
/// counted when each category was copied.
pub fn summarize_backup(
    id: String,
    created_at: u64,
    label: String,
    game: String,
    auto: bool,
    category_counts: &Vec<(String, usize)>,
    entries: &Vec<BackupFileEntry>,
) -> (r: BackupInfo)
    requires
        total_size_of(entries@) <= u64::MAX,
    ensures
        r.id == id,
        r.created_at == created_at,
        r.label == label,
        r.game == game,
        r.auto == auto,
        r.file_count == entries@.len(),
        r.total_size == total_size_of(entries@),
        r.mods_count == count_for(category_counts@, "mods"@),
        r.saves_count == count_for(category_counts@, "saves"@),
        r.tray_count == count_for(category_counts@, "tray"@),
        r.screenshots_count == count_for(category_counts@, "screenshots"@),
{
    let mut total: u64 = 0;
    let mut i: usize = 0;
    while i < entries.len()
        invariant
            i <= entries.len(),
            total == total_size_of(entries@.take(i as int)),
            total_size_of(entries@) <= u64::MAX,
        decreases entries.len() - i,
    {
        assert(entries@.take(i + 1).drop_last() =~= entries@.take(i as int));
        proof {
            lemma_total_size_monotone(entries@, i + 1);
        }
        total = total + entries[i].size;
        i += 1;
    }
    assert(entries@.take(entries.len() as int) =~= entries@);
    BackupInfo {
        id,
        created_at,
        label,
        file_count: entries.len(),
        total_size: total,
        mods_count: count_lookup(category_counts, "mods"),
        saves_count: count_lookup(category_counts, "saves"),
        tray_count: count_lookup(category_counts, "tray"),
        screenshots_count: count_lookup(category_counts, "screenshots"),
        game,
        auto,
    }
}

/// The folders a backup copies: each content type's identifier with its folder
/// below the game folder, in order.
pub open spec fn backup_sources_spec(base: Seq<char>, cts: Seq<ContentType>, i: int) -> (Seq<char>, Seq<char>) {
    (cts[i].id@, path_join(base, cts[i].folder@))
}

/// The folders a backup copies, by category.
pub fn backup_sources(base: &str, content_types: &Vec<ContentType>) -> (r: Vec<(String, String)>)
    ensures
        r@.len() == content_types@.len(),
        forall|i: int|
            0 <= i < r@.len() ==> ((#[trigger] r@[i]).0@, r@[i].1@) == backup_sources_spec(
                base@,
                content_types@,
                i,
            ),
{
    let mut r: Vec<(String, String)> = Vec::new();
    let mut i: usize = 0;
    while i < content_types.len()
        invariant
            i <= content_types.len(),
            r@.len() == i,
            forall|j: int|
                0 <= j < i ==> ((#[trigger] r@[j]).0@, r@[j].1@) == backup_sources_spec(base@, content_types@, j),
        decreases content_types.len() - i,
    {
        let ct = &content_types[i];
        r.push((ct.id.clone(), join_path(base, ct.folder.as_str())));
        i += 1;
    }
    r
}

/// Where a file found at `rel` below a category folder is copied in the backup
/// folder: `rel` below the category's subfolder. Nothing for a path with a `..`
/// component.
pub fn backup_destination(backup_dir: &str, category: &str, rel: &str) -> (r: Option<String>)
    ensures
        has_parent_dir(rel@) ==> r is None,
        !has_parent_dir(rel@) ==> (r matches Some(p) && p@ == path_join(path_join(backup_dir@, category@), rel@)),
{
    if has_parent_dir_component(rel) {
        return None;
    }
    let dir = join_path(backup_dir, category);
    Some(join_path(dir.as_str(), rel))
}

/// The check after each copied file: a backup may hold at most 100000 files.
pub fn check_backup_size(copied: usize) -> (r: Result<(), String>)
    ensures
        copied <= MAX_BACKUP_FILES ==> r is Ok,
        copied > MAX_BACKUP_FILES ==> (r matches Err(e) && e@ == "Too many files (>100000). Aborting backup."@),
{
    if copied > MAX_BACKUP_FILES {
        return Err("Too many files (>100000). Aborting backup.".to_string());
    }
    Ok(())
}

/// The backups, newest first; backups of the same time keep their order.
pub fn sort_backups(backups: Vec<BackupInfo>) -> (r: Vec<BackupInfo>)
    ensures
        r@.to_multiset() == backups@.to_multiset(),
        newest_first(r@),
        same_order_per_time(r@, backups@),
{
    sort_newest_first(backups)
}

/// An automatic backup of the game `game`.
pub open spec fn prunable(b: BackupInfo, game: Seq<char>) -> bool {
    b.auto && b.game@ == game
}

/// The automatic backups of `game`, in list order.
pub open spec fn auto_backups_of(bs: Seq<BackupInfo>, game: Seq<char>) -> Seq<BackupInfo>
    decreases bs.len(),
{
    if bs.len() == 0 {
        Seq::empty()
    } else {
        let r = auto_backups_of(bs.drop_last(), game);
        if prunable(bs.last(), game) {
            r.push(bs.last())
        } else {
            r
        }
    }
}

/// `ids` are the backups to delete so that at most `max_count` automatic backups
/// of `game` remain: the identifiers of the first ones of the automatic backups
/// ordered oldest first (those of the same time in list order), as many as exceed
/// `max_count`.
pub open spec fn prune_choice(bs: Seq<BackupInfo>, game: Seq<char>, max_count: int, ids: Seq<Seq<char>>) -> bool {
    let autos = auto_backups_of(bs, game);
    exists|ordered: Seq<BackupInfo>|
        {
            &&& #[trigger] ordered.to_multiset() == autos.to_multiset()
            &&& oldest_first(ordered)
            &&& same_order_per_time(ordered, autos)
            &&& ids.len() == if autos.len() > max_count { autos.len() - max_count } else { 0 }
            &&& forall|k: int| 0 <= k < ids.len() ==> #[trigger] ids[k] == ordered[k].id@
        }
}

fn is_prunable(b: &BackupInfo, game: &str) -> (r: bool)
    ensures
        r == prunable(*b, game@),
{
    b.auto && str_eq(b.game.as_str(), game)
}

fn clone_backup_info(b: &BackupInfo) -> (r: BackupInfo)
    ensures
        r == *b,
{
    BackupInfo {
        id: b.id.clone(),
        created_at: b.created_at,
        label: b.label.clone(),
        file_count: b.file_count,
        total_size: b.total_size,
        mods_count: b.mods_count,
        saves_count: b.saves_count,
        tray_count: b.tray_count,
        screenshots_count: b.screenshots_count,
        game: b.game.clone(),
        auto: b.auto,
    }
}

/// The automatic backups of `game` to delete so that at most `max_count` remain,
/// oldest first.
pub fn auto_backups_to_prune(backups: &Vec<BackupInfo>, game: &str, max_count: usize) -> (r: Vec<String>)
    ensures
        prune_choice(backups@, game@, max_count as int, r@.map_values(|s: String| s@)),
{
    let mut autos: Vec<BackupInfo> = Vec::new();
    let mut n: usize = 0;
    while n < backups.len()
        invariant
            n <= backups.len(),
            autos@ == auto_backups_of(backups@.take(n as int), game@),
        decreases backups.len() - n,
    {
        assert(backups@.take(n + 1).drop_last() =~= backups@.take(n as int));
        if is_prunable(&backups[n], game) {
            autos.push(clone_backup_info(&backups[n]));
        }
        n += 1;
    }
    assert(backups@.take(backups.len() as int) =~= backups@);
    let ghost all = autos@;
    let ordered = sort_oldest_first(autos);
    let count = if ordered.len() > max_count { ordered.len() - max_count } else { 0 };
    let mut r: Vec<String> = Vec::new();
    let mut k: usize = 0;
    while k < count
        invariant
            k <= count <= ordered.len(),
            r@.len() == k,
            forall|j: int| 0 <= j < k ==> (#[trigger] r@[j])@ == ordered@[j].id@,
        decreases count - k,
    {
        r.push(ordered[k].id.clone());
        k += 1;
    }
    let ghost ids = r@.map_values(|s: String| s@);
    assert(ordered@.to_multiset() == all.to_multiset());
    assert(ordered@.len() == all.len()) by {
        ordered@.to_multiset_ensures();
        all.to_multiset_ensures();
    }
    assert(ids.len() == if all.len() > max_count { all.len() - max_count } else { 0 });
    assert(forall|j: int| 0 <= j < ids.len() ==> #[trigger] ids[j] == ordered@[j].id@);
    r
}

/// Pruning leaves exactly `max_count` automatic backups when there were more, and
/// deletes only backups no newer than every one it keeps.
pub proof fn pruning_keeps_the_newest(ordered: Seq<BackupInfo>, max_count: int, ids: Seq<Seq<char>>)
    requires
        oldest_first(ordered),
        max_count >= 0,
        ids.len() == if ordered.len() > max_count { ordered.len() - max_count } else { 0 },
        forall|k: int| 0 <= k < ids.len() ==> #[trigger] ids[k] == ordered[k].id@,
    ensures
        ordered.len() - ids.len() == if ordered.len() > max_count { max_count } else { ordered.len() as int },
        forall|i: int, j: int| 0 <= i < ids.len() <= j < ordered.len() ==> (#[trigger] ordered[i]).created_at <= (
        #[trigger] ordered[j]).created_at,
{
    assert forall|i: int, j: int| 0 <= i < ids.len() <= j < ordered.len() implies (#[trigger] ordered[i]).created_at
        <= (#[trigger] ordered[j]).created_at by {
        assert(ordered[i].created() <= ordered[j].created());
    }
}

/// The folder each category of a backup is restored into: each content type's
/// folder below the game folder (a repeated identifier keeps its last folder);
/// `mods` falls back to the first content type's folder.
pub open spec fn restore_dir_spec(base: Seq<char>, cts: Seq<ContentType>, cat: Seq<char>) -> Option<Seq<char>> {
    match last_ct_index(cts, cat) {
        Some(k) => Some(path_join(base, cts[k].folder@)),
        None => if cat == "mods"@ && cts.len() > 0 {
            Some(path_join(base, cts[0].folder@))
        } else {
            None
        },
    }
}

/// The position of the last content type with identifier `id`.
pub open spec fn last_ct_index(cts: Seq<ContentType>, id: Seq<char>) -> Option<int>
    decreases cts.len(),
{
    if cts.len() == 0 {
        None
    } else if cts.last().id@ == id {
        Some(cts.len() - 1)
    } else {
        last_ct_index(cts.drop_last(), id)
    }
}

proof fn lemma_last_ct_index(cts: Seq<ContentType>, id: Seq<char>)
    ensures
        last_ct_index(cts, id) matches Some(k) ==> 0 <= k < cts.len() && cts[k].id@ == id,
    decreases cts.len(),
{
    if cts.len() > 0 && cts.last().id@ != id {
        lemma_last_ct_index(cts.drop_last(), id);
    }
}

/// `dirs` maps each category to the folder it is restored into.
pub open spec fn restore_map_ok(dirs: Seq<(String, String)>, base: Seq<char>, cts: Seq<ContentType>) -> bool {
    forall|cat: Seq<char>|
        match (#[trigger] value_of(dirs, cat), restore_dir_spec(base, cts, cat)) {
            (Some(d), Some(e)) => d@ == e,
            (None, None) => true,
            _ => false,
        }
}

/// The folders the categories of a backup are restored into.
pub fn restore_dirs(base: &str, content_types: &Vec<ContentType>) -> (r: Vec<(String, String)>)
    ensures
        restore_map_ok(r@, base@, content_types@),
{
    let mut r: Vec<(String, String)> = Vec::new();
    let mut i: usize = 0;
    while i < content_types.len()
        invariant
            i <= content_types.len(),
            forall|cat: Seq<char>|
                match (#[trigger] value_of(r@, cat), last_ct_index(content_types@.take(i as int), cat)) {
                    (Some(d), Some(k)) => d@ == path_join(base@, content_types@[k].folder@),
                    (None, None) => true,
                    _ => false,
                },
        decreases content_types.len() - i,
    {
        let ct = &content_types[i];
        let ghost before = r@;
        let ghost pre = content_types@.take(i as int);
        let ghost post = content_types@.take(i + 1);
        assert(post.drop_last() =~= pre);
        assert(post.last() == content_types@[i as int]);
        set_value(&mut r, ct.id.clone(), join_path(base, ct.folder.as_str()));
        assert forall|cat: Seq<char>|
            match (#[trigger] value_of(r@, cat), last_ct_index(post, cat)) {
                (Some(d), Some(k)) => d@ == path_join(base@, content_types@[k].folder@),
                (None, None) => true,
                _ => false,
            } by {
            lemma_last_ct_index(pre, cat);
            if cat != content_types@[i as int].id@ {
                assert(value_of(r@, cat) == value_of(before, cat));
                assert(last_ct_index(post, cat) == last_ct_index(pre, cat));
                if let Some(k) = last_ct_index(pre, cat) {
                    assert(pre[k] == content_types@[k]);
                }
            }
        }
        i += 1;
    }
    assert(content_types@.take(content_types.len() as int) =~= content_types@);
    if lookup(&r, "mods").is_none() && content_types.len() > 0 {
        let ghost before = r@;
        set_value(&mut r, "mods".to_string(), join_path(base, content_types[0].folder.as_str()));
        assert forall|cat: Seq<char>|
            match (#[trigger] value_of(r@, cat), restore_dir_spec(base@, content_types@, cat)) {
                (Some(d), Some(e)) => d@ == e,
                (None, None) => true,
                _ => false,
            } by {
            if cat != "mods"@ {
                assert(value_of(r@, cat) == value_of(before, cat));
            }
        }
    }
    r
}

/// Where a backed-up file is restored from and to: from its category subfolder
/// of the backup folder to the category's folder. Nothing for an absolute path,
/// a path with a `..` component, or a category with no folder.
pub open spec fn restore_step_spec(
    backup_dir: Seq<char>,
    dirs: Seq<(String, String)>,
    entry: BackupFileEntry,
) -> Option<(Seq<char>, Seq<char>)> {
    let rel = entry.relative_path@;
    if is_absolute_spec(rel) || has_parent_dir(rel) {
        None
    } else {
        match value_of(dirs, entry.category@) {
            Some(d) => Some((path_join(path_join(backup_dir, entry.category@), rel), path_join(d@, rel))),
            None => None,
        }
    }
}

/// Where a backed-up file is restored from and to.
pub fn restore_step(backup_dir: &str, dirs: &Vec<(String, String)>, entry: &BackupFileEntry) -> (r: Option<
    (String, String),
>)
    ensures
        match (r, restore_step_spec(backup_dir@, dirs@, *entry)) {
            (Some((a, b)), Some((c, d))) => a@ == c && b@ == d,
            (None, None) => true,
            _ => false,
        },
{
    let rel = entry.relative_path.as_str();
    if is_absolute(rel) || has_parent_dir_component(rel) {
        return None;
    }
    match lookup(dirs, entry.category.as_str()) {
        None => None,
        Some(d) => {
            let cat_dir = join_path(backup_dir, entry.category.as_str());
            Some((join_path(cat_dir.as_str(), rel), join_path(d.as_str(), rel)))
        },
    }
}

/// The game a backup is restored for: the game its manifest names, resolved
/// against the registry, or `sims4` when that name is unknown.
pub fn restore_game(state: &AppState, manifest_game: &str) -> (r: String)
    ensures
        match resolved_game(state.game_registry.games@, manifest_game@) {
            Some(t) => r@ == t,
            None => r@ == "sims4"@,
        },
{
    match resolve_game(state, manifest_game) {
        Ok(id) => id,
        Err(_) => "sims4".to_string(),
    }
}

} // verus!

verus! {

/// A label that passed the check passes it again unchanged.
pub proof fn validated_label_is_stable(label: Seq<char>)
    requires
        label_ok(label),
    ensures
        label_ok(trim_spec(label)),
        trim_spec(trim_spec(label)) == trim_spec(label),
{
    crate::text::trim_is_idempotent(label);
}

/// The content types of a game, or none when the registry does not know it.
pub open spec fn content_types_of(games: Seq<crate::synccrate::registry::GameDefinition>, id: Seq<char>) -> Seq<ContentType> {
    let k = first_game_index(games, id);
    if k >= 0 {
        games[k].content_types@
    } else {
        Seq::empty()
    }
}

fn content_types_for(state: &AppState, game_id: &str) -> (r: Vec<ContentType>)
    ensures
        same_content_types(r@, content_types_of(state.game_registry.games@, game_id@)),
{
    match get_game_def(&state.game_registry, game_id) {
        Some(def) => clone_content_types(&def.content_types),
        None => Vec::new(),
    }
}

/// What a backup of a game needs: the trimmed label, the game, its folder and its
/// content types.
pub struct BackupRequest {
    pub label: String,
    pub game_id: String,
    pub base: String,
    pub content_types: Vec<ContentType>,
}

/// Checks a backup request: the label must pass, the game name must be known (the
/// active game when none is named), and the game's folder must be set.
pub fn backup_request(state: &AppState, label: &str, game: &Option<String>) -> (r: Result<BackupRequest, String>)
    ensures
        !label_ok(label@) ==> (r matches Err(e) && e@ == label_error(label@)),
        label_ok(label@) ==> match target_game(*state, *game) {
            None => r matches Err(e) && e@ == "Unknown game: "@ + game->0@,
            Some(id) => match value_of(state.game_paths@, id) {
                None => r matches Err(e) && e@ == game_label_spec(state.game_registry.games@, id) + " path not set"@,
                Some(base) => r matches Ok(req) && req.label@ == trim_spec(label@) && req.game_id@ == id && req.base
                    == base && same_content_types(req.content_types@, content_types_of(state.game_registry.games@, id)),
            },
        },
{
    let label = validate_backup_label(label)?;
    let game_id = target_game_id(state, game)?;
    let base = match lookup(&state.game_paths, game_id.as_str()) {
        Some(p) => p,
        None => {
            let l = game_label(state, game_id.as_str());
            return Err(concat2(l.as_str(), " path not set"));
        },
    };
    let content_types = content_types_for(state, game_id.as_str());
    Ok(BackupRequest { label, game_id, base, content_types })
}

/// Checks an automatic backup of the active game: its folder must be set. The
/// label is `Auto: `, the prefix, a space and the local date and time to the minute
/// (see [`local_minute_stamp`], which reads the clock).
pub fn auto_backup_request(state: &AppState, label_prefix: &str) -> (r: Result<BackupRequest, String>)
    ensures
        match value_of(state.game_paths@, state.active_game@) {
            None => r matches Err(e) && e@ == "Game path not set"@,
            Some(base) => r matches Ok(req) && (exists|now: Seq<char>|
                is_minute_stamp(now) && req.label@ == "Auto: "@ + label_prefix@ + " "@ + now)
                && req.game_id == state.active_game && req.base == base && same_content_types(
                req.content_types@,
                content_types_of(state.game_registry.games@, state.active_game@),
            ),
        },
{
    let base = match lookup(&state.game_paths, state.active_game.as_str()) {
        Some(p) => p,
        None => {
            return Err("Game path not set".to_string());
        },
    };
    let content_types = content_types_for(state, state.active_game.as_str());
    let now = local_minute_stamp();
    let label = auto_backup_label(label_prefix, now.as_str());
    Ok(BackupRequest { label, game_id: state.active_game.clone(), base, content_types })
}

/// Where a backup of the game `manifest_game` is restored: the game (see
/// [`restore_game`]), its folder, and the folder of each category; an error names
/// the game when its folder is not set.
pub fn restore_request(state: &AppState, manifest_game: &str) -> (r: Result<(String, Vec<(String, String)>), String>)
    ensures
        ({
            let id = match resolved_game(state.game_registry.games@, manifest_game@) {
                Some(t) => t,
                None => "sims4"@,
            };
            match value_of(state.game_paths@, id) {
                None => r matches Err(e) && e@ == game_label_spec(state.game_registry.games@, id)
                    + " path not set. Configure it before restoring this backup."@,
                Some(base) => r matches Ok((g, dirs)) && g@ == id && restore_map_ok(dirs@, base@, content_types_of(
                    state.game_registry.games@,
                    id,
                )),
            }
        }),
{
    let game_id = restore_game(state, manifest_game);
    let base = match lookup(&state.game_paths, game_id.as_str()) {
        Some(p) => p,
        None => {
            let l = game_label(state, game_id.as_str());
            return Err(concat2(l.as_str(), " path not set. Configure it before restoring this backup."));
        },
    };
    let cts = content_types_for(state, game_id.as_str());
    let dirs = restore_dirs(base.as_str(), &cts);
    proof {
        lemma_restore_map_same(dirs@, base@, cts@, content_types_of(state.game_registry.games@, game_id@));
    }
    Ok((game_id, dirs))
}

proof fn lemma_restore_map_same(dirs: Seq<(String, String)>, base: Seq<char>, a: Seq<ContentType>, b: Seq<ContentType>)
    requires
        restore_map_ok(dirs, base, a),
        same_content_types(a, b),
    ensures
        restore_map_ok(dirs, base, b),
{
    assert forall|cat: Seq<char>| #[trigger] restore_dir_spec(base, a, cat) == restore_dir_spec(base, b, cat) by {
        lemma_last_ct_index_same(a, b, cat);
        if a.len() > 0 {
            assert(crate::synccrate::registry::same_content_type(a[0], b[0]));
        }
        if let Some(k) = last_ct_index(a, cat) {
            lemma_last_ct_index(a, cat);
            assert(crate::synccrate::registry::same_content_type(a[k], b[k]));
        }
    }
    assert forall|cat: Seq<char>|
        match (#[trigger] value_of(dirs, cat), restore_dir_spec(base, b, cat)) {
            (Some(d), Some(e)) => d@ == e,
            (None, None) => true,
            _ => false,
        } by {
        assert(restore_dir_spec(base, a, cat) == restore_dir_spec(base, b, cat));
    }
}

proof fn lemma_last_ct_index_same(a: Seq<ContentType>, b: Seq<ContentType>, cat: Seq<char>)
    requires
        same_content_types(a, b),
    ensures
        last_ct_index(a, cat) == last_ct_index(b, cat),
    decreases a.len(),
{
    if a.len() > 0 {
        assert(crate::synccrate::registry::same_content_type(a[a.len() - 1], b[b.len() - 1]));
        assert(same_content_types(a.drop_last(), b.drop_last())) by {
            assert forall|i: int| 0 <= i < a.drop_last().len() implies crate::synccrate::registry::same_content_type(
                #[trigger] a.drop_last()[i],
                b.drop_last()[i],
            ) by {
                assert(crate::synccrate::registry::same_content_type(a[i], b[i]));
            }
        }
        lemma_last_ct_index_same(a.drop_last(), b.drop_last(), cat);
    }
}

} // verus!
