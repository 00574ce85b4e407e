//! Game folders, the active game, the user's library, and how scanned files are
//! typed and keyed.
use vstd::prelude::*;
use crate::unique::{has_key, keep_last_per_key, kept_from, Keyed};
use vstd::hash_map::StringHashMap;
use crate::paths::{file_name, file_name_spec, parent, parent_spec};
use crate::synccrate::registry::{
    build_legacy_map, build_registry_map, clone_definition, clone_strings, first_game_index, get_game_def, has_game,
    legacy_map_spec, lemma_first_game_index, ContentType, GameDefinition, GameRegistry, PathCorrection,
    resolve_game_id, same_definition, ValidationConfig,
};
use crate::synccrate::state::{FileInfo, FileManifest, GameInfo, ModCompatibility, PackId, PackInfo};
use crate::synccrate::packs::{check_mod_compatibility, compat_reports, packs_key_spec, report_is};
use crate::text::{concat2, copy_str, eq_ignore_ascii_case_spec, str_eq, str_eq_ignore_ascii_case};
use crate::paths::{join_path, path_join};
use crate::simsync::files::{scan_key, scan_key_spec};

verus! {

/// The value that `pairs` holds under `key` (the first pair with that key).
pub open spec fn value_of(pairs: Seq<(String, String)>, key: Seq<char>) -> Option<String>
    decreases pairs.len(),
{
    if pairs.len() == 0 {
        None
    } else if pairs[0].0@ == key {
        Some(pairs[0].1)
    } else {
        value_of(pairs.drop_first(), key)
    }
}

/// The position of the first pair with key `key`, or -1.
pub open spec fn key_index(pairs: Seq<(String, String)>, key: Seq<char>) -> int
    decreases pairs.len(),
{
    if pairs.len() == 0 {
        -1
    } else if pairs[0].0@ == key {
        0
    } else {
        let k = key_index(pairs.drop_first(), key);
        if k < 0 {
            -1
        } else {
            k + 1
        }
    }
}

/// `key_index` is the position of the first pair with that key, whose value is
/// `value_of`, or -1 when no pair has the key.
pub proof fn lemma_key_index(pairs: Seq<(String, String)>, key: Seq<char>)
    ensures
        -1 <= key_index(pairs, key) < pairs.len(),
        key_index(pairs, key) >= 0 ==> pairs[key_index(pairs, key)].0@ == key && value_of(pairs, key) == Some(
            pairs[key_index(pairs, key)].1,
        ),
        key_index(pairs, key) < 0 ==> value_of(pairs, key) is None,
        forall|j: int|
            0 <= j < pairs.len() && (key_index(pairs, key) < 0 || j < key_index(pairs, key)) ==> (
            #[trigger] pairs[j]).0@ != key,
    decreases pairs.len(),
{
    if pairs.len() > 0 && pairs[0].0@ != key {
        lemma_key_index(pairs.drop_first(), key);
        assert forall|j: int|
            0 <= j < pairs.len() && (key_index(pairs, key) < 0 || j < key_index(pairs, key)) implies (
            #[trigger] pairs[j]).0@ != key by {
            if j > 0 {
                assert(pairs.drop_first()[j - 1] == pairs[j]);
            }
        }
    }
}

/// The position of the first pair with key `key`.
pub fn find_key(pairs: &Vec<(String, String)>, key: &str) -> (r: Option<usize>)
    ensures
        match r {
            Some(k) => k < pairs@.len() && k as int == key_index(pairs@, key@),
            None => key_index(pairs@, key@) == -1,
        },
{
    proof {
        lemma_key_index(pairs@, key@);
    }
    let mut i: usize = 0;
    while i < pairs.len()
        invariant
            i <= pairs.len(),
            forall|j: int| 0 <= j < i ==> (#[trigger] pairs@[j]).0@ != key@,
            -1 <= key_index(pairs@, key@) < pairs.len(),
            key_index(pairs@, key@) >= 0 ==> pairs@[key_index(pairs@, key@)].0@ == key@,
            forall|j: int|
                0 <= j < pairs.len() && (key_index(pairs@, key@) < 0 || j < key_index(pairs@, key@)) ==> (
                #[trigger] pairs@[j]).0@ != key@,
        decreases pairs.len() - i,
    {
        if str_eq(pairs[i].0.as_str(), key) {
            return Some(i);
        }
        i += 1;
    }
    None
}

/// The value held under `key`.
pub fn lookup(pairs: &Vec<(String, String)>, key: &str) -> (r: Option<String>)
    ensures
        r == value_of(pairs@, key@),
{
    proof {
        lemma_key_index(pairs@, key@);
    }
    match find_key(pairs, key) {
        Some(k) => Some(pairs[k].1.clone()),
        None => None,
    }
}

/// Sets the value under `key`: the first pair with that key gets `value`, or a new
/// pair is added at the end.
pub fn set_value(pairs: &mut Vec<(String, String)>, key: String, value: String)
    ensures
        value_of(final(pairs)@, key@) == Some(value),
        forall|k: Seq<char>| k != key@ ==> value_of(final(pairs)@, k) == value_of(old(pairs)@, k),
{
    proof {
        lemma_key_index(old(pairs)@, key@);
    }
    match find_key(pairs, key.as_str()) {
        Some(k) => {
            let ghost before = pairs@;
            let old_key = pairs[k].0.clone();
            pairs.set(k, (old_key, value));
            proof {
                lemma_value_of_update(before, k as int, value);
            }
        },
        None => {
            let ghost before = pairs@;
            pairs.push((key, value));
            proof {
                lemma_value_of_push(before, (key, value));
            }
        },
    }
}

proof fn lemma_value_of_update(pairs: Seq<(String, String)>, k: int, v: String)
    requires
        0 <= k < pairs.len(),
        k == key_index(pairs, pairs[k].0@),
    ensures
        value_of(pairs.update(k, (pairs[k].0, v)), pairs[k].0@) == Some(v),
        forall|q: Seq<char>| q != pairs[k].0@ ==> value_of(pairs.update(k, (pairs[k].0, v)), q) == value_of(pairs, q),
    decreases pairs.len(),
{
    let key = pairs[k].0@;
    let up = pairs.update(k, (pairs[k].0, v));
    if k > 0 {
        lemma_key_index(pairs, key);
        assert(pairs[0].0@ != key);
        assert(up.drop_first() =~= pairs.drop_first().update(k - 1, (pairs[k].0, v)));
        assert(pairs.drop_first()[k - 1] == pairs[k]);
        lemma_value_of_update(pairs.drop_first(), k - 1, v);
        assert forall|q: Seq<char>| q != key implies value_of(up, q) == value_of(pairs, q) by {
            assert(up[0] == pairs[0]);
            if pairs[0].0@ != q {
                assert(value_of(up, q) == value_of(up.drop_first(), q));
                assert(value_of(pairs, q) == value_of(pairs.drop_first(), q));
            }
        }
    } else {
        assert(up[0].0 == pairs[0].0);
        assert forall|q: Seq<char>| q != key implies value_of(up, q) == value_of(pairs, q) by {
            assert(up.drop_first() =~= pairs.drop_first());
            assert(up[0].0@ != q);
            assert(pairs[0].0@ != q);
        }
    }
}

proof fn lemma_value_of_push(pairs: Seq<(String, String)>, kv: (String, String))
    requires
        value_of(pairs, kv.0@) is None,
    ensures
        value_of(pairs.push(kv), kv.0@) == Some(kv.1),
        forall|q: Seq<char>| q != kv.0@ ==> value_of(pairs.push(kv), q) == value_of(pairs, q),
    decreases pairs.len(),
{
    let p = pairs.push(kv);
    if pairs.len() == 0 {
        assert(p.drop_first() =~= Seq::<(String, String)>::empty());
        assert(p[0] == kv);
        assert forall|q: Seq<char>| q != kv.0@ implies value_of(p, q) == value_of(pairs, q) by {
            assert(value_of(p, q) == value_of(p.drop_first(), q));
            assert(value_of(p.drop_first(), q) is None);
        }
    } else {
        assert(p.drop_first() =~= pairs.drop_first().push(kv));
        assert(p[0] == pairs[0]);
        assert(pairs[0].0@ != kv.0@);
        lemma_value_of_push(pairs.drop_first(), kv);
        assert forall|q: Seq<char>| q != kv.0@ implies value_of(p, q) == value_of(pairs, q) by {
            if pairs[0].0@ != q {
                assert(value_of(p, q) == value_of(p.drop_first(), q));
                assert(value_of(pairs, q) == value_of(pairs.drop_first(), q));
            }
        }
    }
}

/// The manager's state between commands.
#[derive(Debug, Clone)]
pub struct AppState {
    /// Game folders by game identifier.
    pub game_paths: Vec<(String, String)>,
    pub active_game: String,
    pub user_library: Vec<String>,
    pub game_registry: GameRegistry,
    /// What was detected of each game, by game identifier.
    pub game_info: Vec<(String, GameInfo)>,
    pub local_manifest: FileManifest,
}

/// The saved configuration: game folders, the active game, the library.
#[derive(Debug, Clone)]
pub struct GameConfig {
    pub game_paths: Vec<(String, String)>,
    pub active_game: Option<String>,
    pub user_library: Vec<String>,
}

impl GameConfig {
    /// No folders, no active game, an empty library.
    pub fn empty() -> (c: GameConfig)
        ensures
            c.game_paths@.len() == 0,
            c.active_game is None,
            c.user_library@.len() == 0,
    {
        GameConfig { game_paths: Vec::new(), active_game: None, user_library: Vec::new() }
    }
}

fn clone_pairs(v: &Vec<(String, String)>) -> (r: Vec<(String, String)>)
    ensures
        r@ == v@,
{
    let mut r: Vec<(String, String)> = Vec::new();
    let mut i: usize = 0;
    while i < v.len()
        invariant
            i <= v.len(),
            r@ == v@.take(i as int),
        decreases v.len() - i,
    {
        r.push((v[i].0.clone(), v[i].1.clone()));
        i += 1;
        assert(r@ =~= v@.take(i as int));
    }
    assert(v@.take(v.len() as int) =~= v@);
    r
}

/// The configuration to save for the current state.
pub fn game_config_of(state: &AppState) -> (c: GameConfig)
    ensures
        c.game_paths@ == state.game_paths@,
        c.active_game == Some(state.active_game),
        c.user_library@ == state.user_library@,
{
    GameConfig {
        game_paths: clone_pairs(&state.game_paths),
        active_game: Some(state.active_game.clone()),
        user_library: clone_strings(&state.user_library),
    }
}

/// The game that the name `id` stands for: a known game identifier, or the game a
/// legacy name maps to.
pub open spec fn resolved_game(games: Seq<GameDefinition>, id: Seq<char>) -> Option<Seq<char>> {
    if has_game(games, id) {
        Some(id)
    } else if legacy_map_spec(games).contains_key(id) {
        Some(legacy_map_spec(games)[id]@)
    } else {
        None
    }
}

/// Resolves a game name against the registry; an unknown name is an error.
pub fn resolve_game(state: &AppState, game_str: &str) -> (r: Result<String, String>)
    ensures
        match (r, resolved_game(state.game_registry.games@, game_str@)) {
            (Ok(s), Some(t)) => s@ == t,
            (Err(e), None) => e@ == "Unknown game: "@ + game_str@,
            _ => false,
        },
{
    let registry_map = build_registry_map(&state.game_registry);
    let legacy_map = build_legacy_map(&state.game_registry);
    match resolve_game_id(game_str, &registry_map, &legacy_map) {
        Some(id) => Ok(id),
        None => Err(concat2("Unknown game: ", game_str)),
    }
}

/// The name shown for the game `game_id`: its registry label, or the identifier
/// itself when the registry does not know it.
pub open spec fn game_label_spec(games: Seq<GameDefinition>, game_id: Seq<char>) -> Seq<char> {
    let k = first_game_index(games, game_id);
    if k < 0 {
        game_id
    } else {
        games[k].label@
    }
}

/// The name shown for the game `game_id`.
pub fn game_label(state: &AppState, game_id: &str) -> (r: String)
    ensures
        r@ == game_label_spec(state.game_registry.games@, game_id@),
{
    match get_game_def(&state.game_registry, game_id) {
        Some(def) => def.label.clone(),
        None => copy_str(game_id),
    }
}

/// The folder of a game, from the configuration or else as detected on this
/// machine; an error names the game when neither is known.
pub fn game_path_or(state: &AppState, game_id: &str, detected: Option<String>) -> (r: Result<String, String>)
    ensures
        match (value_of(state.game_paths@, game_id@), detected) {
            (Some(p), _) => r matches Ok(q) && q@ == p@,
            (None, Some(p)) => r matches Ok(q) && q@ == p@,
            (None, None) => r matches Err(e) && e@ == game_label_spec(state.game_registry.games@, game_id@)
                + " path not found"@,
        },
{
    match lookup(&state.game_paths, game_id) {
        Some(p) => Ok(p),
        None => match detected {
            Some(p) => Ok(p),
            None => {
                let label = game_label(state, game_id);
                Err(concat2(label.as_str(), " path not found"))
            },
        },
    }
}

/// Makes the game `game` the active one; an unknown name is an error and changes
/// nothing.
pub fn set_active_game(state: &mut AppState, game: &str) -> (r: Result<(), String>)
    ensures
        match resolved_game(old(state).game_registry.games@, game@) {
            Some(t) => r is Ok && final(state).active_game@ == t && *final(state) == (AppState {
                active_game: final(state).active_game,
                ..*old(state)
            }),
            None => (r matches Err(e) && e@ == "Unknown game: "@ + game@) && *final(state) == *old(state),
        },
{
    let id = resolve_game(state, game)?;
    state.active_game = id;
    Ok(())
}

/// Some entry of `lib` is `id`.
pub open spec fn in_library(lib: Seq<String>, id: Seq<char>) -> bool {
    exists|i: int| 0 <= i < lib.len() && (#[trigger] lib[i])@ == id
}

fn library_has(lib: &Vec<String>, id: &str) -> (b: bool)
    ensures
        b == in_library(lib@, id@),
{
    let mut i: usize = 0;
    while i < lib.len()
        invariant
            i <= lib.len(),
            forall|j: int| 0 <= j < i ==> (#[trigger] lib@[j])@ != id@,
        decreases lib.len() - i,
    {
        if str_eq(lib[i].as_str(), id) {
            return true;
        }
        i += 1;
    }
    false
}

fn registry_has(registry: &GameRegistry, id: &str) -> (b: bool)
    ensures
        b == has_game(registry.games@, id@),
{
    let mut i: usize = 0;
    while i < registry.games.len()
        invariant
            i <= registry.games.len(),
            forall|j: int| 0 <= j < i ==> (#[trigger] registry.games@[j]).id@ != id@,
        decreases registry.games.len() - i,
    {
        if str_eq(registry.games[i].id.as_str(), id) {
            return true;
        }
        i += 1;
    }
    false
}

/// Adds a game to the user's library: an error for a game the registry does not
/// know; nothing changes when it is already there. Tells whether it was added.
pub fn add_to_library(state: &mut AppState, game_id: String) -> (r: Result<bool, String>)
    ensures
        !has_game(old(state).game_registry.games@, game_id@) ==> (r matches Err(e) && e@ == "Unknown game: "@
            + game_id@) && *final(state) == *old(state),
        has_game(old(state).game_registry.games@, game_id@) && in_library(old(state).user_library@, game_id@) ==> r
            == Ok::<bool, String>(false) && *final(state) == *old(state),
        has_game(old(state).game_registry.games@, game_id@) && !in_library(old(state).user_library@, game_id@) ==> r
            == Ok::<bool, String>(true) && final(state).user_library@ == old(state).user_library@.push(game_id)
            && *final(state) == (AppState { user_library: final(state).user_library, ..*old(state) }),
{
    if !registry_has(&state.game_registry, game_id.as_str()) {
        return Err(concat2("Unknown game: ", game_id.as_str()));
    }
    if library_has(&state.user_library, game_id.as_str()) {
        return Ok(false);
    }
    state.user_library.push(game_id);
    Ok(true)
}

/// The entries of `lib` other than `id`, in order.
pub open spec fn without_entry(lib: Seq<String>, id: Seq<char>) -> Seq<String>
    decreases lib.len(),
{
    if lib.len() == 0 {
        Seq::empty()
    } else {
        let r = without_entry(lib.drop_last(), id);
        if lib.last()@ == id {
            r
        } else {
            r.push(lib.last())
        }
    }
}

/// Removes every entry `game_id` from the user's library.
pub fn remove_from_library(state: &mut AppState, game_id: &str)
    ensures
        final(state).user_library@ == without_entry(old(state).user_library@, game_id@),
        *final(state) == (AppState { user_library: final(state).user_library, ..*old(state) }),
{
    let mut kept: Vec<String> = Vec::new();
    let mut i: usize = 0;
    while i < state.user_library.len()
        invariant
            i <= state.user_library.len(),
            kept@ == without_entry(state.user_library@.take(i as int), game_id@),
        decreases state.user_library.len() - i,
    {
        assert(state.user_library@.take(i + 1).drop_last() =~= state.user_library@.take(i as int));
        if !str_eq(state.user_library[i].as_str(), game_id) {
            kept.push(state.user_library[i].clone());
        }
        i += 1;
    }
    assert(state.user_library@.take(state.user_library.len() as int) =~= state.user_library@);
    state.user_library = kept;
}

/// Each game of the registry, in order, with its configured folder if any.
pub fn get_all_game_paths(state: &AppState) -> (r: Vec<(String, Option<String>)>)
    ensures
        r@.len() == state.game_registry.games@.len(),
        forall|i: int|
            0 <= i < r@.len() ==> (#[trigger] r@[i]).0@ == state.game_registry.games@[i].id@ && r@[i].1
                == value_of(state.game_paths@, state.game_registry.games@[i].id@),
{
    let mut r: Vec<(String, Option<String>)> = Vec::new();
    let mut i: usize = 0;
    while i < state.game_registry.games.len()
        invariant
            i <= state.game_registry.games.len(),
            r@.len() == i,
            forall|j: int|
                0 <= j < i ==> (#[trigger] r@[j]).0@ == state.game_registry.games@[j].id@ && r@[j].1 == value_of(
                    state.game_paths@,
                    state.game_registry.games@[j].id@,
                ),
        decreases state.game_registry.games.len() - i,
    {
        let id = state.game_registry.games[i].id.clone();
        let path = lookup(&state.game_paths, id.as_str());
        r.push((id, path));
        i += 1;
    }
    r
}

/// The game the tool currently works on.
pub fn get_active_game(state: &AppState) -> (r: String)
    ensures
        r == state.active_game,
{
    state.active_game.clone()
}

/// The games the user keeps in the library, in order.
pub fn get_user_library(state: &AppState) -> (r: Vec<String>)
    ensures
        r@ == state.user_library@,
{
    clone_strings(&state.user_library)
}

/// The definitions of all games the registry knows, in order.
pub fn get_game_registry(state: &AppState) -> (r: Vec<GameDefinition>)
    ensures
        r@.len() == state.game_registry.games@.len(),
        forall|i: int| 0 <= i < r@.len() ==> same_definition(#[trigger] r@[i], state.game_registry.games@[i]),
{
    let games = &state.game_registry.games;
    let mut r: Vec<GameDefinition> = Vec::new();
    let mut i: usize = 0;
    while i < games.len()
        invariant
            i <= games.len(),
            r@.len() == i,
            forall|j: int| 0 <= j < i ==> same_definition(#[trigger] r@[j], games@[j]),
        decreases games.len() - i,
    {
        r.push(clone_definition(&games[i]));
        i += 1;
    }
    r
}

/// Records the folder of a game.
pub fn record_game_path(state: &mut AppState, game_id: String, path: String)
    ensures
        value_of(final(state).game_paths@, game_id@) == Some(path),
        forall|k: Seq<char>| k != game_id@ ==> value_of(final(state).game_paths@, k) == value_of(
            old(state).game_paths@,
            k,
        ),
        *final(state) == (AppState { game_paths: final(state).game_paths, ..*old(state) }),
{
    set_value(&mut state.game_paths, game_id, path);
}

/// `p` with its last component removed `n` times (a path without a parent is kept).
pub open spec fn up_levels(p: Seq<char>, n: nat) -> Seq<char>
    decreases n,
{
    if n == 0 {
        p
    } else {
        match parent_spec(p) {
            Some(q) => up_levels(q, (n - 1) as nat),
            None => up_levels(p, (n - 1) as nat),
        }
    }
}

/// The levels to go up from a folder with this name (the first entry for it).
pub open spec fn levels_for(pairs: Seq<(String, u32)>, name: Seq<char>) -> Option<u32>
    decreases pairs.len(),
{
    if pairs.len() == 0 {
        None
    } else if pairs[0].0@ == name {
        Some(pairs[0].1)
    } else {
        levels_for(pairs.drop_first(), name)
    }
}

/// Some known subfolder equals `name`, ignoring ASCII case.
pub open spec fn known_subfolder(subs: Seq<String>, name: Seq<char>) -> bool {
    exists|i: int| 0 <= i < subs.len() && eq_ignore_ascii_case_spec((#[trigger] subs[i])@, name)
}

/// The game folder once a folder chosen too deep is corrected: a folder named in
/// the nested corrections is left that many levels up, a known subfolder one
/// level up.
pub open spec fn corrected_spec(p: Seq<char>, pc: Option<PathCorrection>) -> Seq<char> {
    match (pc, file_name_spec(p)) {
        (Some(c), Some(name)) => match levels_for(c.nested_corrections@, name) {
            Some(n) => up_levels(p, n as nat),
            None => if known_subfolder(c.known_subfolders@, name) {
                up_levels(p, 1)
            } else {
                p
            },
        },
        _ => p,
    }
}

fn levels_lookup(pairs: &Vec<(String, u32)>, name: &str) -> (r: Option<u32>)
    ensures
        r == levels_for(pairs@, name@),
{
    let mut i: usize = 0;
    assert(pairs@.subrange(0, pairs@.len() as int) =~= pairs@);
    while i < pairs.len()
        invariant
            i <= pairs.len(),
            levels_for(pairs@, name@) == levels_for(pairs@.subrange(i as int, pairs@.len() as int), name@),
        decreases pairs.len() - i,
    {
        let ghost rest = pairs@.subrange(i as int, pairs@.len() as int);
        assert(rest[0] == pairs@[i as int]);
        assert(rest.drop_first() =~= pairs@.subrange(i + 1, pairs@.len() as int));
        if str_eq(pairs[i].0.as_str(), name) {
            return Some(pairs[i].1);
        }
        i += 1;
    }
    None
}

fn is_known_subfolder(subs: &Vec<String>, name: &str) -> (b: bool)
    ensures
        b == known_subfolder(subs@, name@),
{
    let mut i: usize = 0;
    while i < subs.len()
        invariant
            i <= subs.len(),
            forall|j: int| 0 <= j < i ==> !eq_ignore_ascii_case_spec((#[trigger] subs@[j])@, name@),
        decreases subs.len() - i,
    {
        if str_eq_ignore_ascii_case(subs[i].as_str(), name) {
            return true;
        }
        i += 1;
    }
    false
}

fn go_up(p: String, n: u32) -> (r: String)
    ensures
        r@ == up_levels(p@, n as nat),
{
    let mut cur = p;
    let mut k: u32 = 0;
    while k < n
        invariant
            k <= n,
            up_levels(p@, n as nat) == up_levels(cur@, (n - k) as nat),
        decreases n - k,
    {
        match parent(cur.as_str()) {
            Some(q) => {
                cur = q;
            },
            None => {},
        }
        k += 1;
    }
    cur
}

/// Corrects a game folder chosen too deep (see [`corrected_spec`]).
pub fn corrected_game_path(canonical: String, pc: &Option<PathCorrection>) -> (r: String)
    ensures
        r@ == corrected_spec(canonical@, *pc),
{
    match pc {
        None => canonical,
        Some(c) => match file_name(canonical.as_str()) {
            None => canonical,
            Some(name) => match levels_lookup(&c.nested_corrections, name.as_str()) {
                Some(n) => go_up(canonical, n),
                None => {
                    if is_known_subfolder(&c.known_subfolders, name.as_str()) {
                        go_up(canonical, 1)
                    } else {
                        canonical
                    }
                },
            },
        },
    }
}

/// The folders to create below a new game folder: its `auto_create_dirs` when none
/// of its `check_dirs` exists (`exists[i]` telling whether the `i`-th does);
/// nothing when the game has no validation, when there are no check folders, or
/// when one exists.
pub open spec fn dirs_to_create_spec(val: Option<ValidationConfig>, exists: Seq<bool>) -> Seq<String> {
    match val {
        None => Seq::empty(),
        Some(v) => {
            let any = v.check_dirs@.len() == 0 || (exists|i: int| 0 <= i < exists.len() && #[trigger] exists[i]);
            if !any && v.auto_create_dirs@.len() > 0 {
                v.auto_create_dirs@
            } else {
                Seq::empty()
            }
        },
    }
}

/// The folders to create below a new game folder.
pub fn dirs_to_create(val: &Option<ValidationConfig>, exists: &Vec<bool>) -> (r: Vec<String>)
    ensures
        r@ == dirs_to_create_spec(*val, exists@),
{
    match val {
        None => Vec::new(),
        Some(v) => {
            let mut any = v.check_dirs.len() == 0;
            let mut i: usize = 0;
            while i < exists.len()
                invariant
                    i <= exists.len(),
                    any == (v.check_dirs@.len() == 0 || exists|j: int| 0 <= j < i && #[trigger] exists@[j]),
                decreases exists.len() - i,
            {
                if exists[i] {
                    any = true;
                }
                i += 1;
            }
            if !any && v.auto_create_dirs.len() > 0 {
                clone_strings(&v.auto_create_dirs)
            } else {
                Vec::new()
            }
        },
    }
}

/// The folder mods are installed into and toggled in: the first content folder of
/// the game, or `Mods`.
pub open spec fn install_folder_spec(games: Seq<GameDefinition>, game_id: Seq<char>) -> Seq<char> {
    let k = first_game_index(games, game_id);
    if k >= 0 && games[k].content_types@.len() > 0 {
        games[k].content_types@[0].folder@
    } else {
        "Mods"@
    }
}

/// The folder mods are installed into and toggled in.
pub fn install_folder(registry: &GameRegistry, game_id: &str) -> (r: String)
    ensures
        r@ == install_folder_spec(registry.games@, game_id@),
{
    match get_game_def(registry, game_id) {
        Some(def) => {
            if def.content_types.len() > 0 {
                def.content_types[0].folder.clone()
            } else {
                "Mods".to_string()
            }
        },
        None => "Mods".to_string(),
    }
}

/// Where a mod file named `name` goes when it is enabled (the mods folder) or
/// disabled (its `_Disabled` subfolder).
pub open spec fn toggle_target_spec(base: Seq<char>, folder: Seq<char>, name: Seq<char>, enabled: bool) -> Seq<char> {
    let mods = path_join(base, folder);
    if enabled {
        path_join(mods, name)
    } else {
        path_join(path_join(mods, "_Disabled"@), name)
    }
}

/// Where a mod file goes when toggled.
pub fn toggle_target(base: &str, folder: &str, name: &str, enabled: bool) -> (r: String)
    ensures
        r@ == toggle_target_spec(base@, folder@, name@, enabled),
{
    let mods = join_path(base, folder);
    if enabled {
        join_path(mods.as_str(), name)
    } else {
        let disabled = join_path(mods.as_str(), "_Disabled");
        join_path(disabled.as_str(), name)
    }
}

/// The error when the target of a toggle is taken.
pub fn toggle_clash_message(folder: &str, enabled: bool) -> (r: String)
    ensures
        enabled ==> r@ == "A file with that name already exists in "@ + folder@,
        !enabled ==> r@ == "A file with that name already exists in _Disabled"@,
{
    if enabled {
        concat2("A file with that name already exists in ", folder)
    } else {
        "A file with that name already exists in _Disabled".to_string()
    }
}

/// The path, relative to the game folder, that a toggled mod is reported under.
pub fn toggled_relative_path(dest: &str, base: &str) -> (r: String)
    ensures
        r@ == scan_key_spec(dest@, base@),
{
    scan_key(dest, base)
}

/// The file type given to a file with lowercased extension `ext` in the folder of
/// `ct`: the type its extension is mapped to, else the folder's type.
pub open spec fn file_type_for(ct: ContentType, ext: Seq<char>) -> Seq<char> {
    match value_of(ct.classify_by_extension@, ext) {
        Some(t) => t@,
        None => ct.file_type@,
    }
}

/// The file type given to a file with lowercased extension `ext` in `ct`'s folder.
pub fn classify_file(ct: &ContentType, ext: &str) -> (r: String)
    ensures
        r@ == file_type_for(*ct, ext@),
{
    match lookup(&ct.classify_by_extension, ext) {
        Some(t) => t,
        None => ct.file_type.clone(),
    }
}

/// A file with lowercased extension `ext` is scanned when the folder lists no
/// extensions, or lists `ext`.
pub open spec fn wanted_spec(exts: Seq<String>, ext: Seq<char>) -> bool {
    exts.len() == 0 || exists|i: int| 0 <= i < exts.len() && (#[trigger] exts[i])@ == ext
}

/// Whether a file with lowercased extension `ext` is scanned.
pub fn extension_wanted(exts: &Vec<String>, ext: &str) -> (b: bool)
    ensures
        b == wanted_spec(exts@, ext@),
{
    if exts.len() == 0 {
        return true;
    }
    library_has(exts, ext)
}

/// A remembered hash: valid while the file keeps its size and modification time.
#[derive(Debug, Clone)]
pub struct HashCacheEntry {
    pub size: u64,
    pub mtime: u64,
    pub hash: String,
}

/// The remembered hash of the file at `key` when it still has that size and
/// modification time (the first entry for the key counts).
pub open spec fn cached_hash_spec(cache: Seq<(String, HashCacheEntry)>, key: Seq<char>, size: u64, mtime: u64) -> Option<
    Seq<char>,
>
    decreases cache.len(),
{
    if cache.len() == 0 {
        None
    } else if cache[0].0@ == key {
        if cache[0].1.size == size && cache[0].1.mtime == mtime {
            Some(cache[0].1.hash@)
        } else {
            None
        }
    } else {
        cached_hash_spec(cache.drop_first(), key, size, mtime)
    }
}

/// The remembered hash of a file, if it is still valid.
pub fn cached_hash(cache: &Vec<(String, HashCacheEntry)>, key: &str, size: u64, mtime: u64) -> (r: Option<String>)
    ensures
        match (r, cached_hash_spec(cache@, key@, size, mtime)) {
            (Some(h), Some(g)) => h@ == g,
            (None, None) => true,
            _ => false,
        },
{
    let mut i: usize = 0;
    assert(cache@.subrange(0, cache@.len() as int) =~= cache@);
    while i < cache.len()
        invariant
            i <= cache.len(),
            cached_hash_spec(cache@, key@, size, mtime) == cached_hash_spec(
                cache@.subrange(i as int, cache@.len() as int),
                key@,
                size,
                mtime,
            ),
        decreases cache.len() - i,
    {
        let ghost rest = cache@.subrange(i as int, cache@.len() as int);
        assert(rest[0] == cache@[i as int]);
        assert(rest.drop_first() =~= cache@.subrange(i + 1, cache@.len() as int));
        if str_eq(cache[i].0.as_str(), key) {
            if cache[i].1.size == size && cache[i].1.mtime == mtime {
                return Some(cache[i].1.hash.clone());
            }
            return None;
        }
        i += 1;
    }
    None
}

/// `i` is the first entry of `cache` under `key`.
pub open spec fn first_entry_for(cache: Seq<(String, HashCacheEntry)>, key: Seq<char>, i: int) -> bool {
    0 <= i < cache.len() && cache[i].0@ == key && forall|j: int| 0 <= j < i ==> (#[trigger] cache[j]).0@ != key
}

/// A remembered hash is used only while it is still valid: it comes from the first
/// entry under the file's key, and only when that entry records the file's current
/// size and modification time; a file whose size or time changed gets no hash and
/// is hashed again.
pub proof fn cached_hash_needs_same_size_and_time(
    cache: Seq<(String, HashCacheEntry)>,
    key: Seq<char>,
    size: u64,
    mtime: u64,
)
    ensures
        cached_hash_spec(cache, key, size, mtime) matches Some(h) ==> exists|i: int|
            #[trigger] first_entry_for(cache, key, i) && cache[i].1.size == size && cache[i].1.mtime == mtime
                && cache[i].1.hash@ == h,
        forall|i: int|
            #[trigger] first_entry_for(cache, key, i) ==> (cached_hash_spec(cache, key, size, mtime) is Some <==> (
            cache[i].1.size == size && cache[i].1.mtime == mtime)),
        (forall|i: int| 0 <= i < cache.len() ==> (#[trigger] cache[i]).0@ != key) ==> cached_hash_spec(
            cache,
            key,
            size,
            mtime,
        ) is None,
    decreases cache.len(),
{
    if cache.len() > 0 {
        let rest = cache.drop_first();
        cached_hash_needs_same_size_and_time(rest, key, size, mtime);
        if cache[0].0@ == key {
            if cached_hash_spec(cache, key, size, mtime) is Some {
                assert(first_entry_for(cache, key, 0));
            }
            assert forall|i: int| #[trigger] first_entry_for(cache, key, i) implies i == 0 by {
                if i > 0 {
                    assert(cache[0].0@ != key);
                }
            }
        } else {
            if let Some(h) = cached_hash_spec(cache, key, size, mtime) {
                let i = choose|i: int|
                    #[trigger] first_entry_for(rest, key, i) && rest[i].1.size == size && rest[i].1.mtime == mtime
                        && rest[i].1.hash@ == h;
                assert forall|j: int| 0 <= j < i + 1 implies (#[trigger] cache[j]).0@ != key by {
                    if j > 0 {
                        assert(cache[j] == rest[j - 1]);
                    }
                }
                assert(first_entry_for(cache, key, i + 1));
            }
            assert forall|i: int| #[trigger] first_entry_for(cache, key, i) implies (cached_hash_spec(
                cache,
                key,
                size,
                mtime,
            ) is Some <==> (cache[i].1.size == size && cache[i].1.mtime == mtime)) by {
                assert(i > 0);
                assert(cache[i] == rest[i - 1]);
                assert forall|j: int| 0 <= j < i - 1 implies (#[trigger] rest[j]).0@ != key by {
                    assert(rest[j] == cache[j + 1]);
                }
                assert(first_entry_for(rest, key, i - 1));
            }
            if forall|i: int| 0 <= i < cache.len() ==> (#[trigger] cache[i]).0@ != key {
                assert forall|i: int| 0 <= i < rest.len() implies (#[trigger] rest[i]).0@ != key by {
                    assert(rest[i] == cache[i + 1]);
                }
            }
        }
    }
}

/// No game appears twice in a library.
pub open spec fn no_repeats(lib: Seq<String>) -> bool {
    forall|i: int, j: int| 0 <= i < j < lib.len() ==> (#[trigger] lib[i])@ != (#[trigger] lib[j])@
}

/// Adding a game to a library that holds no game twice keeps it so, and leaves
/// the game in it.
pub proof fn adding_keeps_library_free_of_repeats(lib: Seq<String>, id: String)
    requires
        no_repeats(lib),
    ensures
        ({
            let after = if in_library(lib, id@) { lib } else { lib.push(id) };
            no_repeats(after) && in_library(after, id@)
        }),
{
    if !in_library(lib, id@) {
        let after = lib.push(id);
        assert(after[lib.len() as int] == id);
        assert forall|i: int, j: int| 0 <= i < j < after.len() implies (#[trigger] after[i])@ != (
        #[trigger] after[j])@ by {
            if j == lib.len() {
                assert(after[i] == lib[i]);
            }
        }
    } else {
    }
}

/// After a game is removed from the library it is no longer in it, and every other
/// game stays.
pub proof fn removed_game_is_gone(lib: Seq<String>, id: Seq<char>)
    ensures
        !in_library(without_entry(lib, id), id),
        forall|k: Seq<char>| k != id ==> (in_library(without_entry(lib, id), k) <==> in_library(lib, k)),
    decreases lib.len(),
{
    if lib.len() > 0 {
        let t = lib.drop_last();
        removed_game_is_gone(t, id);
        let r = without_entry(t, id);
        assert forall|k: Seq<char>| k != id implies (in_library(without_entry(lib, id), k) <==> in_library(
            lib,
            k,
        )) by {
            if in_library(lib, k) {
                let i = choose|i: int| 0 <= i < lib.len() && (#[trigger] lib[i])@ == k;
                if i < t.len() {
                    assert(t[i] == lib[i]);
                    assert(in_library(t, k));
                    let j = choose|j: int| 0 <= j < r.len() && (#[trigger] r[j])@ == k;
                    if lib.last()@ != id {
                        assert(without_entry(lib, id)[j] == r[j]);
                    }
                } else {
                    assert(without_entry(lib, id)[r.len() as int] == lib.last());
                }
            }
            if in_library(without_entry(lib, id), k) {
                let j = choose|j: int| 0 <= j < without_entry(lib, id).len() && (#[trigger] without_entry(lib, id)[j])@ == k;
                if j < r.len() {
                    assert(without_entry(lib, id)[j] == r[j]);
                    assert(in_library(r, k));
                    assert(in_library(t, k));
                    let i = choose|i: int| 0 <= i < t.len() && (#[trigger] t[i])@ == k;
                    assert(lib[i] == t[i]);
                } else {
                    assert(lib[lib.len() - 1] == lib.last());
                }
            }
        }
        assert(!in_library(without_entry(lib, id), id)) by {
            if in_library(without_entry(lib, id), id) {
                let j = choose|j: int| 0 <= j < without_entry(lib, id).len() && (#[trigger] without_entry(lib, id)[j])@ == id;
                if j < r.len() {
                    assert(without_entry(lib, id)[j] == r[j]);
                }
            }
        }
    }
}

/// The game a command works on: the named one, resolved, or else the active game.
pub open spec fn target_game(state: AppState, game: Option<String>) -> Option<Seq<char>> {
    match game {
        Some(g) => resolved_game(state.game_registry.games@, g@),
        None => Some(state.active_game@),
    }
}

/// The game a command works on; an unknown name is an error.
pub fn target_game_id(state: &AppState, game: &Option<String>) -> (r: Result<String, String>)
    ensures
        match (r, target_game(*state, *game)) {
            (Ok(s), Some(t)) => s@ == t,
            (Err(e), None) => game matches Some(g) && e@ == "Unknown game: "@ + g@,
            _ => false,
        },
{
    match game {
        Some(g) => resolve_game(state, g.as_str()),
        None => Ok(state.active_game.clone()),
    }
}

/// The folder of a game, from the configuration or as detected; an error names the
/// game when neither is known, and an unknown game name is an error.
pub fn get_game_path(state: &AppState, game: &str, detected: Option<String>) -> (r: Result<String, String>)
    ensures
        match resolved_game(state.game_registry.games@, game@) {
            None => r matches Err(e) && e@ == "Unknown game: "@ + game@,
            Some(id) => match (value_of(state.game_paths@, id), detected) {
                (Some(p), _) => r matches Ok(q) && q@ == p@,
                (None, Some(p)) => r matches Ok(q) && q@ == p@,
                (None, None) => r matches Err(e) && e@ == game_label_spec(state.game_registry.games@, id)
                    + " path not found"@,
            },
        },
{
    let id = resolve_game(state, game)?;
    game_path_or(state, id.as_str(), detected)
}

/// The folder and registry entry to scan for a game: its configured folder, or the
/// detected one, which is then recorded. Errors name the game when no folder is
/// known and when the registry has no entry for it.
pub fn scan_target(state: &mut AppState, game: &Option<String>, detected: Option<String>) -> (r: Result<(String, String), String>)
    ensures
        match target_game(*old(state), *game) {
            None => (r matches Err(e) && e@ == "Unknown game: "@ + game->0@) && *final(state) == *old(state),
            Some(id) => match (value_of(old(state).game_paths@, id), detected) {
                (None, None) => (r matches Err(e) && e@ == game_label_spec(old(state).game_registry.games@, id)
                    + " path not found. Please set it manually."@) && *final(state) == *old(state),
                (known, det) => {
                    let base = match known {
                        Some(p) => p,
                        None => det->0,
                    };
                    &&& known is None ==> value_of(final(state).game_paths@, id) == Some(base)
                    &&& known is None ==> forall|k: Seq<char>| k != id ==> value_of(final(state).game_paths@, k)
                        == value_of(old(state).game_paths@, k)
                    &&& known is Some ==> final(state).game_paths == old(state).game_paths
                    &&& *final(state) == (AppState { game_paths: final(state).game_paths, ..*old(state) })
                    &&& if first_game_index(old(state).game_registry.games@, id) < 0 {
                        r matches Err(e) && e@ == "Game '"@ + id + "' not found in registry"@
                    } else {
                        r matches Ok((i, b)) && i@ == id && b@ == base@
                    }
                },
            },
        },
{
    let id = target_game_id(state, game)?;
    let base = match lookup(&state.game_paths, id.as_str()) {
        Some(p) => p,
        None => match detected {
            Some(p) => {
                record_game_path(state, id.clone(), p.clone());
                p
            },
            None => {
                let label = game_label(state, id.as_str());
                return Err(concat2(label.as_str(), " path not found. Please set it manually."));
            },
        },
    };
    if get_game_def(&state.game_registry, id.as_str()).is_none() {
        let mut e = concat2("Game '", id.as_str());
        e.append("' not found in registry");
        return Err(e);
    }
    Ok((id, base))
}

/// The position of the first detection result stored for `game_id`, or -1.
pub open spec fn info_index(infos: Seq<(String, GameInfo)>, game_id: Seq<char>) -> int
    decreases infos.len(),
{
    if infos.len() == 0 {
        -1
    } else if infos[0].0@ == game_id {
        0
    } else {
        let k = info_index(infos.drop_first(), game_id);
        if k < 0 {
            -1
        } else {
            k + 1
        }
    }
}

proof fn lemma_info_index(infos: Seq<(String, GameInfo)>, game_id: Seq<char>)
    ensures
        -1 <= info_index(infos, game_id) < infos.len(),
        info_index(infos, game_id) >= 0 ==> infos[info_index(infos, game_id)].0@ == game_id,
        forall|j: int|
            0 <= j < infos.len() && (info_index(infos, game_id) < 0 || j < info_index(infos, game_id)) ==> (
            #[trigger] infos[j]).0@ != game_id,
    decreases infos.len(),
{
    if infos.len() > 0 && infos[0].0@ != game_id {
        lemma_info_index(infos.drop_first(), game_id);
        assert forall|j: int|
            0 <= j < infos.len() && (info_index(infos, game_id) < 0 || j < info_index(infos, game_id)) implies (
            #[trigger] infos[j]).0@ != game_id by {
            if j > 0 {
                assert(infos.drop_first()[j - 1] == infos[j]);
            }
        }
    }
}

/// The stored detection result for `game_id`.
pub fn stored_game_info<'a>(state: &'a AppState, game_id: &str) -> (r: Option<&'a GameInfo>)
    ensures
        r is Some <==> info_index(state.game_info@, game_id@) >= 0,
        r is Some ==> r->0 == state.game_info@[info_index(state.game_info@, game_id@)].1,
{
    proof {
        lemma_info_index(state.game_info@, game_id@);
    }
    let mut i: usize = 0;
    while i < state.game_info.len()
        invariant
            i <= state.game_info.len(),
            forall|j: int| 0 <= j < i ==> (#[trigger] state.game_info@[j]).0@ != game_id@,
            -1 <= info_index(state.game_info@, game_id@) < state.game_info.len(),
            info_index(state.game_info@, game_id@) >= 0 ==> state.game_info@[info_index(state.game_info@, game_id@)].0@
                == game_id@,
            forall|j: int|
                0 <= j < state.game_info.len() && (info_index(state.game_info@, game_id@) < 0 || j < info_index(
                    state.game_info@,
                    game_id@,
                )) ==> (#[trigger] state.game_info@[j]).0@ != game_id@,
        decreases state.game_info.len() - i,
    {
        if str_eq(state.game_info[i].0.as_str(), game_id) {
            return Some(&state.game_info[i].1);
        }
        i += 1;
    }
    None
}

/// Two detection results hold the same values.
pub open spec fn same_info(a: GameInfo, b: GameInfo) -> bool {
    a.game_version == b.game_version && a.installed_packs@ == b.installed_packs@
}

/// A copy of a detection result.
pub fn clone_game_info(g: &GameInfo) -> (r: GameInfo)
    ensures
        same_info(r, *g),
{
    let mut packs: Vec<PackInfo> = Vec::new();
    let mut i: usize = 0;
    while i < g.installed_packs.len()
        invariant
            i <= g.installed_packs.len(),
            packs@ == g.installed_packs@.take(i as int),
        decreases g.installed_packs.len() - i,
    {
        let p = &g.installed_packs[i];
        packs.push(PackInfo { id: PackId { code: p.id.code.clone(), pack_type: p.id.pack_type }, name: p.name.clone() });
        i += 1;
        assert(packs@ =~= g.installed_packs@.take(i as int));
    }
    assert(g.installed_packs@.take(g.installed_packs.len() as int) =~= g.installed_packs@);
    GameInfo {
        game_version: match &g.game_version {
            Some(v) => Some(v.clone()),
            None => None,
        },
        installed_packs: packs,
    }
}

/// What was detected of a game, or nothing known when it was not detected yet.
pub open spec fn info_or_unknown(state: AppState, id: Seq<char>) -> Option<GameInfo> {
    let k = info_index(state.game_info@, id);
    if k >= 0 {
        Some(state.game_info@[k].1)
    } else {
        None
    }
}

/// What was detected of a game (nothing known when it was not detected yet); an
/// unknown game name is an error.
pub fn get_game_info(state: &AppState, game: &Option<String>) -> (r: Result<GameInfo, String>)
    ensures
        match target_game(*state, *game) {
            None => r matches Err(e) && e@ == "Unknown game: "@ + game->0@,
            Some(id) => r matches Ok(info) && match info_or_unknown(*state, id) {
                Some(stored) => same_info(info, stored),
                None => info.game_version is None && info.installed_packs@.len() == 0,
            },
        },
{
    let id = target_game_id(state, game)?;
    match stored_game_info(state, id.as_str()) {
        Some(info) => Ok(clone_game_info(info)),
        None => Ok(GameInfo::unknown()),
    }
}

/// The key of a game's pack list, or the empty key.
pub fn packs_key_of(registry: &GameRegistry, game_id: &str) -> (r: String)
    ensures
        r@ == packs_key_spec(registry.games@, game_id@),
{
    match get_game_def(registry, game_id) {
        Some(def) => match &def.packs {
            Some(k) => k.clone(),
            None => String::new(),
        },
        None => String::new(),
    }
}

/// The compatibility of the scanned mods with what was detected of the game; an
/// unknown game name is an error.
pub fn check_compatibility(state: &AppState, game: &Option<String>) -> (r: Result<Vec<ModCompatibility>, String>)
    ensures
        match target_game(*state, *game) {
            None => r matches Err(e) && e@ == "Unknown game: "@ + game->0@,
            Some(id) => r matches Ok(v) && {
                let installed = match info_or_unknown(*state, id) {
                    Some(stored) => stored.installed_packs@,
                    None => Seq::empty(),
                };
                let expected = compat_reports(state.local_manifest.files@, installed, packs_key_spec(
                    state.game_registry.games@,
                    id,
                ));
                &&& v@.len() == expected.len()
                &&& forall|i: int| 0 <= i < v@.len() ==> report_is(#[trigger] v@[i], expected[i])
            },
        },
{
    let id = target_game_id(state, game)?;
    let key = packs_key_of(&state.game_registry, id.as_str());
    match stored_game_info(state, id.as_str()) {
        Some(info) => Ok(check_mod_compatibility(&state.local_manifest, info, key.as_str())),
        None => {
            let unknown = GameInfo::unknown();
            assert(unknown.installed_packs@ =~= Seq::<PackInfo>::empty());
            Ok(check_mod_compatibility(&state.local_manifest, &unknown, key.as_str()))
        },
    }
}

/// The detection results after storing `info` for `game_id`: the first result for
/// that game is replaced, or the result is added at the end.
pub open spec fn stored_infos(infos: Seq<(String, GameInfo)>, game_id: String, info: GameInfo) -> Seq<(String, GameInfo)> {
    let k = info_index(infos, game_id@);
    if k >= 0 {
        infos.update(k, (infos[k].0, info))
    } else {
        infos.push((game_id, info))
    }
}

/// Stores what was detected of a game.
pub fn store_game_info(state: &mut AppState, game_id: String, info: GameInfo)
    ensures
        final(state).game_info@ == stored_infos(old(state).game_info@, game_id, info),
        *final(state) == (AppState { game_info: final(state).game_info, ..*old(state) }),
{
    proof {
        lemma_info_index(state.game_info@, game_id@);
    }
    let mut i: usize = 0;
    while i < state.game_info.len()
        invariant
            i <= state.game_info.len(),
            state.game_info@ == old(state).game_info@,
            *state == *old(state),
            forall|j: int| 0 <= j < i ==> (#[trigger] state.game_info@[j]).0@ != game_id@,
            -1 <= info_index(state.game_info@, game_id@) < state.game_info.len(),
            info_index(state.game_info@, game_id@) >= 0 ==> state.game_info@[info_index(state.game_info@, game_id@)].0@
                == game_id@,
            forall|j: int|
                0 <= j < state.game_info.len() && (info_index(state.game_info@, game_id@) < 0 || j < info_index(
                    state.game_info@,
                    game_id@,
                )) ==> (#[trigger] state.game_info@[j]).0@ != game_id@,
        decreases state.game_info.len() - i,
    {
        if str_eq(state.game_info[i].0.as_str(), game_id.as_str()) {
            assert(info_index(state.game_info@, game_id@) == i as int);
            let key = state.game_info[i].0.clone();
            state.game_info.set(i, (key, info));
            return;
        }
        i += 1;
    }
    state.game_info.push((game_id, info));
}

/// What is stored for a game is what is found for it afterwards.
pub proof fn stored_info_is_found(infos: Seq<(String, GameInfo)>, game_id: String, info: GameInfo)
    ensures
        ({
            let after = stored_infos(infos, game_id, info);
            info_index(after, game_id@) >= 0 && after[info_index(after, game_id@)].1 == info
        }),
{
    lemma_info_index(infos, game_id@);
    let k = info_index(infos, game_id@);
    let after = stored_infos(infos, game_id, info);
    lemma_info_index(after, game_id@);
    if k >= 0 {
        assert(after[k].0@ == game_id@);
        assert forall|j: int| 0 <= j < k implies (#[trigger] after[j]).0@ != game_id@ by {
            assert(after[j] == infos[j]);
        }
        let m = info_index(after, game_id@);
        assert(m == k);
    } else {
        assert(after[infos.len() as int].0 == game_id);
        assert forall|j: int| 0 <= j < infos.len() implies (#[trigger] after[j]).0@ != game_id@ by {
            assert(after[j] == infos[j]);
        }
        let m = info_index(after, game_id@);
        assert(m == infos.len());
    }
}

/// The manifest of a scan: one entry per relative path, the last one scanned for
/// it, and an entry for every path scanned.
pub fn manifest_of(files: Vec<FileInfo>, generated_at: u64) -> (m: FileManifest)
    ensures
        m.well_formed(),
        m.generated_at == generated_at,
        forall|i: int| 0 <= i < m.files@.len() ==> kept_from(files@, 0, #[trigger] m.files@[i]),
        forall|j: int| 0 <= j < files@.len() ==> has_key(m.files@, (#[trigger] files@[j]).key()),
{
    FileManifest { files: keep_last_per_key(files), generated_at }
}

} // verus!
