//! The registry of supported games: what each game is, where it lives, which
//! folders hold its content.
use vstd::prelude::*;
use vstd::hash_map::StringHashMap;
use crate::text::str_eq;

verus! {

/// The registry file.
#[derive(Debug, Clone)]
pub struct GameRegistry {
    pub version: u32,
    pub games: Vec<GameDefinition>,
}

/// Everything the tool knows about one game.
#[derive(Debug, Clone)]
pub struct GameDefinition {
    pub id: String,
    pub label: String,
    pub family: String,
    pub icon: String,
    pub color: String,
    /// Accent colour, such as `#1ea84b`.
    pub primary_color: String,
    pub auto_detect: bool,
    pub detection: Option<DetectionConfig>,
    pub validation: Option<ValidationConfig>,
    pub content_types: Vec<ContentType>,
    pub dangerous_script_extensions: Vec<String>,
    /// The key of the game's pack list (`sims4`, `sims3`, `sims2`).
    pub packs: Option<String>,
    /// The game's name in configurations written before the registry existed.
    pub legacy_id: Option<String>,
    pub version_detection: Option<VersionDetection>,
    pub path_correction: Option<PathCorrection>,
}

/// How the game folder is found on this machine.
#[derive(Debug, Clone)]
pub struct DetectionConfig {
    pub strategies: Vec<DetectionStrategy>,
}

/// One way of finding the game folder.
#[derive(Debug, Clone)]
pub enum DetectionStrategy {
    /// Folders below the user's documents folder.
    DocumentsRelative { base: String, folders: Vec<String> },
    /// Absolute paths, per platform.
    AbsolutePaths { paths: PlatformPaths },
}

/// Paths per platform.
#[derive(Debug, Clone)]
pub struct PlatformPaths {
    pub windows: Vec<String>,
    pub macos: Vec<String>,
    pub linux: Vec<String>,
}

/// What makes a folder a valid game folder.
#[derive(Debug, Clone)]
pub struct ValidationConfig {
    /// At least one of these folders must exist.
    pub check_dirs: Vec<String>,
    /// Folders created when the game folder is set.
    pub auto_create_dirs: Vec<String>,
}

/// One kind of content, kept in one folder of the game folder.
#[derive(Debug, Clone)]
pub struct ContentType {
    pub id: String,
    pub label: String,
    pub folder: String,
    pub extensions: Vec<String>,
    /// The file type of files in this folder.
    pub file_type: String,
    /// File types for particular extensions, overriding `file_type`.
    pub classify_by_extension: Vec<(String, String)>,
    pub icon: String,
    pub color: String,
    pub syncable: bool,
}

/// Where the game's version is read from.
#[derive(Debug, Clone)]
pub struct VersionDetection {
    pub file: String,
    pub method: String,
}

/// Corrections for a game folder chosen one level (or more) too deep.
#[derive(Debug, Clone)]
pub struct PathCorrection {
    pub known_subfolders: Vec<String>,
    pub nested_corrections: Vec<(String, u32)>,
}

impl PlatformPaths {
    /// No paths for any platform.
    pub fn empty() -> (r: PlatformPaths)
        ensures
            r.windows@.len() == 0,
            r.macos@.len() == 0,
            r.linux@.len() == 0,
    {
        PlatformPaths { windows: Vec::new(), macos: Vec::new(), linux: Vec::new() }
    }
}

/// The default for a content type's `syncable` flag.
pub fn default_true() -> (b: bool)
    ensures
        b,
{
    true
}

/// The default method of reading a game's version.
pub fn default_read_text() -> (s: String)
    ensures
        s@ == "read_text_file"@,
{
    "read_text_file".to_string()
}

/// The same list of strings.
pub fn clone_strings(v: &Vec<String>) -> (r: Vec<String>)
    ensures
        r@ == v@,
{
    let mut r: Vec<String> = Vec::new();
    let mut i: usize = 0;
    while i < v.len()
        invariant
            i <= v.len(),
            r@ == v@.take(i as int),
        decreases v.len() - i,
    {
        r.push(v[i].clone());
        i += 1;
        assert(r@ =~= v@.take(i as int));
    }
    assert(v@.take(v.len() as int) =~= v@);
    r
}

fn clone_opt_string(s: &Option<String>) -> (r: Option<String>)
    ensures
        r == *s,
{
    match s {
        Some(x) => Some(x.clone()),
        None => None,
    }
}

fn clone_pairs(v: &Vec<(String, String)>) -> (r: Vec<(String, String)>)
    ensures
        r@ == v@,
{
    let mut r: Vec<(String, String)> = Vec::new();
    let mut i: usize = 0;
    while i < v.len()
        invariant
            i <= v.len(),
            r@ == v@.take(i as int),
        decreases v.len() - i,
    {
        r.push((v[i].0.clone(), v[i].1.clone()));
        i += 1;
        assert(r@ =~= v@.take(i as int));
    }
    assert(v@.take(v.len() as int) =~= v@);
    r
}

fn clone_levels(v: &Vec<(String, u32)>) -> (r: Vec<(String, u32)>)
    ensures
        r@ == v@,
{
    let mut r: Vec<(String, u32)> = Vec::new();
    let mut i: usize = 0;
    while i < v.len()
        invariant
            i <= v.len(),
            r@ == v@.take(i as int),
        decreases v.len() - i,
    {
        r.push((v[i].0.clone(), v[i].1));
        i += 1;
        assert(r@ =~= v@.take(i as int));
    }
    assert(v@.take(v.len() as int) =~= v@);
    r
}

/// Two content types hold the same values.
pub open spec fn same_content_type(a: ContentType, b: ContentType) -> bool {
    &&& a.id == b.id
    &&& a.label == b.label
    &&& a.folder == b.folder
    &&& a.extensions@ == b.extensions@
    &&& a.file_type == b.file_type
    &&& a.classify_by_extension@ == b.classify_by_extension@
    &&& a.icon == b.icon
    &&& a.color == b.color
    &&& a.syncable == b.syncable
}

/// Two lists of content types hold the same values.
pub open spec fn same_content_types(a: Seq<ContentType>, b: Seq<ContentType>) -> bool {
    a.len() == b.len() && forall|i: int| 0 <= i < a.len() ==> same_content_type(#[trigger] a[i], b[i])
}

/// A copy of a content type.
pub fn clone_content_type(c: &ContentType) -> (r: ContentType)
    ensures
        same_content_type(r, *c),
{
    ContentType {
        id: c.id.clone(),
        label: c.label.clone(),
        folder: c.folder.clone(),
        extensions: clone_strings(&c.extensions),
        file_type: c.file_type.clone(),
        classify_by_extension: clone_pairs(&c.classify_by_extension),
        icon: c.icon.clone(),
        color: c.color.clone(),
        syncable: c.syncable,
    }
}

/// A copy of a list of content types.
pub fn clone_content_types(v: &Vec<ContentType>) -> (r: Vec<ContentType>)
    ensures
        same_content_types(r@, v@),
{
    let mut r: Vec<ContentType> = Vec::new();
    let mut i: usize = 0;
    while i < v.len()
        invariant
            i <= v.len(),
            r@.len() == i,
            forall|j: int| 0 <= j < i ==> same_content_type(#[trigger] r@[j], v@[j]),
        decreases v.len() - i,
    {
        r.push(clone_content_type(&v[i]));
        i += 1;
    }
    r
}

/// Two detection strategies hold the same values.
pub open spec fn same_strategy(a: DetectionStrategy, b: DetectionStrategy) -> bool {
    match (a, b) {
        (
            DetectionStrategy::DocumentsRelative { base: x, folders: f },
            DetectionStrategy::DocumentsRelative { base: y, folders: g },
        ) => x == y && f@ == g@,
        (DetectionStrategy::AbsolutePaths { paths: p }, DetectionStrategy::AbsolutePaths { paths: q }) => {
            p.windows@ == q.windows@ && p.macos@ == q.macos@ && p.linux@ == q.linux@
        },
        _ => false,
    }
}

fn clone_strategy(s: &DetectionStrategy) -> (r: DetectionStrategy)
    ensures
        same_strategy(r, *s),
{
    match s {
        DetectionStrategy::DocumentsRelative { base, folders } => DetectionStrategy::DocumentsRelative {
            base: base.clone(),
            folders: clone_strings(folders),
        },
        DetectionStrategy::AbsolutePaths { paths } => DetectionStrategy::AbsolutePaths {
            paths: PlatformPaths {
                windows: clone_strings(&paths.windows),
                macos: clone_strings(&paths.macos),
                linux: clone_strings(&paths.linux),
            },
        },
    }
}

/// Two optional detection settings hold the same values.
pub open spec fn same_detection(a: Option<DetectionConfig>, b: Option<DetectionConfig>) -> bool {
    match (a, b) {
        (None, None) => true,
        (Some(x), Some(y)) => x.strategies@.len() == y.strategies@.len() && forall|i: int|
            0 <= i < x.strategies@.len() ==> same_strategy(#[trigger] x.strategies@[i], y.strategies@[i]),
        _ => false,
    }
}

fn clone_detection(d: &Option<DetectionConfig>) -> (r: Option<DetectionConfig>)
    ensures
        same_detection(r, *d),
{
    match d {
        None => None,
        Some(c) => {
            let mut v: Vec<DetectionStrategy> = Vec::new();
            let mut i: usize = 0;
            while i < c.strategies.len()
                invariant
                    i <= c.strategies.len(),
                    v@.len() == i,
                    forall|j: int| 0 <= j < i ==> same_strategy(#[trigger] v@[j], c.strategies@[j]),
                decreases c.strategies.len() - i,
            {
                v.push(clone_strategy(&c.strategies[i]));
                i += 1;
            }
            Some(DetectionConfig { strategies: v })
        },
    }
}

/// Two game definitions hold the same values.
pub open spec fn same_definition(a: GameDefinition, b: GameDefinition) -> bool {
    &&& a.id == b.id
    &&& a.label == b.label
    &&& a.family == b.family
    &&& a.icon == b.icon
    &&& a.color == b.color
    &&& a.primary_color == b.primary_color
    &&& a.auto_detect == b.auto_detect
    &&& same_detection(a.detection, b.detection)
    &&& match (a.validation, b.validation) {
        (None, None) => true,
        (Some(x), Some(y)) => x.check_dirs@ == y.check_dirs@ && x.auto_create_dirs@ == y.auto_create_dirs@,
        _ => false,
    }
    &&& same_content_types(a.content_types@, b.content_types@)
    &&& a.dangerous_script_extensions@ == b.dangerous_script_extensions@
    &&& a.packs == b.packs
    &&& a.legacy_id == b.legacy_id
    &&& a.version_detection == b.version_detection
    &&& match (a.path_correction, b.path_correction) {
        (None, None) => true,
        (Some(x), Some(y)) => x.known_subfolders@ == y.known_subfolders@ && x.nested_corrections@
            == y.nested_corrections@,
        _ => false,
    }
}

/// A copy of a game definition.
pub fn clone_definition(g: &GameDefinition) -> (r: GameDefinition)
    ensures
        same_definition(r, *g),
{
    GameDefinition {
        id: g.id.clone(),
        label: g.label.clone(),
        family: g.family.clone(),
        icon: g.icon.clone(),
        color: g.color.clone(),
        primary_color: g.primary_color.clone(),
        auto_detect: g.auto_detect,
        detection: clone_detection(&g.detection),
        validation: match &g.validation {
            None => None,
            Some(v) => Some(
                ValidationConfig {
                    check_dirs: clone_strings(&v.check_dirs),
                    auto_create_dirs: clone_strings(&v.auto_create_dirs),
                },
            ),
        },
        content_types: clone_content_types(&g.content_types),
        dangerous_script_extensions: clone_strings(&g.dangerous_script_extensions),
        packs: clone_opt_string(&g.packs),
        legacy_id: clone_opt_string(&g.legacy_id),
        version_detection: match &g.version_detection {
            None => None,
            Some(v) => Some(VersionDetection { file: v.file.clone(), method: v.method.clone() }),
        },
        path_correction: match &g.path_correction {
            None => None,
            Some(p) => Some(
                PathCorrection {
                    known_subfolders: clone_strings(&p.known_subfolders),
                    nested_corrections: clone_levels(&p.nested_corrections),
                },
            ),
        },
    }
}

/// The index of the last game in `games` with identifier `id`, or -1.
pub open spec fn last_game_index(games: Seq<GameDefinition>, id: Seq<char>) -> int
    decreases games.len(),
{
    if games.len() == 0 {
        -1
    } else if games.last().id@ == id {
        games.len() - 1
    } else {
        last_game_index(games.drop_last(), id)
    }
}

/// The index of the first game in `games` with identifier `id`, or -1.
pub open spec fn first_game_index(games: Seq<GameDefinition>, id: Seq<char>) -> int
    decreases games.len(),
{
    if games.len() == 0 {
        -1
    } else if games[0].id@ == id {
        0
    } else {
        let k = first_game_index(games.drop_first(), id);
        if k < 0 {
            -1
        } else {
            k + 1
        }
    }
}

/// Some game in `games` has identifier `id`.
pub open spec fn has_game(games: Seq<GameDefinition>, id: Seq<char>) -> bool {
    exists|i: int| 0 <= i < games.len() && (#[trigger] games[i]).id@ == id
}

/// `last_game_index` is the position of the last game with that id, or -1 when the
/// registry has none.
pub proof fn lemma_last_game_index(games: Seq<GameDefinition>, id: Seq<char>)
    ensures
        -1 <= last_game_index(games, id) < games.len(),
        last_game_index(games, id) >= 0 ==> games[last_game_index(games, id)].id@ == id,
        last_game_index(games, id) >= 0 <==> has_game(games, id),
    decreases games.len(),
{
    if games.len() > 0 && games.last().id@ != id {
        lemma_last_game_index(games.drop_last(), id);
        if has_game(games, id) {
            let k = choose|k: int| 0 <= k < games.len() && (#[trigger] games[k]).id@ == id;
            assert(games.drop_last()[k] == games[k]);
        }
        if has_game(games.drop_last(), id) {
            let k = choose|k: int| 0 <= k < games.drop_last().len() && (#[trigger] games.drop_last()[k]).id@ == id;
            assert(games[k] == games.drop_last()[k]);
        }
    }
    if games.len() > 0 && games.last().id@ == id {
        assert(games[games.len() - 1].id@ == id);
    }
}

/// `first_game_index` is the position of the first game with that id, or -1 when
/// the registry has none.
pub proof fn lemma_first_game_index(games: Seq<GameDefinition>, id: Seq<char>)
    ensures
        -1 <= first_game_index(games, id) < games.len(),
        first_game_index(games, id) >= 0 ==> games[first_game_index(games, id)].id@ == id,
        forall|j: int|
            0 <= j < games.len() && (first_game_index(games, id) < 0 || j < first_game_index(games, id))
                ==> #[trigger] games[j].id@ != id,
    decreases games.len(),
{
    if games.len() > 0 && games[0].id@ != id {
        lemma_first_game_index(games.drop_first(), id);
        assert forall|j: int|
            0 <= j < games.len() && (first_game_index(games, id) < 0 || j < first_game_index(games, id))
                implies #[trigger] games[j].id@ != id by {
            if j > 0 {
                assert(games.drop_first()[j - 1] == games[j]);
            }
        }
    }
}

/// `m` maps each game identifier of `games` to (a copy of) the last game with
/// that identifier, and holds nothing else.
pub open spec fn is_registry_map(m: Map<Seq<char>, GameDefinition>, games: Seq<GameDefinition>) -> bool {
    &&& forall|k: Seq<char>| #[trigger] m.contains_key(k) <==> has_game(games, k)
    &&& forall|k: Seq<char>| #[trigger] m.contains_key(k) ==> same_definition(m[k], games[last_game_index(games, k)])
}

/// Maps each game identifier to its definition (the last one, should an
/// identifier repeat).
pub fn build_registry_map(registry: &GameRegistry) -> (m: StringHashMap<GameDefinition>)
    ensures
        is_registry_map(m@, registry.games@),
{
    let games = &registry.games;
    let mut m: StringHashMap<GameDefinition> = StringHashMap::new();
    let mut i: usize = 0;
    while i < games.len()
        invariant
            i <= games.len(),
            is_registry_map(m@, games@.take(i as int)),
        decreases games.len() - i,
    {
        let ghost pre = games@.take(i as int);
        let ghost post = games@.take(i + 1);
        assert(post.drop_last() =~= pre);
        assert(post.last() == games@[i as int]);
        let g = clone_definition(&games[i]);
        m.insert(games[i].id.clone(), g);
        assert forall|k: Seq<char>| #[trigger] m@.contains_key(k) <==> has_game(post, k) by {
            lemma_last_game_index(pre, k);
            lemma_last_game_index(post, k);
        }
        assert forall|k: Seq<char>| #[trigger] m@.contains_key(k) implies same_definition(
            m@[k],
            post[last_game_index(post, k)],
        ) by {
            lemma_last_game_index(pre, k);
            lemma_last_game_index(post, k);
        }
        i += 1;
    }
    assert(games@.take(games.len() as int) =~= games@);
    m
}

/// Legacy names mapped to game identifiers: for each game with a legacy name, in
/// order, that name to the game's identifier (a later game taking over a name).
pub open spec fn legacy_map_spec(games: Seq<GameDefinition>) -> Map<Seq<char>, String>
    decreases games.len(),
{
    if games.len() == 0 {
        Map::<Seq<char>, String>::empty()
    } else {
        let r = legacy_map_spec(games.drop_last());
        match games.last().legacy_id {
            Some(l) => r.insert(l@, games.last().id),
            None => r,
        }
    }
}

/// Maps legacy game names to game identifiers.
pub fn build_legacy_map(registry: &GameRegistry) -> (m: StringHashMap<String>)
    ensures
        m@ == legacy_map_spec(registry.games@),
{
    let games = &registry.games;
    let mut m: StringHashMap<String> = StringHashMap::new();
    let mut i: usize = 0;
    while i < games.len()
        invariant
            i <= games.len(),
            m@ == legacy_map_spec(games@.take(i as int)),
        decreases games.len() - i,
    {
        assert(games@.take(i + 1).drop_last() =~= games@.take(i as int));
        assert(games@.take(i + 1).last() == games@[i as int]);
        if let Some(l) = &games[i].legacy_id {
            m.insert(l.clone(), games[i].id.clone());
        }
        i += 1;
    }
    assert(games@.take(games.len() as int) =~= games@);
    m
}

/// The game identifier that `id` stands for: `id` itself when the registry knows
/// it, else the identifier its legacy name maps to.
pub open spec fn resolved_id(id: Seq<char>, registry: Map<Seq<char>, GameDefinition>, legacy: Map<
    Seq<char>,
    String,
>) -> Option<Seq<char>> {
    if registry.contains_key(id) {
        Some(id)
    } else if legacy.contains_key(id) {
        Some(legacy[id]@)
    } else {
        None
    }
}

/// Resolves a game name, accepting both current identifiers and legacy names.
pub fn resolve_game_id(id: &str, registry_map: &StringHashMap<GameDefinition>, legacy_map: &StringHashMap<
    String,
>) -> (r: Option<String>)
    ensures
        match (r, resolved_id(id@, registry_map@, legacy_map@)) {
            (Some(s), Some(t)) => s@ == t,
            (None, None) => true,
            _ => false,
        },
{
    if registry_map.contains_key(id) {
        return Some(id.to_string());
    }
    match legacy_map.get(id) {
        Some(s) => Some(s.clone()),
        None => None,
    }
}

/// Every legacy name maps to the identifier of some game.
proof fn lemma_legacy_targets_are_games(games: Seq<GameDefinition>)
    ensures
        forall|k: Seq<char>|
            #[trigger] legacy_map_spec(games).contains_key(k) ==> has_game(games, legacy_map_spec(games)[k]@),
    decreases games.len(),
{
    if games.len() > 0 {
        let prev = games.drop_last();
        lemma_legacy_targets_are_games(prev);
        assert forall|k: Seq<char>|
            #[trigger] legacy_map_spec(games).contains_key(k) implies has_game(games, legacy_map_spec(games)[k]@) by {
            let last = games.last();
            if last.legacy_id is Some && last.legacy_id->0@ == k {
                assert(games[games.len() - 1].id@ == legacy_map_spec(games)[k]@);
            } else {
                assert(legacy_map_spec(prev).contains_key(k));
                let t = legacy_map_spec(prev)[k]@;
                let j = choose|j: int| 0 <= j < prev.len() && (#[trigger] prev[j]).id@ == t;
                assert(games[j] == prev[j]);
            }
        }
    }
}

/// A legacy name that one game alone holds, and that is no game's identifier, maps
/// to that game's identifier.
proof fn lemma_unique_legacy_name(games: Seq<GameDefinition>, i: int, name: Seq<char>)
    requires
        0 <= i < games.len(),
        games[i].legacy_id matches Some(l) && l@ == name,
        forall|j: int| 0 <= j < games.len() && j != i ==> !(#[trigger] games[j].legacy_id matches Some(o) && o@ == name),
    ensures
        legacy_map_spec(games).contains_key(name),
        legacy_map_spec(games)[name] == games[i].id,
    decreases games.len(),
{
    if i < games.len() - 1 {
        let prev = games.drop_last();
        assert forall|j: int| 0 <= j < prev.len() && j != i implies !(#[trigger] prev[j].legacy_id matches Some(o) && o@ == name) by {
            assert(prev[j] == games[j]);
        }
        assert(prev[i] == games[i]);
        lemma_unique_legacy_name(prev, i, name);
        assert(!(games[games.len() - 1].legacy_id matches Some(o) && o@ == name));
    }
}

/// A resolved game name is an identifier of the registry, and it resolves to
/// itself.
pub proof fn resolved_ids_are_registry_ids(games: Seq<GameDefinition>, registry: Map<Seq<char>, GameDefinition>, x: Seq<char>)
    requires
        is_registry_map(registry, games),
    ensures
        resolved_id(x, registry, legacy_map_spec(games)) matches Some(y) ==> registry.contains_key(y) && resolved_id(
            y,
            registry,
            legacy_map_spec(games),
        ) == Some(y),
{
    lemma_legacy_targets_are_games(games);
}

/// A legacy name that one game alone holds, and that is no game's identifier,
/// resolves to that game's identifier.
pub proof fn legacy_name_resolves_to_its_game(
    games: Seq<GameDefinition>,
    registry: Map<Seq<char>, GameDefinition>,
    i: int,
    name: Seq<char>,
)
    requires
        is_registry_map(registry, games),
        0 <= i < games.len(),
        games[i].legacy_id matches Some(l) && l@ == name,
        !has_game(games, name),
        forall|j: int| 0 <= j < games.len() && j != i ==> !(#[trigger] games[j].legacy_id matches Some(o) && o@ == name),
    ensures
        resolved_id(name, registry, legacy_map_spec(games)) == Some(games[i].id@),
{
    lemma_unique_legacy_name(games, i, name);
}

/// The definition of the game `game_id` (the first, should the identifier repeat).
pub fn get_game_def<'a>(registry: &'a GameRegistry, game_id: &str) -> (r: Option<&'a GameDefinition>)
    ensures
        r is Some <==> first_game_index(registry.games@, game_id@) >= 0,
        r is Some ==> r->0 == registry.games@[first_game_index(registry.games@, game_id@)],
{
    proof {
        lemma_first_game_index(registry.games@, game_id@);
    }
    let mut i: usize = 0;
    while i < registry.games.len()
        invariant
            i <= registry.games.len(),
            forall|j: int| 0 <= j < i ==> #[trigger] registry.games@[j].id@ != game_id@,
            -1 <= first_game_index(registry.games@, game_id@) < registry.games.len(),
            first_game_index(registry.games@, game_id@) >= 0 ==> registry.games@[first_game_index(registry.games@, game_id@)].id@
                == game_id@,
            forall|j: int|
                0 <= j < registry.games.len() && (first_game_index(registry.games@, game_id@) < 0 || j < first_game_index(
                    registry.games@,
                    game_id@,
                )) ==> #[trigger] registry.games@[j].id@ != game_id@,
        decreases registry.games.len() - i,
    {
        if str_eq(registry.games[i].id.as_str(), game_id) {
            assert(first_game_index(registry.games@, game_id@) == i as int);
            let g = &registry.games[i];
            assert(*g == registry.games@[i as int]);
            return Some(g);
        }
        i += 1;
    }
    None
}

} // verus!
