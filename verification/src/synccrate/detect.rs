//! Where the folder of each game is looked for on this machine, from the detection
//! strategies of the registry.
use vstd::prelude::*;
use crate::paths::{join_path, path_join};
use crate::synccrate::registry::{DetectionStrategy, GameDefinition, GameRegistry, PlatformPaths};

verus! {

/// The platform the tool runs on.
#[derive(Debug, Clone, Copy, PartialEq, Eq, Structural)]
pub enum Platform {
    Windows,
    MacOs,
    Linux,
}

/// The absolute paths given for `platform`.
pub open spec fn platform_paths(p: PlatformPaths, platform: Platform) -> Seq<String> {
    match platform {
        Platform::Windows => p.windows@,
        Platform::MacOs => p.macos@,
        Platform::Linux => p.linux@,
    }
}

/// The texts of a list of strings.
pub open spec fn texts(s: Seq<String>) -> Seq<Seq<char>> {
    s.map_values(|x: String| x@)
}

/// The folders one strategy proposes, in order: below the documents folder (none
/// when it is not known), or the absolute paths of the platform.
pub open spec fn strategy_candidates(s: DetectionStrategy, documents: Option<Seq<char>>, platform: Platform) -> Seq<Seq<char>> {
    match s {
        DetectionStrategy::DocumentsRelative { base, folders } => match documents {
            Some(d) => folders@.map_values(|f: String| path_join(path_join(d, base@), f@)),
            None => Seq::empty(),
        },
        DetectionStrategy::AbsolutePaths { paths } => texts(platform_paths(paths, platform)),
    }
}

/// The folders a list of strategies proposes, strategy after strategy.
pub open spec fn candidates_of(strategies: Seq<DetectionStrategy>, documents: Option<Seq<char>>, platform: Platform) -> Seq<Seq<char>>
    decreases strategies.len(),
{
    if strategies.len() == 0 {
        Seq::empty()
    } else {
        candidates_of(strategies.drop_last(), documents, platform) + strategy_candidates(
            strategies.last(),
            documents,
            platform,
        )
    }
}

/// The folders proposed for a game; none when it has no detection strategies.
pub open spec fn game_candidates(def: GameDefinition, documents: Option<Seq<char>>, platform: Platform) -> Seq<Seq<char>> {
    match def.detection {
        Some(d) => candidates_of(d.strategies@, documents, platform),
        None => Seq::empty(),
    }
}

/// The text of an optional string.
pub open spec fn opt_text(s: Option<String>) -> Option<Seq<char>> {
    match s {
        Some(t) => Some(t@),
        None => None,
    }
}

fn strategy_folders(s: &DetectionStrategy, documents: &Option<String>, platform: Platform) -> (r: Vec<String>)
    ensures
        texts(r@) == strategy_candidates(*s, opt_text(*documents), platform),
{
    let mut r: Vec<String> = Vec::new();
    match s {
        DetectionStrategy::DocumentsRelative { base, folders } => {
            if let Some(d) = documents {
                let root = join_path(d.as_str(), base.as_str());
                let mut i: usize = 0;
                while i < folders.len()
                    invariant
                        i <= folders.len(),
                        root@ == path_join(d@, base@),
                        texts(r@) == folders@.take(i as int).map_values(|f: String| path_join(root@, f@)),
                    decreases folders.len() - i,
                {
                    let ghost prev = r@;
                    r.push(join_path(root.as_str(), folders[i].as_str()));
                    assert(folders@.take(i + 1) =~= folders@.take(i as int).push(folders@[i as int]));
                    assert(texts(r@) =~= texts(prev).push(r@[i as int]@));
                    i += 1;
                    assert(texts(r@) =~= folders@.take(i as int).map_values(|f: String| path_join(root@, f@)));
                }
                assert(folders@.take(folders.len() as int) =~= folders@);
            }
        },
        DetectionStrategy::AbsolutePaths { paths } => {
            let list = match platform {
                Platform::Windows => &paths.windows,
                Platform::MacOs => &paths.macos,
                Platform::Linux => &paths.linux,
            };
            let mut i: usize = 0;
            while i < list.len()
                invariant
                    i <= list.len(),
                    texts(r@) == texts(list@.take(i as int)),
                decreases list.len() - i,
            {
                let ghost prev = r@;
                r.push(list[i].clone());
                assert(list@.take(i + 1) =~= list@.take(i as int).push(list@[i as int]));
                assert(texts(r@) =~= texts(prev).push(r@[i as int]@));
                assert(texts(list@.take(i + 1)) =~= texts(list@.take(i as int)).push(list@[i as int]@));
                i += 1;
                assert(texts(r@) =~= texts(list@.take(i as int)));
            }
            assert(list@.take(list.len() as int) =~= list@);
        },
    }
    proof {
        assert(texts(r@) =~= strategy_candidates(*s, opt_text(*documents), platform));
    }
    r
}

/// The folders proposed for a game, in the order of its strategies: below the
/// documents folder `documents` for a documents-relative strategy, the paths of
/// `platform` for an absolute one.
pub fn detection_candidates(def: &GameDefinition, documents: &Option<String>, platform: Platform) -> (r: Vec<String>)
    ensures
        texts(r@) == game_candidates(*def, opt_text(*documents), platform),
{
    let mut r: Vec<String> = Vec::new();
    if let Some(d) = &def.detection {
        let strategies = &d.strategies;
        let mut i: usize = 0;
        while i < strategies.len()
            invariant
                i <= strategies.len(),
                texts(r@) == candidates_of(strategies@.take(i as int), opt_text(*documents), platform),
            decreases strategies.len() - i,
        {
            let more = strategy_folders(&strategies[i], documents, platform);
            let ghost before = r@;
            let mut j: usize = 0;
            while j < more.len()
                invariant
                    j <= more.len(),
                    r@ == before + more@.take(j as int),
                decreases more.len() - j,
            {
                r.push(more[j].clone());
                j += 1;
                assert(r@ =~= before + more@.take(j as int));
            }
            assert(more@.take(more.len() as int) =~= more@);
            assert(strategies@.take(i + 1).drop_last() =~= strategies@.take(i as int));
            assert(texts(before + more@) =~= texts(before) + texts(more@));
            i += 1;
        }
        assert(strategies@.take(strategies.len() as int) =~= strategies@);
    }
    r
}

/// For each game of the registry that is detected automatically, in order, its id
/// and the folders proposed for it.
pub open spec fn detection_plan_spec(games: Seq<GameDefinition>, documents: Option<Seq<char>>, platform: Platform) -> Seq<(Seq<char>, Seq<Seq<char>>)>
    decreases games.len(),
{
    if games.len() == 0 {
        Seq::empty()
    } else {
        let rest = detection_plan_spec(games.drop_last(), documents, platform);
        let g = games.last();
        if g.auto_detect {
            rest.push((g.id@, game_candidates(g, documents, platform)))
        } else {
            rest
        }
    }
}

/// The texts of a detection plan.
pub open spec fn plan_texts(plan: Seq<(String, Vec<String>)>) -> Seq<(Seq<char>, Seq<Seq<char>>)> {
    plan.map_values(|e: (String, Vec<String>)| (e.0@, texts(e.1@)))
}

/// The games to look for and where: each game of the registry marked for automatic
/// detection, with the folders proposed for it; the first of them that exists is
/// the game's folder.
pub fn detection_plan(registry: &GameRegistry, documents: &Option<String>, platform: Platform) -> (r: Vec<(String, Vec<String>)>)
    ensures
        plan_texts(r@) == detection_plan_spec(registry.games@, opt_text(*documents), platform),
{
    let games = &registry.games;
    let mut r: Vec<(String, Vec<String>)> = Vec::new();
    let mut i: usize = 0;
    while i < games.len()
        invariant
            i <= games.len(),
            plan_texts(r@) == detection_plan_spec(games@.take(i as int), opt_text(*documents), platform),
        decreases games.len() - i,
    {
        let g = &games[i];
        assert(games@.take(i + 1).drop_last() =~= games@.take(i as int));
        assert(games@.take(i + 1).last() == games@[i as int]);
        if g.auto_detect {
            let c = detection_candidates(g, documents, platform);
            r.push((g.id.clone(), c));
            assert(plan_texts(r@) =~= detection_plan_spec(games@.take(i + 1), opt_text(*documents), platform));
        }
        i += 1;
    }
    assert(games@.take(games.len() as int) =~= games@);
    r
}

} // verus!
