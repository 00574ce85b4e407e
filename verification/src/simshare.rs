//! The mod installer for the three classic games.
use vstd::prelude::*;
use crate::text::{concat2, str_eq};

verus! {

/// The games the installer knows.
#[derive(Debug, Clone, Copy, PartialEq, Eq, Structural)]
pub enum SimsGame {
    Sims2,
    Sims3,
    Sims4,
}

/// Reads a game name: `Sims2`, `Sims3` or `Sims4`.
pub fn parse_game(game: &str) -> (r: Result<SimsGame, String>)
    ensures
        game@ == "Sims2"@ ==> r == Ok::<SimsGame, String>(SimsGame::Sims2),
        game@ == "Sims3"@ ==> r == Ok::<SimsGame, String>(SimsGame::Sims3),
        game@ == "Sims4"@ ==> r == Ok::<SimsGame, String>(SimsGame::Sims4),
        game@ != "Sims2"@ && game@ != "Sims3"@ && game@ != "Sims4"@ ==> (r matches Err(e) && e@ == "Unknown game: "@
            + game@),
{
    proof {
        reveal_strlit("Sims2");
        reveal_strlit("Sims3");
        reveal_strlit("Sims4");
        assert("Sims2"@[4] != "Sims3"@[4]);
        assert("Sims2"@[4] != "Sims4"@[4]);
        assert("Sims3"@[4] != "Sims4"@[4]);
    }
    if str_eq(game, "Sims2") {
        Ok(SimsGame::Sims2)
    } else if str_eq(game, "Sims3") {
        Ok(SimsGame::Sims3)
    } else if str_eq(game, "Sims4") {
        Ok(SimsGame::Sims4)
    } else {
        Err(concat2("Unknown game: ", game))
    }
}

} // verus!
