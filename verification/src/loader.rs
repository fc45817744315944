//! Training-data loaders: record formats, game expansion and the decisions
//! of the loading pipelines.

pub mod batch;
pub mod direct;
pub mod hcpe;
pub mod hcpe3;
pub mod pack;
pub mod pack_roundtrip;
pub mod shuffle;

use vstd::prelude::*;

verus! {

/// Outcome of a game for the side to move.
#[derive(Clone, Copy, Debug, PartialEq, Eq, Structural)]
pub enum GameResult {
    Loss,
    Draw,
    Win,
}

/// Game result of result index `idx`: 0 loss, 1 draw, 2 win.
pub fn game_result_from_index(idx: usize) -> (r: GameResult)
    requires
        idx < 3,
    ensures
        idx == 0 ==> r == GameResult::Loss,
        idx == 1 ==> r == GameResult::Draw,
        idx == 2 ==> r == GameResult::Win,
{
    if idx == 0 {
        GameResult::Loss
    } else if idx == 1 {
        GameResult::Draw
    } else {
        GameResult::Win
    }
}

/// A training record with a teacher score and a game result.
pub trait LoadableDataType {
    fn score(&self) -> i16;

    fn result(&self) -> GameResult;
}

/// A source of training records of type `T` read from data files.
pub trait DataLoader<T> {
    /// The data files, in reading order.
    fn data_file_paths(&self) -> &[String];
}

/// Owned copies of `paths`, in order.
pub fn owned_paths(paths: &[&str]) -> (r: Vec<String>)
    ensures
        r@.len() == paths@.len(),
        forall|i: int| 0 <= i < paths@.len() ==> #[trigger] r@[i]@ == paths@[i]@,
{
    let mut out: Vec<String> = Vec::new();
    let mut i: usize = 0;
    while i < paths.len()
        invariant
            i <= paths@.len(),
            out@.len() == i,
            forall|k: int| 0 <= k < i ==> #[trigger] out@[k]@ == paths@[k]@,
        decreases paths@.len() - i,
    {
        out.push(paths[i].to_owned());
        i = i + 1;
    }
    out
}

} // verus!
