//! Planet surfaces: cube-sphere tiling and level-of-detail selection.

pub mod square;
pub mod loads;

use vstd::prelude::*;
use square::{MapID, dist_defined, spec_dist};

verus! {

/// How often, in frames, a planet re-decides which squares to load.
pub const UPDATE_PERIOD: u8 = 8;

/// The detail at which a square's model is built.
#[derive(PartialEq, Eq, Structural, Copy, Clone, Debug)]
pub enum LoadDegree {
    High,
    Low,
}

impl LoadDegree {
    /// How many times the map subdivision is halved at this degree.
    pub open spec fn spec_shift(self) -> u8 {
        match self {
            LoadDegree::High => 0,
            LoadDegree::Low => 1,
        }
    }

    /// How many times the map subdivision is halved at this degree.
    #[verifier::when_used_as_spec(spec_shift)]
    pub fn shift(self) -> (r: u8)
        ensures
            r == self.spec_shift(),
    {
        match self {
            LoadDegree::High => 0,
            LoadDegree::Low => 1,
        }
    }
}

/// Distances (in squares) up to which squares are loaded in high and in
/// low detail.
#[derive(PartialEq, Eq, Structural, Copy, Clone, Debug)]
pub struct LoadConfig {
    pub low_dist: i32,
    pub high_dist: i32,
}

/// What a square's model is: built in high detail, in low detail, or not.
#[derive(PartialEq, Eq, Structural, Copy, Clone, Debug)]
pub enum LoadLevel {
    High,
    Low,
    Unloaded,
}

/// What to do with a square's model.
#[derive(PartialEq, Eq, Structural, Copy, Clone, Debug)]
pub enum ModelAction {
    /// Leave the model as it is.
    Keep,
    /// Start building the model in high detail.
    LoadHigh,
    /// Start building the model in low detail.
    LoadLow,
    /// Drop the model.
    Unload,
}

/// The action for a square at distance `dist` whose model is at `current`:
/// within `high_dist` it must be high, else within `low_dist` low, else
/// dropped; a model already at the wanted detail is kept.
pub open spec fn spec_model_action(dist: i32, config: LoadConfig, current: LoadLevel) -> ModelAction {
    if dist <= config.high_dist {
        if current == LoadLevel::High { ModelAction::Keep } else { ModelAction::LoadHigh }
    } else if dist <= config.low_dist {
        if current == LoadLevel::Low { ModelAction::Keep } else { ModelAction::LoadLow }
    } else {
        ModelAction::Unload
    }
}

/// Decides what to do with a square's model, given its distance from the
/// viewer's square and the load configuration in force.
pub fn model_action(dist: i32, config: &LoadConfig, current: LoadLevel) -> (r: ModelAction)
    ensures
        r == spec_model_action(dist, *config, current),
{
    if dist <= config.high_dist {
        match current {
            LoadLevel::High => ModelAction::Keep,
            _ => ModelAction::LoadHigh,
        }
    } else if dist <= config.low_dist {
        match current {
            LoadLevel::Low => ModelAction::Keep,
            _ => ModelAction::LoadLow,
        }
    } else {
        ModelAction::Unload
    }
}

/// Advances the planet's frame counter; returns the new counter and whether
/// this frame is one on which the planet re-decides its squares.
pub fn advance_update_frame(update_frame: u8) -> (r: (u8, bool))
    requires
        update_frame < 255,
    ensures
        r.0 == (update_frame + 1) % (UPDATE_PERIOD as int),
        r.1 == (r.0 == 0),
{
    let next = (update_frame + 1) % UPDATE_PERIOD;
    (next, next == 0)
}

/// Whether the squares must be re-decided: not when the viewer is over the
/// same square with the same configuration as last time.
pub fn needs_reload(last_state: Option<(MapID, usize)>, id: MapID, config_index: usize) -> (r: bool)
    ensures
        r == !(last_state == Some((id, config_index))),
{
    match last_state {
        Some((last_id, last_index)) => !(last_id == id && last_index == config_index),
        None => true,
    }
}

/// The square `index` in the order a planet lists its squares: face by
/// face, row by row, column by column, with `n` squares per side.
pub open spec fn listed_square(n: int, index: int) -> MapID {
    MapID {
        face: (index / (n * n)) as u8,
        map_row: ((index % (n * n)) / n) as u8,
        map_col: (index % n) as u8,
    }
}

/// Every square of a planet whose faces have `face_subdivision` squares per
/// side (the count is cut to a byte), face by face, row by row, column by
/// column.
pub fn square_ids(face_subdivision: u32) -> (r: Vec<MapID>)
    ensures
        r@.len() == 6 * (face_subdivision as u8) * (face_subdivision as u8),
        forall|i: int| 0 <= i < r@.len() ==> #[trigger] r@[i] == listed_square(face_subdivision as u8 as int, i),
{
    let n: u8 = #[verifier::truncate] (face_subdivision as u8);
    let mut ids: Vec<MapID> = Vec::new();
    let mut face: u8 = 0;
    while face < 6
        invariant
            face <= 6,
            n == face_subdivision as u8,
            ids@.len() == face * n * n,
            forall|i: int| 0 <= i < ids@.len() ==> #[trigger] ids@[i] == listed_square(n as int, i),
        decreases 6 - face,
    {
        let mut row: u8 = 0;
        while row < n
            invariant
                face < 6,
                row <= n,
                n == face_subdivision as u8,
                ids@.len() == face * n * n + row * n,
                forall|i: int| 0 <= i < ids@.len() ==> #[trigger] ids@[i] == listed_square(n as int, i),
            decreases n - row,
        {
            let mut col: u8 = 0;
            while col < n
                invariant
                    face < 6,
                    row < n,
                    col <= n,
                    n == face_subdivision as u8,
                    ids@.len() == face * n * n + row * n + col,
                    forall|i: int| 0 <= i < ids@.len() ==> #[trigger] ids@[i] == listed_square(n as int, i),
                decreases n - col,
            {
                proof {
                    lemma_listed_square(n as int, face as int, row as int, col as int);
                }
                ids.push(MapID { face, map_row: row, map_col: col });
                col = col + 1;
            }
            proof {
                assert(face * n * n + row * n + n == face * n * n + (row + 1) * n) by (nonlinear_arith);
            }
            row = row + 1;
        }
        proof {
            assert(face * n * n + n * n == (face + 1) * n * n) by (nonlinear_arith);
        }
        face = face + 1;
    }
    ids
}

proof fn lemma_listed_square(n: int, face: int, row: int, col: int)
    requires
        0 <= face < 6,
        0 <= row < n,
        0 <= col < n,
        n <= 255,
    ensures
        listed_square(n, face * n * n + row * n + col) == (MapID { face: face as u8, map_row: row as u8, map_col: col as u8 }),
{
    let i = face * n * n + row * n + col;
    assert(i / (n * n) == face && i % (n * n) == row * n + col) by (nonlinear_arith)
        requires
            i == face * n * n + row * n + col,
            0 <= face,
            0 <= row < n,
            0 <= col < n,
    {
        assert(0 <= row * n + col < n * n) by (nonlinear_arith)
            requires
                0 <= row < n,
                0 <= col < n,
        ;
        vstd::arithmetic::div_mod::lemma_fundamental_div_mod_converse(i, n * n, face, row * n + col);
    }
    assert((row * n + col) / n == row && i % n == col) by (nonlinear_arith)
        requires
            i == face * n * n + row * n + col,
            0 <= face,
            0 <= row < n,
            0 <= col < n,
    {
        vstd::arithmetic::div_mod::lemma_fundamental_div_mod_converse(row * n + col, n, row, col);
        vstd::arithmetic::div_mod::lemma_fundamental_div_mod_converse(i, n, face * n + row, col);
    }
}

/// What to do with each square's model when the viewer stands on square
/// `viewer`: the action for its distance from the viewer under `config`.
pub fn plan_updates(viewer: MapID, squares: &[(MapID, LoadLevel)], face_subdivision: u8, config: &LoadConfig) -> (r: Vec<ModelAction>)
    requires
        forall|i: int| 0 <= i < squares@.len() ==> dist_defined(viewer, #[trigger] squares@[i].0),
    ensures
        r@.len() == squares@.len(),
        forall|i: int|
            0 <= i < squares@.len() ==> #[trigger] r@[i] == spec_model_action(
                spec_dist(viewer, squares@[i].0, face_subdivision as int) as i32,
                *config,
                squares@[i].1,
            ),
{
    let mut actions: Vec<ModelAction> = Vec::new();
    let mut i: usize = 0;
    while i < squares.len()
        invariant
            i <= squares@.len(),
            actions@.len() == i,
            forall|k: int| 0 <= k < squares@.len() ==> dist_defined(viewer, #[trigger] squares@[k].0),
            forall|k: int|
                0 <= k < i ==> #[trigger] actions@[k] == spec_model_action(
                    spec_dist(viewer, squares@[k].0, face_subdivision as int) as i32,
                    *config,
                    squares@[k].1,
                ),
        decreases squares@.len() - i,
    {
        let (id, level) = squares[i];
        assert(dist_defined(viewer, squares@[i as int].0));
        let dist = MapID::dist(viewer, id, face_subdivision);
        actions.push(model_action(dist, config, level));
        i = i + 1;
    }
    actions
}

/// The load configuration in force: the first (configurations are listed
/// from the highest threshold down) whose height threshold the viewer is
/// above, else the last. `above[i]` tells whether the viewer is above the
/// threshold of configuration `i`.
pub fn config_index(above: &[bool]) -> (r: usize)
    requires
        above@.len() > 0,
    ensures
        r < above@.len(),
        above@[r as int] || r == above@.len() - 1,
        forall|j: int| 0 <= j < r ==> !above@[j],
{
    let mut i: usize = 0;
    while i < above.len()
        invariant
            i <= above@.len(),
            forall|j: int| 0 <= j < i ==> !above@[j],
        decreases above@.len() - i,
    {
        if above[i] {
            return i;
        }
        i = i + 1;
    }
    above.len() - 1
}

} // verus!
