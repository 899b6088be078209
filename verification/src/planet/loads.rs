use vstd::prelude::*;
use super::square::{MapID, dist_defined, spec_dist};
use super::{
    advance_update_frame, model_action, needs_reload, spec_model_action, LoadConfig, LoadDegree, LoadLevel,
    ModelAction, UPDATE_PERIOD,
};

verus! {

/// The actions a viewer on square `viewer` calls for, square by square.
pub open spec fn planned(
    viewer: MapID,
    ids: Seq<MapID>,
    levels: Seq<LoadLevel>,
    face_subdivision: int,
    config: LoadConfig,
) -> Seq<ModelAction> {
    Seq::new(
        ids.len(),
        |i: int| spec_model_action(spec_dist(viewer, ids[i], face_subdivision) as i32, config, levels[i]),
    )
}

/// The models to build for the first `n` actions, in order: the square's
/// position and the detail to build it at.
pub open spec fn builds(actions: Seq<ModelAction>, n: nat) -> Seq<(usize, LoadDegree)>
    decreases n,
{
    if n == 0 {
        Seq::empty()
    } else {
        let before = builds(actions, (n - 1) as nat);
        match actions[n - 1] {
            ModelAction::LoadHigh => before.push(((n - 1) as usize, LoadDegree::High)),
            ModelAction::LoadLow => before.push(((n - 1) as usize, LoadDegree::Low)),
            _ => before,
        }
    }
}

/// The levels after the models that the actions drop are dropped.
pub open spec fn after_unloads(levels: Seq<LoadLevel>, actions: Seq<ModelAction>) -> Seq<LoadLevel> {
    Seq::new(
        levels.len(),
        |i: int| if actions[i] == ModelAction::Unload { LoadLevel::Unloaded } else { levels[i] },
    )
}

/// The level a finished build leaves its square at.
pub open spec fn built_level(degree: LoadDegree) -> LoadLevel {
    match degree {
        LoadDegree::High => LoadLevel::High,
        LoadDegree::Low => LoadLevel::Low,
    }
}

/// The detail a square at distance `dist` is wanted at under `config`.
pub open spec fn wanted_level(dist: i32, config: LoadConfig) -> LoadLevel {
    if dist <= config.high_dist {
        LoadLevel::High
    } else if dist <= config.low_dist {
        LoadLevel::Low
    } else {
        LoadLevel::Unloaded
    }
}

/// The levels after the builds `bs` finish, in order.
pub open spec fn apply_builds(levels: Seq<LoadLevel>, bs: Seq<(usize, LoadDegree)>) -> Seq<LoadLevel>
    decreases bs.len(),
{
    if bs.len() == 0 {
        levels
    } else {
        let before = apply_builds(levels, bs.drop_last());
        let b = bs.last();
        if b.0 < before.len() {
            before.update(b.0 as int, built_level(b.1))
        } else {
            before
        }
    }
}

proof fn lemma_apply_builds_len(levels: Seq<LoadLevel>, bs: Seq<(usize, LoadDegree)>)
    ensures
        apply_builds(levels, bs).len() == levels.len(),
    decreases bs.len(),
{
    if bs.len() > 0 {
        lemma_apply_builds_len(levels, bs.drop_last());
    }
}

proof fn lemma_builds_prefix(
    viewer: MapID,
    ids: Seq<MapID>,
    levels: Seq<LoadLevel>,
    face_subdivision: int,
    config: LoadConfig,
    n: nat,
)
    requires
        ids.len() == levels.len(),
        ids.len() <= usize::MAX,
        n <= ids.len(),
    ensures
        ({
            let actions = planned(viewer, ids, levels, face_subdivision, config);
            let base = after_unloads(levels, actions);
            apply_builds(base, builds(actions, n)) == Seq::new(
                ids.len(),
                |i: int|
                    if i < n {
                        wanted_level(spec_dist(viewer, ids[i], face_subdivision) as i32, config)
                    } else {
                        base[i]
                    },
            )
        }),
    decreases n,
{
    let actions = planned(viewer, ids, levels, face_subdivision, config);
    let base = after_unloads(levels, actions);
    let target = Seq::new(
        ids.len(),
        |i: int|
            if i < n {
                wanted_level(spec_dist(viewer, ids[i], face_subdivision) as i32, config)
            } else {
                base[i]
            },
    );
    if n == 0 {
        assert(apply_builds(base, builds(actions, 0)) =~= target);
    } else {
        let m = (n - 1) as nat;
        lemma_builds_prefix(viewer, ids, levels, face_subdivision, config, m);
        let prev = apply_builds(base, builds(actions, m));
        lemma_apply_builds_len(base, builds(actions, m));
        let bs = builds(actions, n);
        let k = m as int;
        match actions[k] {
            ModelAction::LoadHigh => {
                assert(bs.drop_last() =~= builds(actions, m));
                assert(bs.last() == (m as usize, LoadDegree::High));
                assert((m as usize) as int == k);
                assert(apply_builds(base, bs) == prev.update(k, LoadLevel::High));
                assert(apply_builds(base, bs) =~= target);
            },
            ModelAction::LoadLow => {
                assert(bs.drop_last() =~= builds(actions, m));
                assert(bs.last() == (m as usize, LoadDegree::Low));
                assert((m as usize) as int == k);
                assert(apply_builds(base, bs) == prev.update(k, LoadLevel::Low));
                assert(apply_builds(base, bs) =~= target);
            },
            _ => {
                assert(apply_builds(base, bs) =~= target);
            },
        }
    }
}

/// A decision followed by every build it starts leaves each square at
/// the detail its distance from the viewer asks for: high within the high
/// distance, low within the low distance, no model beyond.
pub proof fn lemma_decide_then_build(
    viewer: MapID,
    ids: Seq<MapID>,
    levels: Seq<LoadLevel>,
    face_subdivision: int,
    config: LoadConfig,
)
    requires
        ids.len() == levels.len(),
        ids.len() <= usize::MAX,
    ensures
        ({
            let actions = planned(viewer, ids, levels, face_subdivision, config);
            apply_builds(after_unloads(levels, actions), builds(actions, actions.len())) == Seq::new(
                ids.len(),
                |i: int| wanted_level(spec_dist(viewer, ids[i], face_subdivision) as i32, config),
            )
        }),
{
    let actions = planned(viewer, ids, levels, face_subdivision, config);
    lemma_builds_prefix(viewer, ids, levels, face_subdivision, config, ids.len());
    assert(apply_builds(after_unloads(levels, actions), builds(actions, actions.len())) =~= Seq::new(
        ids.len(),
        |i: int| wanted_level(spec_dist(viewer, ids[i], face_subdivision) as i32, config),
    ));
}

/// What counting a frame does (`SquareLoads::next_frame`): the counter
/// steps by one around the update period, `decides` tells whether it came
/// back to zero, and nothing else changes.
pub open spec fn counts_frame(before: SquareLoads, after: SquareLoads, decides: bool) -> bool {
    &&& after.frame() == (before.frame() + 1) % (UPDATE_PERIOD as int)
    &&& decides == (after.frame() == 0)
    &&& after.ids() == before.ids()
    &&& after.levels() == before.levels()
    &&& after.last_state() == before.last_state()
}

/// What a decision does (`SquareLoads::decide`) for a viewer on square
/// `viewer` under configuration number `config_index` (which is `config`):
/// nothing when they are those of the last decision; otherwise the models
/// the plan drops are dropped, the state is recorded, and `built` lists the
/// models to build, in square order.
pub open spec fn decided(
    before: SquareLoads,
    after: SquareLoads,
    built: Seq<(usize, LoadDegree)>,
    viewer: MapID,
    config_index: usize,
    config: LoadConfig,
    face_subdivision: u8,
) -> bool {
    &&& after.ids() == before.ids()
    &&& after.frame() == before.frame()
    &&& before.last_state() == Some((viewer, config_index)) ==> built == Seq::<(usize, LoadDegree)>::empty()
        && after.levels() == before.levels() && after.last_state() == before.last_state()
    &&& before.last_state() != Some((viewer, config_index)) ==> ({
        let actions = planned(viewer, before.ids(), before.levels(), face_subdivision as int, config);
        &&& built == builds(actions, actions.len())
        &&& after.levels() == after_unloads(before.levels(), actions)
        &&& after.last_state() == Some((viewer, config_index))
    })
}

/// One planet update: a frame is counted on `before` (giving `counted`
/// and whether to decide), and on a deciding frame the squares are
/// decided (taking `counted` to `after`, with `built` to build). The frame
/// counter steps by one around the update period, and decisions come only
/// when it is back at zero, so once every `UPDATE_PERIOD` frames. On such a
/// frame with a new viewer square or configuration, the new state is
/// recorded, every square farther than both the high and the low distance
/// loses its model, and every other square keeps its level until its build
/// finishes; with the viewer and configuration of the last decision,
/// nothing changes and nothing is built.
pub proof fn lemma_planet_update(
    before: SquareLoads,
    counted: SquareLoads,
    decides: bool,
    after: SquareLoads,
    built: Seq<(usize, LoadDegree)>,
    viewer: MapID,
    config_index: usize,
    config: LoadConfig,
    face_subdivision: u8,
)
    requires
        before.wf(),
        counts_frame(before, counted, decides),
        decides ==> decided(counted, after, built, viewer, config_index, config, face_subdivision),
    ensures
        counted.frame() == (before.frame() + 1) % (UPDATE_PERIOD as int),
        decides <==> counted.frame() == 0,
        !decides ==> counted.levels() == before.levels() && counted.last_state() == before.last_state(),
        decides && before.last_state() == Some((viewer, config_index)) ==> {
            &&& built.len() == 0
            &&& after.levels() == before.levels()
            &&& after.last_state() == before.last_state()
        },
        decides && before.last_state() != Some((viewer, config_index)) ==> {
            &&& after.last_state() == Some((viewer, config_index))
            &&& after.ids() == before.ids()
            &&& after.levels().len() == before.levels().len()
            &&& forall|i: int|
                0 <= i < before.ids().len() ==> {
                    let d = spec_dist(viewer, before.ids()[i], face_subdivision as int) as i32;
                    if d > config.high_dist && d > config.low_dist {
                        #[trigger] after.levels()[i] == LoadLevel::Unloaded
                    } else {
                        after.levels()[i] == before.levels()[i]
                    }
                }
        },
{
}

/// Which squares of a planet have models, and at what detail: the state
/// behind a planet's level-of-detail updates. Building models happens
/// elsewhere; this decides what to build and records what was built.
pub struct SquareLoads {
    ids: Vec<MapID>,
    levels: Vec<LoadLevel>,
    update_frame: u8,
    last_state: Option<(MapID, usize)>,
}

impl SquareLoads {
    /// Well formed: one level per square, and the frame counter within
    /// the update period.
    pub closed spec fn wf(self) -> bool {
        &&& self.ids@.len() == self.levels@.len()
        &&& self.update_frame < UPDATE_PERIOD
    }

    /// The squares, in the order they are listed.
    pub closed spec fn ids(self) -> Seq<MapID> {
        self.ids@
    }

    /// The detail each square's model is at.
    pub closed spec fn levels(self) -> Seq<LoadLevel> {
        self.levels@
    }

    /// The frame counter.
    pub closed spec fn frame(self) -> u8 {
        self.update_frame
    }

    /// The viewer's square and the configuration at the last decision.
    pub closed spec fn last_state(self) -> Option<(MapID, usize)> {
        self.last_state
    }

    /// Every square of `ids` without a model.
    pub fn new(ids: Vec<MapID>) -> (r: SquareLoads)
        ensures
            r.wf(),
            r.ids() == ids@,
            r.levels() == Seq::new(ids@.len(), |i: int| LoadLevel::Unloaded),
            r.frame() == 0,
            r.last_state() is None,
    {
        let mut levels: Vec<LoadLevel> = Vec::new();
        let mut i: usize = 0;
        while i < ids.len()
            invariant
                i <= ids@.len(),
                levels@ == Seq::new(i as nat, |k: int| LoadLevel::Unloaded),
            decreases ids@.len() - i,
        {
            levels.push(LoadLevel::Unloaded);
            i = i + 1;
            assert(levels@ =~= Seq::new(i as nat, |k: int| LoadLevel::Unloaded));
        }
        SquareLoads { ids, levels, update_frame: 0, last_state: None }
    }

    /// How many squares there are.
    pub fn len(&self) -> (r: usize)
        ensures
            r == self.ids().len(),
    {
        self.ids.len()
    }

    /// Square `index`.
    pub fn id(&self, index: usize) -> (r: MapID)
        requires
            index < self.ids().len(),
        ensures
            r == self.ids()[index as int],
    {
        self.ids[index]
    }

    /// The detail square `index` is at.
    pub fn level(&self, index: usize) -> (r: LoadLevel)
        requires
            self.wf(),
            index < self.levels().len(),
        ensures
            r == self.levels()[index as int],
    {
        self.levels[index]
    }

    /// Counts a frame; returns whether this frame is one on which the
    /// squares are re-decided.
    pub fn next_frame(&mut self) -> (r: bool)
        requires
            old(self).wf(),
        ensures
            final(self).wf(),
            counts_frame(*old(self), *final(self), r),
    {
        let (next, decide) = advance_update_frame(self.update_frame);
        self.update_frame = next;
        decide
    }

    /// Decides, for a viewer on square `viewer` under configuration number
    /// `config_index` (which is `config`), what to do with every square:
    /// nothing when the viewer and the configuration are those of the last
    /// decision; otherwise models too far away are dropped, and the models
    /// to build are returned, in square order.
    pub fn decide(&mut self, viewer: MapID, config_index: usize, config: &LoadConfig, face_subdivision: u8) -> (r: Vec<(usize, LoadDegree)>)
        requires
            old(self).wf(),
            forall|i: int| 0 <= i < old(self).ids().len() ==> dist_defined(viewer, #[trigger] old(self).ids()[i]),
        ensures
            final(self).wf(),
            decided(*old(self), *final(self), r@, viewer, config_index, *config, face_subdivision),
    {
        let mut to_build: Vec<(usize, LoadDegree)> = Vec::new();
        if !needs_reload(self.last_state, viewer, config_index) {
            return to_build;
        }
        self.last_state = Some((viewer, config_index));
        let ghost old_levels = self.levels@;
        let ghost actions = planned(viewer, self.ids@, old_levels, face_subdivision as int, *config);
        assert forall|k: int| 0 <= k < self.ids@.len() implies dist_defined(viewer, #[trigger] self.ids@[k]) by {
            assert(self.ids@[k] == old(self).ids()[k]);
        }
        let mut i: usize = 0;
        while i < self.ids.len()
            invariant
                i <= self.ids@.len(),
                self.ids@.len() == self.levels@.len(),
                self.ids@ == old(self).ids(),
                old_levels.len() == self.ids@.len(),
                actions == planned(viewer, self.ids@, old_levels, face_subdivision as int, *config),
                forall|k: int| 0 <= k < self.ids@.len() ==> dist_defined(viewer, #[trigger] self.ids@[k]),
                forall|k: int| 0 <= k < i ==> #[trigger] self.levels@[k] == after_unloads(old_levels, actions)[k],
                forall|k: int| i <= k < self.levels@.len() ==> #[trigger] self.levels@[k] == old_levels[k],
                to_build@ == builds(actions, i as nat),
                self.update_frame == old(self).frame(),
                self.update_frame < UPDATE_PERIOD,
                self.last_state == Some((viewer, config_index)),
            decreases self.ids@.len() - i,
        {
            assert(dist_defined(viewer, self.ids@[i as int]));
            let dist = MapID::dist(viewer, self.ids[i], face_subdivision);
            let action = model_action(dist, config, self.levels[i]);
            assert(action == actions[i as int]);
            match action {
                ModelAction::Unload => {
                    self.levels.set(i, LoadLevel::Unloaded);
                },
                ModelAction::LoadHigh => {
                    to_build.push((i, LoadDegree::High));
                },
                ModelAction::LoadLow => {
                    to_build.push((i, LoadDegree::Low));
                },
                ModelAction::Keep => {},
            }
            i = i + 1;
        }
        assert(self.levels@ =~= after_unloads(old_levels, actions));
        to_build
    }

    /// Records that the model of square `index` was built at `degree`.
    pub fn finish(&mut self, index: usize, degree: LoadDegree)
        requires
            old(self).wf(),
            index < old(self).levels().len(),
        ensures
            final(self).wf(),
            final(self).levels() == old(self).levels().update(index as int, built_level(degree)),
            final(self).ids() == old(self).ids(),
            final(self).frame() == old(self).frame(),
            final(self).last_state() == old(self).last_state(),
    {
        let level = match degree {
            LoadDegree::High => LoadLevel::High,
            LoadDegree::Low => LoadLevel::Low,
        };
        self.levels.set(index, level);
    }
}

} // verus!
