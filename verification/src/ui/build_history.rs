use vstd::prelude::*;
use std::collections::VecDeque;

use crate::map::build::laws::{distinct_positions, lemma_road_list_undo, undoable_on};
use crate::map::build::{
    executed, lemma_build_road_undo, lemma_clear_tile_undo, road_view_wf, saved_tile, undone, BuildAction,
    BuildResult, BuildRoad,
};
use crate::map::grid::spec_tile_at;
use crate::map::tile::TileView;
use crate::map::GameMap;

verus! {

/// How many build actions the history keeps.
pub const BUILD_HISTORY_MAX: usize = 16;

/// The build actions done so far, most recent first, and how many of them
/// are undone.
pub struct BuildHistory {
    pub queue: VecDeque<BuildAction>,
    pub undo_pos: usize,
}

impl BuildHistory {
    /// Every kept action is well formed, and no more than `BUILD_HISTORY_MAX` are kept.
    pub open spec fn wf(&self) -> bool {
        &&& self.queue@.len() <= BUILD_HISTORY_MAX
        &&& forall|i: int| 0 <= i < self.queue@.len() ==> (#[trigger] self.queue@[i]).wf()
    }

    pub fn new() -> (r: Self)
        ensures
            r.queue@ == Seq::<BuildAction>::empty(),
            r.undo_pos == 0,
            r.wf(),
    {
        Self { queue: VecDeque::new(), undo_pos: 0 }
    }

    /// Carries `action` out; when it succeeds it becomes the most recent
    /// action (the oldest is dropped beyond `BUILD_HISTORY_MAX`) and nothing
    /// is undone any more. A failed action is not kept.
    pub fn do_action(&mut self, map: &mut GameMap, action: BuildAction) -> (r: BuildResult)
        requires
            old(self).wf(),
            action.can_execute(*old(map)),
        ensures
            final(self).wf(),
            final(map).grid.wf(),
            old(map).wf() && action.keeps_map_wf(*old(map)) ==> final(map).wf(),
            r is Err ==> final(self).queue@ == old(self).queue@ && final(self).undo_pos == old(self).undo_pos,
            r is Err ==> exists|a1: BuildAction| executed(action, a1, *old(map), *final(map), r),
            r is Ok ==> {
                &&& final(self).undo_pos == 0
                &&& final(self).queue@.len() >= 1
                &&& executed(action, final(self).queue@[0], *old(map), *final(map), r)
                &&& final(self).queue@.drop_first() == (if old(self).queue@.len() < BUILD_HISTORY_MAX {
                    old(self).queue@
                } else {
                    old(self).queue@.drop_last()
                })
            },
    {
        let mut act = action;
        let r = act.execute(map);
        if r.is_err() {
            return r;
        }
        self.queue.push_front(act);
        if self.queue.len() > BUILD_HISTORY_MAX {
            self.queue.pop_back();
        }
        self.undo_pos = 0;
        assert(self.queue@[0] == act);
        proof {
            if old(self).queue@.len() < BUILD_HISTORY_MAX {
                assert(self.queue@.drop_first() =~= old(self).queue@);
            } else {
                assert(self.queue@.drop_first() =~= old(self).queue@.drop_last());
            }
        }
        r
    }

    /// Undoes the most recent action that is not undone yet, if there is one;
    /// when that works it counts as undone.
    pub fn undo_action(&mut self, map: &mut GameMap) -> (r: BuildResult)
        requires
            old(self).wf(),
            old(map).grid.wf(),
            old(self).undo_pos < old(self).queue@.len() ==> old(self).queue@[old(self).undo_pos as int].can_undo(
                *old(map),
            ),
        ensures
            final(self).wf(),
            final(map).grid.wf(),
            old(map).wf() && (old(self).undo_pos < old(self).queue@.len() ==> old(self).queue@[old(
                self,
            ).undo_pos as int].undo_keeps_map_wf()) ==> final(map).wf(),
            old(self).undo_pos >= old(self).queue@.len() ==> r is Ok && *final(self) == *old(self)
                && *final(map) == *old(map),
            old(self).undo_pos < old(self).queue@.len() ==> {
                let i = old(self).undo_pos as int;
                &&& final(self).queue@ == old(self).queue@.update(i, final(self).queue@[i])
                &&& undone(old(self).queue@[i], final(self).queue@[i], *old(map), *final(map), r)
                &&& final(self).undo_pos == (if r is Ok {
                    old(self).undo_pos + 1
                } else {
                    old(self).undo_pos as int
                })
            },
    {
        if self.undo_pos < self.queue.len() {
            let ghost q0 = self.queue@;
            let mut item = match self.queue.remove(self.undo_pos) {
                Some(item) => item,
                None => {
                    return Ok(());
                },
            };
            let r = item.undo(map);
            self.queue.insert(self.undo_pos, item);
            assert(self.queue@ =~= q0.update(self.undo_pos as int, item));
            if r.is_err() {
                return r;
            }
            self.undo_pos = self.undo_pos + 1;
            return r;
        }
        Ok(())
    }

    /// Carries out again the most recently undone action, if there is one.
    pub fn redo_action(&mut self, map: &mut GameMap) -> (r: BuildResult)
        requires
            old(self).wf(),
            old(map).grid.wf(),
            0 < old(self).undo_pos <= old(self).queue@.len() ==> old(self).queue@[old(self).undo_pos - 1].can_execute(
                *old(map),
            ),
        ensures
            final(self).wf(),
            final(map).grid.wf(),
            old(map).wf() && (0 < old(self).undo_pos <= old(self).queue@.len() ==> old(self).queue@[old(
                self,
            ).undo_pos - 1].keeps_map_wf(*old(map))) ==> final(map).wf(),
            old(self).undo_pos == 0 ==> r is Ok && *final(self) == *old(self) && *final(map) == *old(map),
            old(self).undo_pos > 0 ==> final(self).undo_pos == old(self).undo_pos - 1,
            old(self).undo_pos > old(self).queue@.len() ==> r is Ok && final(self).queue@ == old(self).queue@
                && *final(map) == *old(map),
            0 < old(self).undo_pos <= old(self).queue@.len() ==> {
                let i = old(self).undo_pos - 1;
                &&& final(self).queue@ == old(self).queue@.update(i, final(self).queue@[i])
                &&& executed(old(self).queue@[i], final(self).queue@[i], *old(map), *final(map), r)
            },
    {
        if self.undo_pos == 0 {
            return Ok(());
        }
        self.undo_pos = self.undo_pos - 1;
        if self.undo_pos < self.queue.len() {
            let ghost q0 = self.queue@;
            let mut item = match self.queue.remove(self.undo_pos) {
                Some(item) => item,
                None => {
                    return Ok(());
                },
            };
            let r = item.execute(map);
            self.queue.insert(self.undo_pos, item);
            assert(self.queue@ =~= q0.update(self.undo_pos as int, item));
            return r;
        }
        Ok(())
    }
}

/// Law: undoing a road right after building it gives back the grid as it
/// was (on empty ground or a well-formed road, unless the build gave an
/// existing road another station), and the undo succeeds.
pub proof fn lemma_undo_after_road(
    a: BuildRoad,
    done: BuildAction,
    after_undo: BuildAction,
    m0: GameMap,
    m1: GameMap,
    m2: GameMap,
    r2: BuildResult,
)
    requires
        executed(BuildAction::Road(a), done, m0, m1, Ok(())),
        undone(done, after_undo, m1, m2, r2),
        spec_tile_at(m0.grid@, a.pos) matches Some(TileView::Road(r)) ==> road_view_wf(r) && (a.station is None
            || a.station == r.station),
    ensures
        r2 is Ok,
        m2.grid@ == m0.grid@,
        m2.grid.buildings == m0.grid.buildings,
{
    lemma_build_road_undo(m0.grid@, a);
}

/// Law: undoing a cleared tile right after clearing it gives back the grid
/// as it was, and the undo succeeds.
pub proof fn lemma_undo_after_clear(
    a: crate::map::build::BuildActionClearTile,
    done: BuildAction,
    after_undo: BuildAction,
    m0: GameMap,
    m1: GameMap,
    m2: GameMap,
    r2: BuildResult,
)
    requires
        executed(BuildAction::ClearTile(a), done, m0, m1, Ok(())),
        undone(done, after_undo, m1, m2, r2),
    ensures
        r2 is Ok,
        m2.grid@ == m0.grid@,
        m2.grid.buildings == m0.grid.buildings,
{
    lemma_clear_tile_undo(m0.grid@, a.pos, m0.metadata.is_level, saved_tile(a));
}

/// Law: redoing a road after it was undone builds it again: the grid is as
/// it was after the first build.
pub proof fn lemma_redo_after_undo_road(
    a: BuildRoad,
    done: BuildAction,
    after_undo: BuildAction,
    again: BuildAction,
    m0: GameMap,
    m1: GameMap,
    m2: GameMap,
    m3: GameMap,
    r2: BuildResult,
    r3: BuildResult,
)
    requires
        executed(BuildAction::Road(a), done, m0, m1, Ok(())),
        undone(done, after_undo, m1, m2, r2),
        executed(after_undo, again, m2, m3, r3),
        spec_tile_at(m0.grid@, a.pos) matches Some(TileView::Road(r)) ==> road_view_wf(r) && (a.station is None
            || a.station == r.station),
    ensures
        r3 is Ok,
        m3.grid@ == m1.grid@,
        m3.grid.buildings == m1.grid.buildings,
{
    lemma_build_road_undo(m0.grid@, a);
    let b = done->Road_0;
    assert(b.pos == a.pos && b.dir == a.dir && b.station == a.station);
}

/// Law: undoing a list of roads right after building it gives back the grid
/// as it was, when the roads stand on distinct tiles that each hold empty
/// ground or a well-formed road whose station they keep.
pub proof fn lemma_undo_after_road_list(
    a: crate::map::build::BuildActionList,
    done: BuildAction,
    after_undo: BuildAction,
    m0: GameMap,
    m1: GameMap,
    m2: GameMap,
    r2: BuildResult,
)
    requires
        m0.wf(),
        distinct_positions(a.list@),
        undoable_on(m0.grid@, a.list@),
        executed(BuildAction::List(a), done, m0, m1, Ok(())),
        undone(done, after_undo, m1, m2, r2),
    ensures
        r2 is Ok,
        m2.grid@ == m0.grid@,
        m2.grid.buildings == m0.grid.buildings,
{
    lemma_road_list_undo(m0.grid@, a.list@);
}

} // verus!
