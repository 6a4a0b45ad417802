use vstd::prelude::*;

use crate::map::build::{
    action_build_road, action_one_way_road, action_two_way_road, area_clear, buildable, road_plan,
    two_way_road_lanes, BuildAction, BuildActionClearArea, BuildError, BuildRoadDir, BuildRoadHeight,
    BuildRoadLane, RoadBuildOption,
};
use crate::map::position::spec_difference;
use crate::map::{GameMap, Position, Unlocked};
use crate::tileset::Sprite;
use super::toolbar::ToolbarItem;

verus! {

/// The build tools.
#[derive(Clone, Copy, PartialEq, Eq, Structural, Debug)]
pub enum BuildMode {
    TwoWayRoad,
    OneWayRoad,
    Bridge,
    Station,
    Clear,
}

/// The edit actions next to the build tools.
#[derive(Clone, Copy, PartialEq, Eq, Structural, Debug)]
pub enum BuildActions {
    Undo,
    Redo,
    Copy,
    Paste,
}

/// Ticks a build error stays on screen.
pub const BUILD_ERROR_TIME: u32 = 180;

/// A build error shown at `pos`, on screen for `time` ticks so far.
#[derive(Clone, Copy, PartialEq, Eq, Structural, Debug)]
pub struct BuildErrorMsg {
    pub pos: Position,
    pub err: BuildError,
    pub time: u32,
}

/// The build tools a level with `unlocked` offers, in toolbar order: the road
/// always, the one-way road with one-way roads or everything unlocked, the
/// bridge with anything beyond roads, and deleting always.
pub open spec fn tool_modes(unlocked: Unlocked) -> Seq<BuildMode> {
    seq![BuildMode::TwoWayRoad] + (if unlocked == Unlocked::OneWayRoads || unlocked == Unlocked::All {
        seq![BuildMode::OneWayRoad]
    } else {
        Seq::empty()
    }) + (if unlocked != Unlocked::Roads {
        seq![BuildMode::Bridge]
    } else {
        Seq::empty()
    }) + seq![BuildMode::Clear]
}

/// The toolbar picture and shortcut of each build tool.
pub open spec fn tool_key(mode: BuildMode) -> (char, Sprite) {
    match mode {
        BuildMode::TwoWayRoad => ('1', Sprite { row: 8, col: 0, size: crate::map::Direction { x: 1, y: 1, z: 0 } }),
        BuildMode::OneWayRoad => ('2', Sprite { row: 8, col: 1, size: crate::map::Direction { x: 1, y: 1, z: 0 } }),
        BuildMode::Bridge => ('3', Sprite { row: 8, col: 2, size: crate::map::Direction { x: 1, y: 1, z: 0 } }),
        BuildMode::Station => ('4', Sprite { row: 8, col: 4, size: crate::map::Direction { x: 1, y: 1, z: 0 } }),
        BuildMode::Clear => ('5', Sprite { row: 8, col: 3, size: crate::map::Direction { x: 1, y: 1, z: 0 } }),
    }
}

/// The tooltip of each build tool.
pub open spec fn tool_tooltip(mode: BuildMode) -> Seq<char> {
    match mode {
        BuildMode::TwoWayRoad => "Build a road"@,
        BuildMode::OneWayRoad => "Build a one way road"@,
        BuildMode::Bridge => "Build a bridge"@,
        BuildMode::Station => "Build a station"@,
        BuildMode::Clear => "Delete"@,
    }
}

/// The toolbar of build tools for a level with `unlocked` (see `tool_modes`).
pub fn build_toolbar_items(unlocked: Unlocked) -> (r: Vec<ToolbarItem<BuildMode>>)
    ensures
        r@.map_values(|item: ToolbarItem<BuildMode>| item.value) == tool_modes(unlocked),
        forall|i: int|
            0 <= i < r@.len() ==> ((#[trigger] r@[i]).shortcut, r@[i].sprite) == tool_key(r@[i].value),
        forall|i: int| 0 <= i < r@.len() ==> (#[trigger] r@[i])._tooltip@ == tool_tooltip(r@[i].value),
{
    let mut items: Vec<ToolbarItem<BuildMode>> = Vec::new();
    items.push(ToolbarItem::new(BuildMode::TwoWayRoad, "Build a road", '1', Sprite::new(8, 0)));
    if unlocked == Unlocked::OneWayRoads || unlocked == Unlocked::All {
        items.push(ToolbarItem::new(BuildMode::OneWayRoad, "Build a one way road", '2', Sprite::new(8, 1)));
    }
    if unlocked != Unlocked::Roads {
        items.push(ToolbarItem::new(BuildMode::Bridge, "Build a bridge", '3', Sprite::new(8, 2)));
    }
    items.push(ToolbarItem::new(BuildMode::Clear, "Delete", '5', Sprite::new(8, 3)));
    assert(items@.map_values(|item: ToolbarItem<BuildMode>| item.value) =~= tool_modes(unlocked));
    items
}

/// The toolbar of edit actions: undo, redo, copy and paste.
pub fn edit_action_items() -> (r: Vec<ToolbarItem<BuildActions>>)
    ensures
        r@.map_values(|item: ToolbarItem<BuildActions>| item.value) == seq![
            BuildActions::Undo,
            BuildActions::Redo,
            BuildActions::Copy,
            BuildActions::Paste,
        ],
        r@.map_values(|item: ToolbarItem<BuildActions>| item.shortcut) == seq!['u', 'y', 'c', 'v'],
        r@.map_values(|item: ToolbarItem<BuildActions>| item._tooltip@) == seq!["Undo"@, "Redo"@, "Copy"@, "Paste"@],
        forall|i: int|
            0 <= i < r@.len() ==> (#[trigger] r@[i]).sprite == (Sprite {
                row: 11,
                col: i as u8,
                size: crate::map::Direction { x: 1, y: 1, z: 0 },
            }),
{
    let mut items: Vec<ToolbarItem<BuildActions>> = Vec::new();
    items.push(ToolbarItem::new(BuildActions::Undo, "Undo", 'u', Sprite::new(11, 0)));
    items.push(ToolbarItem::new(BuildActions::Redo, "Redo", 'y', Sprite::new(11, 1)));
    items.push(ToolbarItem::new(BuildActions::Copy, "Copy", 'c', Sprite::new(11, 2)));
    items.push(ToolbarItem::new(BuildActions::Paste, "Paste", 'v', Sprite::new(11, 3)));
    assert(items@.map_values(|item: ToolbarItem<BuildActions>| item.value) =~= seq![
        BuildActions::Undo,
        BuildActions::Redo,
        BuildActions::Copy,
        BuildActions::Paste,
    ]);
    assert(items@.map_values(|item: ToolbarItem<BuildActions>| item.shortcut) =~= seq!['u', 'y', 'c', 'v']);
    assert(items@.map_values(|item: ToolbarItem<BuildActions>| item._tooltip@) =~= seq![
        "Undo"@,
        "Redo"@,
        "Copy"@,
        "Paste"@,
    ]);
    items
}

/// Counts a tick on the shown build error; it goes once it has been shown
/// for more than `BUILD_ERROR_TIME` ticks.
pub fn update_build_err(build_err: &mut Option<BuildErrorMsg>)
    requires
        *old(build_err) matches Some(e) ==> e.time < u32::MAX,
    ensures
        *final(build_err) == (match *old(build_err) {
            Some(e) => if e.time + 1 > BUILD_ERROR_TIME {
                None
            } else {
                Some(BuildErrorMsg { time: (e.time + 1) as u32, ..e })
            },
            None => None,
        }),
{
    match *build_err {
        Some(e) => {
            let time = e.time + 1;
            if time > BUILD_ERROR_TIME {
                *build_err = None;
            } else {
                *build_err = Some(BuildErrorMsg { time, ..e });
            }
        },
        None => {},
    }
}

/// The two lanes of a two-way road.
pub open spec fn two_way_lanes() -> Seq<BuildRoadLane> {
    seq![BuildRoadLane { dir: BuildRoadDir::Backward }, BuildRoadLane { dir: BuildRoadDir::Forward }]
}

/// The two lanes of a one-way road.
pub open spec fn one_way_lanes() -> Seq<BuildRoadLane> {
    seq![BuildRoadLane { dir: BuildRoadDir::Forward }, BuildRoadLane { dir: BuildRoadDir::Forward }]
}

/// What releasing the mouse at `pos` builds with tool `mode`, the mouse having
/// gone down at `down` (both taken to even tiles): the road of the tool from
/// `down` to `pos`, or for deleting the 2x2 block at `down`, but only when the
/// area from `pos` spanned by the drag is not clear. Nothing without a tool
/// or a press.
pub fn build_action_for(mode: Option<BuildMode>, down: Option<Position>, pos: Position, map: &GameMap) -> (r:
    Option<BuildAction>)
    requires
        buildable(pos),
        down matches Some(d) ==> buildable(d),
    ensures
        mode is None || down is None ==> r is None,
        mode == Some(BuildMode::TwoWayRoad) && down is Some ==> (r matches Some(BuildAction::List(l)) && l.list@
            == road_plan(down->0, pos.round_to_spec(2), two_way_lanes(), BuildRoadHeight::Level)),
        mode == Some(BuildMode::OneWayRoad) && down is Some ==> (r matches Some(BuildAction::List(l)) && l.list@
            == road_plan(down->0, pos.round_to_spec(2), one_way_lanes(), BuildRoadHeight::Level)),
        (mode == Some(BuildMode::Bridge) || mode == Some(BuildMode::Station)) && down is Some ==> (r matches Some(
            BuildAction::List(l),
        ) && l.list@ == road_plan(down->0, pos.round_to_spec(2), two_way_lanes(), BuildRoadHeight::Bridge)),
        mode == Some(BuildMode::Clear) && down is Some ==> {
            let area = spec_difference(pos.round_to_spec(2), down->0.round_to_spec(2));
            &&& (r is Some <==> area_clear(map.grid@, pos.round_to_spec(2), (area.x, area.y)) is Err)
            &&& (r matches Some(a) ==> (a matches BuildAction::ClearArea(c) && c.wf() && c.pos
                == down->0.round_to_spec(2).round_to_spec(2) && c.old_building is None))
        },
{
    let pos = pos.round_to(2);
    let mode = match mode {
        Some(m) => m,
        None => {
            return None;
        },
    };
    let down = match down {
        Some(d) => d,
        None => {
            return None;
        },
    };
    match mode {
        BuildMode::TwoWayRoad => Some(BuildAction::List(action_two_way_road(down, pos))),
        BuildMode::OneWayRoad => Some(BuildAction::List(action_one_way_road(down, pos))),
        BuildMode::Clear => {
            let area = pos - down.round_to(2);
            if map.grid.is_area_clear(&pos, (area.x, area.y)).is_err() {
                Some(BuildAction::ClearArea(BuildActionClearArea::new(down.round_to(2))))
            } else {
                None
            }
        },
        BuildMode::Bridge | BuildMode::Station => Some(
            BuildAction::List(
                action_build_road(
                    down,
                    pos,
                    RoadBuildOption { height: BuildRoadHeight::Bridge, lanes: two_way_road_lanes() },
                ),
            ),
        ),
    }
}

} // verus!
