//! The playing field and the teams on it, as a consumer sees them.

use crate::telemetry::FieldDimensions;
use vstd::prelude::*;

verus! {

/// A size along the two ground axes, in millimetres.
#[derive(Clone, Copy, Debug, PartialEq, Eq)]
pub struct Extent {
    pub x: i32,
    pub y: i32,
}

/// The geometry of a playing field, in millimetres.
#[derive(Clone, Copy, Debug, PartialEq, Eq)]
pub struct FieldGeometry {
    pub play_area_size: Extent,
    pub boundary_width: i32,
    pub defense_size: Extent,
    pub goal_width: i32,
}

impl FieldGeometry {
    /// The field of the larger division.
    pub open spec fn division_a() -> FieldGeometry {
        FieldGeometry {
            play_area_size: Extent { x: 12_000, y: 9_000 },
            boundary_width: 300,
            defense_size: Extent { x: 1_800, y: 3_600 },
            goal_width: 1_800,
        }
    }

    /// The field of the smaller division.
    pub open spec fn division_b() -> FieldGeometry {
        FieldGeometry {
            play_area_size: Extent { x: 9_000, y: 6_000 },
            boundary_width: 300,
            defense_size: Extent { x: 1_000, y: 2_000 },
            goal_width: 1_000,
        }
    }

    /// The geometry that reported dimensions describe. A boundary that the
    /// sender left out has no width.
    pub open spec fn described_by(d: FieldDimensions) -> FieldGeometry {
        FieldGeometry {
            play_area_size: Extent { x: d.field_size_x, y: d.field_size_y },
            boundary_width: match d.boundary_width {
                Some(w) => w,
                None => 0,
            },
            defense_size: Extent { x: d.defense_size_x, y: d.defense_size_y },
            goal_width: d.goal_width,
        }
    }

    /// Whether the geometry describes no field at all: a play area, a
    /// defense area or a goal without any size.
    pub open spec fn is_degenerate(self) -> bool {
        ||| (self.play_area_size.x == 0 && self.play_area_size.y == 0)
        ||| (self.defense_size.x == 0 && self.defense_size.y == 0)
        ||| self.goal_width == 0
    }

    /// The field of the larger division.
    pub fn div_a() -> (r: FieldGeometry)
        ensures
            r == FieldGeometry::division_a(),
    {
        FieldGeometry {
            play_area_size: Extent { x: 12_000, y: 9_000 },
            boundary_width: 300,
            defense_size: Extent { x: 1_800, y: 3_600 },
            goal_width: 1_800,
        }
    }

    /// The field of the smaller division.
    pub fn div_b() -> (r: FieldGeometry)
        ensures
            r == FieldGeometry::division_b(),
    {
        FieldGeometry {
            play_area_size: Extent { x: 9_000, y: 6_000 },
            boundary_width: 300,
            defense_size: Extent { x: 1_000, y: 2_000 },
            goal_width: 1_000,
        }
    }

    /// The geometry that reported dimensions describe.
    pub fn from_dimensions(d: &FieldDimensions) -> (r: FieldGeometry)
        ensures
            r == FieldGeometry::described_by(*d),
    {
        FieldGeometry {
            play_area_size: Extent { x: d.field_size_x, y: d.field_size_y },
            boundary_width: match d.boundary_width {
                Some(w) => w,
                None => 0,
            },
            defense_size: Extent { x: d.defense_size_x, y: d.defense_size_y },
            goal_width: d.goal_width,
        }
    }

    /// Whether the geometry describes no field at all.
    pub fn degenerate(&self) -> (r: bool)
        ensures
            r == self.is_degenerate(),
    {
        (self.play_area_size.x == 0 && self.play_area_size.y == 0) || (self.defense_size.x == 0
            && self.defense_size.y == 0) || self.goal_width == 0
    }
}

impl Default for FieldGeometry {
    fn default() -> (r: FieldGeometry)
        ensures
            r == FieldGeometry::division_a(),
    {
        FieldGeometry::div_a()
    }
}

/// The names of the two teams. A team that is not known has an empty name.
#[derive(Debug, PartialEq, Eq)]
pub struct GameState {
    pub yellow_team: String,
    pub blue_team: String,
}

/// What a `GameState` holds.
pub struct GameStateView {
    pub yellow_team: Seq<char>,
    pub blue_team: Seq<char>,
}

impl View for GameState {
    type V = GameStateView;

    open spec fn view(&self) -> GameStateView {
        GameStateView { yellow_team: self.yellow_team@, blue_team: self.blue_team@ }
    }
}

/// The game of which nothing is known.
pub open spec fn unknown_game() -> GameStateView {
    GameStateView { yellow_team: Seq::empty(), blue_team: Seq::empty() }
}

impl Default for GameState {
    fn default() -> (r: GameState)
        ensures
            r@ == unknown_game(),
    {
        GameState { yellow_team: String::new(), blue_team: String::new() }
    }
}

impl Clone for GameState {
    fn clone(&self) -> (r: GameState)
        ensures
            r@ == self@,
    {
        GameState { yellow_team: self.yellow_team.clone(), blue_team: self.blue_team.clone() }
    }
}

} // verus!
