//! The decoded telemetry records and their change of coordinate convention.
//!
//! Positions are whole millimetres, headings whole micro-degrees, timestamps
//! whole microseconds. Every record with a list inside has a view that holds
//! the list as a sequence, and the contracts speak of the views.

use crate::fixed::{clamp_i32, negate, negated, quarter_turn_back, QUARTER_TURN};
use vstd::prelude::*;

verus! {

/// A ball position. The height is known only to some senders.
#[derive(Clone, Copy, Debug, PartialEq, Eq)]
pub struct Ball {
    pub p_x: i32,
    pub p_y: i32,
    pub p_z: Option<i32>,
}

/// A robot pose: a stable id, a position and a heading.
#[derive(Clone, Copy, Debug, PartialEq, Eq)]
pub struct Robot {
    pub id: u32,
    pub p_x: i32,
    pub p_y: i32,
    pub phi: i32,
}

/// The balls and robots seen at one sender instant.
#[derive(Debug, PartialEq, Eq)]
pub struct WorldState {
    pub timestamp: u64,
    pub ball: Vec<Ball>,
    pub yellow_robot: Vec<Robot>,
    pub blue_robot: Vec<Robot>,
}

/// What a `WorldState` holds.
pub struct WorldStateView {
    pub timestamp: u64,
    pub ball: Seq<Ball>,
    pub yellow_robot: Seq<Robot>,
    pub blue_robot: Seq<Robot>,
}

impl View for WorldState {
    type V = WorldStateView;

    open spec fn view(&self) -> WorldStateView {
        WorldStateView {
            timestamp: self.timestamp,
            ball: self.ball@,
            yellow_robot: self.yellow_robot@,
            blue_robot: self.blue_robot@,
        }
    }
}

/// The world with nothing in it, at sender instant zero.
pub open spec fn empty_world() -> WorldStateView {
    WorldStateView {
        timestamp: 0,
        ball: Seq::empty(),
        yellow_robot: Seq::empty(),
        blue_robot: Seq::empty(),
    }
}

impl WorldState {
    /// A world with nothing in it.
    pub fn empty() -> (r: WorldState)
        ensures
            r@ == empty_world(),
    {
        WorldState {
            timestamp: 0,
            ball: Vec::new(),
            yellow_robot: Vec::new(),
            blue_robot: Vec::new(),
        }
    }
}

impl Clone for WorldState {
    fn clone(&self) -> (r: WorldState)
        ensures
            r@ == self@,
    {
        WorldState {
            timestamp: self.timestamp,
            ball: self.ball.clone(),
            yellow_robot: self.yellow_robot.clone(),
            blue_robot: self.blue_robot.clone(),
        }
    }
}

/// The field dimensions as a sender reports them.
#[derive(Clone, Copy, Debug, PartialEq, Eq)]
pub struct FieldDimensions {
    pub field_size_x: i32,
    pub field_size_y: i32,
    pub boundary_width: Option<i32>,
    pub defense_size_x: i32,
    pub defense_size_y: i32,
    pub goal_width: i32,
}

/// A team as a sender names it.
#[derive(Debug, PartialEq, Eq)]
pub struct TeamInfo {
    pub name: String,
}

impl View for TeamInfo {
    type V = Seq<char>;

    open spec fn view(&self) -> Seq<char> {
        self.name@
    }
}

impl Clone for TeamInfo {
    fn clone(&self) -> (r: TeamInfo)
        ensures
            r@ == self@,
    {
        TeamInfo { name: self.name.clone() }
    }
}

/// One shard of the overlay: shard `group` of `group_count`.
#[derive(Clone, Copy, Debug, PartialEq, Eq)]
pub struct VisualizationGroup {
    pub group: u32,
    pub group_count: u32,
}

/// A point of an overlay outline.
#[derive(Clone, Copy, Debug, PartialEq, Eq)]
pub struct Point {
    pub x: i32,
    pub y: i32,
}

/// A circle of an overlay.
#[derive(Clone, Copy, Debug, PartialEq, Eq)]
pub struct Circle {
    pub p_x: i32,
    pub p_y: i32,
    pub radius: i32,
}

/// A colour with its opacity.
#[derive(Clone, Copy, Debug, PartialEq, Eq)]
pub struct Color {
    pub red: u32,
    pub green: u32,
    pub blue: u32,
    pub alpha: u32,
}

/// The shape of one overlay part.
#[derive(Debug, PartialEq, Eq)]
pub enum Geom {
    Circle(Circle),
    Polygon(Vec<Point>),
    Path(Vec<Point>),
}

/// What a `Geom` holds.
pub enum GeomView {
    Circle(Circle),
    Polygon(Seq<Point>),
    Path(Seq<Point>),
}

impl View for Geom {
    type V = GeomView;

    open spec fn view(&self) -> GeomView {
        match *self {
            Geom::Circle(c) => GeomView::Circle(c),
            Geom::Polygon(p) => GeomView::Polygon(p@),
            Geom::Path(p) => GeomView::Path(p@),
        }
    }
}

impl Clone for Geom {
    fn clone(&self) -> (r: Geom)
        ensures
            r@ == self@,
    {
        match self {
            Geom::Circle(c) => Geom::Circle(*c),
            Geom::Polygon(p) => Geom::Polygon(p.clone()),
            Geom::Path(p) => Geom::Path(p.clone()),
        }
    }
}

/// One part of an overlay drawing: a shape, which a malformed part lacks,
/// and the colour of its outline.
#[derive(Debug, PartialEq, Eq)]
pub struct VisPart {
    pub geom: Option<Geom>,
    pub border_color: Option<Color>,
}

/// What a `VisPart` holds.
pub struct VisPartView {
    pub geom: Option<GeomView>,
    pub border_color: Option<Color>,
}

impl View for VisPart {
    type V = VisPartView;

    open spec fn view(&self) -> VisPartView {
        VisPartView {
            geom: match self.geom {
                Some(g) => Some(g@),
                None => None,
            },
            border_color: self.border_color,
        }
    }
}

impl Clone for VisPart {
    fn clone(&self) -> (r: VisPart)
        ensures
            r@ == self@,
    {
        VisPart {
            geom: match &self.geom {
                Some(g) => Some(g.clone()),
                None => None,
            },
            border_color: self.border_color,
        }
    }
}

/// The views of a list of parts.
pub open spec fn part_views(parts: Seq<VisPart>) -> Seq<VisPartView> {
    parts.map_values(|p: VisPart| p@)
}

/// One overlay drawing.
#[derive(Debug, PartialEq, Eq)]
pub struct Visualization {
    pub id: u32,
    pub part: Vec<VisPart>,
}

/// What a `Visualization` holds.
pub struct VisualizationView {
    pub id: u32,
    pub part: Seq<VisPartView>,
}

impl View for Visualization {
    type V = VisualizationView;

    open spec fn view(&self) -> VisualizationView {
        VisualizationView { id: self.id, part: part_views(self.part@) }
    }
}

impl Clone for Visualization {
    fn clone(&self) -> (r: Visualization)
        ensures
            r@ == self@,
    {
        let part = self.part.clone();
        assert(part_views(part@) =~= part_views(self.part@));
        Visualization { id: self.id, part }
    }
}

/// The views of a list of drawings.
pub open spec fn visualization_views(list: Seq<Visualization>) -> Seq<VisualizationView> {
    list.map_values(|v: Visualization| v@)
}

/// Copies a list of drawings.
pub fn clone_visualizations(list: &Vec<Visualization>) -> (r: Vec<Visualization>)
    ensures
        visualization_views(r@) == visualization_views(list@),
{
    let r = list.clone();
    assert(visualization_views(r@) =~= visualization_views(list@));
    r
}

/// The drawings of one source within an overlay shard.
#[derive(Debug, PartialEq, Eq)]
pub struct VisualizationSet {
    pub source: Option<u32>,
    pub visualization: Vec<Visualization>,
}

/// What a `VisualizationSet` holds.
pub struct VisualizationSetView {
    pub source: Option<u32>,
    pub visualization: Seq<VisualizationView>,
}

impl View for VisualizationSet {
    type V = VisualizationSetView;

    open spec fn view(&self) -> VisualizationSetView {
        VisualizationSetView {
            source: self.source,
            visualization: visualization_views(self.visualization@),
        }
    }
}

impl Clone for VisualizationSet {
    fn clone(&self) -> (r: VisualizationSet)
        ensures
            r@ == self@,
    {
        VisualizationSet {
            source: self.source,
            visualization: clone_visualizations(&self.visualization),
        }
    }
}

/// The views of a list of sets.
pub open spec fn set_views(list: Seq<VisualizationSet>) -> Seq<VisualizationSetView> {
    list.map_values(|s: VisualizationSet| s@)
}

/// One overlay message: the shard it belongs to and the sets it carries.
#[derive(Debug, PartialEq, Eq)]
pub struct VisualizationUpdate {
    pub visualization_group: Option<VisualizationGroup>,
    pub visualization_set: Vec<VisualizationSet>,
}

/// What a `VisualizationUpdate` holds.
pub struct VisualizationUpdateView {
    pub visualization_group: Option<VisualizationGroup>,
    pub visualization_set: Seq<VisualizationSetView>,
}

impl View for VisualizationUpdate {
    type V = VisualizationUpdateView;

    open spec fn view(&self) -> VisualizationUpdateView {
        VisualizationUpdateView {
            visualization_group: self.visualization_group,
            visualization_set: set_views(self.visualization_set@),
        }
    }
}

impl Clone for VisualizationUpdate {
    fn clone(&self) -> (r: VisualizationUpdate)
        ensures
            r@ == self@,
    {
        let visualization_set = self.visualization_set.clone();
        assert(set_views(visualization_set@) =~= set_views(self.visualization_set@));
        VisualizationUpdate { visualization_group: self.visualization_group, visualization_set }
    }
}

/// One status message of a sender.
#[derive(Debug, PartialEq, Eq)]
pub struct Status {
    pub timestamp: u64,
    pub world_state: Option<WorldState>,
    pub field_geometry: Option<FieldDimensions>,
    pub yellow_team: Option<TeamInfo>,
    pub blue_team: Option<TeamInfo>,
    pub visualization_group: Option<VisualizationGroup>,
    pub visualization: Vec<Visualization>,
}

/// What a `Status` holds.
pub struct StatusView {
    pub timestamp: u64,
    pub world_state: Option<WorldStateView>,
    pub field_geometry: Option<FieldDimensions>,
    pub yellow_team: Option<Seq<char>>,
    pub blue_team: Option<Seq<char>>,
    pub visualization_group: Option<VisualizationGroup>,
    pub visualization: Seq<VisualizationView>,
}

impl View for Status {
    type V = StatusView;

    open spec fn view(&self) -> StatusView {
        StatusView {
            timestamp: self.timestamp,
            world_state: match self.world_state {
                Some(w) => Some(w@),
                None => None,
            },
            field_geometry: self.field_geometry,
            yellow_team: match self.yellow_team {
                Some(t) => Some(t@),
                None => None,
            },
            blue_team: match self.blue_team {
                Some(t) => Some(t@),
                None => None,
            },
            visualization_group: self.visualization_group,
            visualization: visualization_views(self.visualization@),
        }
    }
}

impl Clone for Status {
    fn clone(&self) -> (r: Status)
        ensures
            r@ == self@,
    {
        Status {
            timestamp: self.timestamp,
            world_state: match &self.world_state {
                Some(w) => Some(w.clone()),
                None => None,
            },
            field_geometry: self.field_geometry,
            yellow_team: match &self.yellow_team {
                Some(t) => Some(t.clone()),
                None => None,
            },
            blue_team: match &self.blue_team {
                Some(t) => Some(t.clone()),
                None => None,
            },
            visualization_group: self.visualization_group,
            visualization: clone_visualizations(&self.visualization),
        }
    }
}

/// A ball in the display convention: the second axis points the other way.
pub open spec fn remapped_ball(b: Ball) -> Ball {
    Ball { p_x: b.p_x, p_y: negated(b.p_y), p_z: b.p_z }
}

/// A robot in the display convention: the second axis points the other way
/// and the heading is a quarter turn back.
pub open spec fn remapped_robot(r: Robot) -> Robot {
    Robot { id: r.id, p_x: r.p_x, p_y: negated(r.p_y), phi: clamp_i32(r.phi - QUARTER_TURN) }
}

/// A world in the display convention.
pub open spec fn remapped_world(w: WorldStateView) -> WorldStateView {
    WorldStateView {
        timestamp: w.timestamp,
        ball: w.ball.map_values(|b: Ball| remapped_ball(b)),
        yellow_robot: w.yellow_robot.map_values(|r: Robot| remapped_robot(r)),
        blue_robot: w.blue_robot.map_values(|r: Robot| remapped_robot(r)),
    }
}

/// An outline point in the display convention.
pub open spec fn remapped_point(p: Point) -> Point {
    Point { x: p.x, y: negated(p.y) }
}

/// A shape in the display convention.
pub open spec fn remapped_geom(g: GeomView) -> GeomView {
    match g {
        GeomView::Circle(c) => GeomView::Circle(
            Circle { p_x: c.p_x, p_y: negated(c.p_y), radius: c.radius },
        ),
        GeomView::Polygon(p) => GeomView::Polygon(p.map_values(|q: Point| remapped_point(q))),
        GeomView::Path(p) => GeomView::Path(p.map_values(|q: Point| remapped_point(q))),
    }
}

/// An overlay part in the display convention.
pub open spec fn remapped_part(p: VisPartView) -> VisPartView {
    VisPartView {
        geom: match p.geom {
            Some(g) => Some(remapped_geom(g)),
            None => None,
        },
        border_color: p.border_color,
    }
}

/// A drawing in the display convention.
pub open spec fn remapped_visualization(v: VisualizationView) -> VisualizationView {
    VisualizationView { id: v.id, part: v.part.map_values(|p: VisPartView| remapped_part(p)) }
}

/// A list of drawings in the display convention.
pub open spec fn remapped_visualizations(list: Seq<VisualizationView>) -> Seq<VisualizationView> {
    list.map_values(|v: VisualizationView| remapped_visualization(v))
}

/// A set of drawings in the display convention.
pub open spec fn remapped_set(s: VisualizationSetView) -> VisualizationSetView {
    VisualizationSetView {
        source: s.source,
        visualization: remapped_visualizations(s.visualization),
    }
}

/// An overlay message in the display convention.
pub open spec fn remapped_update(u: VisualizationUpdateView) -> VisualizationUpdateView {
    VisualizationUpdateView {
        visualization_group: u.visualization_group,
        visualization_set: u.visualization_set.map_values(
            |s: VisualizationSetView| remapped_set(s),
        ),
    }
}

/// A status message in the display convention.
pub open spec fn remapped_status(s: StatusView) -> StatusView {
    StatusView {
        timestamp: s.timestamp,
        world_state: match s.world_state {
            Some(w) => Some(remapped_world(w)),
            None => None,
        },
        field_geometry: s.field_geometry,
        yellow_team: s.yellow_team,
        blue_team: s.blue_team,
        visualization_group: s.visualization_group,
        visualization: remapped_visualizations(s.visualization),
    }
}

fn remap_balls(balls: &mut Vec<Ball>)
    ensures
        final(balls)@ == old(balls)@.map_values(|b: Ball| remapped_ball(b)),
{
    let n = balls.len();
    let mut i: usize = 0;
    while i < n
        invariant
            i <= n,
            balls@.len() == n,
            old(balls)@.len() == n,
            forall|k: int| 0 <= k < i ==> balls@[k] == remapped_ball(old(balls)@[k]),
            forall|k: int| i <= k < n ==> balls@[k] == old(balls)@[k],
        decreases n - i,
    {
        let ball = &mut balls[i];
        ball.p_y = negate(ball.p_y);
        i += 1;
    }
}

fn remap_robots(robots: &mut Vec<Robot>)
    ensures
        final(robots)@ == old(robots)@.map_values(|r: Robot| remapped_robot(r)),
{
    let n = robots.len();
    let mut i: usize = 0;
    while i < n
        invariant
            i <= n,
            robots@.len() == n,
            old(robots)@.len() == n,
            forall|k: int| 0 <= k < i ==> robots@[k] == remapped_robot(old(robots)@[k]),
            forall|k: int| i <= k < n ==> robots@[k] == old(robots)@[k],
        decreases n - i,
    {
        let robot = &mut robots[i];
        robot.p_y = negate(robot.p_y);
        robot.phi = quarter_turn_back(robot.phi);
        i += 1;
    }
}

/// Brings a world from the sender's convention into the display convention:
/// the second axis is flipped and every heading turned a quarter turn back.
pub fn remap_world_state(world_state: &mut WorldState)
    ensures
        final(world_state)@ == remapped_world(old(world_state)@),
{
    remap_balls(&mut world_state.ball);
    remap_robots(&mut world_state.yellow_robot);
    remap_robots(&mut world_state.blue_robot);
}

fn remap_points(points: &mut Vec<Point>)
    ensures
        final(points)@ == old(points)@.map_values(|q: Point| remapped_point(q)),
{
    let n = points.len();
    let mut i: usize = 0;
    while i < n
        invariant
            i <= n,
            points@.len() == n,
            old(points)@.len() == n,
            forall|k: int| 0 <= k < i ==> points@[k] == remapped_point(old(points)@[k]),
            forall|k: int| i <= k < n ==> points@[k] == old(points)@[k],
        decreases n - i,
    {
        let point = &mut points[i];
        point.y = negate(point.y);
        i += 1;
    }
}

fn remap_part(part: &mut VisPart)
    ensures
        final(part)@ == remapped_part(old(part)@),
{
    match &mut part.geom {
        Some(Geom::Circle(c)) => {
            c.p_y = negate(c.p_y);
        },
        Some(Geom::Polygon(p)) => {
            remap_points(p);
        },
        Some(Geom::Path(p)) => {
            remap_points(p);
        },
        None => {},
    }
}

fn remap_visualization(vis: &mut Visualization)
    ensures
        final(vis)@ == remapped_visualization(old(vis)@),
{
    let n = vis.part.len();
    let mut i: usize = 0;
    while i < n
        invariant
            i <= n,
            vis.part@.len() == n,
            old(vis).part@.len() == n,
            vis.id == old(vis).id,
            forall|k: int| 0 <= k < i ==> vis.part@[k]@ == remapped_part(old(vis).part@[k]@),
            forall|k: int| i <= k < n ==> vis.part@[k] == old(vis).part@[k],
        decreases n - i,
    {
        remap_part(&mut vis.part[i]);
        i += 1;
    }
    assert(vis@.part =~= remapped_visualization(old(vis)@).part);
}

/// Brings a list of drawings into the display convention.
pub fn remap_visualization_list(list: &mut Vec<Visualization>)
    ensures
        visualization_views(final(list)@) == remapped_visualizations(
            visualization_views(old(list)@),
        ),
{
    let n = list.len();
    let mut i: usize = 0;
    while i < n
        invariant
            i <= n,
            list@.len() == n,
            old(list)@.len() == n,
            forall|k: int| 0 <= k < i ==> list@[k]@ == remapped_visualization(old(list)@[k]@),
            forall|k: int| i <= k < n ==> list@[k] == old(list)@[k],
        decreases n - i,
    {
        remap_visualization(&mut list[i]);
        i += 1;
    }
    assert(visualization_views(list@) =~= remapped_visualizations(
        visualization_views(old(list)@),
    ));
}

/// Brings every drawing of an overlay message from the sender's convention
/// into the display convention: the second axis of every circle centre and
/// of every outline point is flipped.
pub fn remap_visualizations(vis_update: &mut VisualizationUpdate)
    ensures
        final(vis_update)@ == remapped_update(old(vis_update)@),
{
    let n = vis_update.visualization_set.len();
    let mut i: usize = 0;
    while i < n
        invariant
            i <= n,
            vis_update.visualization_set@.len() == n,
            old(vis_update).visualization_set@.len() == n,
            vis_update.visualization_group == old(vis_update).visualization_group,
            forall|k: int|
                0 <= k < i ==> vis_update.visualization_set@[k]@ == remapped_set(
                    old(vis_update).visualization_set@[k]@,
                ),
            forall|k: int|
                i <= k < n ==> vis_update.visualization_set@[k] == old(
                    vis_update,
                ).visualization_set@[k],
        decreases n - i,
    {
        remap_visualization_list(&mut vis_update.visualization_set[i].visualization);
        i += 1;
    }
    assert(vis_update@.visualization_set =~= remapped_update(old(vis_update)@).visualization_set);
}

/// Brings a status message from the sender's convention into the display
/// convention: its world, where it has one, and every drawing.
pub fn remap_coordinates(status: &mut Status)
    ensures
        final(status)@ == remapped_status(old(status)@),
{
    match &mut status.world_state {
        Some(world_state) => {
            remap_world_state(world_state);
        },
        None => {},
    }
    remap_visualization_list(&mut status.visualization);
}

} // verus!
