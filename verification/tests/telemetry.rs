use sslgame::telemetry::{
    clone_visualizations, remap_coordinates, remap_visualization_list, remap_visualizations,
    remap_world_state, Ball, Circle, Color, Geom, Point, Robot, Status, VisPart, Visualization,
    VisualizationGroup, VisualizationSet, VisualizationUpdate, WorldState,
};

fn sample_world() -> WorldState {
    WorldState {
        timestamp: 77,
        ball: vec![Ball { p_x: 1, p_y: 2, p_z: Some(3) }, Ball { p_x: -1, p_y: -2, p_z: None }],
        yellow_robot: vec![Robot { id: 1, p_x: 10, p_y: 20, phi: 0 }],
        blue_robot: vec![Robot { id: 2, p_x: -10, p_y: -20, phi: 180_000_000 }],
    }
}

fn remapped_sample_world() -> WorldState {
    WorldState {
        timestamp: 77,
        ball: vec![Ball { p_x: 1, p_y: -2, p_z: Some(3) }, Ball { p_x: -1, p_y: 2, p_z: None }],
        yellow_robot: vec![Robot { id: 1, p_x: 10, p_y: -20, phi: -90_000_000 }],
        blue_robot: vec![Robot { id: 2, p_x: -10, p_y: 20, phi: 90_000_000 }],
    }
}

fn sample_visualization() -> Visualization {
    Visualization {
        id: 5,
        part: vec![
            VisPart {
                geom: Some(Geom::Circle(Circle { p_x: 1, p_y: 2, radius: 3 })),
                border_color: Some(Color { red: 1, green: 2, blue: 3, alpha: 4 }),
            },
            VisPart {
                geom: Some(Geom::Polygon(vec![Point { x: 1, y: 1 }, Point { x: 2, y: -2 }])),
                border_color: None,
            },
            VisPart { geom: Some(Geom::Path(vec![Point { x: 0, y: 7 }])), border_color: None },
            VisPart { geom: None, border_color: None },
        ],
    }
}

fn remapped_sample_visualization() -> Visualization {
    Visualization {
        id: 5,
        part: vec![
            VisPart {
                geom: Some(Geom::Circle(Circle { p_x: 1, p_y: -2, radius: 3 })),
                border_color: Some(Color { red: 1, green: 2, blue: 3, alpha: 4 }),
            },
            VisPart {
                geom: Some(Geom::Polygon(vec![Point { x: 1, y: -1 }, Point { x: 2, y: 2 }])),
                border_color: None,
            },
            VisPart { geom: Some(Geom::Path(vec![Point { x: 0, y: -7 }])), border_color: None },
            VisPart { geom: None, border_color: None },
        ],
    }
}

#[test]
fn world_is_flipped_and_turned() {
    let mut world = sample_world();
    remap_world_state(&mut world);
    assert_eq!(world, remapped_sample_world());
}

#[test]
fn remap_saturates_at_the_ends_of_the_range() {
    let mut world = WorldState {
        timestamp: 0,
        ball: vec![Ball { p_x: 0, p_y: i32::MIN, p_z: None }],
        yellow_robot: vec![Robot { id: 1, p_x: 0, p_y: i32::MIN, phi: i32::MIN }],
        blue_robot: vec![],
    };
    remap_world_state(&mut world);
    assert_eq!(world.ball, vec![Ball { p_x: 0, p_y: i32::MAX, p_z: None }]);
    assert_eq!(world.yellow_robot, vec![Robot { id: 1, p_x: 0, p_y: i32::MAX, phi: i32::MIN }]);
}

#[test]
fn empty_world_has_nothing_in_it() {
    let world = WorldState::empty();
    assert_eq!(
        world,
        WorldState { timestamp: 0, ball: vec![], yellow_robot: vec![], blue_robot: vec![] }
    );
}

#[test]
fn drawings_are_flipped() {
    let mut list = vec![sample_visualization(), sample_visualization()];
    remap_visualization_list(&mut list);
    assert_eq!(list, vec![remapped_sample_visualization(), remapped_sample_visualization()]);
}

#[test]
fn update_is_flipped_in_every_set() {
    let mut update = VisualizationUpdate {
        visualization_group: Some(VisualizationGroup { group: 1, group_count: 2 }),
        visualization_set: vec![
            VisualizationSet { source: Some(3), visualization: vec![sample_visualization()] },
            VisualizationSet { source: None, visualization: vec![] },
            VisualizationSet { source: None, visualization: vec![sample_visualization()] },
        ],
    };
    remap_visualizations(&mut update);
    assert_eq!(
        update,
        VisualizationUpdate {
            visualization_group: Some(VisualizationGroup { group: 1, group_count: 2 }),
            visualization_set: vec![
                VisualizationSet {
                    source: Some(3),
                    visualization: vec![remapped_sample_visualization()]
                },
                VisualizationSet { source: None, visualization: vec![] },
                VisualizationSet {
                    source: None,
                    visualization: vec![remapped_sample_visualization()]
                },
            ],
        }
    );
}

#[test]
fn status_is_flipped_in_world_and_drawings() {
    let mut status = Status {
        timestamp: 9,
        world_state: Some(sample_world()),
        field_geometry: None,
        yellow_team: None,
        blue_team: None,
        visualization_group: None,
        visualization: vec![sample_visualization()],
    };
    remap_coordinates(&mut status);
    assert_eq!(status.timestamp, 9);
    assert_eq!(status.world_state, Some(remapped_sample_world()));
    assert_eq!(status.visualization, vec![remapped_sample_visualization()]);
}

#[test]
fn status_without_a_world_keeps_none() {
    let mut status = Status {
        timestamp: 9,
        world_state: None,
        field_geometry: None,
        yellow_team: None,
        blue_team: None,
        visualization_group: None,
        visualization: vec![],
    };
    remap_coordinates(&mut status);
    assert_eq!(status.world_state, None);
    assert_eq!(status.visualization, vec![]);
}

#[test]
fn remapping_twice_gives_back_the_positions() {
    let mut list = vec![sample_visualization()];
    remap_visualization_list(&mut list);
    remap_visualization_list(&mut list);
    assert_eq!(list, vec![sample_visualization()]);
}

#[test]
fn clones_are_equal() {
    let list = vec![sample_visualization(), remapped_sample_visualization()];
    assert_eq!(clone_visualizations(&list), list);
    let world = sample_world();
    assert_eq!(world.clone(), world);
}
