use sslgame::field::{Extent, FieldGeometry, GameState};
use sslgame::state_filter::StateFilter;
use sslgame::sync::{ClockSync, FilterConfig};
use sslgame::telemetry::{
    Ball, Circle, FieldDimensions, Geom, Robot, Status, TeamInfo, VisPart, Visualization,
    VisualizationGroup, WorldState,
};
use std::collections::HashSet;

fn status(timestamp: u64) -> Status {
    Status {
        timestamp,
        world_state: None,
        field_geometry: None,
        yellow_team: None,
        blue_team: None,
        visualization_group: None,
        visualization: vec![],
    }
}

fn ball_world(p_x: i32, p_y: i32) -> WorldState {
    WorldState {
        timestamp: 0,
        ball: vec![Ball { p_x, p_y, p_z: None }],
        yellow_robot: vec![],
        blue_robot: vec![],
    }
}

fn ball_status(timestamp: u64, p_x: i32, p_y: i32) -> Status {
    Status { world_state: Some(ball_world(p_x, p_y)), ..status(timestamp) }
}

fn circle(id: u32, p_y: i32) -> Visualization {
    Visualization {
        id,
        part: vec![VisPart {
            geom: Some(Geom::Circle(Circle { p_x: 0, p_y, radius: 1 })),
            border_color: None,
        }],
    }
}

fn shard(timestamp: u64, group: u32, group_count: u32, ids: &[u32]) -> Status {
    Status {
        visualization_group: Some(VisualizationGroup { group, group_count }),
        visualization: ids.iter().map(|id| circle(*id, 1)).collect(),
        ..status(timestamp)
    }
}

#[test]
fn new_filter_is_empty() {
    let mut filter = StateFilter::default();
    assert_eq!(filter.history_timestamps(), Vec::<i128>::new());
    assert_eq!(filter.clock_sync(), None);
    assert_eq!(filter.current_world_state_at(10, true), WorldState::empty());
    assert_eq!(filter.current_world_state_at(10, false), WorldState::empty());
    assert_eq!(filter.clock_sync(), None);
}

#[test]
fn first_packet_sets_the_offset() {
    let mut filter = StateFilter::default();
    filter.push_packet_at(1000, status(400));
    assert_eq!(
        filter.clock_sync(),
        Some(ClockSync { offset: 600, min_margin: None, stutter_count: 0, scheduled_time: 1_001_000 })
    );
    assert_eq!(filter.history_timestamps(), vec![1000]);
    let mut early = StateFilter::default();
    early.push_packet_at(400, status(1000));
    assert_eq!(early.clock_sync().unwrap().offset, -600);
    assert_eq!(early.history_timestamps(), vec![400]);
}

#[test]
fn history_is_ordered_whatever_the_order_of_arrival() {
    let mut filter = StateFilter::default();
    filter.push_packet_at(1000, status(500));
    filter.push_packet_at(1010, status(400));
    filter.push_packet_at(1020, status(600));
    filter.push_packet_at(1030, status(450));
    filter.push_packet_at(1040, status(600));
    assert_eq!(filter.history_timestamps(), vec![1100, 1100, 1000, 950, 900]);
}

#[test]
fn packet_with_a_known_timestamp_goes_before_its_equals() {
    let mut filter = StateFilter::default();
    filter.push_packet_at(0, ball_status(0, 1, 0));
    filter.push_packet_at(0, ball_status(0, 2, 0));
    assert_eq!(filter.history_timestamps(), vec![0, 0]);
    assert_eq!(filter.current_world_state_at(0, false), ball_world(2, 0));
}

#[test]
fn history_stays_ordered_over_many_arrivals() {
    let mut filter = StateFilter::default();
    let mut seed: u64 = 12345;
    for step in 0..500u64 {
        seed = seed.wrapping_mul(6364136223846793005).wrapping_add(1442695040888963407);
        let sender = 1_000_000 + (seed >> 33) % 400_000;
        filter.push_packet_at(step * 1000, status(sender));
        let stamps = filter.history_timestamps();
        assert!(stamps.windows(2).all(|w| w[0] >= w[1]));
        assert!(stamps.iter().all(|ts| (step * 1000) as i128 <= ts + 1_000_000));
    }
}

#[test]
fn old_packets_are_purged() {
    let mut filter = StateFilter::default();
    filter.push_packet_at(1000, status(500));
    filter.push_packet_at(1010, status(400));
    filter.push_packet_at(1020, status(600));
    filter.push_packet_at(1_000_950, status(1_000_450));
    assert_eq!(filter.history_timestamps(), vec![1_000_950, 1100, 1000]);
    filter.push_packet_at(2_000_000, status(1_999_500));
    assert_eq!(filter.history_timestamps(), vec![2_000_000, 1_000_950]);
    filter.push_packet_at(2_000_950, status(2_000_450));
    assert_eq!(filter.history_timestamps(), vec![2_000_950, 2_000_000, 1_000_950]);
    filter.push_packet_at(2_000_951, status(2_000_451));
    assert_eq!(filter.history_timestamps(), vec![2_000_951, 2_000_950, 2_000_000]);
}

#[test]
fn packet_from_the_far_future_leaves_only_fresh_entries() {
    let mut filter = StateFilter::default();
    filter.push_packet_at(1000, status(500));
    filter.push_packet_at(1010, status(400));
    filter.push_packet_at(1_500_000, status(9_999_500));
    assert_eq!(filter.history_timestamps(), vec![10_000_000]);
}

#[test]
fn packet_that_is_stale_on_arrival_is_dropped() {
    let mut filter = StateFilter::default();
    filter.push_packet_at(5_000_000, status(5_000_000));
    filter.push_packet_at(5_000_001, status(3_000_000));
    assert_eq!(filter.history_timestamps(), vec![5_000_000]);
}

#[test]
fn retention_window_is_taken_from_the_configuration() {
    let config = FilterConfig { retention_window: 100, ..FilterConfig::default() };
    let mut filter = StateFilter::new(config);
    filter.push_packet_at(0, status(0));
    filter.push_packet_at(99, status(99));
    assert_eq!(filter.history_timestamps(), vec![99, 0]);
    filter.push_packet_at(100, status(100));
    assert_eq!(filter.history_timestamps(), vec![100, 99, 0]);
    filter.push_packet_at(101, status(101));
    assert_eq!(filter.history_timestamps(), vec![101, 100, 99]);
}

#[test]
fn without_a_retention_window_only_the_present_stays() {
    let config = FilterConfig { retention_window: 0, ..FilterConfig::default() };
    let mut filter = StateFilter::new(config);
    filter.push_packet_at(7, ball_status(7, 1, 0));
    assert_eq!(filter.history_timestamps(), vec![7]);
    assert_eq!(filter.current_world_state_at(9, true), ball_world(1, 0));
    filter.push_packet_at(8, ball_status(8, 2, 0));
    assert_eq!(filter.history_timestamps(), vec![8]);
    filter.push_packet_at(9, ball_status(20, 3, 0));
    assert_eq!(filter.history_timestamps(), vec![20]);
}

#[test]
fn single_packet_is_read_back_unblended() {
    let mut filter = StateFilter::default();
    let world = WorldState {
        timestamp: 31,
        ball: vec![Ball { p_x: 4, p_y: 5, p_z: Some(6) }],
        yellow_robot: vec![Robot { id: 3, p_x: 1, p_y: 2, phi: 90_000_000 }],
        blue_robot: vec![],
    };
    filter.push_packet_at(5000, Status { world_state: Some(world), ..status(123) });
    let stored = WorldState {
        timestamp: 31,
        ball: vec![Ball { p_x: 4, p_y: -5, p_z: Some(6) }],
        yellow_robot: vec![Robot { id: 3, p_x: 1, p_y: -2, phi: 0 }],
        blue_robot: vec![],
    };
    assert_eq!(filter.current_world_state_at(5000, true), stored);
    assert_eq!(filter.current_world_state_at(5001, true), stored);
    assert_eq!(filter.current_world_state_at(900_000, true), stored);
    assert_eq!(filter.current_world_state_at(5000, false), stored);
}

#[test]
fn read_before_the_only_packet_is_empty() {
    let mut filter = StateFilter::default();
    filter.push_packet_at(5000, ball_status(123, 4, 5));
    assert_eq!(filter.current_world_state_at(4999, true), WorldState::empty());
    assert_eq!(filter.clock_sync().unwrap().min_margin, None);
    assert_eq!(filter.clock_sync().unwrap().stutter_count, 0);
    assert_eq!(filter.current_world_state_at(4999, false), ball_world(4, -5));
}

#[test]
fn ball_is_interpolated_between_two_packets() {
    let mut filter = StateFilter::default();
    filter.push_packet_at(0, ball_status(0, 0, 0));
    filter.push_packet_at(0, ball_status(100, 10, 0));
    assert_eq!(filter.history_timestamps(), vec![100, 0]);
    assert_eq!(filter.current_world_state_at(50, true), ball_world(5, 0));
    let sync = filter.clock_sync().unwrap();
    assert_eq!(sync.min_margin, Some(50));
    assert_eq!(sync.stutter_count, 0);
    assert_eq!(sync.offset, 0);
}

#[test]
fn read_at_the_time_of_a_packet_gives_that_packet() {
    let mut filter = StateFilter::default();
    filter.push_packet_at(0, ball_status(0, 0, 0));
    filter.push_packet_at(0, ball_status(100, 10, 0));
    filter.push_packet_at(0, ball_status(200, 40, 0));
    assert_eq!(filter.current_world_state_at(100, true), ball_world(10, 0));
    assert_eq!(filter.clock_sync().unwrap().min_margin, Some(100));
    assert_eq!(filter.current_world_state_at(0, true), ball_world(0, 0));
    assert_eq!(filter.current_world_state_at(150, true), ball_world(25, 0));
    assert_eq!(filter.clock_sync().unwrap().min_margin, Some(50));
}

#[test]
fn read_past_the_newest_packet_is_extrapolated_and_counted() {
    let mut filter = StateFilter::default();
    filter.push_packet_at(0, ball_status(0, 0, 0));
    filter.push_packet_at(0, ball_status(100, 10, 0));
    assert_eq!(filter.current_world_state_at(200, true), ball_world(20, 0));
    let sync = filter.clock_sync().unwrap();
    assert_eq!(sync.stutter_count, 1);
    assert_eq!(sync.min_margin, Some(-100));
    assert_eq!(filter.current_world_state_at(100, true), ball_world(10, 0));
    let sync = filter.clock_sync().unwrap();
    assert_eq!(sync.stutter_count, 2);
    assert_eq!(sync.min_margin, Some(-100));
}

#[test]
fn read_past_the_only_packet_holds_it_and_is_counted() {
    let mut filter = StateFilter::default();
    filter.push_packet_at(0, ball_status(0, 3, 4));
    assert_eq!(filter.current_world_state_at(500, true), ball_world(3, -4));
    let sync = filter.clock_sync().unwrap();
    assert_eq!(sync.stutter_count, 1);
    assert_eq!(sync.min_margin, Some(-500));
}

#[test]
fn packets_without_a_world_are_passed_over() {
    let mut filter = StateFilter::default();
    filter.push_packet_at(0, ball_status(0, 0, 0));
    filter.push_packet_at(0, status(50));
    filter.push_packet_at(0, ball_status(100, 10, 0));
    filter.push_packet_at(0, status(150));
    assert_eq!(filter.history_timestamps(), vec![150, 100, 50, 0]);
    assert_eq!(filter.current_world_state_at(60, true), ball_world(6, 0));
    assert_eq!(filter.clock_sync().unwrap().min_margin, Some(40));
    assert_eq!(filter.current_world_state_at(160, false), ball_world(10, 0));
    assert_eq!(filter.current_world_state_at(160, true), ball_world(16, 0));
    assert_eq!(filter.clock_sync().unwrap().stutter_count, 1);
}

#[test]
fn unfiltered_read_records_nothing() {
    let mut filter = StateFilter::default();
    filter.push_packet_at(0, ball_status(0, 0, 0));
    filter.push_packet_at(0, ball_status(100, 10, 0));
    assert_eq!(filter.current_world_state_at(500, false), ball_world(10, 0));
    let sync = filter.clock_sync().unwrap();
    assert_eq!(sync.stutter_count, 0);
    assert_eq!(sync.min_margin, None);
}

#[test]
fn offset_is_not_adapted_without_a_health_sample() {
    let mut filter = StateFilter::default();
    filter.push_packet_at(0, status(0));
    let before = filter.clock_sync().unwrap();
    filter.push_packet_at(2_000_000, status(2_000_000));
    filter.push_packet_at(50_000_000, status(50_000_000));
    assert_eq!(filter.clock_sync().unwrap(), before);
}

#[test]
fn offset_is_not_adapted_before_the_warm_up_is_over() {
    let mut filter = StateFilter::default();
    filter.push_packet_at(0, ball_status(0, 0, 0));
    filter.push_packet_at(1, ball_status(100_000, 10, 0));
    filter.current_world_state_at(50_000, true);
    filter.push_packet_at(1_000_000, status(1_000_000));
    let sync = filter.clock_sync().unwrap();
    assert_eq!(sync.offset, 0);
    assert_eq!(sync.min_margin, Some(50_000));
    assert_eq!(sync.scheduled_time, 1_000_000);
}

#[test]
fn generous_margin_moves_the_offset_to_the_target() {
    let mut filter = StateFilter::default();
    filter.push_packet_at(0, ball_status(0, 0, 0));
    filter.push_packet_at(1, ball_status(100_000, 10, 0));
    filter.current_world_state_at(50_000, true);
    filter.current_world_state_at(30_000, true);
    assert_eq!(filter.clock_sync().unwrap().min_margin, Some(50_000));
    filter.push_packet_at(1_000_001, status(1_000_001));
    assert_eq!(
        filter.clock_sync(),
        Some(ClockSync {
            offset: -40_000,
            min_margin: None,
            stutter_count: 0,
            scheduled_time: 11_000_001
        })
    );
    assert_eq!(filter.history_timestamps(), vec![960_001, 100_000]);
}

#[test]
fn margin_within_twice_the_target_leaves_the_offset_and_empties_the_sample() {
    let mut filter = StateFilter::default();
    filter.push_packet_at(0, ball_status(0, 0, 0));
    filter.push_packet_at(1, ball_status(100_000, 10, 0));
    filter.current_world_state_at(80_000, true);
    assert_eq!(filter.clock_sync().unwrap().min_margin, Some(20_000));
    filter.push_packet_at(1_000_001, status(1_000_001));
    assert_eq!(
        filter.clock_sync(),
        Some(ClockSync { offset: 0, min_margin: None, stutter_count: 0, scheduled_time: 11_000_001 })
    );
    assert_eq!(filter.history_timestamps(), vec![1_000_001, 100_000]);
}

#[test]
fn one_dry_read_in_five_seconds_is_tolerated() {
    let mut filter = StateFilter::default();
    filter.push_packet_at(0, ball_status(0, 0, 0));
    filter.current_world_state_at(100, true);
    filter.current_world_state_at(300, true);
    assert_eq!(filter.clock_sync().unwrap().stutter_count, 2);
    assert_eq!(filter.clock_sync().unwrap().min_margin, Some(-300));
    filter.push_packet_at(1_000_001, status(1_000_001));
    assert_eq!(
        filter.clock_sync(),
        Some(ClockSync { offset: 0, min_margin: None, stutter_count: 0, scheduled_time: 11_000_001 })
    );
}

#[test]
fn packet_from_before_the_start_of_the_clock_goes_behind_the_later_ones() {
    let mut filter = StateFilter::default();
    filter.push_packet_at(0, ball_status(1000, 1, 0));
    assert_eq!(filter.clock_sync().unwrap().offset, -1000);
    filter.push_packet_at(10, ball_status(700, 2, 0));
    assert_eq!(filter.history_timestamps(), vec![0, -300]);
    filter.push_packet_at(20, ball_status(400, 3, 0));
    filter.push_packet_at(30, ball_status(900, 4, 0));
    filter.push_packet_at(40, ball_status(1040, 5, 0));
    assert_eq!(filter.history_timestamps(), vec![40, 0, -100, -300, -600]);
    assert_eq!(filter.current_world_state_at(40, false), ball_world(5, 0));
    assert_eq!(filter.current_world_state_at(20, true), ball_world(3, 0));
    let config = FilterConfig { retention_window: 450, ..FilterConfig::default() };
    let mut short = StateFilter::new(config);
    short.push_packet_at(0, status(1000));
    short.push_packet_at(100, status(400));
    short.push_packet_at(149, status(700));
    assert_eq!(short.history_timestamps(), vec![0, -300]);
    short.push_packet_at(149, status(699));
    assert_eq!(short.history_timestamps(), vec![0, -300, -301]);
    short.push_packet_at(151, status(900));
    assert_eq!(short.history_timestamps(), vec![0, -100]);
}

#[test]
fn too_many_dry_reads_move_the_offset() {
    let mut filter = StateFilter::default();
    filter.push_packet_at(0, ball_status(0, 0, 0));
    filter.current_world_state_at(100, true);
    filter.current_world_state_at(300, true);
    filter.current_world_state_at(200, true);
    assert_eq!(filter.clock_sync().unwrap().stutter_count, 3);
    assert_eq!(filter.clock_sync().unwrap().min_margin, Some(-300));
    filter.push_packet_at(1_000_001, status(1_000_001));
    assert_eq!(
        filter.clock_sync(),
        Some(ClockSync {
            offset: 10_300,
            min_margin: None,
            stutter_count: 0,
            scheduled_time: 11_000_001
        })
    );
    assert_eq!(filter.history_timestamps(), vec![1_010_301]);
}

#[test]
fn adaptation_rests_until_the_next_sample() {
    let mut filter = StateFilter::default();
    filter.push_packet_at(0, ball_status(0, 0, 0));
    filter.push_packet_at(1, ball_status(100_000, 10, 0));
    filter.current_world_state_at(50_000, true);
    filter.push_packet_at(1_000_001, status(1_000_001));
    let after = filter.clock_sync().unwrap();
    filter.push_packet_at(1_000_002, status(1_000_002));
    filter.push_packet_at(30_000_000, status(30_000_000));
    filter.push_packet_at(90_000_000, status(90_000_000));
    assert_eq!(filter.clock_sync().unwrap(), after);
}

#[test]
fn each_team_is_named_by_the_newest_packet_that_names_it() {
    let mut filter = StateFilter::default();
    assert_eq!(filter.current_game_state(), GameState::default());
    assert_eq!(
        filter.current_game_state(),
        GameState { yellow_team: String::new(), blue_team: String::new() }
    );
    filter.push_packet_at(
        0,
        Status {
            yellow_team: Some(TeamInfo { name: "Old Yellow".to_string() }),
            blue_team: Some(TeamInfo { name: "Old Blue".to_string() }),
            ..status(0)
        },
    );
    filter.push_packet_at(
        0,
        Status { yellow_team: Some(TeamInfo { name: "Yellow".to_string() }), ..status(10) },
    );
    filter.push_packet_at(0, status(20));
    assert_eq!(
        filter.current_game_state(),
        GameState { yellow_team: "Yellow".to_string(), blue_team: "Old Blue".to_string() }
    );
    filter.push_packet_at(
        0,
        Status { blue_team: Some(TeamInfo { name: String::new() }), ..status(30) },
    );
    assert_eq!(
        filter.current_game_state(),
        GameState { yellow_team: "Yellow".to_string(), blue_team: String::new() }
    );
}

#[test]
fn field_geometry_falls_back_to_the_larger_division() {
    let filter = StateFilter::default();
    assert_eq!(filter.current_field_geometry(), FieldGeometry::div_a());
    assert_eq!(filter.field_geometry_update(), None);
    assert_eq!(FieldGeometry::default(), FieldGeometry::div_a());
    assert_eq!(
        FieldGeometry::div_a(),
        FieldGeometry {
            play_area_size: Extent { x: 12_000, y: 9_000 },
            boundary_width: 300,
            defense_size: Extent { x: 1_800, y: 3_600 },
            goal_width: 1_800,
        }
    );
    assert_eq!(
        FieldGeometry::div_b(),
        FieldGeometry {
            play_area_size: Extent { x: 9_000, y: 6_000 },
            boundary_width: 300,
            defense_size: Extent { x: 1_000, y: 2_000 },
            goal_width: 1_000,
        }
    );
}

fn dimensions(x: i32, y: i32, boundary: Option<i32>, dx: i32, dy: i32, goal: i32) -> FieldDimensions {
    FieldDimensions {
        field_size_x: x,
        field_size_y: y,
        boundary_width: boundary,
        defense_size_x: dx,
        defense_size_y: dy,
        goal_width: goal,
    }
}

#[test]
fn field_geometry_is_taken_from_the_newest_packet_that_reports_one() {
    let mut filter = StateFilter::default();
    filter.push_packet_at(
        0,
        Status { field_geometry: Some(dimensions(1, 2, Some(3), 4, 5, 6)), ..status(0) },
    );
    filter.push_packet_at(
        0,
        Status { field_geometry: Some(dimensions(9000, 6000, None, 1000, 2000, 1000)), ..status(10) },
    );
    filter.push_packet_at(0, status(20));
    let expected = FieldGeometry {
        play_area_size: Extent { x: 9000, y: 6000 },
        boundary_width: 0,
        defense_size: Extent { x: 1000, y: 2000 },
        goal_width: 1000,
    };
    assert_eq!(filter.current_field_geometry(), expected);
    assert_eq!(filter.field_geometry_update(), Some(expected));
}

#[test]
fn degenerate_field_geometry_counts_as_absent() {
    for degenerate in [
        dimensions(0, 0, Some(300), 1000, 2000, 1000),
        dimensions(9000, 6000, Some(300), 0, 0, 1000),
        dimensions(9000, 6000, Some(300), 1000, 2000, 0),
    ] {
        let mut filter = StateFilter::default();
        filter.push_packet_at(
            0,
            Status { field_geometry: Some(dimensions(1, 2, Some(3), 4, 5, 6)), ..status(0) },
        );
        filter.push_packet_at(0, Status { field_geometry: Some(degenerate), ..status(10) });
        assert_eq!(filter.current_field_geometry(), FieldGeometry::div_a());
        assert_eq!(filter.field_geometry_update(), Some(FieldGeometry::from_dimensions(&degenerate)));
        assert!(FieldGeometry::from_dimensions(&degenerate).degenerate());
    }
    let half = dimensions(9000, 0, None, 0, 2000, 1);
    assert!(!FieldGeometry::from_dimensions(&half).degenerate());
}

#[test]
fn overlay_of_an_empty_history_has_one_shard_and_nothing_in_it() {
    let filter = StateFilter::default();
    assert_eq!(filter.visualization_updates(), (1, HashSet::new(), vec![]));
}

#[test]
fn overlay_takes_the_newest_entry_of_each_shard() {
    let mut filter = StateFilter::default();
    filter.push_packet_at(0, shard(0, 0, 2, &[1]));
    filter.push_packet_at(0, shard(10, 1, 2, &[2, 3]));
    filter.push_packet_at(0, status(15));
    filter.push_packet_at(0, shard(20, 0, 2, &[4]));
    let (count, groups, visualizations) = filter.visualization_updates();
    assert_eq!(count, 2);
    assert_eq!(groups, HashSet::from([0, 1]));
    assert_eq!(visualizations, vec![circle(4, -1), circle(2, -1), circle(3, -1)]);
    let again = filter.visualization_updates();
    assert_eq!(again.2, vec![circle(4, -1), circle(2, -1), circle(3, -1)]);
}

#[test]
fn overlay_stops_at_a_shard_of_another_partition() {
    let mut filter = StateFilter::default();
    filter.push_packet_at(0, shard(0, 1, 3, &[1]));
    filter.push_packet_at(0, shard(10, 2, 4, &[2]));
    filter.push_packet_at(0, shard(20, 0, 3, &[3]));
    filter.push_packet_at(0, shard(30, 2, 3, &[4]));
    let (count, groups, visualizations) = filter.visualization_updates();
    assert_eq!(count, 3);
    assert_eq!(groups, HashSet::from([0, 2]));
    assert_eq!(visualizations, vec![circle(4, -1), circle(3, -1)]);
}

#[test]
fn clock_driven_calls_keep_the_history_ordered() {
    let mut filter = StateFilter::default();
    filter.push_packet(ball_status(1000, 1, 1));
    filter.push_packet(ball_status(900, 2, 2));
    filter.push_packet(ball_status(1100, 3, 3));
    let stamps = filter.history_timestamps();
    assert_eq!(stamps.len(), 3);
    assert!(stamps.windows(2).all(|w| w[0] >= w[1]));
    assert_eq!(filter.current_world_state(false), ball_world(3, -3));
    let now = filter.local_time();
    assert!(filter.local_time() >= now);
    let world = filter.current_world_state(true);
    assert!(world.ball.len() <= 1);
}
