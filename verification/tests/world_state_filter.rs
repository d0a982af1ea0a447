use sslgame::sync::{ClockSync, FilterConfig};
use sslgame::telemetry::{Ball, Robot, WorldState};
use sslgame::world_state_filter::WorldStateFilter;

fn sample(timestamp: u64, p_x: i32) -> WorldState {
    WorldState {
        timestamp,
        ball: vec![Ball { p_x, p_y: 0, p_z: None }],
        yellow_robot: vec![Robot { id: 1, p_x, p_y: 0, phi: 90_000_000 }],
        blue_robot: vec![],
    }
}

fn stored(timestamp: u64, p_x: i32) -> WorldState {
    WorldState {
        timestamp,
        ball: vec![Ball { p_x, p_y: 0, p_z: None }],
        yellow_robot: vec![Robot { id: 1, p_x, p_y: 0, phi: 0 }],
        blue_robot: vec![],
    }
}

#[test]
fn world_filter_starts_empty() {
    let mut filter = WorldStateFilter::default();
    assert_eq!(filter.history_timestamps(), Vec::<i128>::new());
    assert_eq!(filter.clock_sync(), None);
    assert_eq!(filter.current_world_state_at(5, true), WorldState::empty());
    assert_eq!(filter.current_world_state_at(5, false), WorldState::empty());
}

#[test]
fn world_filter_orders_and_purges() {
    let mut filter = WorldStateFilter::default();
    filter.push_packet_at(1000, sample(500, 1));
    filter.push_packet_at(1010, sample(400, 2));
    filter.push_packet_at(1020, sample(600, 3));
    assert_eq!(filter.history_timestamps(), vec![1100, 1000, 900]);
    assert_eq!(filter.clock_sync().unwrap().offset, 500);
    filter.push_packet_at(1_000_950, sample(1_000_450, 4));
    assert_eq!(filter.history_timestamps(), vec![1_000_950, 1100, 1000]);
}

#[test]
fn world_filter_reads_a_single_sample_back() {
    let mut filter = WorldStateFilter::default();
    filter.push_packet_at(777, sample(123_456, 9));
    assert_eq!(filter.current_world_state_at(777, true), stored(123_456, 9));
    assert_eq!(filter.current_world_state_at(10_000, true), stored(123_456, 9));
    assert_eq!(filter.current_world_state_at(776, true), WorldState::empty());
}

#[test]
fn world_filter_interpolates_with_the_sender_timestamp() {
    let mut filter = WorldStateFilter::default();
    filter.push_packet_at(0, sample(1000, 0));
    filter.push_packet_at(0, sample(1100, 10));
    assert_eq!(filter.history_timestamps(), vec![100, 0]);
    assert_eq!(filter.current_world_state_at(50, true), stored(1050, 5));
    assert_eq!(filter.clock_sync().unwrap().min_margin, Some(50));
    assert_eq!(filter.current_world_state_at(50, false), stored(1100, 10));
}

#[test]
fn world_filter_extrapolates_past_the_newest_sample() {
    let mut filter = WorldStateFilter::default();
    filter.push_packet_at(0, sample(1000, 0));
    filter.push_packet_at(0, sample(1100, 10));
    assert_eq!(filter.current_world_state_at(250, true), stored(1250, 25));
    let sync = filter.clock_sync().unwrap();
    assert_eq!(sync.stutter_count, 1);
    assert_eq!(sync.min_margin, Some(-150));
}

#[test]
fn world_filter_adapts_its_offset() {
    let config = FilterConfig {
        retention_window: 1_000_000,
        health_tracking_period: 20_000_000,
        warm_up_period: 500,
        target_buffer_time: 100,
    };
    let mut filter = WorldStateFilter::new(config);
    filter.push_packet_at(0, sample(0, 0));
    filter.push_packet_at(0, sample(1000, 10));
    filter.current_world_state_at(700, true);
    assert_eq!(filter.clock_sync().unwrap().min_margin, Some(300));
    filter.push_packet_at(500, sample(2000, 20));
    assert_eq!(filter.clock_sync().unwrap().offset, 0);
    filter.push_packet_at(501, sample(3000, 30));
    assert_eq!(
        filter.clock_sync(),
        Some(ClockSync { offset: -200, min_margin: None, stutter_count: 0, scheduled_time: 20_000_501 })
    );
    assert_eq!(filter.history_timestamps(), vec![2800, 2000, 1000, 0]);
}

#[test]
fn world_filter_tolerates_four_dry_reads_in_twenty_seconds() {
    let config = FilterConfig {
        retention_window: 1_000_000,
        health_tracking_period: 20_000_000,
        warm_up_period: 500,
        target_buffer_time: 100,
    };
    let mut tolerant = WorldStateFilter::new(config);
    tolerant.push_packet_at(0, sample(0, 0));
    for _ in 0..4 {
        tolerant.current_world_state_at(10, true);
    }
    assert_eq!(tolerant.clock_sync().unwrap().stutter_count, 4);
    tolerant.push_packet_at(501, sample(501, 1));
    assert_eq!(
        tolerant.clock_sync(),
        Some(ClockSync { offset: 0, min_margin: None, stutter_count: 0, scheduled_time: 20_000_501 })
    );
    let mut strained = WorldStateFilter::new(config);
    strained.push_packet_at(0, sample(0, 0));
    for _ in 0..5 {
        strained.current_world_state_at(10, true);
    }
    strained.push_packet_at(501, sample(501, 1));
    assert_eq!(
        strained.clock_sync(),
        Some(ClockSync { offset: 110, min_margin: None, stutter_count: 0, scheduled_time: 20_000_501 })
    );
    assert_eq!(strained.history_timestamps(), vec![611, 0]);
}

#[test]
fn world_filter_keeps_samples_from_before_the_start_of_the_clock_in_order() {
    let mut filter = WorldStateFilter::default();
    filter.push_packet_at(5, sample(1000, 10));
    filter.push_packet_at(6, sample(900, 9));
    filter.push_packet_at(7, sample(950, 95));
    filter.push_packet_at(8, sample(800, 8));
    assert_eq!(filter.history_timestamps(), vec![5, -45, -95, -195]);
    assert_eq!(filter.current_world_state_at(8, false), stored(1000, 10));
    assert_eq!(filter.current_world_state_at(8, true), stored(1003, 5));
}

#[test]
fn world_filter_runs_on_its_own_clock() {
    let mut filter = WorldStateFilter::default();
    filter.push_packet(sample(10, 1));
    filter.push_packet(sample(20, 2));
    let stamps = filter.history_timestamps();
    assert_eq!(stamps.len(), 2);
    assert!(stamps[0] >= stamps[1]);
    assert_eq!(filter.current_world_state(false), stored(20, 2));
    let blended = filter.current_world_state(true);
    assert_eq!(blended.yellow_robot.len(), 1);
    assert!(filter.local_time() < 60_000_000);
}
