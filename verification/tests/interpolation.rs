use sslgame::interpolation::{find_robot, interpolate_robots, interpolate_world_state};
use sslgame::telemetry::{Ball, Robot, WorldState};

fn world(timestamp: u64, ball: Vec<Ball>, yellow: Vec<Robot>, blue: Vec<Robot>) -> WorldState {
    WorldState { timestamp, ball, yellow_robot: yellow, blue_robot: blue }
}

fn robot(id: u32, p_x: i32, p_y: i32, phi: i32) -> Robot {
    Robot { id, p_x, p_y, phi }
}

#[test]
fn ball_halfway_between_two_samples() {
    let prev = world(0, vec![Ball { p_x: 0, p_y: 0, p_z: None }], vec![], vec![]);
    let next = world(100, vec![Ball { p_x: 10, p_y: 0, p_z: None }], vec![], vec![]);
    let mid = interpolate_world_state(50, 0, &prev, 100, &next);
    assert_eq!(mid.ball, vec![Ball { p_x: 5, p_y: 0, p_z: None }]);
    assert_eq!(mid.timestamp, 50);
}

#[test]
fn ball_height_is_blended_where_both_samples_know_it() {
    let prev = world(0, vec![Ball { p_x: 0, p_y: 0, p_z: Some(100) }], vec![], vec![]);
    let next = world(0, vec![Ball { p_x: 0, p_y: 0, p_z: Some(300) }], vec![], vec![]);
    let mid = interpolate_world_state(25, 0, &prev, 100, &next);
    assert_eq!(mid.ball, vec![Ball { p_x: 0, p_y: 0, p_z: Some(150) }]);
}

#[test]
fn ball_height_is_unknown_where_one_sample_lacks_it() {
    let prev = world(0, vec![Ball { p_x: 0, p_y: 0, p_z: Some(100) }], vec![], vec![]);
    let next = world(0, vec![Ball { p_x: 8, p_y: 4, p_z: None }], vec![], vec![]);
    let mid = interpolate_world_state(50, 0, &prev, 100, &next);
    assert_eq!(mid.ball, vec![Ball { p_x: 4, p_y: 2, p_z: None }]);
    let back = interpolate_world_state(50, 0, &next, 100, &prev);
    assert_eq!(back.ball, vec![Ball { p_x: 4, p_y: 2, p_z: None }]);
}

#[test]
fn balls_are_taken_from_next_unless_each_sample_has_one() {
    let one = Ball { p_x: 1, p_y: 1, p_z: None };
    let two = Ball { p_x: 2, p_y: 2, p_z: None };
    let three = Ball { p_x: 3, p_y: 3, p_z: None };
    let prev = world(0, vec![one], vec![], vec![]);
    let next = world(0, vec![two, three], vec![], vec![]);
    assert_eq!(interpolate_world_state(50, 0, &prev, 100, &next).ball, vec![two, three]);
    assert_eq!(interpolate_world_state(50, 0, &next, 100, &prev).ball, vec![one]);
    let none = world(0, vec![], vec![], vec![]);
    assert_eq!(interpolate_world_state(50, 0, &prev, 100, &none).ball, vec![]);
    assert_eq!(interpolate_world_state(50, 0, &none, 100, &prev).ball, vec![one]);
}

#[test]
fn heading_takes_the_shorter_arc_across_the_wrap() {
    let prev = world(0, vec![], vec![robot(1, 0, 0, 170_000_000)], vec![]);
    let next = world(100, vec![], vec![robot(1, 0, 0, -170_000_000)], vec![]);
    let mid = interpolate_world_state(50, 0, &prev, 100, &next);
    assert_eq!(mid.yellow_robot, vec![robot(1, 0, 0, 180_000_000)]);
}

#[test]
fn robot_missing_from_next_is_dropped() {
    let prev = world(
        0,
        vec![],
        vec![robot(1, 0, 0, 0), robot(2, 100, 100, 0)],
        vec![robot(7, 5, 5, 0)],
    );
    let next = world(100, vec![], vec![robot(2, 200, 300, 0)], vec![]);
    let mid = interpolate_world_state(50, 0, &prev, 100, &next);
    assert_eq!(mid.yellow_robot, vec![robot(2, 150, 200, 0)]);
    assert_eq!(mid.blue_robot, vec![]);
}

#[test]
fn robot_that_only_next_has_is_not_made_up() {
    let prev = world(0, vec![], vec![robot(1, 0, 0, 0)], vec![]);
    let next = world(100, vec![], vec![robot(9, 1, 1, 1), robot(1, 10, 20, 30)], vec![robot(3, 0, 0, 0)]);
    let mid = interpolate_world_state(50, 0, &prev, 100, &next);
    assert_eq!(mid.yellow_robot, vec![robot(1, 5, 10, 15)]);
    assert_eq!(mid.blue_robot, vec![]);
}

#[test]
fn robots_keep_the_order_of_prev_and_match_the_first_of_an_id() {
    let prev = vec![robot(3, 0, 0, 0), robot(1, 0, 0, 0), robot(3, 100, 0, 0)];
    let next = vec![robot(1, 10, 0, 0), robot(3, 20, 0, 0), robot(3, 40, 0, 0)];
    let out = interpolate_robots(&prev, &next, 50, 0, 100);
    assert_eq!(out, vec![robot(3, 10, 0, 0), robot(1, 5, 0, 0), robot(3, 60, 0, 0)]);
}

#[test]
fn teams_are_matched_apart() {
    let prev = world(0, vec![], vec![robot(1, 0, 0, 0)], vec![robot(1, 100, 0, 0)]);
    let next = world(0, vec![], vec![robot(1, 10, 0, 0)], vec![robot(1, 300, 0, 0)]);
    let mid = interpolate_world_state(50, 0, &prev, 100, &next);
    assert_eq!(mid.yellow_robot, vec![robot(1, 5, 0, 0)]);
    assert_eq!(mid.blue_robot, vec![robot(1, 200, 0, 0)]);
}

#[test]
fn past_the_newer_sample_the_world_is_extrapolated() {
    let prev = world(1000, vec![Ball { p_x: 0, p_y: 0, p_z: None }], vec![robot(1, 0, 0, 0)], vec![]);
    let next = world(2000, vec![Ball { p_x: 10, p_y: -10, p_z: None }], vec![robot(1, 10, 0, 5)], vec![]);
    let out = interpolate_world_state(300, 0, &prev, 100, &next);
    assert_eq!(out.ball, vec![Ball { p_x: 30, p_y: -30, p_z: None }]);
    assert_eq!(out.yellow_robot, vec![robot(1, 30, 0, 15)]);
    assert_eq!(out.timestamp, 4000);
}

#[test]
fn samples_at_the_same_instant_give_the_later_values() {
    let prev = world(5, vec![Ball { p_x: 0, p_y: 0, p_z: None }], vec![robot(1, 0, 0, 0), robot(2, 0, 0, 0)], vec![]);
    let next = world(9, vec![Ball { p_x: 10, p_y: 0, p_z: None }], vec![robot(1, 10, 20, 30)], vec![]);
    let out = interpolate_world_state(70, 50, &prev, 50, &next);
    assert_eq!(out.ball, vec![Ball { p_x: 10, p_y: 0, p_z: None }]);
    assert_eq!(out.yellow_robot, vec![robot(1, 10, 20, 30)]);
    assert_eq!(out.timestamp, 9);
}

#[test]
fn find_robot_gives_the_first_of_an_id() {
    let list = vec![robot(4, 1, 1, 1), robot(5, 2, 2, 2), robot(4, 3, 3, 3)];
    assert_eq!(find_robot(&list, 4), Some(robot(4, 1, 1, 1)));
    assert_eq!(find_robot(&list, 5), Some(robot(5, 2, 2, 2)));
    assert_eq!(find_robot(&list, 6), None);
    assert_eq!(find_robot(&vec![], 4), None);
}
