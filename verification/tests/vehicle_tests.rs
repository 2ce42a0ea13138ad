use std::rc::Rc;

use transit_sim::line::{Line, LineState, RoadSide};
use transit_sim::node::Vehicle;

fn fresh_vehicle() -> Vehicle {
    let line = Rc::new(Line::new(4, vec![0, 1, 2]));
    Vehicle::new(LineState::new(4, false, line))
}

#[test]
fn no_arrival_below_threshold() {
    // speed 10 mm/ms against a 500_000 mm edge: 49_999 ms accumulate
    // 499_990 mm, short of the threshold; the cursor does not move.
    let mut vehicle = fresh_vehicle();
    let arrived = vehicle.progress(49_999);
    assert!(!arrived);
    assert_eq!(vehicle.curr_dist_traveled, 499_990);
    assert_eq!(vehicle.line.curr_node_index, 0);
    assert!(!vehicle.to_move);
}

#[test]
fn arrival_exactly_at_threshold() {
    // Once the accumulated distance reaches the threshold the vehicle
    // reports the arrival exactly once and resets its counter to zero.
    let mut vehicle = fresh_vehicle();
    assert!(!vehicle.progress(49_999));
    let arrived = vehicle.progress(1);
    assert!(arrived);
    assert_eq!(vehicle.curr_dist_traveled, 0);
    assert_eq!(vehicle.line.curr_node_index, 1);
    let again = vehicle.progress(1);
    assert!(!again);
    assert_eq!(vehicle.curr_dist_traveled, 10);
    assert_eq!(vehicle.line.curr_node_index, 1);
}

#[test]
fn overshoot_is_discarded() {
    // 60_000 ms would overshoot by 100_000 mm; the excess is dropped, not
    // carried toward the next node.
    let mut vehicle = fresh_vehicle();
    let arrived = vehicle.progress(60_000);
    assert!(arrived);
    assert_eq!(vehicle.curr_dist_traveled, 0);
}

#[test]
fn accessors_reflect_line_state() {
    let mut vehicle = fresh_vehicle();
    assert_eq!(vehicle.line_number(), 4);
    assert_eq!(vehicle.road_side(), RoadSide::Left);
    assert_eq!(vehicle.next_node_index(), 0);
    vehicle.progress(50_000);
    assert_eq!(vehicle.next_node_index(), 1);
}
