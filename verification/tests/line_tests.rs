use std::rc::Rc;

use transit_sim::consts::DIST_BETWEEN_NODES_MM;
use transit_sim::line::{Line, LineState, RoadSide};

#[test]
fn ping_pong_five_stops() {
    // A line [0,1,2,3,4] starting forward at index 0 yields the index
    // sequence 0,1,2,3,4,3,2,1,0,1,... with the direction flipping exactly
    // at the two termini.
    let line = Rc::new(Line::new(1, vec![0, 1, 2, 3, 4]));
    let mut state = LineState::new(1, false, line);
    assert_eq!(state.curr_node_index, 0);
    assert!(!state.reversed);

    let expected: [usize; 12] = [1, 2, 3, 4, 3, 2, 1, 0, 1, 2, 3, 4];
    let expected_reversed =
        [false, false, false, false, true, true, true, true, false, false, false, false];
    for step in 0..expected.len() {
        state.progress();
        assert_eq!(state.curr_node_index, expected[step]);
        assert_eq!(state.reversed, expected_reversed[step]);
    }
}

#[test]
fn road_side_follows_direction() {
    let line = Rc::new(Line::new(3, vec![0, 1, 2]));
    let mut state = LineState::new(3, false, line.clone());
    assert_eq!(state.current_road_side(), RoadSide::Left);
    state.progress();
    assert_eq!(state.current_road_side(), RoadSide::Left);
    state.progress();
    // Now at the last index, still forward: the flip comes with the next
    // transition.
    assert_eq!(state.current_road_side(), RoadSide::Left);
    state.progress();
    assert!(state.reversed);
    assert_eq!(state.current_road_side(), RoadSide::Right);

    assert_eq!(line.road_side(0, false), RoadSide::Left);
    assert_eq!(line.road_side(0, true), RoadSide::Right);
}

#[test]
fn reversed_start_at_last_index() {
    let line = Rc::new(Line::new(9, vec![4, 5, 6, 7]));
    let state = LineState::new(9, true, line);
    assert_eq!(state.curr_node_index, 3);
    assert!(state.reversed);
    assert_eq!(state.current_road_side(), RoadSide::Right);
    assert_eq!(state.dist_to_next_node, DIST_BETWEEN_NODES_MM);
}

#[test]
fn two_stop_line_bounces() {
    let line = Rc::new(Line::new(2, vec![0, 1]));
    let mut state = LineState::new(2, false, line);
    let expected: [usize; 6] = [1, 0, 1, 0, 1, 0];
    for step in 0..expected.len() {
        state.progress();
        assert_eq!(state.curr_node_index, expected[step]);
    }
}
