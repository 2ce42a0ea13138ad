use std::rc::Rc;

use transit_sim::consts::DIST_BETWEEN_NODES_MM;
use transit_sim::line::{Line, LineState, RoadSide};
use transit_sim::map::MapColor;
use transit_sim::mock::{mock_empty, mock_one_line};
use transit_sim::node::{
    LightsVariant, Node, NodeVariant, TrafficLights, TransportVariant, Vehicle,
};
use transit_sim::graph::Graph;
use transit_sim::time::Time;

/// A five-node line of regular bus nodes with no jam risk and one vehicle
/// parked at node 0, left side, heading forward.
fn deterministic_line(node_variants: [NodeVariant; 5]) -> Graph {
    let mut nodes = Vec::new();
    for (i, node_variant) in node_variants.into_iter().enumerate() {
        nodes.push(Node::new(TransportVariant::Bus, node_variant, i == 0, false, 0));
    }
    let line = Rc::new(Line::new(1, vec![0, 1, 2, 3, 4]));
    let vehicle = Vehicle::new(LineState::new(1, false, line));
    let mut vehicles = vec![Some(vehicle)];
    for _ in 1..10 {
        vehicles.push(None);
    }
    Graph::new(nodes, vehicles)
}

fn count_vehicles(graph: &Graph) -> usize {
    graph.vehicles.iter().filter(|slot| slot.is_some()).count()
}

#[test]
fn end_to_end_one_arrival_per_fifty_ticks() {
    // speed = 10, distance = 500 per edge, jam probability 0: with fifty
    // ticks of 1.0 s the vehicle makes exactly one arrival, landing at
    // node 1 on the left side, node 0's left side cleared.
    let mut graph = deterministic_line([NodeVariant::Regular; 5]);
    let sim_time = Time::new(4, 30, 0);

    for _ in 0..49 {
        graph.simulation_iter(1_000, &sim_time);
        assert!(graph.vehicles[0].is_some());
        assert!(graph.nodes[0].occupied_left);
        assert!(!graph.nodes[1].occupied_left);
        assert_eq!(count_vehicles(&graph), 1);
    }

    graph.simulation_iter(1_000, &sim_time);
    assert!(graph.vehicles[0].is_none());
    assert!(!graph.nodes[0].occupied_left);
    assert!(graph.nodes[1].occupied_left);
    let moved = graph.vehicles[2].as_ref().expect("vehicle on node 1, left side");
    assert_eq!(moved.line_number(), 1);
    assert_eq!(moved.road_side(), RoadSide::Left);
    assert!(!moved.to_move);
    assert_eq!(count_vehicles(&graph), 1);
}

#[test]
fn red_light_blocks_movement() {
    // The destination is gated by a red light whose cycle is far longer
    // than the test, so the vehicle is never admitted: its pending flag
    // stays clear and the destination occupancy is unchanged.
    let red = NodeVariant::TrafficLights(TrafficLights::new(LightsVariant::Red, 1_000_000));
    let mut graph = deterministic_line([
        NodeVariant::Regular,
        red,
        NodeVariant::Regular,
        NodeVariant::Regular,
        NodeVariant::Regular,
    ]);
    let sim_time = Time::new(4, 30, 0);

    for _ in 0..50 {
        graph.simulation_iter(1_000, &sim_time);
    }
    let parked = graph.vehicles[0].as_ref().expect("vehicle still at node 0");
    assert!(!parked.to_move);
    // The cursor advanced at the arrival event even though the move was
    // denied.
    assert_eq!(parked.line.curr_node_index, 1);
    assert!(graph.nodes[0].occupied_left);
    assert!(!graph.nodes[1].occupied_left);
}

#[test]
fn green_light_admits() {
    let green = NodeVariant::TrafficLights(TrafficLights::new(LightsVariant::Green, 1_000_000));
    let mut graph = deterministic_line([
        NodeVariant::Regular,
        green,
        NodeVariant::Regular,
        NodeVariant::Regular,
        NodeVariant::Regular,
    ]);
    let sim_time = Time::new(4, 30, 0);

    for _ in 0..50 {
        graph.simulation_iter(1_000, &sim_time);
    }
    assert!(graph.vehicles[0].is_none());
    assert!(graph.vehicles[2].is_some());
    assert!(graph.nodes[1].occupied_left);
}

#[test]
fn jammed_destination_blocks_movement() {
    let mut graph = deterministic_line([NodeVariant::Regular; 5]);
    let sim_time = Time::new(4, 30, 0);

    for _ in 0..49 {
        graph.simulation_iter(1_000, &sim_time);
    }
    // Jam the destination just before the arrival tick; the node phase
    // decays it by one tick but it is still jammed when the decision is
    // made.
    graph.nodes[1].jammed = true;
    graph.nodes[1].remaining_jam_time = 20_000;

    graph.simulation_iter(1_000, &sim_time);
    let parked = graph.vehicles[0].as_ref().expect("vehicle still at node 0");
    assert!(!parked.to_move);
    assert!(graph.nodes[0].occupied_left);
    assert!(!graph.nodes[1].occupied_left);
    assert!(graph.nodes[1].jammed);
    assert_eq!(graph.nodes[1].remaining_jam_time, 19_000);
}

#[test]
fn occupied_destination_blocks_movement() {
    // A second vehicle parks on (1, Left): its own next arrival targets
    // its own slot, so it never moves, and the first vehicle is denied
    // admission to the occupied side.
    let mut nodes = Vec::new();
    for i in 0..5 {
        nodes.push(Node::new(TransportVariant::Bus, NodeVariant::Regular, i <= 1, false, 0));
    }
    let line = Rc::new(Line::new(1, vec![0, 1, 2, 3, 4]));
    let first = Vehicle::new(LineState::new(1, false, line));
    let blocker_line = Rc::new(Line::new(2, vec![0, 1]));
    let blocker = Vehicle::new(LineState::new(2, false, blocker_line));
    let mut vehicles = vec![Some(first), None, Some(blocker), None];
    for _ in 4..10 {
        vehicles.push(None);
    }
    let mut graph = Graph::new(nodes, vehicles);
    let sim_time = Time::new(4, 30, 0);

    for _ in 0..50 {
        graph.simulation_iter(1_000, &sim_time);
    }
    let parked = graph.vehicles[0].as_ref().expect("first vehicle still at node 0");
    assert!(!parked.to_move);
    let blocker = graph.vehicles[2].as_ref().expect("blocker still at node 1");
    assert!(!blocker.to_move);
    assert!(graph.nodes[0].occupied_left);
    assert!(graph.nodes[1].occupied_left);
    assert_eq!(count_vehicles(&graph), 2);
}

#[test]
fn shared_destination_admits_only_one() {
    // Two vehicles race into (1, Left) in the same tick: one forward from
    // (0, Left), one bouncing off the terminus from (0, Right).  Only the
    // first in slot order is admitted; the other is denied like any
    // blocked vehicle, and no vehicle is lost.
    let mut nodes = Vec::new();
    nodes.push(Node::new(TransportVariant::Bus, NodeVariant::Regular, true, true, 0));
    nodes.push(Node::new(TransportVariant::Bus, NodeVariant::Regular, false, false, 0));
    let first = Vehicle::new(LineState::new(1, false, Rc::new(Line::new(1, vec![0, 1]))));
    // A reversed cursor at index 0: its next transition flips it forward
    // toward index 1 on the left side.
    let second = Vehicle::new(LineState {
        number: 2,
        curr_node_index: 0,
        dist_to_next_node: DIST_BETWEEN_NODES_MM,
        reversed: true,
        road_side: RoadSide::Right,
        line: Rc::new(Line::new(2, vec![0, 1])),
    });
    let vehicles = vec![Some(first), Some(second), None, None];
    let mut graph = Graph::new(nodes, vehicles);
    let sim_time = Time::new(4, 30, 0);

    graph.simulation_iter(50_000, &sim_time);

    assert_eq!(count_vehicles(&graph), 2);
    assert!(graph.vehicles[0].is_none());
    let moved = graph.vehicles[2].as_ref().expect("winner at node 1, left side");
    assert_eq!(moved.line_number(), 1);
    assert!(!moved.to_move);
    let parked = graph.vehicles[1].as_ref().expect("loser still at node 0, right side");
    assert_eq!(parked.line_number(), 2);
    assert!(!parked.to_move);
    assert_eq!(parked.line.curr_node_index, 1);
    assert!(!parked.line.reversed);
    assert!(!graph.nodes[0].occupied_left);
    assert!(graph.nodes[0].occupied_right);
    assert!(graph.nodes[1].occupied_left);
    assert!(!graph.nodes[1].occupied_right);
}

#[test]
fn mock_empty_graph_ticks() {
    let mut graph = mock_empty();
    let sim_time = Time::new(0, 0, 0);
    graph.simulation_iter(1_000, &sim_time);
    let visuals = graph.generate_visuals();
    assert!(visuals.nodes.is_empty());
}

#[test]
fn mock_one_line_layout() {
    let graph = mock_one_line();
    assert_eq!(graph.n, 5);
    assert_eq!(graph.nodes.len(), 5);
    assert_eq!(count_vehicles(&graph), 1);
    assert!(graph.nodes[0].occupied_left);
    let vehicle = graph.vehicles[0].as_ref().expect("vehicle at node 0");
    assert_eq!(vehicle.line_number(), 1);
}

#[test]
fn visuals_reflect_state() {
    let graph = deterministic_line([NodeVariant::Regular; 5]);
    let visuals = graph.generate_visuals();
    assert_eq!(visuals.nodes.len(), 5);
    assert_eq!(visuals.nodes[0].vehicle_line_left, 1);
    assert_eq!(visuals.nodes[0].vehicle_line_right, 0);
    assert_eq!(visuals.nodes[1].vehicle_line_left, 0);
    for map_node in &visuals.nodes {
        assert_eq!(map_node.color, MapColor::Blue);
    }
}

#[test]
fn visuals_show_jam() {
    let mut graph = deterministic_line([NodeVariant::Regular; 5]);
    graph.nodes[3].jammed = true;
    graph.nodes[3].remaining_jam_time = 5_000;
    let visuals = graph.generate_visuals();
    assert_eq!(visuals.nodes[3].color, MapColor::Orange);
    assert_eq!(visuals.nodes[2].color, MapColor::Blue);
}
