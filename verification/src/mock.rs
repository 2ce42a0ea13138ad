//! Hand-built starting states for the simulation.

use vstd::prelude::*;

use std::rc::Rc;

use crate::consts::{DIST_BETWEEN_NODES_MM, JAM_PROBABILITY_PPM};
use crate::graph::{slot_of, Graph};
use crate::line::{Line, LineState, RoadSide};
use crate::node::{Node, NodeVariant, TransportVariant, Vehicle};

verus! {

/// The regular bus node used by the mock network.
pub open spec fn mock_node(occupied_left: bool) -> Node {
    Node {
        transport_variant: TransportVariant::Bus,
        node_variant: NodeVariant::Regular,
        occupied_left,
        occupied_right: false,
        jammed: false,
        jam_probability_ppm: JAM_PROBABILITY_PPM,
        remaining_jam_time: 0,
    }
}

/// A graph with no nodes and no vehicles.
pub fn mock_empty() -> (graph: Graph)
    ensures
        graph.wf(),
        graph.n == 0,
{
    let nodes: Vec<Node> = Vec::new();
    let vehicles: Vec<Option<Vehicle>> = Vec::new();
    Graph::new(nodes, vehicles)
}

/// Five regular bus nodes on one line, with a single vehicle parked at
/// node 0 on the left side, about to head forward along the line.
pub fn mock_one_line() -> (graph: Graph)
    ensures
        graph.wf(),
        graph.n == 5,
        graph.vehicle_at(0, RoadSide::Left) matches Some(v) && v.line.number == 1
            && v.line.curr_node_index == 0 && !v.line.reversed && v.curr_dist_traveled == 0
            && !v.to_move && v.line.dist_to_next_node == DIST_BETWEEN_NODES_MM
            && v.line.line.number == 1 && v.line.line.n_stops == 5 && v.line.line.stops@
            =~= seq![0u32, 1u32, 2u32, 3u32, 4u32],
        forall|k: int| 1 <= k < 10 ==> graph.vehicles@[k] is None,
        forall|i: int|
            0 <= i < 5 ==> (#[trigger] graph.nodes@[i]).transport_variant
                == TransportVariant::Bus && graph.nodes@[i].node_variant is Regular
                && !graph.nodes@[i].jammed && graph.nodes@[i].jam_probability_ppm
                == JAM_PROBABILITY_PPM,
        forall|i: int|
            0 <= i < 5 ==> ((#[trigger] graph.nodes@[i]).occupied_left <==> i == 0)
                && !graph.nodes@[i].occupied_right,
{
    let mut nodes: Vec<Node> = Vec::new();
    nodes.push(
        Node::new(TransportVariant::Bus, NodeVariant::Regular, true, false, JAM_PROBABILITY_PPM),
    );
    let mut i: usize = 1;
    while i < 5
        invariant
            1 <= i <= 5,
            nodes@.len() == i,
            nodes@[0] == mock_node(true),
            forall|j: int| 1 <= j < i ==> #[trigger] nodes@[j] == mock_node(false),
        decreases 5 - i,
    {
        nodes.push(
            Node::new(
                TransportVariant::Bus,
                NodeVariant::Regular,
                false,
                false,
                JAM_PROBABILITY_PPM,
            ),
        );
        i += 1;
    }

    let mut stops: Vec<u32> = Vec::new();
    stops.push(0);
    stops.push(1);
    stops.push(2);
    stops.push(3);
    stops.push(4);
    let line = Line::new(1, stops);
    let line_state = LineState::new(1, false, Rc::new(line));
    let vehicle = Vehicle::new(line_state);

    let mut vehicles: Vec<Option<Vehicle>> = Vec::new();
    vehicles.push(Some(vehicle));
    let mut k: usize = 1;
    while k < 10
        invariant
            1 <= k <= 10,
            vehicles@.len() == k,
            vehicles@[0] == Some(vehicle),
            forall|j: int| 1 <= j < k ==> vehicles@[j] is None,
        decreases 10 - k,
    {
        vehicles.push(None);
        k += 1;
    }

    proof {
        assert forall|i2: int, s: RoadSide| 0 <= i2 < nodes@.len() implies (
            #[trigger] nodes@[i2].occupied_on(s) <==> vehicles@[slot_of(i2, s)] is Some
        ) by {
            assert(slot_of(i2, s) == 2 * i2 + (if s is Left { 0int } else { 1int }));
        }
    }

    Graph::new(nodes, vehicles)
}

} // verus!
