//! Lines and per-vehicle traversal cursors.
//!
//! A `Line` is an immutable round-trip route: an ordered sequence of node
//! indices that vehicles traverse forward and then reversed ("ping-pong").
//! A `LineState` is one vehicle's live cursor into a shared `Line`.

use vstd::prelude::*;

use std::rc::Rc;

use crate::consts::{DIST_BETWEEN_NODES_MM, MAX_EDGE_MM};

verus! {

/// One of the two independent lanes at a node; forward travel uses one
/// side, reversed travel the other.
#[derive(Clone, Copy, PartialEq, Eq, Structural, Debug)]
pub enum RoadSide {
    Left,
    Right,
}

/// The road side used by a vehicle travelling in the given direction.
pub open spec fn side_for(reversed: bool) -> RoadSide {
    if reversed {
        RoadSide::Right
    } else {
        RoadSide::Left
    }
}

/// The cursor position and direction after one ping-pong transition on a
/// line of `n` stops: flip to forward at index 0 while reversed, flip to
/// reversed at the last index while forward, otherwise step by one in the
/// current direction.
pub open spec fn pingpong_next(i: int, reversed: bool, n: int) -> (int, bool) {
    if reversed {
        if i == 0 {
            (1int, false)
        } else {
            (i - 1, true)
        }
    } else {
        if i == n - 1 {
            (i - 1, true)
        } else {
            (i + 1, false)
        }
    }
}

/// An immutable route shared by all vehicles assigned to it.
#[derive(Clone, Debug)]
pub struct Line {
    pub number: u32,
    pub n_stops: usize,
    pub stops: Vec<u32>,
}

impl Line {
    /// A line records its own length and has at least two stops.
    pub open spec fn wf(self) -> bool {
        &&& self.n_stops == self.stops@.len()
        &&& 2 <= self.n_stops
    }

    pub fn new(number: u32, stops: Vec<u32>) -> (line: Line)
        requires
            2 <= stops@.len(),
        ensures
            line.wf(),
            line.number == number,
            line.stops@ == stops@,
            line.n_stops == stops@.len(),
    {
        let n_stops = stops.len();
        Line { number, n_stops, stops }
    }

    /// Distance from a starting terminus to its neighbouring stop.
    fn start_distance(&self, _reversed: bool) -> (d: u64)
        ensures
            d == DIST_BETWEEN_NODES_MM,
    {
        DIST_BETWEEN_NODES_MM
    }

    /// Distance between two consecutive stops; a constant for now, but the
    /// calling protocol allows a per-edge distance later.
    fn dist_between_nodes(&self, _from_node: usize, _to_node: usize) -> (d: u64)
        ensures
            d == DIST_BETWEEN_NODES_MM,
    {
        DIST_BETWEEN_NODES_MM
    }

    /// The road side assigned to travel in the given direction.
    pub fn road_side(&self, _curr_node_index: usize, reversed: bool) -> (side: RoadSide)
        ensures
            side == side_for(reversed),
    {
        if reversed {
            RoadSide::Right
        } else {
            RoadSide::Left
        }
    }

    /// One ping-pong transition of a cursor over this line.
    fn progress(&self, curr_node_index: usize, reversed: bool) -> (update: LineUpdate)
        requires
            self.wf(),
            curr_node_index < self.n_stops,
        ensures
            ({
                let (ni, nrev) = pingpong_next(
                    curr_node_index as int,
                    reversed,
                    self.n_stops as int,
                );
                &&& update.curr_node_index == ni
                &&& update.reversed == nrev
                &&& update.road_side == side_for(nrev)
                &&& update.dist_to_next_node == DIST_BETWEEN_NODES_MM
            }),
    {
        let (from_index, to_index, reversed) = match (curr_node_index, reversed) {
            (0, true) => (0, 1, false),
            (_, true) => (curr_node_index, curr_node_index - 1, true),
            (val, false) if val == self.n_stops - 1 => (val, val - 1, true),
            (_, false) => (curr_node_index, curr_node_index + 1, false),
        };
        let dist = self.dist_between_nodes(from_index, to_index);
        let road_side = self.road_side(to_index, reversed);

        LineUpdate::new(to_index, reversed, road_side, dist)
    }
}

/// The result of one cursor transition, handed back to the `LineState`.
pub struct LineUpdate {
    pub curr_node_index: usize,
    pub reversed: bool,
    pub road_side: RoadSide,
    pub dist_to_next_node: u64,
}

impl LineUpdate {
    fn new(curr_node_index: usize, reversed: bool, road_side: RoadSide, dist_to_next_node: u64)
        -> (update: LineUpdate)
        ensures
            update.curr_node_index == curr_node_index,
            update.reversed == reversed,
            update.road_side == road_side,
            update.dist_to_next_node == dist_to_next_node,
    {
        LineUpdate { curr_node_index, reversed, road_side, dist_to_next_node }
    }
}

/// A vehicle's live cursor into a `Line`: current index, direction,
/// distance left to the next node, and the road side in use.
#[derive(Clone, Debug)]
pub struct LineState {
    pub number: u32,
    pub curr_node_index: usize,
    pub dist_to_next_node: u64,
    pub reversed: bool,
    pub road_side: RoadSide,
    pub line: Rc<Line>,
}

impl LineState {
    /// The cursor always points into its line, the road side is determined
    /// by the direction, and the distance to the next node is positive and
    /// bounded.
    pub open spec fn wf(self) -> bool {
        &&& self.line.wf()
        &&& self.curr_node_index < self.line.n_stops
        &&& self.road_side == side_for(self.reversed)
        &&& 1 <= self.dist_to_next_node <= MAX_EDGE_MM
    }

    /// The number of stops of the underlying line.
    pub open spec fn line_len(self) -> int {
        self.line.n_stops as int
    }

    /// The cursor after one ping-pong transition.
    pub open spec fn stepped(self) -> LineState {
        let (ni, nrev) = pingpong_next(
            self.curr_node_index as int,
            self.reversed,
            self.line.n_stops as int,
        );
        LineState {
            curr_node_index: ni as usize,
            reversed: nrev,
            road_side: side_for(nrev),
            dist_to_next_node: DIST_BETWEEN_NODES_MM,
            ..self
        }
    }

    pub fn new(number: u32, reversed: bool, line: Rc<Line>) -> (s: LineState)
        requires
            line.wf(),
        ensures
            s.wf(),
            s.number == number,
            s.reversed == reversed,
            s.line == line,
            s.curr_node_index == if reversed { line.n_stops - 1 } else { 0int },
            s.dist_to_next_node == DIST_BETWEEN_NODES_MM,
            s.road_side == side_for(reversed),
    {
        let curr_node_index = if reversed { line.n_stops - 1 } else { 0 };
        let dist_to_next_node = line.start_distance(reversed);

        let road_side = if reversed {
            RoadSide::Right
        } else {
            RoadSide::Left
        };

        LineState { number, curr_node_index, dist_to_next_node, reversed, road_side, line }
    }

    pub fn current_road_side(&self) -> (side: RoadSide)
        ensures
            side == self.road_side,
    {
        self.road_side
    }

    /// Applies one ping-pong transition to this cursor.
    pub fn progress(&mut self)
        requires
            old(self).wf(),
        ensures
            final(self).wf(),
            *final(self) == old(self).stepped(),
    {
        let line_update = self.line.progress(self.curr_node_index, self.reversed);

        self.curr_node_index = line_update.curr_node_index;
        self.reversed = line_update.reversed;
        self.road_side = line_update.road_side;
        self.dist_to_next_node = line_update.dist_to_next_node;
    }
}

/// The direction flips exactly at the two termini of a line: a reversed
/// cursor flips at index 0, a forward cursor flips at the last index, and
/// nowhere else.
pub proof fn lemma_ping_pong_flips_only_at_ends(i: int, reversed: bool, n: int)
    requires
        2 <= n,
        0 <= i < n,
    ensures
        (pingpong_next(i, reversed, n).1 != reversed) <==> ((reversed && i == 0) || (!reversed
            && i == n - 1)),
{
}

} // verus!
