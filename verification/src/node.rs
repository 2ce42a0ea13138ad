//! Network vertices and the vehicles that move between them.
//!
//! A `Node` owns its static classification plus two pieces of per-tick
//! dynamic state: the phase of an embedded traffic light (if any) and a
//! randomised road-hazard ("jam") sub-state.  A `Vehicle` converts elapsed
//! time into discrete line-advancement events.

use vstd::prelude::*;

use crate::consts::{
    JAM_BASE_MS, JAM_MAX_MS, JAM_SPAN_MS, MAX_STEP_MS, PPM_SCALE, VEHICLE_SPEED,
};
use crate::line::{LineState, RoadSide};
use crate::rng::random_below;

use vstd::string::StringExecFns;

verus! {

/// A vehicle bound to a line cursor, with its travel-progress accumulator
/// and its pending-move flag.
#[derive(Clone, Debug)]
pub struct Vehicle {
    pub line: LineState,
    pub curr_dist_traveled: u64,
    pub to_move: bool,
}

impl Vehicle {
    /// The accumulated distance always stays below the distance to the
    /// next node: it is reset on every arrival.
    pub open spec fn wf(self) -> bool {
        &&& self.line.wf()
        &&& self.curr_dist_traveled < self.line.dist_to_next_node
    }

    /// Whether this call's progress reaches the next node.
    pub open spec fn arrives(self, elapsed_time: u64) -> bool {
        self.curr_dist_traveled + VEHICLE_SPEED * elapsed_time >= self.line.dist_to_next_node
    }

    pub fn new(line: LineState) -> (v: Vehicle)
        requires
            line.wf(),
        ensures
            v.wf(),
            v.line == line,
            v.curr_dist_traveled == 0,
            !v.to_move,
    {
        Vehicle { line, curr_dist_traveled: 0, to_move: false }
    }

    /// Accumulates `speed * elapsed_time` of travelled distance; on
    /// reaching the distance to the next node, resets the accumulator,
    /// advances the line cursor and reports the arrival.  Overshoot beyond
    /// the threshold is discarded, not carried over.
    pub fn progress(&mut self, elapsed_time: u64) -> (arrived: bool)
        requires
            old(self).wf(),
            elapsed_time <= MAX_STEP_MS,
        ensures
            final(self).wf(),
            arrived == old(self).arrives(elapsed_time),
            arrived ==> *final(self) == (Vehicle {
                curr_dist_traveled: 0,
                line: old(self).line.stepped(),
                ..*old(self)
            }),
            !arrived ==> *final(self) == (Vehicle {
                curr_dist_traveled: (old(self).curr_dist_traveled + VEHICLE_SPEED
                    * elapsed_time) as u64,
                ..*old(self)
            }),
    {
        self.curr_dist_traveled = self.curr_dist_traveled + VEHICLE_SPEED * elapsed_time;

        if self.curr_dist_traveled >= self.line.dist_to_next_node {
            self.curr_dist_traveled = 0;
            self.line.progress();
            true
        } else {
            false
        }
    }

    pub fn next_node_index(&mut self) -> (i: usize)
        ensures
            *final(self) == *old(self),
            i == old(self).line.curr_node_index,
    {
        self.line.curr_node_index
    }

    pub fn line_number(&self) -> (number: u32)
        ensures
            number == self.line.number,
    {
        self.line.number
    }

    pub fn road_side(&self) -> (side: RoadSide)
        ensures
            side == self.line.road_side,
    {
        self.line.current_road_side()
    }
}

/// The kind of transport served by a node.
#[derive(Clone, Copy, PartialEq, Eq, Structural, Debug)]
pub enum TransportVariant {
    Bus,
    Tram,
}

/// The phase of a traffic light.
#[derive(Clone, Copy, PartialEq, Eq, Structural, Debug)]
pub enum LightsVariant {
    Red,
    Green,
}

/// The opposite phase.
pub open spec fn flipped(variant: LightsVariant) -> LightsVariant {
    match variant {
        LightsVariant::Red => LightsVariant::Green,
        LightsVariant::Green => LightsVariant::Red,
    }
}

/// A two-phase signal with a fixed cycle duration.
#[derive(Clone, Copy, PartialEq, Eq, Structural, Debug)]
pub struct TrafficLights {
    pub variant: LightsVariant,
    pub light_cycle_time: u64,
    pub time_until_change: u64,
}

impl TrafficLights {
    /// The countdown stays within the (positive) cycle duration.
    pub open spec fn wf(self) -> bool {
        1 <= self.time_until_change <= self.light_cycle_time
    }

    /// The light after one tick of `elapsed_time`: the countdown drops by
    /// the elapsed time; when it would reach zero the phase flips and the
    /// countdown resets to the full cycle (any excess is discarded).
    pub open spec fn stepped(self, elapsed_time: u64) -> TrafficLights {
        if self.time_until_change <= elapsed_time {
            TrafficLights {
                variant: flipped(self.variant),
                time_until_change: self.light_cycle_time,
                ..self
            }
        } else {
            TrafficLights {
                time_until_change: (self.time_until_change - elapsed_time) as u64,
                ..self
            }
        }
    }

    pub fn new(variant: LightsVariant, time_until_change: u64) -> (lights: TrafficLights)
        requires
            1 <= time_until_change,
        ensures
            lights.wf(),
            lights.variant == variant,
            lights.light_cycle_time == time_until_change,
            lights.time_until_change == time_until_change,
    {
        TrafficLights { variant, light_cycle_time: time_until_change, time_until_change }
    }

    /// Advances the light by `elapsed_time`; returns true exactly when the
    /// phase flips, i.e. when the countdown is used up by this tick.
    pub fn iter_and_change(&mut self, elapsed_time: u64) -> (changed: bool)
        requires
            old(self).wf(),
        ensures
            final(self).wf(),
            *final(self) == old(self).stepped(elapsed_time),
            changed == (old(self).time_until_change <= elapsed_time),
    {
        if self.time_until_change <= elapsed_time {
            self.variant = match self.variant {
                LightsVariant::Red => LightsVariant::Green,
                LightsVariant::Green => LightsVariant::Red,
            };
            self.time_until_change = self.light_cycle_time;
            true
        } else {
            self.time_until_change = self.time_until_change - elapsed_time;
            false
        }
    }
}

/// The behavioural variant of a node: plain road, stop, or a
/// signal-controlled crossing with its embedded light.
#[derive(Clone, Copy, Debug)]
pub enum NodeVariant {
    Regular,
    TrafficLights(TrafficLights),
    Stop,
}

/// A network vertex: static classification, independent occupancy per road
/// side, and the jam sub-state.
#[derive(Clone, Copy, Debug)]
pub struct Node {
    pub transport_variant: TransportVariant,
    pub node_variant: NodeVariant,
    pub occupied_left: bool,
    pub occupied_right: bool,
    pub jammed: bool,
    pub jam_probability_ppm: u64,
    pub remaining_jam_time: u64,
}

impl Node {
    /// A jammed node has time left on its jam; an unjammed one has none.
    /// An embedded traffic light is itself well-formed.
    pub open spec fn wf(self) -> bool {
        &&& self.jam_probability_ppm <= PPM_SCALE
        &&& self.jammed ==> 1 <= self.remaining_jam_time
        &&& !self.jammed ==> self.remaining_jam_time == 0
        &&& match self.node_variant {
            NodeVariant::TrafficLights(lights) => lights.wf(),
            _ => true,
        }
    }

    /// Whether the given road side is occupied.
    pub open spec fn occupied_on(self, road_side: RoadSide) -> bool {
        match road_side {
            RoadSide::Left => self.occupied_left,
            RoadSide::Right => self.occupied_right,
        }
    }

    /// This node with one occupancy flag set or cleared.
    pub open spec fn with_occupancy(self, road_side: RoadSide, occupied: bool) -> Node {
        match road_side {
            RoadSide::Left => Node { occupied_left: occupied, ..self },
            RoadSide::Right => Node { occupied_right: occupied, ..self },
        }
    }

    /// Whether the node imposes no active traffic restriction: always true
    /// for plain roads and stops, true for a signal only on green.
    pub open spec fn no_traffic_restriction(self) -> bool {
        match self.node_variant {
            NodeVariant::Regular => true,
            NodeVariant::Stop => true,
            NodeVariant::TrafficLights(lights) => lights.variant == LightsVariant::Green,
        }
    }

    /// The admission-control gate: a vehicle may enter iff the node has no
    /// active restriction, is not jammed, and the requested side is free.
    pub open spec fn can_enter(self, road_side: RoadSide) -> bool {
        &&& self.no_traffic_restriction()
        &&& !self.jammed
        &&& !self.occupied_on(road_side)
    }

    /// This node after `elapsed_time` of jam decay: the remaining jam time
    /// drops by the elapsed time and the jam clears when it is used up.
    pub open spec fn jam_decayed(self, elapsed_time: u64) -> Node {
        if self.remaining_jam_time <= elapsed_time {
            Node { jammed: false, remaining_jam_time: 0, ..self }
        } else {
            Node {
                remaining_jam_time: (self.remaining_jam_time - elapsed_time) as u64,
                ..self
            }
        }
    }

    pub fn new(
        transport_variant: TransportVariant,
        node_variant: NodeVariant,
        occupied_left: bool,
        occupied_right: bool,
        jam_probability_ppm: u64,
    ) -> (node: Node)
        requires
            jam_probability_ppm <= PPM_SCALE,
            (node_variant matches NodeVariant::TrafficLights(lights) ==> lights.wf()),
        ensures
            node.wf(),
            node == (Node {
                transport_variant,
                node_variant,
                occupied_left,
                occupied_right,
                jammed: false,
                jam_probability_ppm,
                remaining_jam_time: 0,
            }),
    {
        Node {
            transport_variant,
            node_variant,
            occupied_left,
            occupied_right,
            jammed: false,
            jam_probability_ppm,
            remaining_jam_time: 0,
        }
    }

    /// Advances the jam sub-state for given random draws.  While jammed the
    /// draws are ignored and the jam decays deterministically.  Otherwise a
    /// Bernoulli trial (`jam_trial < jam_probability_ppm`) starts a jam of
    /// `jam_duration + JAM_BASE_MS`, except that a duration draw below
    /// `JAM_BASE_MS` is rejected as "no jam after all" — an intentional
    /// asymmetry that lowers the effective jam rate.
    pub fn update_state_with(&mut self, elapsed_time: u64, jam_trial: u64, jam_duration: u64)
        requires
            old(self).wf(),
            jam_trial < PPM_SCALE,
            jam_duration < JAM_SPAN_MS,
        ensures
            final(self).wf(),
            old(self).jammed ==> *final(self) == old(self).jam_decayed(elapsed_time),
            !old(self).jammed ==> *final(self) == if jam_trial < old(self).jam_probability_ppm
                && jam_duration >= JAM_BASE_MS {
                Node {
                    jammed: true,
                    remaining_jam_time: (jam_duration + JAM_BASE_MS) as u64,
                    ..*old(self)
                }
            } else {
                *old(self)
            },
    {
        if self.jammed {
            if self.remaining_jam_time <= elapsed_time {
                self.jammed = false;
                self.remaining_jam_time = 0;
            } else {
                self.remaining_jam_time = self.remaining_jam_time - elapsed_time;
            }
            return;
        }

        if jam_trial >= self.jam_probability_ppm {
            return;
        }

        if jam_duration < JAM_BASE_MS {
            return;
        }

        self.jammed = true;
        self.remaining_jam_time = jam_duration + JAM_BASE_MS;
    }

    /// Advances the jam sub-state with fresh random draws.  Whatever the
    /// draws, a jammed node decays deterministically, and an unjammed node
    /// either stays as it is or — only if its jam probability is positive —
    /// becomes jammed for a duration in `[2 * JAM_BASE_MS, JAM_MAX_MS)`.
    pub fn update_state(&mut self, elapsed_time: u64)
        requires
            old(self).wf(),
        ensures
            final(self).wf(),
            jam_step_ok(*old(self), *final(self), elapsed_time),
    {
        if self.jammed {
            self.update_state_with(elapsed_time, 0, 0);
            return;
        }

        let jam_trial = random_below(PPM_SCALE);
        let jam_duration = random_below(JAM_SPAN_MS);
        self.update_state_with(elapsed_time, jam_trial, jam_duration);
    }

    /// Classifies a node record from the data-loading collaborator: a
    /// `"bus"` variant label makes a bus node (anything else a tram one),
    /// and an empty display label makes a regular node (anything else a
    /// stop).  The node starts unoccupied and unjammed.
    pub fn classify(variant: &String, label: &String, jam_probability_ppm: u64) -> (node: Node)
        requires
            jam_probability_ppm <= PPM_SCALE,
        ensures
            node == (Node {
                transport_variant: if variant@ == "bus"@ {
                    TransportVariant::Bus
                } else {
                    TransportVariant::Tram
                },
                node_variant: if label@.len() == 0 {
                    NodeVariant::Regular
                } else {
                    NodeVariant::Stop
                },
                occupied_left: false,
                occupied_right: false,
                jammed: false,
                jam_probability_ppm,
                remaining_jam_time: 0,
            }),
            node.wf(),
    {
        let bus = String::from_str("bus");
        let transport_variant = if *variant == bus {
            TransportVariant::Bus
        } else {
            TransportVariant::Tram
        };

        let node_variant = if label.as_str().is_empty() {
            NodeVariant::Regular
        } else {
            NodeVariant::Stop
        };

        Node::new(transport_variant, node_variant, false, false, jam_probability_ppm)
    }

    /// Sets or clears the occupancy flag of one road side.
    pub fn set_occupied(&mut self, road_side: RoadSide, occupied: bool)
        ensures
            *final(self) == old(self).with_occupancy(road_side, occupied),
    {
        match road_side {
            RoadSide::Left => self.occupied_left = occupied,
            RoadSide::Right => self.occupied_right = occupied,
        }
    }

    /// Pure admission-control predicate, the sole gate for vehicle moves.
    pub fn can_move_into(&self, road_side: RoadSide) -> (allowed: bool)
        ensures
            allowed == self.can_enter(road_side),
    {
        let no_traffic_restriction = match self.node_variant {
            NodeVariant::Regular => true,
            NodeVariant::Stop => true,
            NodeVariant::TrafficLights(traffic_lights) => {
                traffic_lights.variant == LightsVariant::Green
            },
        };

        let occupied = match road_side {
            RoadSide::Left => self.occupied_left,
            RoadSide::Right => self.occupied_right,
        };

        no_traffic_restriction && !self.jammed && !occupied
    }
}

/// The total elapsed time of a run of simulation steps.
pub open spec fn total_elapsed(steps: Seq<u64>) -> int
    decreases steps.len(),
{
    if steps.len() == 0 {
        0
    } else {
        steps[0] + total_elapsed(steps.drop_first())
    }
}

/// A light after a whole run of steps.
pub open spec fn lights_run(lights: TrafficLights, steps: Seq<u64>) -> TrafficLights
    decreases steps.len(),
{
    if steps.len() == 0 {
        lights
    } else {
        lights_run(lights.stepped(steps[0]), steps.drop_first())
    }
}

/// A light never flips early: over any run whose cumulative elapsed time
/// stays below the countdown, the phase is unchanged and the countdown has
/// dropped by exactly that total.
pub proof fn lemma_lights_no_early_flip(lights: TrafficLights, steps: Seq<u64>)
    requires
        lights.wf(),
        total_elapsed(steps) < lights.time_until_change,
    ensures
        lights_run(lights, steps).wf(),
        lights_run(lights, steps).variant == lights.variant,
        lights_run(lights, steps).light_cycle_time == lights.light_cycle_time,
        lights_run(lights, steps).time_until_change == lights.time_until_change - total_elapsed(
            steps,
        ),
    decreases steps.len(),
{
    if steps.len() > 0 {
        lemma_lights_no_early_flip(lights.stepped(steps[0]), steps.drop_first());
    }
}

/// A light flips exactly on the step with which the cumulative elapsed
/// time reaches the countdown, and its countdown then resets to the full
/// cycle.
pub proof fn lemma_lights_flip_at_threshold(
    lights: TrafficLights,
    steps: Seq<u64>,
    elapsed_time: u64,
)
    requires
        lights.wf(),
        total_elapsed(steps) < lights.time_until_change,
        total_elapsed(steps) + elapsed_time >= lights.time_until_change,
    ensures
        lights_run(lights, steps).stepped(elapsed_time).variant == flipped(lights.variant),
        lights_run(lights, steps).stepped(elapsed_time).time_until_change
            == lights.light_cycle_time,
{
    lemma_lights_no_early_flip(lights, steps);
}

/// What one `update_state` call may do to the jam sub-state, for any
/// outcome of the random draws.  Everything but `jammed` and
/// `remaining_jam_time` is unchanged.
pub open spec fn jam_step_ok(pre: Node, post: Node, elapsed_time: u64) -> bool {
    if pre.jammed {
        post == pre.jam_decayed(elapsed_time)
    } else {
        ||| post == pre
        ||| {
            &&& pre.jam_probability_ppm >= 1
            &&& 2 * JAM_BASE_MS <= post.remaining_jam_time < JAM_MAX_MS
            &&& post == (Node {
                jammed: true,
                remaining_jam_time: post.remaining_jam_time,
                ..pre
            })
        }
    }
}

} // verus!
