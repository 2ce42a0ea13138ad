//! The network graph and the per-tick update algorithm.
//!
//! The graph owns all nodes and the vehicle population, keyed by
//! `(node index, road side)`.  A vehicle slot `2 * i + side` holds the
//! vehicle at node `i` on the given side, so each key has at most one
//! vehicle by construction; the invariant tying the nodes' occupancy flags
//! to the occupied slots is `Graph::wf` and is preserved by every tick.
//!
//! One tick is a strict two-phase protocol: all nodes advance their
//! light/jam sub-state first, then every vehicle decision is evaluated
//! against that frozen occupancy snapshot, and only then are all approved
//! moves committed.  The decisions admit at most one vehicle per
//! destination key, so two vehicles can never race into one slot on the
//! strength of the same stale snapshot and the commit never destroys a
//! vehicle.

use vstd::prelude::*;

use crate::consts::{MAX_STEP_MS, VEHICLE_SPEED};
use crate::line::RoadSide;
use crate::map::{color_for, MapNode, Visuals};
use crate::node::{jam_step_ok, total_elapsed, Node, NodeVariant, Vehicle};
use crate::time::Time;

verus! {

/// The slot offset of a road side.
pub open spec fn side_index(road_side: RoadSide) -> int {
    match road_side {
        RoadSide::Left => 0,
        RoadSide::Right => 1,
    }
}

/// The vehicle slot of a `(node index, road side)` key.
pub open spec fn slot_of(node_index: int, road_side: RoadSide) -> int {
    2 * node_index + side_index(road_side)
}

/// The node index encoded in a slot.
pub open spec fn node_of_slot(k: int) -> int {
    k / 2
}

/// The road side encoded in a slot.
pub open spec fn side_of_slot(k: int) -> RoadSide {
    if k % 2 == 0 {
        RoadSide::Left
    } else {
        RoadSide::Right
    }
}

pub proof fn lemma_slot_roundtrip(k: int)
    requires
        0 <= k,
    ensures
        slot_of(node_of_slot(k), side_of_slot(k)) == k,
{
    assert(2 * (k / 2) + k % 2 == k) by (nonlinear_arith)
        requires k >= 0;
}

pub proof fn lemma_slot_of_inverse(node_index: int, road_side: RoadSide)
    requires
        0 <= node_index,
    ensures
        node_of_slot(slot_of(node_index, road_side)) == node_index,
        side_of_slot(slot_of(node_index, road_side)) == road_side,
{
    assert((2 * node_index) / 2 == node_index && (2 * node_index) % 2 == 0 && (2 * node_index
        + 1) / 2 == node_index && (2 * node_index + 1) % 2 == 1) by (nonlinear_arith)
        requires node_index >= 0;
}

/// A well-formed vehicle whose line fits the network, whatever its
/// pending-move flag.
pub open spec fn slot_vehicle_ok(slot: Option<Vehicle>, n_nodes: int) -> bool {
    match slot {
        Some(v) => v.wf() && v.line.line_len() <= n_nodes,
        None => true,
    }
}

/// A well-formed vehicle slot between ticks: no move is pending.
pub open spec fn slot_ok(slot: Option<Vehicle>, n_nodes: int) -> bool {
    &&& slot_vehicle_ok(slot, n_nodes)
    &&& (slot matches Some(v) ==> !v.to_move)
}

/// The occupancy flags of the nodes mirror the occupied vehicle slots.
pub open spec fn flags_match(vehicles: Seq<Option<Vehicle>>, nodes: Seq<Node>) -> bool {
    &&& vehicles.len() == 2 * nodes.len()
    &&& forall|i: int, s: RoadSide|
        0 <= i < nodes.len() ==> (#[trigger] nodes[i].occupied_on(s) <==> vehicles[slot_of(
            i,
            s,
        )] is Some)
}

/// A node after its traffic light (if any) has advanced by `elapsed_time`.
pub open spec fn lights_stepped(node: Node, elapsed_time: u64) -> Node {
    match node.node_variant {
        NodeVariant::TrafficLights(lights) => Node {
            node_variant: NodeVariant::TrafficLights(lights.stepped(elapsed_time)),
            ..node
        },
        _ => node,
    }
}

/// What the node phase of one tick may do to a single node: the light
/// cycles deterministically, then the jam sub-state advances for some
/// outcome of the random draws.
pub open spec fn node_step_ok(pre: Node, post: Node, elapsed_time: u64) -> bool {
    jam_step_ok(lights_stepped(pre, elapsed_time), post, elapsed_time)
}

/// The node phase applied to the whole node list.
pub open spec fn nodes_phase_ok(pre: Seq<Node>, post: Seq<Node>, elapsed_time: u64) -> bool {
    &&& post.len() == pre.len()
    &&& forall|i: int| 0 <= i < pre.len() ==> node_step_ok(#[trigger] pre[i], post[i], elapsed_time)
}

/// The node phase never touches occupancy flags.
pub proof fn lemma_node_step_preserves_occupancy(pre: Node, post: Node, elapsed_time: u64)
    requires
        node_step_ok(pre, post, elapsed_time),
    ensures
        post.occupied_left == pre.occupied_left,
        post.occupied_right == pre.occupied_right,
{
}

/// The node phase keeps every node well-formed.
pub proof fn lemma_node_step_wf(pre: Node, post: Node, elapsed_time: u64)
    requires
        pre.wf(),
        node_step_ok(pre, post, elapsed_time),
    ensures
        post.wf(),
{
}

/// The slot a vehicle's cursor points at: where it moves next.
pub open spec fn dest_slot_of(v: Vehicle) -> int {
    slot_of(v.line.curr_node_index as int, v.line.road_side)
}

/// Whether a slot holds a vehicle with an approved move pending.
pub open spec fn is_approved(slot: Option<Vehicle>) -> bool {
    slot matches Some(v) && v.to_move
}

/// One vehicle's decision, evaluated against the frozen node snapshot: it
/// progresses by `speed * elapsed_time`, and on arrival its pending-move
/// flag is set exactly when the admission control of its destination
/// holds and no earlier decision of this tick has already claimed that
/// key.  The claim keeps two vehicles from racing into one slot on the
/// strength of the same stale snapshot: the later arrival is refused like
/// any other blocked vehicle.
pub open spec fn decided_vehicle(
    v: Vehicle,
    nodes: Seq<Node>,
    claimed: Seq<bool>,
    elapsed_time: u64,
) -> Vehicle {
    if v.arrives(elapsed_time) {
        let moved = Vehicle { curr_dist_traveled: 0, line: v.line.stepped(), ..v };
        if nodes[moved.line.curr_node_index as int].can_enter(moved.line.road_side)
            && !claimed[dest_slot_of(moved)] {
            Vehicle { to_move: true, ..moved }
        } else {
            moved
        }
    } else {
        Vehicle {
            curr_dist_traveled: (v.curr_dist_traveled + VEHICLE_SPEED * elapsed_time) as u64,
            ..v
        }
    }
}

/// The decision phase over the first `k` slots, in slot order: the
/// decided slots so far, and which destination keys they have claimed.
pub open spec fn decide_upto(
    vehicles: Seq<Option<Vehicle>>,
    nodes: Seq<Node>,
    elapsed_time: u64,
    k: int,
) -> (Seq<Option<Vehicle>>, Seq<bool>)
    decreases k,
{
    if k <= 0 {
        (vehicles, Seq::new(vehicles.len(), |i: int| false))
    } else {
        let prev = decide_upto(vehicles, nodes, elapsed_time, k - 1);
        match vehicles[k - 1] {
            Some(v) => {
                let dv = decided_vehicle(v, nodes, prev.1, elapsed_time);
                let claimed = if dv.to_move {
                    prev.1.update(dest_slot_of(dv), true)
                } else {
                    prev.1
                };
                (prev.0.update(k - 1, Some(dv)), claimed)
            },
            None => prev,
        }
    }
}

/// The whole decision phase; no slot changes key.
pub open spec fn decide_all(
    vehicles: Seq<Option<Vehicle>>,
    nodes: Seq<Node>,
    elapsed_time: u64,
) -> Seq<Option<Vehicle>> {
    decide_upto(vehicles, nodes, elapsed_time, vehicles.len() as int).0
}

/// The commit of the single slot `k`: an approved vehicle leaves its
/// source key, the source flag is cleared, the destination flag is set,
/// and the vehicle is re-keyed to its destination with the pending flag
/// cleared.  Any other slot is left alone.
pub open spec fn commit_one(vehicles: Seq<Option<Vehicle>>, nodes: Seq<Node>, k: int) -> (
    Seq<Option<Vehicle>>,
    Seq<Node>,
) {
    match vehicles[k] {
        Some(v) => if v.to_move {
            let src_node = node_of_slot(k);
            let src_side = side_of_slot(k);
            let dest_node = v.line.curr_node_index as int;
            let dest_side = v.line.road_side;
            let moved = Vehicle { to_move: false, ..v };
            let vehicles2 = vehicles.update(k, None).update(
                slot_of(dest_node, dest_side),
                Some(moved),
            );
            let nodes1 = nodes.update(
                src_node,
                nodes[src_node].with_occupancy(src_side, false),
            );
            let nodes2 = nodes1.update(
                dest_node,
                nodes1[dest_node].with_occupancy(dest_side, true),
            );
            (vehicles2, nodes2)
        } else {
            (vehicles, nodes)
        },
        None => (vehicles, nodes),
    }
}

/// The commit phase over the first `k` slots, in slot order.
pub open spec fn commit_upto(vehicles: Seq<Option<Vehicle>>, nodes: Seq<Node>, k: int) -> (
    Seq<Option<Vehicle>>,
    Seq<Node>,
)
    decreases k,
{
    if k <= 0 {
        (vehicles, nodes)
    } else {
        let prev = commit_upto(vehicles, nodes, k - 1);
        commit_one(prev.0, prev.1, k - 1)
    }
}

/// The whole commit phase.
pub open spec fn commit_all(vehicles: Seq<Option<Vehicle>>, nodes: Seq<Node>) -> (
    Seq<Option<Vehicle>>,
    Seq<Node>,
) {
    commit_upto(vehicles, nodes, vehicles.len() as int)
}

/// What holds of the decision phase's output: slots keep their keys and
/// their well-formed vehicles, the flags still mirror the slots, every
/// approved vehicle's destination met the admission control against the
/// frozen snapshot, and no two approved vehicles share a destination key.
pub open spec fn decision_ok(decided: Seq<Option<Vehicle>>, mid: Seq<Node>) -> bool {
    &&& flags_match(decided, mid)
    &&& forall|k: int|
        0 <= k < decided.len() ==> match #[trigger] decided[k] {
            Some(v) => {
                &&& v.wf()
                &&& v.line.line_len() <= mid.len()
                &&& (v.to_move ==> mid[v.line.curr_node_index as int].can_enter(
                    v.line.road_side,
                ))
            },
            None => true,
        }
    &&& forall|k1: int, k2: int|
        0 <= k1 < decided.len() && 0 <= k2 < decided.len() && k1 != k2 && is_approved(
            #[trigger] decided[k1],
        ) && is_approved(#[trigger] decided[k2]) ==> dest_slot_of(decided[k1].unwrap())
            != dest_slot_of(decided[k2].unwrap())
}

/// The loop invariant of the commit phase, after the first `k` slots have
/// been processed.
pub open spec fn commit_inv(
    vehicles: Seq<Option<Vehicle>>,
    nodes: Seq<Node>,
    decided: Seq<Option<Vehicle>>,
    mid: Seq<Node>,
    k: int,
) -> bool {
    &&& decision_ok(decided, mid)
    &&& nodes.len() == mid.len()
    &&& vehicles.len() == decided.len()
    &&& flags_match(vehicles, nodes)
    &&& forall|j: int|
        0 <= j < vehicles.len() ==> slot_vehicle_ok(#[trigger] vehicles[j], nodes.len() as int)
    &&& forall|j: int|
        0 <= j < vehicles.len() && ((#[trigger] vehicles[j]) matches Some(v) && v.to_move)
            ==> k <= j && vehicles[j] == decided[j]
    &&& forall|j: int|
        0 <= j < vehicles.len() && is_approved(#[trigger] vehicles[j]) ==> vehicles[dest_slot_of(
            vehicles[j].unwrap(),
        )] is None
    &&& forall|i: int| 0 <= i < nodes.len() ==> (#[trigger] nodes[i]).wf()
}

/// An approved vehicle's destination key is an empty slot of the decision
/// phase's output, and never the vehicle's own slot.
pub proof fn lemma_approved_dest_empty(decided: Seq<Option<Vehicle>>, mid: Seq<Node>, j: int)
    requires
        decision_ok(decided, mid),
        decided.len() == 2 * mid.len(),
        0 <= j < decided.len(),
        is_approved(decided[j]),
    ensures
        0 <= dest_slot_of(decided[j].unwrap()) < decided.len(),
        decided[dest_slot_of(decided[j].unwrap())] is None,
        dest_slot_of(decided[j].unwrap()) != j,
{
    let v = decided[j].unwrap();
    assert(mid[v.line.curr_node_index as int].can_enter(v.line.road_side));
    assert(!mid[v.line.curr_node_index as int].occupied_on(v.line.road_side));
}

/// Committing one slot preserves the commit invariant.
pub proof fn lemma_commit_one_preserves(
    vehicles: Seq<Option<Vehicle>>,
    nodes: Seq<Node>,
    decided: Seq<Option<Vehicle>>,
    mid: Seq<Node>,
    k: int,
)
    requires
        commit_inv(vehicles, nodes, decided, mid, k),
        0 <= k < vehicles.len(),
    ensures
        commit_inv(commit_one(vehicles, nodes, k).0, commit_one(vehicles, nodes, k).1, decided,
            mid, k + 1),
{
    let step = commit_one(vehicles, nodes, k);
    match vehicles[k] {
        Some(v) => {
            if v.to_move {
                let src_node = node_of_slot(k);
                let src_side = side_of_slot(k);
                let dest_node = v.line.curr_node_index as int;
                let dest_side = v.line.road_side;
                let dslot = slot_of(dest_node, dest_side);
                lemma_slot_roundtrip(k);
                lemma_slot_of_inverse(dest_node, dest_side);

                // The mover is untouched since the decision phase, so its
                // destination was approved against the frozen snapshot:
                // that key's slot is still empty when it is committed.
                assert(vehicles[k] == decided[k]);
                assert(mid[dest_node].can_enter(dest_side));
                assert(vehicles[dslot] is None);

                assert forall|i: int, s: RoadSide| 0 <= i < step.1.len() implies (
                    #[trigger] step.1[i].occupied_on(s) <==> step.0[slot_of(i, s)] is Some
                ) by {
                    lemma_slot_of_inverse(i, s);
                    assert(vehicles[slot_of(i, s)] is Some <==> nodes[i].occupied_on(s));
                }

                assert forall|j: int|
                    0 <= j < step.0.len() && ((#[trigger] step.0[j]) matches Some(w)
                        && w.to_move) implies k + 1 <= j && step.0[j] == decided[j] by {
                    if j != k && j != dslot {
                        assert(step.0[j] == vehicles[j]);
                    }
                }

                // Remaining movers' destinations stay free: the committed
                // vehicle went to its own destination, which no other
                // approved vehicle shares.
                assert forall|j: int|
                    0 <= j < step.0.len() && is_approved(#[trigger] step.0[j]) implies step.0[
                    dest_slot_of(step.0[j].unwrap())] is None by {
                    assert(step.0[j] == vehicles[j]);
                    assert(vehicles[j] == decided[j]);
                    let jdest = dest_slot_of(vehicles[j].unwrap());
                    assert(jdest != dslot);
                    assert(vehicles[jdest] is None);
                }
            }
        },
        None => {},
    }
}

/// The commit invariant holds of every intermediate commit state.
pub proof fn lemma_commit_upto_inv(decided: Seq<Option<Vehicle>>, mid: Seq<Node>, k: int)
    requires
        decision_ok(decided, mid),
        decided.len() == 2 * mid.len(),
        forall|i: int| 0 <= i < mid.len() ==> (#[trigger] mid[i]).wf(),
        0 <= k <= decided.len(),
    ensures
        commit_inv(commit_upto(decided, mid, k).0, commit_upto(decided, mid, k).1, decided,
            mid, k),
    decreases k,
{
    if k == 0 {
        assert forall|j: int|
            0 <= j < decided.len() && is_approved(#[trigger] decided[j]) implies decided[
            dest_slot_of(decided[j].unwrap())] is None by {
            lemma_approved_dest_empty(decided, mid, j);
        }
        assert(commit_inv(decided, mid, decided, mid, 0));
    } else {
        lemma_commit_upto_inv(decided, mid, k - 1);
        let prev = commit_upto(decided, mid, k - 1);
        lemma_commit_one_preserves(prev.0, prev.1, decided, mid, k - 1);
    }
}

/// A vehicle that was denied admission keeps its place: as long as the
/// occupant of `(node_index, road_side)` has no move pending, the commit
/// phase leaves both that slot and that occupancy flag untouched.
pub proof fn lemma_commit_keeps_parked(
    decided: Seq<Option<Vehicle>>,
    mid: Seq<Node>,
    k: int,
    node_index: int,
    road_side: RoadSide,
)
    requires
        decision_ok(decided, mid),
        decided.len() == 2 * mid.len(),
        forall|i: int| 0 <= i < mid.len() ==> (#[trigger] mid[i]).wf(),
        0 <= k <= decided.len(),
        0 <= node_index < mid.len(),
        decided[slot_of(node_index, road_side)] matches Some(v) && !v.to_move,
    ensures
        commit_upto(decided, mid, k).0[slot_of(node_index, road_side)] == decided[slot_of(
            node_index,
            road_side,
        )],
        commit_upto(decided, mid, k).1[node_index].occupied_on(road_side),
    decreases k,
{
    let slot = slot_of(node_index, road_side);
    if k == 0 {
        assert(mid[node_index].occupied_on(road_side));
    } else {
        let j = k - 1;
        lemma_commit_keeps_parked(decided, mid, j, node_index, road_side);
        lemma_commit_upto_inv(decided, mid, j);
        let prev = commit_upto(decided, mid, j);
        match prev.0[j] {
            Some(w) => {
                if w.to_move {
                    // The mover is untouched since the decision phase; its
                    // source is slot `j`, which holds a mover and so is not
                    // ours, and its destination key was free in the frozen
                    // snapshot, so it is not ours either.
                    let dest_node = w.line.curr_node_index as int;
                    let dest_side = w.line.road_side;
                    let dslot = slot_of(dest_node, dest_side);
                    lemma_slot_roundtrip(j);
                    lemma_slot_of_inverse(dest_node, dest_side);
                    lemma_slot_of_inverse(node_index, road_side);
                    assert(prev.0[j] == decided[j]);
                    assert(!mid[dest_node].occupied_on(dest_side));
                    assert(decided[dslot] is None);
                    assert(dslot != slot);
                    assert(j != slot);
                    assert((node_of_slot(j), side_of_slot(j)) != (node_index, road_side));
                    assert((dest_node, dest_side) != (node_index, road_side));
                }
            },
            None => {},
        }
    }
}

/// Whether some approved vehicle's destination is the given slot.
pub open spec fn some_mover_targets(decided: Seq<Option<Vehicle>>, slot: int) -> bool {
    exists|j: int|
        0 <= j < decided.len() && is_approved(#[trigger] decided[j]) && dest_slot_of(
            decided[j].unwrap(),
        ) == slot
}

/// Where every vehicle stands after the commit phase, slot by slot: each
/// approved vehicle is at its destination key with its pending flag
/// cleared, its source slot vacated and the flags moved with it; every
/// other vehicle is exactly where the decisions left it; and a key that no
/// approved vehicle targeted is still free.  So the commit creates,
/// destroys and overwrites no vehicle.
pub open spec fn commit_moves_exactly(
    decided: Seq<Option<Vehicle>>,
    committed: Seq<Option<Vehicle>>,
    nodes_after: Seq<Node>,
) -> bool {
    &&& forall|j: int|
        0 <= j < decided.len() && is_approved(#[trigger] decided[j]) ==> {
            let v = decided[j].unwrap();
            &&& committed[dest_slot_of(v)] == Some(Vehicle { to_move: false, ..v })
            &&& committed[j] is None
            &&& nodes_after[v.line.curr_node_index as int].occupied_on(v.line.road_side)
            &&& !nodes_after[node_of_slot(j)].occupied_on(side_of_slot(j))
        }
    &&& forall|j: int|
        0 <= j < decided.len() && ((#[trigger] decided[j]) matches Some(v) && !v.to_move)
            ==> committed[j] == decided[j]
    &&& forall|j: int|
        0 <= j < decided.len() && decided[j] is None && !some_mover_targets(decided, j)
            ==> committed[j] is None
}

/// Slot-by-slot characterization of the partial commit: processed movers
/// stand at their destinations with their sources vacated, unprocessed
/// movers and all non-movers are untouched, unprocessed destinations are
/// still free, and an untargeted free key stays free.
proof fn lemma_commit_upto_exact(decided: Seq<Option<Vehicle>>, mid: Seq<Node>, k: int)
    requires
        decision_ok(decided, mid),
        decided.len() == 2 * mid.len(),
        forall|i: int| 0 <= i < mid.len() ==> (#[trigger] mid[i]).wf(),
        0 <= k <= decided.len(),
    ensures
        ({
            let cu = commit_upto(decided, mid, k);
            &&& forall|j: int|
                0 <= j < decided.len() && is_approved(#[trigger] decided[j]) && j < k ==> cu.0[j]
                    is None && cu.0[dest_slot_of(decided[j].unwrap())] == Some(
                    Vehicle { to_move: false, ..decided[j].unwrap() },
                )
            &&& forall|j: int|
                0 <= j < decided.len() && is_approved(#[trigger] decided[j]) && k <= j ==> cu.0[j]
                    == decided[j] && cu.0[dest_slot_of(decided[j].unwrap())] is None
            &&& forall|j: int|
                0 <= j < decided.len() && ((#[trigger] decided[j]) matches Some(v) && !v.to_move)
                    ==> cu.0[j] == decided[j]
            &&& forall|j: int|
                0 <= j < decided.len() && decided[j] is None && !some_mover_targets(decided, j)
                    ==> cu.0[j] is None
        }),
    decreases k,
{
    if k == 0 {
        assert forall|j: int|
            0 <= j < decided.len() && is_approved(#[trigger] decided[j]) implies decided[
            dest_slot_of(decided[j].unwrap())] is None by {
            lemma_approved_dest_empty(decided, mid, j);
        }
    } else {
        let m = k - 1;
        lemma_commit_upto_exact(decided, mid, m);
        lemma_commit_upto_inv(decided, mid, m);
        let prev = commit_upto(decided, mid, m);
        let cu = commit_upto(decided, mid, k);
        if is_approved(decided[m]) {
            let v = decided[m].unwrap();
            let dslot = dest_slot_of(v);
            lemma_approved_dest_empty(decided, mid, m);
            assert(prev.0[m] == decided[m]);
            // Each write of this step lands where no other clause looks:
            // the source is this mover's own slot, the destination is a
            // key no other approved vehicle shares and nothing else held.
            assert forall|j: int|
                0 <= j < decided.len() && is_approved(#[trigger] decided[j]) && j != m implies
                dest_slot_of(decided[j].unwrap()) != dslot && dest_slot_of(decided[j].unwrap())
                    != m && j != dslot by {
                lemma_approved_dest_empty(decided, mid, j);
            }
        } else {
            // The slot holds no mover: a mover still present would be the
            // decided mover of its slot, and this slot's decision was not
            // an approval.  So this step changes nothing.
            if is_approved(prev.0[m]) {
                assert(prev.0[m] == decided[m]);
            }
            assert(commit_one(prev.0, prev.1, m) == prev);
        }
    }
}

/// The commit phase moves each approved vehicle to its destination and
/// leaves everything else alone: no vehicle is created, destroyed or
/// overwritten, because no two approved vehicles share a destination key.
pub proof fn lemma_commit_moves_exactly(decided: Seq<Option<Vehicle>>, mid: Seq<Node>)
    requires
        decision_ok(decided, mid),
        decided.len() == 2 * mid.len(),
        forall|i: int| 0 <= i < mid.len() ==> (#[trigger] mid[i]).wf(),
    ensures
        commit_moves_exactly(
            decided,
            commit_all(decided, mid).0,
            commit_all(decided, mid).1,
        ),
{
    let len = decided.len() as int;
    lemma_commit_upto_exact(decided, mid, len);
    lemma_commit_upto_inv(decided, mid, len);
    let committed = commit_all(decided, mid);
    assert forall|j: int|
        0 <= j < decided.len() && is_approved(#[trigger] decided[j]) implies {
        let v = decided[j].unwrap();
        &&& committed.0[dest_slot_of(v)] == Some(Vehicle { to_move: false, ..v })
        &&& committed.0[j] is None
        &&& committed.1[v.line.curr_node_index as int].occupied_on(v.line.road_side)
        &&& !committed.1[node_of_slot(j)].occupied_on(side_of_slot(j))
    } by {
        let v = decided[j].unwrap();
        lemma_approved_dest_empty(decided, mid, j);
        lemma_slot_roundtrip(j);
        lemma_slot_of_inverse(v.line.curr_node_index as int, v.line.road_side);
        // The final flags mirror the final slots.
        assert(committed.1[v.line.curr_node_index as int].occupied_on(v.line.road_side)
            <==> committed.0[dest_slot_of(v)] is Some);
        assert(committed.1[node_of_slot(j)].occupied_on(side_of_slot(j)) <==> committed.0[
            slot_of(node_of_slot(j), side_of_slot(j))] is Some);
    }
}

/// What the decision fold maintains after `k` slots: the suffix is
/// untouched, each slot keeps its key, decided vehicles are well-formed,
/// an approval implies the admission control, every approved destination
/// so far is claimed, and approved destinations are pairwise distinct.
proof fn lemma_decide_upto_ok(
    vehicles: Seq<Option<Vehicle>>,
    mid: Seq<Node>,
    elapsed_time: u64,
    k: int,
)
    requires
        vehicles.len() == 2 * mid.len(),
        forall|j: int| 0 <= j < vehicles.len() ==> slot_ok(#[trigger] vehicles[j], mid.len() as int),
        elapsed_time <= MAX_STEP_MS,
        0 <= k <= vehicles.len(),
    ensures
        ({
            let d = decide_upto(vehicles, mid, elapsed_time, k);
            &&& d.0.len() == vehicles.len()
            &&& d.1.len() == vehicles.len()
            &&& forall|j: int| k <= j < vehicles.len() ==> d.0[j] == vehicles[j]
            &&& forall|j: int|
                0 <= j < vehicles.len() ==> ((#[trigger] d.0[j]) is Some <==> vehicles[j] is Some)
            &&& forall|j: int|
                0 <= j < vehicles.len() ==> match #[trigger] d.0[j] {
                    Some(v) => {
                        &&& v.wf()
                        &&& v.line.line_len() <= mid.len()
                        &&& (v.to_move ==> j < k && mid[v.line.curr_node_index as int].can_enter(
                            v.line.road_side,
                        ))
                    },
                    None => true,
                }
            &&& forall|j: int|
                0 <= j < vehicles.len() && is_approved(#[trigger] d.0[j]) ==> 0 <= dest_slot_of(
                    d.0[j].unwrap(),
                ) < vehicles.len() && d.1[dest_slot_of(d.0[j].unwrap())]
            &&& forall|j1: int, j2: int|
                0 <= j1 < vehicles.len() && 0 <= j2 < vehicles.len() && j1 != j2 && is_approved(
                    #[trigger] d.0[j1],
                ) && is_approved(#[trigger] d.0[j2]) ==> dest_slot_of(d.0[j1].unwrap())
                    != dest_slot_of(d.0[j2].unwrap())
        }),
    decreases k,
{
    if k > 0 {
        lemma_decide_upto_ok(vehicles, mid, elapsed_time, k - 1);
        let prev = decide_upto(vehicles, mid, elapsed_time, k - 1);
        let d = decide_upto(vehicles, mid, elapsed_time, k);
        match vehicles[k - 1] {
            Some(v) => {
                assert(v.wf() && !v.to_move);
                let dv = decided_vehicle(v, mid, prev.1, elapsed_time);
                if v.arrives(elapsed_time) {
                    assert(dv.line == v.line.stepped());
                    assert(dv.line.wf());
                } else {
                    assert(v.curr_dist_traveled + VEHICLE_SPEED * elapsed_time
                        < v.line.dist_to_next_node);
                }
                // A fresh approval's destination was unclaimed, so it
                // differs from every destination claimed so far.
                if dv.to_move {
                    assert(!prev.1[dest_slot_of(dv)]);
                    assert forall|j: int|
                        0 <= j < k - 1 && is_approved(#[trigger] prev.0[j]) implies dest_slot_of(
                        prev.0[j].unwrap()) != dest_slot_of(dv) by {
                        assert(prev.1[dest_slot_of(prev.0[j].unwrap())]);
                    }
                }
            },
            None => {},
        }
    }
}

/// The decision phase of a well-formed tick always produces a
/// `decision_ok` state: it keeps every slot's key and well-formed vehicle,
/// leaves the flags mirroring the slots, approves only moves whose
/// destination met the admission control, and never approves two moves
/// into one key.
pub proof fn lemma_decide_all_ok(
    vehicles: Seq<Option<Vehicle>>,
    pre_nodes: Seq<Node>,
    mid: Seq<Node>,
    elapsed_time: u64,
)
    requires
        vehicles.len() == 2 * pre_nodes.len(),
        forall|k: int|
            0 <= k < vehicles.len() ==> slot_ok(#[trigger] vehicles[k], pre_nodes.len() as int),
        flags_match(vehicles, pre_nodes),
        nodes_phase_ok(pre_nodes, mid, elapsed_time),
        elapsed_time <= MAX_STEP_MS,
    ensures
        decision_ok(decide_all(vehicles, mid, elapsed_time), mid),
{
    let decided = decide_all(vehicles, mid, elapsed_time);
    lemma_decide_upto_ok(vehicles, mid, elapsed_time, vehicles.len() as int);
    assert forall|i: int, s: RoadSide| 0 <= i < mid.len() implies (
        #[trigger] mid[i].occupied_on(s) <==> decided[slot_of(i, s)] is Some
    ) by {
        lemma_node_step_preserves_occupancy(pre_nodes[i], mid[i], elapsed_time);
        assert(pre_nodes[i].occupied_on(s) <==> vehicles[slot_of(i, s)] is Some);
    }
}

/// A vehicle that arrives at a gated destination — occupied, jammed, held
/// at a red light, or already claimed by an earlier decision of the same
/// tick — never has its pending-move flag set by the decision phase; its
/// cursor still advances.
pub proof fn lemma_blocked_never_pending(
    v: Vehicle,
    nodes: Seq<Node>,
    claimed: Seq<bool>,
    elapsed_time: u64,
)
    requires
        !v.to_move,
        v.arrives(elapsed_time),
        !nodes[v.line.stepped().curr_node_index as int].can_enter(v.line.stepped().road_side)
            || claimed[slot_of(
            v.line.stepped().curr_node_index as int,
            v.line.stepped().road_side,
        )],
    ensures
        !decided_vehicle(v, nodes, claimed, elapsed_time).to_move,
        decided_vehicle(v, nodes, claimed, elapsed_time).line == v.line.stepped(),
{
}

/// Admission control over one whole tick: when the decision phase has
/// denied (or not asked for) a move for the occupant of a key, the commit
/// phase leaves that occupant in place and the key's occupancy flag set.
/// Together with a tick's contract this pins the fate of every blocked
/// vehicle: the tick ends in `commit_all(decide_all(..), mid)` for some
/// node-phase outcome `mid`.
pub proof fn lemma_tick_keeps_parked(
    vehicles: Seq<Option<Vehicle>>,
    pre_nodes: Seq<Node>,
    mid: Seq<Node>,
    elapsed_time: u64,
    node_index: int,
    road_side: RoadSide,
)
    requires
        vehicles.len() == 2 * pre_nodes.len(),
        forall|k: int|
            0 <= k < vehicles.len() ==> slot_ok(#[trigger] vehicles[k], pre_nodes.len() as int),
        forall|i: int| 0 <= i < pre_nodes.len() ==> (#[trigger] pre_nodes[i]).wf(),
        flags_match(vehicles, pre_nodes),
        nodes_phase_ok(pre_nodes, mid, elapsed_time),
        elapsed_time <= MAX_STEP_MS,
        0 <= node_index < pre_nodes.len(),
        decide_all(vehicles, mid, elapsed_time)[slot_of(node_index, road_side)] matches Some(v)
            && !v.to_move,
    ensures
        ({
            let decided = decide_all(vehicles, mid, elapsed_time);
            let committed = commit_all(decided, mid);
            &&& committed.0[slot_of(node_index, road_side)] == decided[slot_of(
                node_index,
                road_side,
            )]
            &&& committed.1[node_index].occupied_on(road_side)
        }),
{
    let decided = decide_all(vehicles, mid, elapsed_time);
    lemma_decide_all_ok(vehicles, pre_nodes, mid, elapsed_time);
    assert forall|i: int| 0 <= i < mid.len() implies (#[trigger] mid[i]).wf() by {
        assert(node_step_ok(pre_nodes[i], mid[i], elapsed_time));
        lemma_node_step_wf(pre_nodes[i], mid[i], elapsed_time);
    }
    lemma_commit_keeps_parked(decided, mid, decided.len() as int, node_index, road_side);
}

/// One whole tick neither creates nor destroys vehicles.  The decision
/// phase keeps every slot's key, and the commit phase then moves each
/// approved vehicle to its destination key and leaves every other vehicle
/// exactly where the decisions left it — no vehicle is overwritten, since
/// no two approved vehicles share a destination key.
pub proof fn lemma_tick_preserves_population(
    vehicles: Seq<Option<Vehicle>>,
    pre_nodes: Seq<Node>,
    mid: Seq<Node>,
    elapsed_time: u64,
)
    requires
        vehicles.len() == 2 * pre_nodes.len(),
        forall|k: int|
            0 <= k < vehicles.len() ==> slot_ok(#[trigger] vehicles[k], pre_nodes.len() as int),
        forall|i: int| 0 <= i < pre_nodes.len() ==> (#[trigger] pre_nodes[i]).wf(),
        flags_match(vehicles, pre_nodes),
        nodes_phase_ok(pre_nodes, mid, elapsed_time),
        elapsed_time <= MAX_STEP_MS,
    ensures
        ({
            let decided = decide_all(vehicles, mid, elapsed_time);
            let committed = commit_all(decided, mid);
            &&& forall|j: int|
                0 <= j < vehicles.len() ==> ((#[trigger] decided[j]) is Some <==> vehicles[j]
                    is Some)
            &&& commit_moves_exactly(decided, committed.0, committed.1)
        }),
{
    let decided = decide_all(vehicles, mid, elapsed_time);
    lemma_decide_upto_ok(vehicles, mid, elapsed_time, vehicles.len() as int);
    lemma_decide_all_ok(vehicles, pre_nodes, mid, elapsed_time);
    assert forall|i: int| 0 <= i < mid.len() implies (#[trigger] mid[i]).wf() by {
        assert(node_step_ok(pre_nodes[i], mid[i], elapsed_time));
        lemma_node_step_wf(pre_nodes[i], mid[i], elapsed_time);
    }
    lemma_commit_moves_exactly(decided, mid);
}

/// Once a node is jammed with remaining jam time `R`, a chain of node
/// updates whose cumulative elapsed time first reaches `R` on its last
/// step ends with the jam reported cleared — whatever the random draws did
/// meanwhile, since a jammed node decays deterministically.
pub proof fn lemma_jam_decay(states: Seq<Node>, steps: Seq<u64>)
    requires
        states.len() == steps.len() + 1,
        forall|i: int|
            0 <= i < steps.len() ==> node_step_ok(#[trigger] states[i], states[i + 1], steps[i]),
        states[0].wf(),
        states[0].jammed,
        forall|i: int|
            0 <= i < steps.len() ==> total_elapsed(#[trigger] steps.take(i))
                < states[0].remaining_jam_time,
        total_elapsed(steps) >= states[0].remaining_jam_time,
    ensures
        !states.last().jammed,
        states.last().remaining_jam_time == 0,
    decreases steps.len(),
{
    let first = states[0];
    let stepped = lights_stepped(first, steps[0]);
    assert(stepped.jammed == first.jammed);
    assert(stepped.remaining_jam_time == first.remaining_jam_time);
    if steps.len() == 1 {
        assert(total_elapsed(steps) == steps[0] + total_elapsed(steps.drop_first()));
        assert(states[1] == stepped.jam_decayed(steps[0]));
    } else {
        // The cumulative time after the first step is still short of `R`,
        // so the node is still jammed with the remainder left.
        assert(total_elapsed(steps.take(1)) == steps[0] + total_elapsed(
            steps.take(1).drop_first(),
        ));
        assert(steps.take(1).drop_first() =~= Seq::<u64>::empty());
        assert(steps[0] < first.remaining_jam_time);
        assert(states[1] == stepped.jam_decayed(steps[0]));
        let states2 = states.drop_first();
        let steps2 = steps.drop_first();
        assert forall|i: int| 0 <= i < steps2.len() implies total_elapsed(
            #[trigger] steps2.take(i),
        ) < states2[0].remaining_jam_time by {
            assert(steps.take(i + 1).drop_first() =~= steps2.take(i));
            assert(total_elapsed(steps.take(i + 1)) == steps[0] + total_elapsed(steps2.take(i)));
        }
        assert(total_elapsed(steps2) >= states2[0].remaining_jam_time);
        lemma_jam_decay(states2, steps2);
        assert(states2.last() == states.last());
    }
}

/// A network graph: the fixed node list plus the vehicle population, one
/// optional vehicle per `(node index, road side)` slot.
#[derive(Debug)]
pub struct Graph {
    pub n: usize,
    pub vehicles: Vec<Option<Vehicle>>,
    pub nodes: Vec<Node>,
}

impl Graph {
    /// The core mutual-exclusion discipline: one slot per key, occupancy
    /// flags mirroring the occupied slots, well-formed parts everywhere,
    /// and no move pending between ticks.
    pub open spec fn wf(self) -> bool {
        &&& self.n == self.nodes@.len()
        &&& self.vehicles@.len() == 2 * self.n
        &&& forall|k: int|
            0 <= k < self.vehicles@.len() ==> slot_ok(#[trigger] self.vehicles@[k], self.n as int)
        &&& forall|i: int| 0 <= i < self.nodes@.len() ==> (#[trigger] self.nodes@[i]).wf()
        &&& flags_match(self.vehicles@, self.nodes@)
    }

    /// The vehicle at a `(node index, road side)` key, if any.
    pub open spec fn vehicle_at(self, node_index: int, road_side: RoadSide) -> Option<Vehicle> {
        self.vehicles@[slot_of(node_index, road_side)]
    }

    /// The vehicle population as a map keyed by `(node index, road side)`.
    pub open spec fn vehicle_map(self) -> Map<(int, RoadSide), Vehicle> {
        Map::new(
            |key: (int, RoadSide)|
                0 <= key.0 < self.nodes@.len() && self.vehicle_at(key.0, key.1) is Some,
            |key: (int, RoadSide)| self.vehicle_at(key.0, key.1).unwrap(),
        )
    }

    pub fn new(nodes: Vec<Node>, vehicles: Vec<Option<Vehicle>>) -> (graph: Graph)
        requires
            vehicles@.len() == 2 * nodes@.len(),
            forall|k: int|
                0 <= k < vehicles@.len() ==> slot_ok(#[trigger] vehicles@[k], nodes@.len() as int),
            forall|i: int| 0 <= i < nodes@.len() ==> (#[trigger] nodes@[i]).wf(),
            flags_match(vehicles@, nodes@),
        ensures
            graph.wf(),
            graph.n == nodes@.len(),
            graph.nodes@ == nodes@,
            graph.vehicles@ == vehicles@,
    {
        let n = nodes.len();
        Graph { n, vehicles, nodes }
    }

    /// Runs one simulation tick: every node advances its light and jam
    /// sub-state, every vehicle progresses and is gated against the frozen
    /// occupancy snapshot, and all approved moves are committed in slot
    /// order.  The occupancy discipline `wf` is preserved, and the final
    /// state is exactly the three phases composed, for some outcome `mid`
    /// of the nodes' random draws.
    pub fn simulation_iter(&mut self, elapsed_time: u64, _sim_time: &Time)
        requires
            old(self).wf(),
            elapsed_time <= MAX_STEP_MS,
        ensures
            final(self).wf(),
            final(self).n == old(self).n,
            final(self).vehicles@.len() == old(self).vehicles@.len(),
            final(self).nodes@.len() == old(self).nodes@.len(),
            exists|mid: Seq<Node>|
                {
                    &&& #[trigger] nodes_phase_ok(old(self).nodes@, mid, elapsed_time)
                    &&& (final(self).vehicles@, final(self).nodes@) == commit_all(
                        decide_all(old(self).vehicles@, mid, elapsed_time),
                        mid,
                    )
                },
    {
        let ghost orig_vehicles = self.vehicles@;
        let ghost orig_nodes = self.nodes@;
        let n = self.nodes.len();

        // Node phase: each node's light and jam sub-state advances using
        // only its own prior state, so order is irrelevant.
        let mut i: usize = 0;
        while i < n
            invariant
                n == self.n,
                self.nodes@.len() == n,
                self.n == old(self).n,
                self.vehicles@ == orig_vehicles,
                orig_nodes.len() == n,
                forall|j: int| 0 <= j < i ==> node_step_ok(#[trigger] orig_nodes[j], self.nodes@[j], elapsed_time),
                forall|j: int| i <= j < n ==> self.nodes@[j] == orig_nodes[j],
                forall|j: int| 0 <= j < n ==> (#[trigger] self.nodes@[j]).wf(),
            decreases n - i,
        {
            let mut node = self.nodes[i];
            if let NodeVariant::TrafficLights(mut traffic_lights) = node.node_variant {
                traffic_lights.iter_and_change(elapsed_time);
                node.node_variant = NodeVariant::TrafficLights(traffic_lights);
            }
            assert(node == lights_stepped(orig_nodes[i as int], elapsed_time));
            node.update_state(elapsed_time);
            self.nodes.set(i, node);
            i += 1;
        }

        let ghost mid = self.nodes@;
        proof {
            assert(nodes_phase_ok(orig_nodes, mid, elapsed_time));
        }

        // Decision phase: every vehicle progresses and, on arrival, is
        // gated against the current (pre-commit) destination state.  This
        // phase reads occupancy but never writes it; the claims only keep
        // two arrivals of the same tick from being approved into one key.
        let ghost decided = decide_all(orig_vehicles, mid, elapsed_time);
        let n_slots = self.vehicles.len();
        let mut claimed: Vec<bool> = vec![false; n_slots];
        proof {
            assert(claimed@ =~= decide_upto(orig_vehicles, mid, elapsed_time, 0).1);
        }
        let mut k: usize = 0;
        while k < n_slots
            invariant
                n == self.n,
                self.n == old(self).n,
                self.nodes@ == mid,
                mid.len() == n,
                self.vehicles@.len() == n_slots,
                claimed@.len() == n_slots,
                n_slots == 2 * n,
                decided == decide_all(orig_vehicles, mid, elapsed_time),
                orig_vehicles.len() == n_slots,
                elapsed_time <= MAX_STEP_MS,
                0 <= k <= n_slots,
                forall|j: int| 0 <= j < n_slots ==> slot_ok(#[trigger] orig_vehicles[j], n as int),
                (self.vehicles@, claimed@) == decide_upto(
                    orig_vehicles,
                    mid,
                    elapsed_time,
                    k as int,
                ),
                forall|j: int| k <= j < n_slots ==> self.vehicles@[j] == orig_vehicles[j],
            decreases n_slots - k,
        {
            let ghost vs_before = self.vehicles@;
            let ghost claimed_before = claimed@;
            let mut slot: Option<Vehicle> = None;
            self.vehicles.set_and_swap(k, &mut slot);
            match slot {
                Some(mut vehicle) => {
                    let arrived = vehicle.progress(elapsed_time);
                    if arrived {
                        let dest_node_index = vehicle.next_node_index();
                        let road_side = vehicle.road_side();
                        let dest_slot = 2 * dest_node_index + (match road_side {
                            RoadSide::Left => 0,
                            RoadSide::Right => 1,
                        });
                        assert(dest_slot as int == dest_slot_of(vehicle));
                        if self.nodes[dest_node_index].can_move_into(road_side)
                            && !claimed[dest_slot] {
                            vehicle.to_move = true;
                            claimed.set(dest_slot, true);
                        }
                    }
                    assert(vehicle == decided_vehicle(
                        orig_vehicles[k as int].unwrap(),
                        mid,
                        claimed_before,
                        elapsed_time,
                    ));
                    self.vehicles.set(k, Some(vehicle));
                    proof {
                        let step = decide_upto(orig_vehicles, mid, elapsed_time, k + 1);
                        assert(self.vehicles@ =~= step.0);
                        assert(claimed@ =~= step.1);
                    }
                },
                None => {
                    assert(self.vehicles@ =~= vs_before);
                },
            }
            k += 1;
        }
        assert(self.vehicles@ =~= decided);

        proof {
            // The decision output satisfies the commit precondition.
            lemma_decide_all_ok(orig_vehicles, orig_nodes, mid, elapsed_time);
        }

        // Commit phase: apply every approved move — clear the source flag,
        // set the destination flag, re-key the vehicle with its pending
        // flag cleared.  Approved destinations were free in the frozen
        // snapshot and are pairwise distinct, so every re-key writes into
        // a slot that is still free: no vehicle is ever overwritten.
        let mut k: usize = 0;
        while k < n_slots
            invariant
                n == self.n,
                self.n == old(self).n,
                self.nodes@.len() == n,
                mid.len() == n,
                self.vehicles@.len() == n_slots,
                n_slots == 2 * n,
                0 <= k <= n_slots,
                decided.len() == n_slots,
                decision_ok(decided, mid),
                forall|i2: int| 0 <= i2 < mid.len() ==> (#[trigger] mid[i2]).wf(),
                (self.vehicles@, self.nodes@) == commit_upto(decided, mid, k as int),
            decreases n_slots - k,
        {
            let ghost vs_before = self.vehicles@;
            let ghost nodes_before = self.nodes@;
            proof {
                lemma_commit_upto_inv(decided, mid, k as int);
                assert(commit_inv(vs_before, nodes_before, decided, mid, k as int));
            }
            let is_mover = match &self.vehicles[k] {
                Some(vehicle) => vehicle.to_move,
                None => false,
            };
            if is_mover {
                let mut taken: Option<Vehicle> = None;
                self.vehicles.set_and_swap(k, &mut taken);
                let mut vehicle = taken.unwrap();
                vehicle.to_move = false;
                let dest_node_index = vehicle.next_node_index();
                let dest_side = vehicle.road_side();

                let src_node_index = k / 2;
                let src_side = if k % 2 == 0 {
                    RoadSide::Left
                } else {
                    RoadSide::Right
                };
                proof {
                    lemma_slot_roundtrip(k as int);
                    assert(src_node_index as int == node_of_slot(k as int));
                    assert(src_side == side_of_slot(k as int));
                    assert(src_node_index < n);
                }

                // Clear the source side, occupy the destination side.
                let mut src_node = self.nodes[src_node_index];
                src_node.set_occupied(src_side, false);
                self.nodes.set(src_node_index, src_node);

                let mut dest_node = self.nodes[dest_node_index];
                dest_node.set_occupied(dest_side, true);
                self.nodes.set(dest_node_index, dest_node);

                let dest_slot = 2 * dest_node_index + (match dest_side {
                    RoadSide::Left => 0,
                    RoadSide::Right => 1,
                });
                self.vehicles.set(dest_slot, Some(vehicle));

                proof {
                    let step = commit_one(vs_before, nodes_before, k as int);
                    assert(dest_slot as int == slot_of(
                        vehicle.line.curr_node_index as int,
                        vehicle.line.road_side,
                    ));
                    assert(self.vehicles@ =~= step.0);
                    assert(self.nodes@ =~= step.1);
                }
            } else {
                proof {
                    assert(commit_one(vs_before, nodes_before, k as int) == (
                        vs_before,
                        nodes_before,
                    ));
                }
            }
            k += 1;
        }

        proof {
            lemma_commit_upto_inv(decided, mid, n_slots as int);
            assert(self.wf());
            assert(nodes_phase_ok(old(self).nodes@, mid, elapsed_time));
            assert((self.vehicles@, self.nodes@) == commit_all(
                decide_all(old(self).vehicles@, mid, elapsed_time),
                mid,
            ));
        }
    }

    /// Produces the read-only rendering snapshot: per node, the display
    /// colour and the line numbers of the vehicles on each side (0 for a
    /// free side).  The graph itself is not changed.
    pub fn generate_visuals(&self) -> (visuals: Visuals)
        requires
            self.wf(),
        ensures
            visuals.nodes@.len() == self.n,
            forall|i: int| 0 <= i < self.n ==> #[trigger] visuals.nodes@[i] == self.visual_for(i),
    {
        let mut map_nodes: Vec<MapNode> = Vec::new();
        let n_slots = self.vehicles.len();

        let mut i: usize = 0;
        while i < self.nodes.len()
            invariant
                self.wf(),
                self.nodes@.len() == self.n,
                n_slots == 2 * self.n,
                i <= self.n,
                map_nodes@.len() == i,
                forall|j: int| 0 <= j < i ==> #[trigger] map_nodes@[j] == self.visual_for(j),
            decreases self.nodes@.len() - i,
        {
            let vehicle_line_left = match &self.vehicles[2 * i] {
                Some(vehicle) => vehicle.line_number(),
                None => 0,
            };
            let vehicle_line_right = match &self.vehicles[2 * i + 1] {
                Some(vehicle) => vehicle.line_number(),
                None => 0,
            };

            let node = self.nodes[i];
            let map_node = MapNode::new(
                node.jammed,
                node.transport_variant,
                node.node_variant,
                vehicle_line_left,
                vehicle_line_right,
            );
            map_nodes.push(map_node);
            i += 1;
        }

        Visuals { nodes: map_nodes }
    }

    /// The line number displayed for a key: the occupying vehicle's line,
    /// or 0 for a free side.
    pub open spec fn line_number_at(self, node_index: int, road_side: RoadSide) -> u32 {
        match self.vehicle_at(node_index, road_side) {
            Some(v) => v.line.number,
            None => 0,
        }
    }

    /// The snapshot entry for one node.
    pub open spec fn visual_for(self, node_index: int) -> MapNode {
        MapNode {
            color: color_for(
                self.nodes@[node_index].jammed,
                self.nodes@[node_index].transport_variant,
                self.nodes@[node_index].node_variant,
            ),
            vehicle_line_left: self.line_number_at(node_index, RoadSide::Left),
            vehicle_line_right: self.line_number_at(node_index, RoadSide::Right),
        }
    }
}

/// Occupancy exclusivity, tied to the occupancy flags: in a well-formed
/// graph each `(node index, road side)` key holds at most one vehicle —
/// the population is a map over those keys — and a key is in that map
/// exactly when the node reports the side occupied.
pub proof fn lemma_occupancy_exclusivity(graph: Graph, node_index: int, road_side: RoadSide)
    requires
        graph.wf(),
        0 <= node_index < graph.nodes@.len(),
    ensures
        graph.vehicle_map().contains_key((node_index, road_side)) <==> graph.nodes@[
            node_index].occupied_on(road_side),
{
}

} // verus!
