use transit_sim::consts::{JAM_BASE_MS, JAM_MAX_MS, PPM_SCALE};
use transit_sim::line::RoadSide;
use transit_sim::map::{MapColor, MapNode};
use transit_sim::node::{
    LightsVariant, Node, NodeVariant, TrafficLights, TransportVariant,
};

#[test]
fn lights_flip_exactly_at_cycle_end() {
    // cycle_length = 10.0 s: nine ticks of one second leave the phase
    // alone; the tenth — with which the cumulative elapsed time reaches
    // the cycle — flips it and resets the countdown.
    let mut lights = TrafficLights::new(LightsVariant::Red, 10_000);
    for _ in 0..9 {
        let changed = lights.iter_and_change(1_000);
        assert!(!changed);
        assert_eq!(lights.variant, LightsVariant::Red);
    }
    let changed = lights.iter_and_change(1_000);
    assert!(changed);
    assert_eq!(lights.variant, LightsVariant::Green);
    assert_eq!(lights.time_until_change, 10_000);
}

#[test]
fn lights_flip_on_oversized_step() {
    let mut lights = TrafficLights::new(LightsVariant::Green, 10_000);
    let changed = lights.iter_and_change(25_000);
    assert!(changed);
    assert_eq!(lights.variant, LightsVariant::Red);
    assert_eq!(lights.time_until_change, 10_000);
}

#[test]
fn jam_starts_from_accepted_draw() {
    let mut node =
        Node::new(TransportVariant::Bus, NodeVariant::Regular, false, false, PPM_SCALE);
    // Duration draw 10_000 is at least JAM_BASE_MS, so the jam lasts
    // 10_000 + 8_000 = 18_000 ms.
    node.update_state_with(500, 0, 10_000);
    assert!(node.jammed);
    assert_eq!(node.remaining_jam_time, 18_000);
}

#[test]
fn jam_draw_below_base_is_rejected() {
    let mut node =
        Node::new(TransportVariant::Bus, NodeVariant::Regular, false, false, PPM_SCALE);
    node.update_state_with(500, 0, JAM_BASE_MS - 1);
    assert!(!node.jammed);
    assert_eq!(node.remaining_jam_time, 0);
}

#[test]
fn jam_trial_against_probability() {
    let mut node =
        Node::new(TransportVariant::Bus, NodeVariant::Regular, false, false, 30_000);
    // A trial at or above the jam probability fails the Bernoulli test.
    node.update_state_with(500, 30_000, 10_000);
    assert!(!node.jammed);
    // A trial below it succeeds.
    node.update_state_with(500, 29_999, 10_000);
    assert!(node.jammed);
}

#[test]
fn jam_decays_to_zero() {
    // Once jammed with remaining time R, cumulative elapsed time >= R
    // clears the jam.
    let mut node =
        Node::new(TransportVariant::Bus, NodeVariant::Regular, false, false, PPM_SCALE);
    node.update_state_with(0, 0, 10_000);
    assert!(node.jammed);
    assert_eq!(node.remaining_jam_time, 18_000);
    node.update_state_with(9_000, 0, 10_000);
    assert!(node.jammed);
    assert_eq!(node.remaining_jam_time, 9_000);
    node.update_state_with(9_000, 0, 10_000);
    assert!(!node.jammed);
    assert_eq!(node.remaining_jam_time, 0);
}

#[test]
fn certain_probability_jams_with_bounded_duration() {
    // With the jam probability at certainty, the Bernoulli trial succeeds
    // on every update and only the duration draw's rejection can postpone
    // the jam, so one appears almost surely within a few draws — and its
    // duration lies in the documented interval.
    let mut node =
        Node::new(TransportVariant::Bus, NodeVariant::Regular, false, false, PPM_SCALE);
    let mut jam_seen = false;
    for _ in 0..1000 {
        node.update_state(1);
        if node.jammed {
            jam_seen = true;
            assert!(node.remaining_jam_time >= 2 * JAM_BASE_MS);
            assert!(node.remaining_jam_time < JAM_MAX_MS);
            break;
        }
    }
    assert!(jam_seen);
}

#[test]
fn zero_probability_node_never_jams() {
    let mut node = Node::new(TransportVariant::Tram, NodeVariant::Stop, false, false, 0);
    for _ in 0..100 {
        node.update_state(1_000);
        assert!(!node.jammed);
    }
}

#[test]
fn admission_gate() {
    let free = Node::new(TransportVariant::Bus, NodeVariant::Regular, false, false, 0);
    assert!(free.can_move_into(RoadSide::Left));
    assert!(free.can_move_into(RoadSide::Right));

    let stop = Node::new(TransportVariant::Bus, NodeVariant::Stop, false, true, 0);
    assert!(stop.can_move_into(RoadSide::Left));
    assert!(!stop.can_move_into(RoadSide::Right));

    let occupied = Node::new(TransportVariant::Bus, NodeVariant::Regular, true, false, 0);
    assert!(!occupied.can_move_into(RoadSide::Left));
    assert!(occupied.can_move_into(RoadSide::Right));

    let red = Node::new(
        TransportVariant::Bus,
        NodeVariant::TrafficLights(TrafficLights::new(LightsVariant::Red, 10_000)),
        false,
        false,
        0,
    );
    assert!(!red.can_move_into(RoadSide::Left));

    let green = Node::new(
        TransportVariant::Bus,
        NodeVariant::TrafficLights(TrafficLights::new(LightsVariant::Green, 10_000)),
        false,
        false,
        0,
    );
    assert!(green.can_move_into(RoadSide::Left));

    let mut jammed = Node::new(TransportVariant::Bus, NodeVariant::Regular, false, false, PPM_SCALE);
    jammed.update_state_with(0, 0, 10_000);
    assert!(jammed.jammed);
    assert!(!jammed.can_move_into(RoadSide::Left));
    assert!(!jammed.can_move_into(RoadSide::Right));
}

#[test]
fn classify_from_labels() {
    let bus = String::from("bus");
    let tram = String::from("tram");
    let empty = String::from("");
    let named = String::from("Main Street");

    let regular_bus = Node::classify(&bus, &empty, 30_000);
    assert!(matches!(regular_bus.transport_variant, TransportVariant::Bus));
    assert!(matches!(regular_bus.node_variant, NodeVariant::Regular));
    assert_eq!(regular_bus.jam_probability_ppm, 30_000);
    assert!(!regular_bus.occupied_left && !regular_bus.occupied_right);
    assert!(!regular_bus.jammed);

    let tram_stop = Node::classify(&tram, &named, 0);
    assert!(matches!(tram_stop.transport_variant, TransportVariant::Tram));
    assert!(matches!(tram_stop.node_variant, NodeVariant::Stop));
}

#[test]
fn map_node_colors() {
    let lights = NodeVariant::TrafficLights(TrafficLights::new(LightsVariant::Red, 10_000));
    let jammed = MapNode::new(true, TransportVariant::Bus, NodeVariant::Regular, 0, 0);
    assert_eq!(jammed.color, MapColor::Orange);
    let bus_stop = MapNode::new(false, TransportVariant::Bus, NodeVariant::Stop, 1, 2);
    assert_eq!(bus_stop.color, MapColor::Brown);
    assert_eq!(bus_stop.vehicle_line_left, 1);
    assert_eq!(bus_stop.vehicle_line_right, 2);
    let bus_regular = MapNode::new(false, TransportVariant::Bus, NodeVariant::Regular, 0, 0);
    assert_eq!(bus_regular.color, MapColor::Blue);
    let tram = MapNode::new(false, TransportVariant::Tram, NodeVariant::Stop, 0, 0);
    assert_eq!(tram.color, MapColor::Green);
    let bus_lights = MapNode::new(false, TransportVariant::Bus, lights, 0, 0);
    assert_eq!(bus_lights.color, MapColor::LightGray);
}
