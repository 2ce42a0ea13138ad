//! Read-only rendering snapshot of the network.
//!
//! The engine exposes one `MapNode` per network node: a display colour
//! derived from the node's state and the line numbers of the vehicles
//! occupying each road side (0 meaning the side is free).  Screen layout
//! and text formatting are left to the rendering collaborator.

use vstd::prelude::*;

use crate::node::{NodeVariant, TransportVariant};

verus! {

/// The display colour of a node.
#[derive(Clone, Copy, PartialEq, Eq, Structural, Debug)]
pub enum MapColor {
    Orange,
    Brown,
    Blue,
    Green,
    LightGray,
}

/// The colour shown for a node: orange while jammed, otherwise driven by
/// the transport kind and the behavioural variant.
pub open spec fn color_for(
    jammed: bool,
    transport_variant: TransportVariant,
    node_variant: NodeVariant,
) -> MapColor {
    if jammed {
        MapColor::Orange
    } else {
        match (transport_variant, node_variant) {
            (TransportVariant::Bus, NodeVariant::Stop) => MapColor::Brown,
            (TransportVariant::Bus, NodeVariant::Regular) => MapColor::Blue,
            (TransportVariant::Tram, _) => MapColor::Green,
            _ => MapColor::LightGray,
        }
    }
}

/// The snapshot of one node.
#[derive(Clone, Copy, PartialEq, Eq, Structural, Debug)]
pub struct MapNode {
    pub color: MapColor,
    pub vehicle_line_left: u32,
    pub vehicle_line_right: u32,
}

impl MapNode {
    pub fn new(
        jammed: bool,
        transport_variant: TransportVariant,
        node_variant: NodeVariant,
        vehicle_line_left: u32,
        vehicle_line_right: u32,
    ) -> (map_node: MapNode)
        ensures
            map_node.color == color_for(jammed, transport_variant, node_variant),
            map_node.vehicle_line_left == vehicle_line_left,
            map_node.vehicle_line_right == vehicle_line_right,
    {
        let color = if jammed {
            MapColor::Orange
        } else {
            match (transport_variant, node_variant) {
                (TransportVariant::Bus, NodeVariant::Stop) => MapColor::Brown,
                (TransportVariant::Bus, NodeVariant::Regular) => MapColor::Blue,
                (TransportVariant::Tram, _) => MapColor::Green,
                _ => MapColor::LightGray,
            }
        };

        MapNode { color, vehicle_line_left, vehicle_line_right }
    }
}

/// The snapshot of the whole network, in node order.
pub struct Visuals {
    pub nodes: Vec<MapNode>,
}

} // verus!
