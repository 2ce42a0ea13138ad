//! Plain records of the GTFS-style transit data that the data-loading
//! collaborator works with.  The engine itself only consumes the node
//! classification derived from them.

use vstd::prelude::*;

verus! {

/// A stop adjacent to another stop, with the lines serving it.
#[derive(Clone, Debug)]
pub struct NeighbourStop {
    pub stop_id: String,
    pub stop_name: String,
    pub lines: Vec<String>,
    pub transport_type: String,
}

/// One timetabled visit of a trip at a stop.
#[derive(Clone, Debug)]
pub struct StopTime {
    pub trip_id: String,
    pub arrival_time: String,
    pub departure_time: String,
    pub stop_id: String,
    pub stop_sequence: u16,
}

/// A route, with the GTFS numeric route type.
#[derive(Clone, Debug)]
pub struct Route {
    pub route_id: String,
    pub route_short_name: String,
    pub route_type: u8,
}

/// One trip of a route.
#[derive(Clone, Debug)]
pub struct Trip {
    pub trip_id: String,
    pub route_id: String,
}

/// A stop enriched with its neighbourhood.
#[derive(Clone, Debug)]
pub struct EnrichedStop {
    pub stop_name: String,
    pub neighbour_stops: Vec<NeighbourStop>,
    pub reachable_stops: Vec<String>,
}

/// The minimal identification of a bus stop.
#[derive(Clone, Debug)]
pub struct BusStopMinimal {
    pub stop_name: String,
    pub stop_id: String,
}

/// The transport name of a GTFS numeric route type.
pub open spec fn transport_type_name(route_type: u8) -> Seq<char> {
    if route_type == 0 {
        "tram"@
    } else if route_type == 1 {
        "metro"@
    } else if route_type == 2 {
        "rail"@
    } else if route_type == 3 {
        "bus"@
    } else if route_type == 4 {
        "ferry"@
    } else if route_type == 5 {
        "cable_car"@
    } else if route_type == 6 {
        "gondola"@
    } else if route_type == 7 {
        "monorail"@
    } else {
        "unknown"@
    }
}

/// Maps a GTFS numeric route type to its transport name.
pub fn transport_type_from_route_type(route_type: u8) -> (name: &'static str)
    ensures
        name@ == transport_type_name(route_type),
{
    match route_type {
        0 => "tram",
        1 => "metro",
        2 => "rail",
        3 => "bus",
        4 => "ferry",
        5 => "cable_car",
        6 => "gondola",
        7 => "monorail",
        _ => "unknown",
    }
}

} // verus!
