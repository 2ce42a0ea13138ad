use transit_sim::structs::{
    transport_type_from_route_type, BusStopMinimal, EnrichedStop, NeighbourStop, Route,
    StopTime, Trip,
};

#[test]
fn transport_type_names() {
    assert_eq!(transport_type_from_route_type(0), "tram");
    assert_eq!(transport_type_from_route_type(1), "metro");
    assert_eq!(transport_type_from_route_type(2), "rail");
    assert_eq!(transport_type_from_route_type(3), "bus");
    assert_eq!(transport_type_from_route_type(4), "ferry");
    assert_eq!(transport_type_from_route_type(5), "cable_car");
    assert_eq!(transport_type_from_route_type(6), "gondola");
    assert_eq!(transport_type_from_route_type(7), "monorail");
    assert_eq!(transport_type_from_route_type(8), "unknown");
    assert_eq!(transport_type_from_route_type(255), "unknown");
}

#[test]
fn records_hold_their_fields() {
    let neighbour = NeighbourStop {
        stop_id: String::from("s1"),
        stop_name: String::from("Center"),
        lines: vec![String::from("12")],
        transport_type: String::from("bus"),
    };
    let enriched = EnrichedStop {
        stop_name: String::from("Center"),
        neighbour_stops: vec![neighbour.clone()],
        reachable_stops: vec![String::from("North")],
    };
    assert_eq!(enriched.neighbour_stops[0].stop_id, "s1");
    assert_eq!(enriched.reachable_stops.len(), 1);

    let stop_time = StopTime {
        trip_id: String::from("t1"),
        arrival_time: String::from("08:00:00"),
        departure_time: String::from("08:00:30"),
        stop_id: String::from("s1"),
        stop_sequence: 3,
    };
    assert_eq!(stop_time.stop_sequence, 3);

    let route = Route {
        route_id: String::from("r1"),
        route_short_name: String::from("12"),
        route_type: 3,
    };
    assert_eq!(transport_type_from_route_type(route.route_type), "bus");

    let trip = Trip { trip_id: String::from("t1"), route_id: String::from("r1") };
    assert_eq!(trip.route_id, route.route_id);

    let minimal = BusStopMinimal {
        stop_name: String::from("Center"),
        stop_id: String::from("s1"),
    };
    assert_eq!(minimal.stop_name, neighbour.stop_name);
}
