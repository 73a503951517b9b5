use gtfs_gridforge::{TimeOfDay, TransitGrid};

fn ids(names: &[&str]) -> Vec<String> {
    names.iter().map(|name| name.to_string()).collect()
}

fn at(hour: u32, minute: u32) -> TimeOfDay {
    TimeOfDay::from_hms(hour, minute, 0).unwrap()
}

fn grid_with(stops: &[&str]) -> TransitGrid {
    let mut grid = TransitGrid::new();
    for stop in stops {
        grid.add_stop(stop, format!("Stop {}", stop)).unwrap();
    }
    grid
}

#[test]
fn new_network_is_empty() {
    let grid = TransitGrid::new();
    assert!(grid.stops().is_empty());
    assert!(grid.routes().is_empty());
}

#[test]
fn stop_is_keyed_by_its_cell() {
    let mut grid = TransitGrid::new();
    assert_eq!(grid.add_stop("Bd", "McGill".to_string()), Ok(()));
    assert_eq!(grid.stops().len(), 1);
    let stop = &grid.stops()[0];
    assert_eq!(stop.id, "Bd");
    assert_eq!(stop.name, "McGill");
    assert_eq!(stop.position.to_string(), "Bd");
    assert_eq!(stop.position.row_index(), 1);
    assert_eq!(stop.position.column_index(), 3);
}

#[test]
fn stops_stand_in_order_of_registration() {
    let grid = grid_with(&["Ce", "Aa", "Bd"]);
    let found: Vec<&str> = grid.stops().iter().map(|stop| stop.id.as_str()).collect();
    assert_eq!(found, vec!["Ce", "Aa", "Bd"]);
}

#[test]
fn stop_on_a_used_cell_replaces_the_stop() {
    let mut grid = grid_with(&["Aa", "Ab", "Ac"]);
    assert_eq!(grid.add_stop("Ab", "Renamed".to_string()), Ok(()));
    assert_eq!(grid.stops().len(), 3);
    let found: Vec<(&str, &str)> =
        grid.stops().iter().map(|stop| (stop.id.as_str(), stop.name.as_str())).collect();
    assert_eq!(found, vec![("Aa", "Stop Aa"), ("Ab", "Renamed"), ("Ac", "Stop Ac")]);
}

#[test]
fn invalid_cell_is_refused_with_its_text() {
    let mut grid = grid_with(&["Aa"]);
    assert_eq!(
        grid.add_stop("aa", "Lower".to_string()),
        Err("Invalid grid position: aa".to_string())
    );
    assert_eq!(
        grid.add_stop("Aab", "Long".to_string()),
        Err("Invalid grid position: Aab".to_string())
    );
    assert_eq!(grid.add_stop("", "Empty".to_string()), Err("Invalid grid position: ".to_string()));
    assert_eq!(grid.stops().len(), 1);
    assert_eq!(grid.stops()[0].name, "Stop Aa");
}

#[test]
fn stop_is_found_by_its_identifier() {
    let grid = grid_with(&["Ce", "Aa", "Bd"]);
    assert_eq!(grid.find_stop("Ce"), Some(0));
    assert_eq!(grid.find_stop("Aa"), Some(1));
    assert_eq!(grid.find_stop("Bd"), Some(2));
    assert_eq!(grid.find_stop("Zz"), None);
    assert_eq!(grid.find_stop("ce"), None);
    assert_eq!(grid.find_stop(""), None);
}

#[test]
fn route_is_registered_as_given() {
    let mut grid = grid_with(&["Aa", "Bd", "Ce"]);
    let result = grid.add_route(
        "GREEN".to_string(),
        "Green Line".to_string(),
        ids(&["Aa", "Bd", "Ce"]),
        at(5, 30),
        5,
        false,
    );
    assert_eq!(result, Ok(()));
    assert_eq!(grid.routes().len(), 1);
    let route = &grid.routes()[0];
    assert_eq!(route.id, "GREEN");
    assert_eq!(route.name, "Green Line");
    assert_eq!(route.stops, ids(&["Aa", "Bd", "Ce"]));
    assert_eq!(route.schedule, vec![5 * 3600 + 30 * 60]);
    assert_eq!(route.frequency, 5);
    assert_eq!(grid.stops().len(), 3);
}

#[test]
fn reverse_route_mirrors_the_forward_route() {
    let mut grid = grid_with(&["Aa", "Bd", "Ce"]);
    let result = grid.add_route(
        "GREEN".to_string(),
        "Green Line".to_string(),
        ids(&["Aa", "Bd", "Ce"]),
        at(5, 30),
        15,
        true,
    );
    assert_eq!(result, Ok(()));
    assert_eq!(grid.routes().len(), 2);
    let forward = &grid.routes()[0];
    let reverse = &grid.routes()[1];
    assert_eq!(forward.id, "GREEN");
    assert_eq!(forward.stops, ids(&["Aa", "Bd", "Ce"]));
    assert_eq!(forward.schedule, vec![19800]);
    assert_eq!(reverse.id, "GREEN_reverse");
    assert_eq!(reverse.name, "Green Line");
    assert_eq!(reverse.stops, ids(&["Ce", "Bd", "Aa"]));
    assert_eq!(reverse.schedule, vec![19800 + 7 * 60]);
    assert_eq!(reverse.frequency, 15);
}

#[test]
fn reverse_offset_is_half_the_frequency_in_whole_minutes() {
    for (frequency, offset) in [(1, 0u64), (2, 1), (3, 1), (4, 2), (5, 2), (60, 30), (61, 30)] {
        let mut grid = grid_with(&["Aa", "Ab"]);
        grid.add_route("R".to_string(), "R".to_string(), ids(&["Aa", "Ab"]), at(8, 0), frequency, true)
            .unwrap();
        assert_eq!(grid.routes()[1].schedule, vec![28800 + offset * 60]);
    }
}

#[test]
fn reverse_departure_may_lie_past_midnight() {
    let mut grid = grid_with(&["Aa", "Ab"]);
    grid.add_route("R".to_string(), "R".to_string(), ids(&["Aa", "Ab"]), at(23, 50), 60, true)
        .unwrap();
    assert_eq!(grid.routes()[1].schedule, vec![23 * 3600 + 50 * 60 + 30 * 60]);
}

#[test]
fn largest_frequency_is_registered() {
    let mut grid = grid_with(&["Aa", "Ab"]);
    let first = TimeOfDay::from_hms(23, 59, 59).unwrap();
    grid.add_route("R".to_string(), "R".to_string(), ids(&["Aa", "Ab"]), first, i32::MAX, true)
        .unwrap();
    assert_eq!(grid.routes()[1].schedule, vec![86399 + 1073741823 * 60]);
}

#[test]
fn route_over_an_unknown_stop_is_refused() {
    let mut grid = grid_with(&["Aa", "Bd"]);
    grid.add_route("A".to_string(), "A".to_string(), ids(&["Aa", "Bd"]), at(6, 0), 10, false)
        .unwrap();
    let result = grid.add_route(
        "B".to_string(),
        "B".to_string(),
        ids(&["Aa", "Zz", "Bd"]),
        at(6, 0),
        10,
        true,
    );
    assert_eq!(result, Err("Stop Zz not found".to_string()));
    assert_eq!(grid.routes().len(), 1);
    assert_eq!(grid.routes()[0].id, "A");
    assert_eq!(grid.stops().len(), 2);
    assert_eq!(grid.stops()[0].id, "Aa");
    assert_eq!(grid.stops()[1].id, "Bd");
}

#[test]
fn first_unknown_stop_is_the_one_named() {
    let mut grid = grid_with(&["Aa"]);
    let result = grid.add_route(
        "R".to_string(),
        "R".to_string(),
        ids(&["Aa", "Yy", "Xx"]),
        at(6, 0),
        10,
        false,
    );
    assert_eq!(result, Err("Stop Yy not found".to_string()));
    let result = grid.add_route(
        "R".to_string(),
        "R".to_string(),
        ids(&["not a cell", "Aa"]),
        at(6, 0),
        10,
        false,
    );
    assert_eq!(result, Err("Stop not a cell not found".to_string()));
    assert!(grid.routes().is_empty());
}

#[test]
fn unknown_stop_comes_before_the_frequency() {
    let mut grid = grid_with(&["Aa"]);
    let result =
        grid.add_route("R".to_string(), "R".to_string(), ids(&["Aa", "Ab"]), at(6, 0), 0, true);
    assert_eq!(result, Err("Stop Ab not found".to_string()));
    assert!(grid.routes().is_empty());
}

#[test]
fn frequency_that_is_not_positive_is_refused() {
    let mut grid = grid_with(&["Aa", "Ab"]);
    for frequency in [0, -1, -10, i32::MIN] {
        let result = grid.add_route(
            "R".to_string(),
            "R".to_string(),
            ids(&["Aa", "Ab"]),
            at(6, 0),
            frequency,
            true,
        );
        assert_eq!(result, Err("Route frequency must be positive".to_string()));
    }
    assert!(grid.routes().is_empty());
    assert_eq!(grid.stops().len(), 2);
}

#[test]
fn route_without_stops_is_registered() {
    let mut grid = TransitGrid::new();
    let result = grid.add_route("R".to_string(), "R".to_string(), Vec::new(), at(6, 0), 10, true);
    assert_eq!(result, Ok(()));
    assert_eq!(grid.routes().len(), 2);
    assert!(grid.routes()[0].stops.is_empty());
    assert!(grid.routes()[1].stops.is_empty());
}

#[test]
fn route_may_call_twice_at_a_stop() {
    let mut grid = grid_with(&["Aa", "Ab"]);
    grid.add_route("R".to_string(), "R".to_string(), ids(&["Aa", "Ab", "Aa"]), at(6, 0), 10, true)
        .unwrap();
    assert_eq!(grid.routes()[0].stops, ids(&["Aa", "Ab", "Aa"]));
    assert_eq!(grid.routes()[1].stops, ids(&["Aa", "Ab", "Aa"]));
}

#[test]
fn routes_stand_in_order_of_registration() {
    let mut grid = grid_with(&["Aa", "Ab"]);
    grid.add_route("B".to_string(), "B".to_string(), ids(&["Aa", "Ab"]), at(6, 0), 10, true)
        .unwrap();
    grid.add_route("A".to_string(), "A".to_string(), ids(&["Ab", "Aa"]), at(7, 0), 20, false)
        .unwrap();
    let found: Vec<&str> = grid.routes().iter().map(|route| route.id.as_str()).collect();
    assert_eq!(found, vec!["B", "B_reverse", "A"]);
}

#[test]
fn replacing_a_stop_keeps_the_routes() {
    let mut grid = grid_with(&["Aa", "Ab"]);
    grid.add_route("R".to_string(), "R".to_string(), ids(&["Aa", "Ab"]), at(6, 0), 10, false)
        .unwrap();
    grid.add_stop("Aa", "Renamed".to_string()).unwrap();
    assert_eq!(grid.routes().len(), 1);
    assert_eq!(grid.routes()[0].stops, ids(&["Aa", "Ab"]));
    assert_eq!(grid.stops()[0].name, "Renamed");
}
