use gtfs_gridforge::schedule::{trip_id, MAX_TRIPS_PER_ROUTE, SERVICE_END_SECONDS};
use gtfs_gridforge::{GridRoute, TimeOfDay, TransitGrid};

fn ids(names: &[&str]) -> Vec<String> {
    names.iter().map(|name| name.to_string()).collect()
}

fn route(id: &str, stops: &[&str], first: u64, frequency: i32) -> GridRoute {
    GridRoute {
        id: id.to_string(),
        name: format!("Route {}", id),
        stops: ids(stops),
        schedule: vec![first],
        frequency,
    }
}

fn hms(hour: u64, minute: u64, second: u64) -> u64 {
    hour * 3600 + minute * 60 + second
}

#[test]
fn service_ends_a_minute_before_midnight() {
    assert_eq!(SERVICE_END_SECONDS, 23 * 3600 + 59 * 60);
    assert_eq!(MAX_TRIPS_PER_ROUTE, 300);
}

#[test]
fn trip_identifier_names_route_index_and_direction() {
    assert_eq!(trip_id("GREEN", 0, 0), "GREEN_0_dir0");
    assert_eq!(trip_id("GREEN", 12, 1), "GREEN_12_dir1");
    assert_eq!(trip_id("", 299, 0), "_299_dir0");
}

#[test]
fn direction_follows_the_reverse_marker() {
    let forward = route("R", &[], 0, 10);
    assert!(!forward.is_reverse());
    assert_eq!(forward.direction_id(), 0);
    assert_eq!(forward.parent_id(), "R");
    let reverse = route("R_reverse", &[], 0, 10);
    assert!(reverse.is_reverse());
    assert_eq!(reverse.direction_id(), 1);
    assert_eq!(reverse.parent_id(), "R");
}

#[test]
fn marker_is_stripped_once_and_at_the_end_only() {
    let twice = route("R_reverse_reverse", &[], 0, 10);
    assert_eq!(twice.direction_id(), 1);
    assert_eq!(twice.parent_id(), "R_reverse");
    let inside = route("R_reverse_2", &[], 0, 10);
    assert_eq!(inside.direction_id(), 0);
    assert_eq!(inside.parent_id(), "R_reverse_2");
    let bare = route("_reverse", &[], 0, 10);
    assert_eq!(bare.direction_id(), 1);
    assert_eq!(bare.parent_id(), "");
}

#[test]
fn trips_run_every_frequency_until_the_end_of_service() {
    let trips = route("R", &["Aa", "Ab"], hms(8, 0, 0), 10).trips();
    assert_eq!(trips.len(), 96);
    assert_eq!(trips[0].trip_id, "R_0_dir0");
    assert_eq!(trips[0].route_id, "R");
    assert_eq!(trips[0].direction_id, 0);
    assert_eq!(trips[95].trip_id, "R_95_dir0");
}

#[test]
fn trip_count_is_the_number_of_departures_before_the_end() {
    assert_eq!(route("R", &[], hms(5, 30, 0), 5).trips().len(), 222);
    assert_eq!(route("R", &[], hms(5, 15, 0), 4).trips().len(), 281);
    assert_eq!(route("R", &[], hms(0, 0, 0), 60).trips().len(), 24);
    assert_eq!(route("R", &[], hms(0, 0, 0), 1439).trips().len(), 1);
    assert_eq!(route("R", &[], hms(0, 0, 0), 1438).trips().len(), 2);
    assert_eq!(route("R", &[], hms(0, 0, 0), i32::MAX).trips().len(), 1);
}

#[test]
fn trip_count_is_capped() {
    assert_eq!(route("R", &[], hms(5, 30, 0), 1).trips().len(), 300);
    assert_eq!(route("R", &[], hms(0, 0, 0), 4).trips().len(), 300);
    let trips = route("R", &[], hms(0, 0, 0), 2).trips();
    assert_eq!(trips.len(), 300);
    assert_eq!(trips[299].trip_id, "R_299_dir0");
}

#[test]
fn departure_at_the_end_of_service_does_not_run() {
    assert_eq!(route("R", &[], hms(23, 59, 0), 10).trips().len(), 0);
    assert_eq!(route("R", &[], hms(23, 59, 59), 10).trips().len(), 0);
    assert_eq!(route("R", &[], hms(24, 20, 0), 10).trips().len(), 0);
    assert_eq!(route("R", &[], u64::MAX, 10).trips().len(), 0);
    assert_eq!(route("R", &[], hms(23, 58, 59), 10).trips().len(), 1);
    assert_eq!(route("R", &[], hms(23, 49, 0), 10).trips().len(), 1);
    assert_eq!(route("R", &[], hms(23, 48, 59), 10).trips().len(), 2);
}

#[test]
fn reverse_trips_run_in_direction_one_under_the_parent() {
    let trips = route("R_reverse", &["Ab", "Aa"], hms(23, 0, 0), 30).trips();
    assert_eq!(trips.len(), 2);
    for (index, trip) in trips.iter().enumerate() {
        assert_eq!(trip.route_id, "R");
        assert_eq!(trip.direction_id, 1);
        assert_eq!(trip.trip_id, format!("R_{}_dir1", index));
    }
}

#[test]
fn each_first_departure_starts_its_own_trips() {
    let mut two = route("R", &[], hms(23, 0, 0), 30);
    two.schedule.push(hms(23, 30, 0));
    let found: Vec<String> = two.trips().into_iter().map(|trip| trip.trip_id).collect();
    assert_eq!(found, vec!["R_0_dir0", "R_1_dir0", "R_0_dir0"]);
    let mut none = route("R", &[], 0, 30);
    none.schedule.clear();
    assert!(none.trips().is_empty());
}

#[test]
fn visits_follow_the_legs() {
    let visits = route("R", &["Aa", "Ab", "Ac"], hms(23, 0, 0), 45).stop_visits(&vec![3, 20]);
    let visits = visits.unwrap();
    let found: Vec<(&str, u128, u128, &str, usize)> = visits
        .iter()
        .map(|v| (v.trip_id.as_str(), v.arrival, v.departure, v.stop_id.as_str(), v.stop_sequence))
        .collect();
    let t0 = hms(23, 0, 0) as u128;
    let t1 = hms(23, 45, 0) as u128;
    assert_eq!(
        found,
        vec![
            ("R_0_dir0", t0, t0, "Aa", 0),
            ("R_0_dir0", t0 + 180, t0 + 180, "Ab", 1),
            ("R_0_dir0", t0 + 1380, t0 + 1380, "Ac", 2),
            ("R_1_dir0", t1, t1, "Aa", 0),
            ("R_1_dir0", t1 + 180, t1 + 180, "Ab", 1),
            ("R_1_dir0", t1 + 1380, t1 + 1380, "Ac", 2),
        ]
    );
}

#[test]
fn visits_may_fall_past_midnight() {
    let visits = route("R", &["Aa", "Ab"], hms(23, 50, 0), 30).stop_visits(&vec![20]).unwrap();
    assert_eq!(visits.len(), 2);
    assert_eq!(visits[1].arrival, 24 * 3600 + 10 * 60);
}

#[test]
fn leg_of_no_minutes_keeps_the_time() {
    let visits = route("R", &["Aa", "Aa"], hms(23, 50, 0), 30).stop_visits(&vec![0]).unwrap();
    assert_eq!(visits[0].arrival, visits[1].arrival);
}

#[test]
fn longest_legs_do_not_overflow() {
    let visits = route("R", &["Aa", "Ab", "Ac"], hms(23, 58, 59), 1)
        .stop_visits(&vec![u32::MAX, u32::MAX])
        .unwrap();
    assert_eq!(visits.len(), 3);
    assert_eq!(visits[2].arrival, 86339 + 2 * 60 * (u32::MAX as u128));
}

#[test]
fn route_of_one_stop_has_one_visit_in_each_trip() {
    let visits = route("R", &["Aa"], hms(23, 0, 0), 30).stop_visits(&Vec::new()).unwrap();
    assert_eq!(visits.len(), 2);
    assert_eq!(visits[0].stop_sequence, 0);
    assert_eq!(visits[1].stop_sequence, 0);
    assert_eq!(visits[1].trip_id, "R_1_dir0");
    assert_eq!(visits[1].arrival, hms(23, 30, 0) as u128);
}

#[test]
fn route_without_stops_has_trips_without_visits() {
    let empty = route("R", &[], hms(23, 0, 0), 30);
    assert_eq!(empty.trips().len(), 2);
    assert_eq!(empty.stop_visits(&Vec::new()).unwrap().len(), 0);
}

#[test]
fn legs_that_do_not_fit_the_route_give_no_visits() {
    let three = route("R", &["Aa", "Ab", "Ac"], hms(23, 0, 0), 30);
    assert!(three.stop_visits(&vec![1]).is_none());
    assert!(three.stop_visits(&vec![1, 2, 3]).is_none());
    assert!(three.stop_visits(&Vec::new()).is_none());
    assert!(route("R", &["Aa"], 0, 30).stop_visits(&vec![1]).is_none());
    assert!(route("R", &[], 0, 30).stop_visits(&vec![1]).is_none());
}

fn small_grid() -> TransitGrid {
    let mut grid = TransitGrid::new();
    grid.add_stop("Aa", "First".to_string()).unwrap();
    grid.add_stop("Bd", "Second".to_string()).unwrap();
    grid.add_stop("Ce", "Third".to_string()).unwrap();
    grid.add_route(
        "G".to_string(),
        "Green".to_string(),
        ids(&["Aa", "Bd", "Ce"]),
        TimeOfDay::from_hms(23, 0, 0).unwrap(),
        40,
        true,
    )
    .unwrap();
    grid.add_route(
        "O".to_string(),
        "Orange".to_string(),
        ids(&["Ce"]),
        TimeOfDay::from_hms(23, 30, 0).unwrap(),
        20,
        false,
    )
    .unwrap();
    grid
}

#[test]
fn network_trips_go_route_by_route() {
    let found: Vec<String> = small_grid().trips().into_iter().map(|trip| trip.trip_id).collect();
    assert_eq!(found, vec!["G_0_dir0", "G_1_dir0", "G_0_dir1", "O_0_dir0", "O_1_dir0"]);
}

#[test]
fn network_legs_lead_from_stop_to_stop() {
    let legs = small_grid().legs();
    let found: Vec<Vec<(String, String)>> = legs
        .iter()
        .map(|route| route.iter().map(|leg| (leg.from.to_string(), leg.to.to_string())).collect())
        .collect();
    let pair = |from: &str, to: &str| (from.to_string(), to.to_string());
    assert_eq!(
        found,
        vec![
            vec![pair("Aa", "Bd"), pair("Bd", "Ce")],
            vec![pair("Ce", "Bd"), pair("Bd", "Aa")],
            Vec::new(),
        ]
    );
}

#[test]
fn network_visits_go_trip_by_trip() {
    let legs = vec![vec![2, 3], vec![3, 2], Vec::new()];
    let visits = small_grid().stop_visits(&legs).unwrap();
    assert_eq!(visits.len(), 2 * 3 + 3 + 2);
    let first = &visits[0];
    assert_eq!((first.trip_id.as_str(), first.stop_id.as_str()), ("G_0_dir0", "Aa"));
    let reverse = &visits[6];
    assert_eq!((reverse.trip_id.as_str(), reverse.stop_id.as_str()), ("G_0_dir1", "Ce"));
    assert_eq!(reverse.arrival, hms(23, 20, 0) as u128);
    assert_eq!(visits[8].arrival, hms(23, 25, 0) as u128);
    let last = &visits[10];
    assert_eq!((last.trip_id.as_str(), last.stop_id.as_str()), ("O_1_dir0", "Ce"));
    assert_eq!(last.arrival, hms(23, 50, 0) as u128);
}

#[test]
fn network_legs_that_do_not_fit_give_no_visits() {
    let grid = small_grid();
    assert!(grid.stop_visits(&vec![vec![2, 3], vec![3, 2]]).is_none());
    assert!(grid.stop_visits(&vec![vec![2, 3], vec![3, 2], vec![1]]).is_none());
    assert!(grid.stop_visits(&vec![vec![2], vec![3, 2], Vec::new()]).is_none());
    assert!(grid.stop_visits(&Vec::new()).is_none());
    assert!(TransitGrid::new().stop_visits(&Vec::new()).unwrap().is_empty());
}
