//! The feed: six tables of comma-separated text, a header line first in
//! each. Fields are written as they are, without quoting.

use vstd::prelude::*;
use vstd::string::*;
use chrono::Datelike;
use crate::clock::{clock_string, clock_text};
use crate::network::{
    route_views, stop_views, GridRoute, GridStop, GridView, RouteView, StopView, TransitGrid,
};
use crate::schedule::{
    grid_trips, grid_visits, legs_fit, minute_lists, parent_route_id, trip_views, visit_views,
    StopVisit, StopVisitView, Trip, TripView,
};
use crate::text::{decimal_string, decimal_text, join_lines, joined_text, padded_string, padded_text, texts};

verus! {

/// Where a stop lies, as the decimal texts of its latitude and longitude
/// in degrees.
#[derive(Debug)]
pub struct Coordinates {
    pub latitude: String,
    pub longitude: String,
}

/// What coordinates hold, as plain values.
pub struct CoordinatesView {
    pub latitude: Seq<char>,
    pub longitude: Seq<char>,
}

impl View for Coordinates {
    type V = CoordinatesView;

    open spec fn view(&self) -> CoordinatesView {
        CoordinatesView { latitude: self.latitude@, longitude: self.longitude@ }
    }
}

/// The views of the coordinates, in the same order.
pub open spec fn coordinate_views(coordinates: Seq<Coordinates>) -> Seq<CoordinatesView> {
    coordinates.map_values(|c: Coordinates| c@)
}

/// The header of the stops table.
pub open spec fn stops_header() -> Seq<char> {
    "stop_id,stop_name,stop_lat,stop_lon"@
}

/// The header of the routes table.
pub open spec fn routes_header() -> Seq<char> {
    "route_id,route_short_name,route_long_name,route_type"@
}

/// The header of the trips table.
pub open spec fn trips_header() -> Seq<char> {
    "route_id,service_id,trip_id,direction_id"@
}

/// The header of the stop times table.
pub open spec fn stop_times_header() -> Seq<char> {
    "trip_id,arrival_time,departure_time,stop_id,stop_sequence"@
}

/// The header of the calendar table.
pub open spec fn calendar_header() -> Seq<char> {
    "service_id,monday,tuesday,wednesday,thursday,friday,saturday,sunday,start_date,end_date"@
}

/// The header of the agency table.
pub open spec fn agency_header() -> Seq<char> {
    "agency_id,agency_name,agency_url,agency_timezone"@
}

/// The one agency of every feed.
pub open spec fn agency_line_text() -> Seq<char> {
    "AGENCY,GridForge Transit,http://example.com,America/New_York"@
}

/// The line of a stop: identifier, name, latitude, longitude.
pub open spec fn stop_line_text(stop: StopView, at: CoordinatesView) -> Seq<char> {
    stop.id + ","@ + stop.name + ","@ + at.latitude + ","@ + at.longitude
}

/// The line of a route: parent identifier, the name as short name, no long
/// name, and the type of a bus route.
pub open spec fn route_line_text(route: RouteView) -> Seq<char> {
    parent_route_id(route.id) + ","@ + route.name + ",,3"@
}

/// The line of a trip: route, the weekday service, trip and direction.
pub open spec fn trip_line_text(trip: TripView) -> Seq<char> {
    trip.route_id + ",WEEKDAY,"@ + trip.trip_id + ","@ + decimal_text(trip.direction_id as nat)
}

/// The line of a stop visit: trip, arrival, departure, stop and the place
/// of the stop in the trip.
pub open spec fn stop_time_line_text(visit: StopVisitView) -> Seq<char> {
    visit.trip_id + ","@ + clock_text(visit.arrival as nat) + ","@ + clock_text(
        visit.departure as nat,
    ) + ","@ + visit.stop_id + ","@ + decimal_text(visit.stop_sequence as nat)
}

/// A year in at least four characters: leading zeros where it is short,
/// and a minus sign in the first place where it is negative.
pub open spec fn year_text(year: int) -> Seq<char> {
    if year >= 0 {
        padded_text(year as nat, 4)
    } else {
        "-"@ + padded_text((-year) as nat, 3)
    }
}

/// The line of the weekday service: Monday to Friday, from the first to
/// the last day of the year.
pub open spec fn calendar_line_text(year: int) -> Seq<char> {
    "WEEKDAY,1,1,1,1,1,0,0,"@ + year_text(year) + "0101,"@ + year_text(year) + "1231"@
}

/// The lines of the stops, in the order of the stops.
pub open spec fn stop_lines(stops: Seq<StopView>, coordinates: Seq<CoordinatesView>) -> Seq<
    Seq<char>,
> {
    Seq::new(stops.len(), |i: int| stop_line_text(stops[i], coordinates[i]))
}

/// Whether no route before the one at `r` has the same parent identifier.
pub open spec fn is_first_of_parent(routes: Seq<RouteView>, r: int) -> bool {
    forall|j: int|
        0 <= j < r ==> parent_route_id((#[trigger] routes[j]).id) != parent_route_id(routes[r].id)
}

/// The lines of the routes: one for each parent identifier, written for
/// the first route that has it. Identifiers are compared as wholes.
pub open spec fn route_lines(routes: Seq<RouteView>) -> Seq<Seq<char>>
    decreases routes.len(),
{
    if routes.len() == 0 {
        Seq::empty()
    } else if is_first_of_parent(routes, routes.len() - 1) {
        route_lines(routes.drop_last()).push(route_line_text(routes.last()))
    } else {
        route_lines(routes.drop_last())
    }
}

/// The lines of the trips, in the same order.
pub open spec fn trip_lines(trips: Seq<TripView>) -> Seq<Seq<char>> {
    trips.map_values(|t: TripView| trip_line_text(t))
}

/// The lines of the stop visits, in the same order.
pub open spec fn stop_time_lines(visits: Seq<StopVisitView>) -> Seq<Seq<char>> {
    visits.map_values(|v: StopVisitView| stop_time_line_text(v))
}

/// The tables of a feed, each as its lines.
#[derive(Debug)]
pub struct Feed {
    pub stops: Vec<String>,
    pub routes: Vec<String>,
    pub trips: Vec<String>,
    pub stop_times: Vec<String>,
    pub calendar: Vec<String>,
    pub agency: Vec<String>,
}

/// What a feed holds, as plain values.
pub struct FeedView {
    pub stops: Seq<Seq<char>>,
    pub routes: Seq<Seq<char>>,
    pub trips: Seq<Seq<char>>,
    pub stop_times: Seq<Seq<char>>,
    pub calendar: Seq<Seq<char>>,
    pub agency: Seq<Seq<char>>,
}

impl View for Feed {
    type V = FeedView;

    open spec fn view(&self) -> FeedView {
        FeedView {
            stops: texts(self.stops@),
            routes: texts(self.routes@),
            trips: texts(self.trips@),
            stop_times: texts(self.stop_times@),
            calendar: texts(self.calendar@),
            agency: texts(self.agency@),
        }
    }
}

/// One file of a feed: its name and its text.
#[derive(Debug)]
pub struct FeedFile {
    pub name: String,
    pub content: String,
}

/// What a file of a feed holds, as plain values.
pub struct FeedFileView {
    pub name: Seq<char>,
    pub content: Seq<char>,
}

impl View for FeedFile {
    type V = FeedFileView;

    open spec fn view(&self) -> FeedFileView {
        FeedFileView { name: self.name@, content: self.content@ }
    }
}

/// The views of the files, in the same order.
pub open spec fn file_views(files: Seq<FeedFile>) -> Seq<FeedFileView> {
    files.map_values(|f: FeedFile| f@)
}

/// The files of a feed, in the order in which they are written: each
/// table under its fixed name, its lines joined by line feeds.
pub open spec fn files_of(feed: FeedView) -> Seq<FeedFileView> {
    seq![
        FeedFileView { name: "stops.txt"@, content: joined_text(feed.stops) },
        FeedFileView { name: "routes.txt"@, content: joined_text(feed.routes) },
        FeedFileView { name: "trips.txt"@, content: joined_text(feed.trips) },
        FeedFileView { name: "stop_times.txt"@, content: joined_text(feed.stop_times) },
        FeedFileView { name: "calendar.txt"@, content: joined_text(feed.calendar) },
        FeedFileView { name: "agency.txt"@, content: joined_text(feed.agency) },
    ]
}

impl Feed {
    /// The files of the feed, in the order in which they are written.
    pub fn files(&self) -> (files: Vec<FeedFile>)
        ensures
            file_views(files@) == files_of(self@),
    {
        let mut files: Vec<FeedFile> = Vec::new();
        files.push(
            FeedFile { name: String::from_str("stops.txt"), content: join_lines(&self.stops) },
        );
        files.push(
            FeedFile { name: String::from_str("routes.txt"), content: join_lines(&self.routes) },
        );
        files.push(
            FeedFile { name: String::from_str("trips.txt"), content: join_lines(&self.trips) },
        );
        files.push(
            FeedFile {
                name: String::from_str("stop_times.txt"),
                content: join_lines(&self.stop_times),
            },
        );
        files.push(
            FeedFile {
                name: String::from_str("calendar.txt"),
                content: join_lines(&self.calendar),
            },
        );
        files.push(
            FeedFile { name: String::from_str("agency.txt"), content: join_lines(&self.agency) },
        );
        assert(file_views(files@) =~= files_of(self@));
        files
    }
}

/// The stops table of a network whose stops lie at the given coordinates.
pub open spec fn stops_table_of(grid: GridView, coordinates: Seq<CoordinatesView>) -> Seq<
    Seq<char>,
> {
    seq![stops_header()] + stop_lines(grid.stops, coordinates)
}

/// The routes table of a network.
pub open spec fn routes_table_of(grid: GridView) -> Seq<Seq<char>> {
    seq![routes_header()] + route_lines(grid.routes)
}

/// The trips table of a network.
pub open spec fn trips_table_of(grid: GridView) -> Seq<Seq<char>> {
    seq![trips_header()] + trip_lines(grid_trips(grid))
}

/// The stop times table of a network whose legs take the given minutes.
pub open spec fn stop_times_table_of(grid: GridView, legs: Seq<Seq<int>>) -> Seq<Seq<char>> {
    seq![stop_times_header()] + stop_time_lines(grid_visits(grid, legs))
}

/// The calendar table for a year.
pub open spec fn calendar_table_of(year: int) -> Seq<Seq<char>> {
    seq![calendar_header(), calendar_line_text(year)]
}

/// The agency table.
pub open spec fn agency_table_of() -> Seq<Seq<char>> {
    seq![agency_header(), agency_line_text()]
}

/// Whether the coordinates and the travel times fit the network: one pair
/// of coordinates for each stop, and for each route one travel time for
/// each of its legs.
pub open spec fn feed_inputs_fit(
    grid: GridView,
    coordinates: Seq<CoordinatesView>,
    legs: Seq<Seq<int>>,
) -> bool {
    coordinates.len() == grid.stops.len() && legs_fit(grid, legs)
}

/// The feed of a network in a year.
pub open spec fn feed_of(
    grid: GridView,
    coordinates: Seq<CoordinatesView>,
    legs: Seq<Seq<int>>,
    year: int,
) -> FeedView {
    FeedView {
        stops: stops_table_of(grid, coordinates),
        routes: routes_table_of(grid),
        trips: trips_table_of(grid),
        stop_times: stop_times_table_of(grid, legs),
        calendar: calendar_table_of(year),
        agency: agency_table_of(),
    }
}

/// The year enters a feed through its calendar only: the feeds of one
/// network in two years agree in every other table, and in one year they
/// agree in all.
pub proof fn feed_depends_on_year_in_calendar_only(
    grid: GridView,
    coordinates: Seq<CoordinatesView>,
    legs: Seq<Seq<int>>,
    year: int,
    other_year: int,
)
    ensures
        feed_of(grid, coordinates, legs, year).stops == feed_of(
            grid,
            coordinates,
            legs,
            other_year,
        ).stops,
        feed_of(grid, coordinates, legs, year).routes == feed_of(
            grid,
            coordinates,
            legs,
            other_year,
        ).routes,
        feed_of(grid, coordinates, legs, year).trips == feed_of(
            grid,
            coordinates,
            legs,
            other_year,
        ).trips,
        feed_of(grid, coordinates, legs, year).stop_times == feed_of(
            grid,
            coordinates,
            legs,
            other_year,
        ).stop_times,
        feed_of(grid, coordinates, legs, year).agency == feed_of(
            grid,
            coordinates,
            legs,
            other_year,
        ).agency,
        year == other_year ==> feed_of(grid, coordinates, legs, year) == feed_of(
            grid,
            coordinates,
            legs,
            other_year,
        ),
{
}

/// Writes the line of a stop.
pub fn stop_line(stop: &GridStop, at: &Coordinates) -> (line: String)
    ensures
        line@ == stop_line_text(stop@, at@),
{
    let mut line = stop.id.clone();
    line.append(",");
    line.append(stop.name.as_str());
    line.append(",");
    line.append(at.latitude.as_str());
    line.append(",");
    line.append(at.longitude.as_str());
    line
}

/// Writes the line of a route.
pub fn route_line(route: &GridRoute) -> (line: String)
    ensures
        line@ == route_line_text(route@),
{
    let mut line = route.parent_id();
    line.append(",");
    line.append(route.name.as_str());
    line.append(",,3");
    line
}

/// Writes the line of a trip.
pub fn trip_line(trip: &Trip) -> (line: String)
    ensures
        line@ == trip_line_text(trip@),
{
    let mut line = trip.route_id.clone();
    line.append(",WEEKDAY,");
    line.append(trip.trip_id.as_str());
    line.append(",");
    line.append(decimal_string(trip.direction_id as u128).as_str());
    line
}

/// Writes the line of a stop visit.
pub fn stop_time_line(visit: &StopVisit) -> (line: String)
    ensures
        line@ == stop_time_line_text(visit@),
{
    let mut line = visit.trip_id.clone();
    line.append(",");
    line.append(clock_string(visit.arrival).as_str());
    line.append(",");
    line.append(clock_string(visit.departure).as_str());
    line.append(",");
    line.append(visit.stop_id.as_str());
    line.append(",");
    line.append(decimal_string(visit.stop_sequence as u128).as_str());
    line
}

/// Writes a year in at least four characters.
pub fn year_string(year: i32) -> (s: String)
    ensures
        s@ == year_text(year as int),
{
    if year >= 0 {
        padded_string(year as u128, 4)
    } else {
        let mut s = String::from_str("-");
        s.append(padded_string((-(year as i64)) as u128, 3).as_str());
        s
    }
}

/// The calendar table for a year: the header and the weekday service.
pub fn calendar_table(year: i32) -> (table: Vec<String>)
    ensures
        texts(table@) == calendar_table_of(year as int),
{
    let year_part = year_string(year);
    let mut line = String::from_str("WEEKDAY,1,1,1,1,1,0,0,");
    line.append(year_part.as_str());
    line.append("0101,");
    line.append(year_part.as_str());
    line.append("1231");
    let mut table: Vec<String> = Vec::new();
    table.push(
        String::from_str(
            "service_id,monday,tuesday,wednesday,thursday,friday,saturday,sunday,start_date,end_date",
        ),
    );
    table.push(line);
    assert(texts(table@) =~= calendar_table_of(year as int));
    table
}

/// The agency table: the header and the one agency.
pub fn agency_table() -> (table: Vec<String>)
    ensures
        texts(table@) == agency_table_of(),
{
    let mut table: Vec<String> = Vec::new();
    table.push(String::from_str("agency_id,agency_name,agency_url,agency_timezone"));
    table.push(String::from_str("AGENCY,GridForge Transit,http://example.com,America/New_York"));
    assert(texts(table@) =~= agency_table_of());
    table
}

/// `chrono::Local::now` reads the system clock and the local time zone,
/// and `Datelike::year` gives the calendar year of that moment. The result
/// changes with the clock, so nothing is claimed of it.
#[verifier::external_body]
fn current_year() -> i32 {
    chrono::Local::now().year()
}

/// The parent identifier of each route, in the same order.
fn parent_ids(routes: &Vec<GridRoute>) -> (parents: Vec<String>)
    ensures
        parents.len() == routes.len(),
        forall|r: int| 0 <= r < routes.len() ==> (#[trigger] parents[r])@ == parent_route_id(routes[r].id@),
{
    let mut parents: Vec<String> = Vec::new();
    let mut r: usize = 0;
    while r < routes.len()
        invariant
            r <= routes.len(),
            parents.len() == r,
            forall|j: int| 0 <= j < r ==> (#[trigger] parents[j])@ == parent_route_id(routes[j].id@),
        decreases routes.len() - r,
    {
        parents.push(routes[r].parent_id());
        r += 1;
    }
    parents
}

impl TransitGrid {
    /// The stops table, where `coordinates` holds for each stop, in the
    /// order of `stops`, where it lies. Without one pair of coordinates for
    /// each stop there is no result.
    pub fn stops_table(&self, coordinates: &Vec<Coordinates>) -> (table: Option<Vec<String>>)
        ensures
            table is Some <==> coordinates.len() == self@.stops.len(),
            table matches Some(t) ==> texts(t@) == stops_table_of(
                self@,
                coordinate_views(coordinates@),
            ),
    {
        let stops = self.stops();
        assert(stop_views(stops@).len() == stops@.len());
        if coordinates.len() != stops.len() {
            return None;
        }
        let ghost lines = stop_lines(self@.stops, coordinate_views(coordinates@));
        let mut table: Vec<String> = Vec::new();
        table.push(String::from_str("stop_id,stop_name,stop_lat,stop_lon"));
        let mut i: usize = 0;
        while i < stops.len()
            invariant
                i <= stops.len(),
                coordinates.len() == stops.len(),
                stop_views(stops@) == self@.stops,
                lines == stop_lines(self@.stops, coordinate_views(coordinates@)),
                texts(table@) == seq![stops_header()] + lines.take(i as int),
            decreases stops.len() - i,
        {
            assert(stops[i as int]@ == self@.stops[i as int]);
            let line = stop_line(&stops[i], &coordinates[i]);
            assert(line@ == lines[i as int]);
            let ghost before = texts(table@);
            table.push(line);
            assert(texts(table@) =~= before.push(lines[i as int]));
            assert(lines.take(i + 1) =~= lines.take(i as int).push(lines[i as int]));
            assert(before.push(lines[i as int]) =~= seq![stops_header()] + lines.take(i + 1));
            i += 1;
        }
        assert(lines.take(i as int) =~= lines);
        Some(table)
    }

    /// The routes table: one line for each parent identifier, so that the
    /// two directions of a route share a line.
    pub fn routes_table(&self) -> (table: Vec<String>)
        ensures
            texts(table@) == routes_table_of(self@),
    {
        let routes = self.routes();
        let parents = parent_ids(routes);
        let ghost all = self@.routes;
        let mut table: Vec<String> = Vec::new();
        table.push(String::from_str("route_id,route_short_name,route_long_name,route_type"));
        let mut r: usize = 0;
        assert(all.take(0) =~= Seq::empty());
        while r < routes.len()
            invariant
                r <= routes.len(),
                all == self@.routes,
                route_views(routes@) == all,
                parents.len() == routes.len(),
                forall|j: int|
                    0 <= j < routes.len() ==> (#[trigger] parents[j])@ == parent_route_id(
                        routes[j].id@,
                    ),
                texts(table@) == seq![routes_header()] + route_lines(all.take(r as int)),
            decreases routes.len() - r,
        {
            let ghost upto = all.take(r + 1);
            assert(upto.drop_last() =~= all.take(r as int));
            assert(routes[r as int]@ == all[r as int]);
            let mut first = true;
            let mut j: usize = 0;
            while j < r
                invariant
                    j <= r,
                    r < routes.len(),
                    parents.len() == routes.len(),
                    first <==> forall|k: int|
                        0 <= k < j ==> (#[trigger] parents[k])@ != parents[r as int]@,
                decreases r - j,
            {
                if parents[j] == parents[r] {
                    first = false;
                }
                j += 1;
            }
            proof {
                assert forall|k: int| 0 <= k < r implies parent_route_id((#[trigger] upto[k]).id)
                    == parents[k]@ by {
                    assert(routes[k]@ == all[k]);
                }
                assert(parent_route_id(upto[r as int].id) == parents[r as int]@);
                if first {
                    assert(is_first_of_parent(upto, r as int));
                } else {
                    let k = choose|k: int| 0 <= k < r && (#[trigger] parents[k])@ == parents[r as int]@;
                    assert(parent_route_id(upto[k].id) == parent_route_id(upto[r as int].id));
                    assert(!is_first_of_parent(upto, r as int));
                }
            }
            if first {
                let line = route_line(&routes[r]);
                let ghost before = texts(table@);
                table.push(line);
                assert(texts(table@) =~= before.push(route_line_text(upto.last())));
                assert(before.push(route_line_text(upto.last())) =~= seq![routes_header()]
                    + route_lines(upto));
            }
            r += 1;
        }
        assert(all.take(r as int) =~= all);
        table
    }

    /// The trips table: one line for each trip of each route.
    pub fn trips_table(&self) -> (table: Vec<String>)
        ensures
            texts(table@) == trips_table_of(self@),
    {
        let trips = self.trips();
        let ghost lines = trip_lines(grid_trips(self@));
        let mut table: Vec<String> = Vec::new();
        table.push(String::from_str("route_id,service_id,trip_id,direction_id"));
        let mut i: usize = 0;
        while i < trips.len()
            invariant
                i <= trips.len(),
                trip_views(trips@) == grid_trips(self@),
                lines == trip_lines(grid_trips(self@)),
                texts(table@) == seq![trips_header()] + lines.take(i as int),
            decreases trips.len() - i,
        {
            assert(trips[i as int]@ == grid_trips(self@)[i as int]);
            let line = trip_line(&trips[i]);
            let ghost before = texts(table@);
            table.push(line);
            assert(texts(table@) =~= before.push(lines[i as int]));
            assert(lines.take(i + 1) =~= lines.take(i as int).push(lines[i as int]));
            assert(before.push(lines[i as int]) =~= seq![trips_header()] + lines.take(i + 1));
            i += 1;
        }
        assert(lines.take(i as int) =~= lines);
        table
    }

    /// The stop times table: one line for each visit of each trip at a
    /// stop, where `legs` holds for each route the travel time of each of
    /// its legs in minutes. Where `legs` does not fit the routes, there is
    /// no result.
    pub fn stop_times_table(&self, legs: &Vec<Vec<u32>>) -> (table: Option<Vec<String>>)
        ensures
            table is Some <==> legs_fit(self@, minute_lists(legs@)),
            table matches Some(t) ==> texts(t@) == stop_times_table_of(
                self@,
                minute_lists(legs@),
            ),
    {
        let visits = match self.stop_visits(legs) {
            Some(v) => v,
            None => {
                return None;
            },
        };
        let ghost all = grid_visits(self@, minute_lists(legs@));
        let ghost lines = stop_time_lines(all);
        let mut table: Vec<String> = Vec::new();
        table.push(
            String::from_str("trip_id,arrival_time,departure_time,stop_id,stop_sequence"),
        );
        let mut i: usize = 0;
        while i < visits.len()
            invariant
                i <= visits.len(),
                visit_views(visits@) == all,
                lines == stop_time_lines(all),
                texts(table@) == seq![stop_times_header()] + lines.take(i as int),
            decreases visits.len() - i,
        {
            assert(visits[i as int]@ == all[i as int]);
            let line = stop_time_line(&visits[i]);
            let ghost before = texts(table@);
            table.push(line);
            assert(texts(table@) =~= before.push(lines[i as int]));
            assert(lines.take(i + 1) =~= lines.take(i as int).push(lines[i as int]));
            assert(before.push(lines[i as int]) =~= seq![stop_times_header()] + lines.take(
                i + 1,
            ));
            i += 1;
        }
        assert(lines.take(i as int) =~= lines);
        Some(table)
    }

    /// The feed of the network in the given year, where `coordinates`
    /// holds where each stop lies and `legs` the travel time of each leg
    /// of each route. Where either does not fit the network, there is no
    /// result.
    pub fn feed(&self, coordinates: &Vec<Coordinates>, legs: &Vec<Vec<u32>>, year: i32) -> (feed:
        Option<Feed>)
        ensures
            feed is Some <==> feed_inputs_fit(
                self@,
                coordinate_views(coordinates@),
                minute_lists(legs@),
            ),
            feed matches Some(f) ==> f@ == feed_of(
                self@,
                coordinate_views(coordinates@),
                minute_lists(legs@),
                year as int,
            ),
    {
        let stops = match self.stops_table(coordinates) {
            Some(t) => t,
            None => {
                return None;
            },
        };
        let stop_times = match self.stop_times_table(legs) {
            Some(t) => t,
            None => {
                return None;
            },
        };
        Some(
            Feed {
                stops,
                routes: self.routes_table(),
                trips: self.trips_table(),
                stop_times,
                calendar: calendar_table(year),
                agency: agency_table(),
            },
        )
    }

    /// The feed of the network in the current year of the local calendar.
    /// It is there exactly where `feed` would give one. Every table but the
    /// calendar is the same whenever the feed is generated; the calendar is
    /// that of some year.
    pub fn generate_gtfs(&self, coordinates: &Vec<Coordinates>, legs: &Vec<Vec<u32>>) -> (feed:
        Option<Feed>)
        ensures
            feed is Some <==> feed_inputs_fit(
                self@,
                coordinate_views(coordinates@),
                minute_lists(legs@),
            ),
            feed matches Some(f) ==> {
                &&& f@.stops == stops_table_of(self@, coordinate_views(coordinates@))
                &&& f@.routes == routes_table_of(self@)
                &&& f@.trips == trips_table_of(self@)
                &&& f@.stop_times == stop_times_table_of(self@, minute_lists(legs@))
                &&& f@.agency == agency_table_of()
                &&& exists|year: i32| f@.calendar == #[trigger] calendar_table_of(year as int)
            },
    {
        let year = current_year();
        self.feed(coordinates, legs, year)
    }
}

} // verus!
