//! Expansion of routes into trips: one trip every `frequency` minutes from
//! a first departure until the service day ends.

use vstd::prelude::*;
use vstd::string::*;
use vstd::arithmetic::div_mod::lemma_fundamental_div_mod;
use vstd::arithmetic::mul::{lemma_mul_inequality, lemma_mul_is_commutative};
use crate::network::{
    forward_route, reverse_marker, reverse_route, reverse_route_mirrors_forward, route_views,
    stop_views, GridRoute, GridView, RouteView, TransitGrid,
};
use crate::position::GridPosition;
use crate::text::{
    decimal_string, decimal_text, decimal_text_is_digits, decimal_text_is_injective, digit_char,
    ends_with, has_suffix, is_digit, strip_suffix, without_last,
};

verus! {

/// No route runs more trips than this from one first departure.
pub const MAX_TRIPS_PER_ROUTE: usize = 300;

/// No trip departs at or after this time: 23:59:00, in seconds after
/// midnight.
pub const SERVICE_END_SECONDS: u64 = 86340;

/// Whether a route identifier is that of a reverse direction.
pub open spec fn has_reverse_marker(id: Seq<char>) -> bool {
    has_suffix(id, reverse_marker())
}

/// The identifier that both directions of a route share: the route's own
/// without the reverse marker.
pub open spec fn parent_route_id(id: Seq<char>) -> Seq<char> {
    if has_reverse_marker(id) {
        without_last(id, reverse_marker().len())
    } else {
        id
    }
}

/// The direction of a route: 1 for a reverse direction, else 0.
pub open spec fn direction_of(id: Seq<char>) -> int {
    if has_reverse_marker(id) {
        1
    } else {
        0
    }
}

/// The identifier of a trip: parent route, index of the trip and
/// direction.
pub open spec fn trip_id_text(parent: Seq<char>, index: nat, direction: nat) -> Seq<char> {
    parent + "_"@ + decimal_text(index) + "_dir"@ + decimal_text(direction)
}

/// The number of trips from a first departure: one for each multiple of
/// the frequency after it that falls before the end of service, and no more
/// than the cap.
pub open spec fn trip_count(first_departure: int, frequency: int) -> nat
    recommends
        frequency > 0,
{
    if first_departure >= SERVICE_END_SECONDS {
        0
    } else {
        let period = frequency * 60;
        let before_end = (SERVICE_END_SECONDS - first_departure + period - 1) / period;
        if before_end >= MAX_TRIPS_PER_ROUTE {
            MAX_TRIPS_PER_ROUTE as nat
        } else {
            before_end as nat
        }
    }
}

/// When the trip of the given index departs, in seconds after midnight.
pub open spec fn trip_departure(first_departure: int, frequency: int, index: int) -> int {
    first_departure + index * (frequency * 60)
}

/// A trip runs exactly where its index is below the cap and its departure
/// before the end of service: `trip_count` counts those trips.
pub proof fn trip_count_counts_departures(first_departure: int, frequency: int, index: int)
    requires
        frequency > 0,
        index >= 0,
    ensures
        index < trip_count(first_departure, frequency) <==> (index < MAX_TRIPS_PER_ROUTE
            && trip_departure(first_departure, frequency, index) < SERVICE_END_SECONDS),
{
    let period = frequency * 60;
    if first_departure >= SERVICE_END_SECONDS {
        assert(index * period >= 0) by (nonlinear_arith)
            requires
                index >= 0,
                period > 0,
        ;
    } else {
        let span = SERVICE_END_SECONDS - first_departure;
        let before_end = (span + period - 1) / period;
        lemma_fundamental_div_mod(span + period - 1, period);
        lemma_mul_is_commutative(period, before_end);
        assert(0 <= (span + period - 1) % period < period);
        if index < before_end {
            lemma_mul_inequality(index + 1, before_end, period);
            assert((index + 1) * period == index * period + period) by (nonlinear_arith);
        } else {
            lemma_mul_inequality(before_end, index, period);
        }
    }
}

/// The trips of a route's reverse direction run in direction 1 under the
/// identifier of the forward route. Those of the forward direction run in
/// direction 0 under the same identifier, unless that identifier itself
/// ends in the reverse marker.
pub proof fn directions_of_a_route(
    id: Seq<char>,
    name: Seq<char>,
    stops: Seq<Seq<char>>,
    first_departure: int,
    frequency: int,
    index: int,
)
    requires
        frequency > 0,
    ensures
        trip_of(reverse_route(id, name, stops, first_departure, frequency), index).direction_id
            == 1,
        trip_of(reverse_route(id, name, stops, first_departure, frequency), index).route_id == id,
        !has_reverse_marker(id) ==> trip_of(
            forward_route(id, name, stops, first_departure, frequency),
            index,
        ).direction_id == 0,
        !has_reverse_marker(id) ==> trip_of(
            forward_route(id, name, stops, first_departure, frequency),
            index,
        ).route_id == id,
{
    reverse_route_mirrors_forward(id, name, stops, first_departure, frequency);
}

/// `text` ends with the numeral of `index` after an underscore that follows
/// `parent`, and such a text has one parent and one index only.
proof fn indexed_parent_is_unique(
    parent: Seq<char>,
    index: nat,
    other_parent: Seq<char>,
    other_index: nat,
)
    requires
        parent + seq!['_'] + decimal_text(index) == other_parent + seq!['_'] + decimal_text(
            other_index,
        ),
        decimal_text(index).len() <= decimal_text(other_index).len(),
    ensures
        parent == other_parent,
        index == other_index,
{
    let numeral = decimal_text(index);
    let other_numeral = decimal_text(other_index);
    let text = parent + seq!['_'] + numeral;
    let other_text = other_parent + seq!['_'] + other_numeral;
    decimal_text_is_digits(index);
    decimal_text_is_digits(other_index);
    if numeral.len() < other_numeral.len() {
        let at = text.len() - numeral.len() - 1;
        assert(text[at] == '_');
        assert(other_text[at] == other_numeral[at - (other_text.len() - other_numeral.len())]);
        assert(is_digit(other_text[at]));
    }
    assert(numeral =~= text.subrange(text.len() - numeral.len(), text.len() as int));
    assert(other_numeral =~= other_text.subrange(
        other_text.len() - other_numeral.len(),
        other_text.len() as int,
    ));
    decimal_text_is_injective(index, other_index);
    assert(parent =~= text.subrange(0, text.len() - numeral.len() - 1));
    assert(other_parent =~= other_text.subrange(0, other_text.len() - other_numeral.len() - 1));
}

/// Trips that differ in parent route, index or direction differ in their
/// identifier. Directions are single digits.
pub proof fn trip_ids_are_distinct(
    parent: Seq<char>,
    index: nat,
    direction: nat,
    other_parent: Seq<char>,
    other_index: nat,
    other_direction: nat,
)
    requires
        direction < 10,
        other_direction < 10,
        trip_id_text(parent, index, direction) == trip_id_text(
            other_parent,
            other_index,
            other_direction,
        ),
    ensures
        parent == other_parent,
        index == other_index,
        direction == other_direction,
{
    reveal_strlit("_");
    reveal_strlit("_dir");
    let id = trip_id_text(parent, index, direction);
    let other_id = trip_id_text(other_parent, other_index, other_direction);
    let front = parent + seq!['_'] + decimal_text(index);
    let other_front = other_parent + seq!['_'] + decimal_text(other_index);
    assert("_"@ =~= seq!['_']);
    assert("_dir"@.len() == 4);
    assert(id.last() == digit_char(direction as int));
    assert(other_id.last() == digit_char(other_direction as int));
    assert(front =~= id.subrange(0, id.len() - 5));
    assert(other_front =~= other_id.subrange(0, other_id.len() - 5));
    if decimal_text(index).len() <= decimal_text(other_index).len() {
        indexed_parent_is_unique(parent, index, other_parent, other_index);
    } else {
        indexed_parent_is_unique(other_parent, other_index, parent, index);
    }
}

/// One scheduled run of a route.
#[derive(Debug)]
pub struct Trip {
    pub route_id: String,
    pub trip_id: String,
    pub direction_id: u8,
}

/// What a trip holds, as plain values.
pub struct TripView {
    pub route_id: Seq<char>,
    pub trip_id: Seq<char>,
    pub direction_id: int,
}

impl View for Trip {
    type V = TripView;

    open spec fn view(&self) -> TripView {
        TripView {
            route_id: self.route_id@,
            trip_id: self.trip_id@,
            direction_id: self.direction_id as int,
        }
    }
}

/// The views of the trips, in the same order.
pub open spec fn trip_views(trips: Seq<Trip>) -> Seq<TripView> {
    trips.map_values(|t: Trip| t@)
}

/// The identifier of the trip of the given index on a route.
pub open spec fn trip_id_of(route: RouteView, index: int) -> Seq<char> {
    trip_id_text(parent_route_id(route.id), index as nat, direction_of(route.id) as nat)
}

/// The trip of the given index on a route.
pub open spec fn trip_of(route: RouteView, index: int) -> TripView {
    TripView {
        route_id: parent_route_id(route.id),
        trip_id: trip_id_of(route, index),
        direction_id: direction_of(route.id),
    }
}

/// The trips of a route from one first departure, in order of departure.
pub open spec fn trips_from(route: RouteView, first_departure: int) -> Seq<TripView> {
    Seq::new(trip_count(first_departure, route.frequency), |index: int| trip_of(route, index))
}

/// The trips of a route, grouped by first departure.
pub open spec fn trips_by_departure(route: RouteView) -> Seq<Seq<TripView>> {
    Seq::new(route.schedule.len(), |e: int| trips_from(route, route.schedule[e]))
}

/// The trips of a route: those from its first first departure, then those
/// from the next, and so on.
pub open spec fn route_trips(route: RouteView) -> Seq<TripView> {
    trips_by_departure(route).flatten()
}

/// One call of a trip at a stop. Nothing dwells: a trip departs from a
/// stop at the second at which it arrives.
#[derive(Debug)]
pub struct StopVisit {
    pub trip_id: String,
    pub arrival: u128,
    pub departure: u128,
    pub stop_id: String,
    pub stop_sequence: usize,
}

/// What a stop visit holds, as plain values.
pub struct StopVisitView {
    pub trip_id: Seq<char>,
    pub arrival: int,
    pub departure: int,
    pub stop_id: Seq<char>,
    pub stop_sequence: int,
}

impl View for StopVisit {
    type V = StopVisitView;

    open spec fn view(&self) -> StopVisitView {
        StopVisitView {
            trip_id: self.trip_id@,
            arrival: self.arrival as int,
            departure: self.departure as int,
            stop_id: self.stop_id@,
            stop_sequence: self.stop_sequence as int,
        }
    }
}

/// The views of the stop visits, in the same order.
pub open spec fn visit_views(visits: Seq<StopVisit>) -> Seq<StopVisitView> {
    visits.map_values(|v: StopVisit| v@)
}

/// The travel times as mathematical integers, in the same order.
pub open spec fn minutes(legs: Seq<u32>) -> Seq<int> {
    legs.map_values(|m: u32| m as int)
}

/// The number of legs between `stops` stops in a row.
pub open spec fn leg_count(stops: nat) -> nat {
    if stops == 0 {
        0
    } else {
        (stops - 1) as nat
    }
}

/// The minutes that a trip has travelled when it reaches the stop of the
/// given place in the route: the sum of the legs before it.
pub open spec fn elapsed_minutes(legs: Seq<int>, stop: int) -> int
    decreases stop,
{
    if stop <= 0 {
        0
    } else {
        elapsed_minutes(legs, stop - 1) + legs[stop - 1]
    }
}

/// The visits of one trip that departs from the first stop at the given
/// time: one at each stop, in order, each later than the one before by the
/// travel time of the leg between them.
pub open spec fn visits_of_trip(
    stops: Seq<Seq<char>>,
    legs: Seq<int>,
    trip_id: Seq<char>,
    departure: int,
) -> Seq<StopVisitView> {
    Seq::new(
        stops.len(),
        |stop: int|
            StopVisitView {
                trip_id,
                arrival: departure + 60 * elapsed_minutes(legs, stop),
                departure: departure + 60 * elapsed_minutes(legs, stop),
                stop_id: stops[stop],
                stop_sequence: stop,
            },
    )
}

/// The visits of a route's trips from one first departure, grouped by
/// trip.
pub open spec fn visits_by_trip(route: RouteView, legs: Seq<int>, first_departure: int) -> Seq<
    Seq<StopVisitView>,
> {
    Seq::new(
        trip_count(first_departure, route.frequency),
        |index: int|
            visits_of_trip(
                route.stops,
                legs,
                trip_id_of(route, index),
                trip_departure(first_departure, route.frequency, index),
            ),
    )
}

/// The visits of a route's trips, grouped by first departure.
pub open spec fn visits_by_departure(route: RouteView, legs: Seq<int>) -> Seq<Seq<StopVisitView>> {
    Seq::new(
        route.schedule.len(),
        |e: int| visits_by_trip(route, legs, route.schedule[e]).flatten(),
    )
}

/// The visits of a route's trips: trip after trip in the order of
/// `route_trips`, and within a trip stop after stop.
pub open spec fn route_visits(route: RouteView, legs: Seq<int>) -> Seq<StopVisitView> {
    visits_by_departure(route, legs).flatten()
}

/// The legs before a stop take no longer than as many legs of the longest
/// time that a leg can hold, which is 257698037700 seconds.
pub proof fn elapsed_minutes_are_bounded(legs: Seq<u32>, stop: int)
    requires
        0 <= stop <= legs.len(),
    ensures
        0 <= 60 * elapsed_minutes(minutes(legs), stop) <= stop * 257698037700,
    decreases stop,
{
    if stop > 0 {
        elapsed_minutes_are_bounded(legs, stop - 1);
        assert(minutes(legs)[stop - 1] == legs[stop - 1]);
    }
}

/// The way from one stop of a route to the next.
#[derive(Clone, Copy, Debug)]
pub struct Leg {
    pub from: GridPosition,
    pub to: GridPosition,
}

/// The legs of a route over the stops with the given identifiers.
pub open spec fn legs_between(grid: GridView, stops: Seq<Seq<char>>) -> Seq<Leg> {
    Seq::new(
        leg_count(stops.len()),
        |i: int| Leg { from: grid.position_of(stops[i]), to: grid.position_of(stops[i + 1]) },
    )
}

/// The legs of each route of the network.
pub open spec fn grid_legs(grid: GridView) -> Seq<Seq<Leg>> {
    Seq::new(grid.routes.len(), |r: int| legs_between(grid, grid.routes[r].stops))
}

/// The views of the lists of legs, in the same order.
pub open spec fn leg_lists(legs: Seq<Vec<Leg>>) -> Seq<Seq<Leg>> {
    legs.map_values(|l: Vec<Leg>| l@)
}

/// The travel times of each route's legs as mathematical integers.
pub open spec fn minute_lists(legs: Seq<Vec<u32>>) -> Seq<Seq<int>> {
    legs.map_values(|l: Vec<u32>| minutes(l@))
}

/// Whether `legs` holds, for each route of the network, one travel time
/// for each of its legs.
pub open spec fn legs_fit(grid: GridView, legs: Seq<Seq<int>>) -> bool {
    &&& legs.len() == grid.routes.len()
    &&& forall|r: int|
        0 <= r < legs.len() ==> (#[trigger] legs[r]).len() == leg_count(grid.routes[r].stops.len())
}

/// The trips of the network, grouped by route.
pub open spec fn trips_by_route(grid: GridView) -> Seq<Seq<TripView>> {
    Seq::new(grid.routes.len(), |r: int| route_trips(grid.routes[r]))
}

/// The trips of the network: those of its first route, then those of the
/// next, and so on.
pub open spec fn grid_trips(grid: GridView) -> Seq<TripView> {
    trips_by_route(grid).flatten()
}

/// The stop visits of the network, grouped by route.
pub open spec fn visits_by_route(grid: GridView, legs: Seq<Seq<int>>) -> Seq<Seq<StopVisitView>> {
    Seq::new(grid.routes.len(), |r: int| route_visits(grid.routes[r], legs[r]))
}

/// The stop visits of the network, in the order of its trips.
pub open spec fn grid_visits(grid: GridView, legs: Seq<Seq<int>>) -> Seq<StopVisitView> {
    visits_by_route(grid, legs).flatten()
}

/// A route with one first departure runs `trip_count` trips from it, and
/// its trip of index `index` is the one at that place.
pub proof fn trips_of_one_departure(route: RouteView, index: int)
    requires
        route.schedule.len() == 1,
    ensures
        route_trips(route).len() == trip_count(route.schedule[0], route.frequency),
        0 <= index < trip_count(route.schedule[0], route.frequency) ==> route_trips(route)[index]
            == trip_of(route, index),
{
    let groups = trips_by_departure(route);
    assert(groups =~= seq![trips_from(route, route.schedule[0])]);
    groups.lemma_flatten_one_element();
}

/// Groups of one length, laid end to end, have the length of one group
/// times their number.
pub proof fn length_of_equal_groups<A>(groups: Seq<Seq<A>>, length: nat)
    requires
        forall|g: int| 0 <= g < groups.len() ==> (#[trigger] groups[g]).len() == length,
    ensures
        groups.flatten().len() == groups.len() * length,
    decreases groups.len(),
{
    if groups.len() > 0 {
        let front = groups.drop_last();
        assert(groups =~= front.push(groups.last()));
        front.lemma_flatten_push(groups.last());
        length_of_equal_groups(front, length);
        assert((front.len() + 1) * length == front.len() * length + length) by (nonlinear_arith);
    }
}

/// Groups of one length, laid end to end: what stands at place `item` of
/// the group at place `group` stands at `group * length + item`.
pub proof fn place_in_equal_groups<A>(groups: Seq<Seq<A>>, length: nat, group: int, item: int)
    requires
        forall|g: int| 0 <= g < groups.len() ==> (#[trigger] groups[g]).len() == length,
        0 <= group < groups.len(),
        0 <= item < length,
    ensures
        0 <= group * length + item < groups.flatten().len(),
        groups.flatten()[group * length + item] == groups[group][item],
    decreases groups.len(),
{
    let front = groups.drop_last();
    assert(groups =~= front.push(groups.last()));
    front.lemma_flatten_push(groups.last());
    length_of_equal_groups(front, length);
    length_of_equal_groups(groups, length);
    assert(group * length >= 0) by (nonlinear_arith)
        requires
            group >= 0,
            length >= 0,
    ;
    if group < front.len() {
        place_in_equal_groups(front, length, group, item);
    }
}

/// A route with one first departure: its visits are as many as its trips
/// times its stops, and the visit of the trip of index `trip` at the stop
/// at place `stop` stands at `trip * stops + stop`. That visit is at the
/// trip's departure plus the minutes of the legs before the stop.
pub proof fn visits_of_one_departure(route: RouteView, legs: Seq<int>, trip: int, stop: int)
    requires
        route.schedule.len() == 1,
        0 <= trip < trip_count(route.schedule[0], route.frequency),
        0 <= stop < route.stops.len(),
    ensures
        route_visits(route, legs).len() == trip_count(route.schedule[0], route.frequency)
            * route.stops.len(),
        0 <= trip * route.stops.len() + stop < route_visits(route, legs).len(),
        route_visits(route, legs)[trip * route.stops.len() + stop] == (StopVisitView {
            trip_id: trip_id_of(route, trip),
            arrival: trip_departure(route.schedule[0], route.frequency, trip) + 60
                * elapsed_minutes(legs, stop),
            departure: trip_departure(route.schedule[0], route.frequency, trip) + 60
                * elapsed_minutes(legs, stop),
            stop_id: route.stops[stop],
            stop_sequence: stop,
        }),
{
    let by_trip = visits_by_trip(route, legs, route.schedule[0]);
    let groups = visits_by_departure(route, legs);
    assert(groups =~= seq![by_trip.flatten()]);
    groups.lemma_flatten_one_element();
    length_of_equal_groups(by_trip, route.stops.len());
    place_in_equal_groups(by_trip, route.stops.len(), trip, stop);
}

/// What stands at place `i` of groups laid end to end stands in one of the
/// groups, after all of the groups before it.
pub proof fn place_in_groups<A>(groups: Seq<Seq<A>>, i: int) -> (place: (int, int))
    requires
        0 <= i < groups.flatten().len(),
    ensures
        0 <= place.0 < groups.len(),
        0 <= place.1 < groups[place.0].len(),
        groups.flatten()[i] == groups[place.0][place.1],
        i == groups.take(place.0).flatten().len() + place.1,
    decreases groups.len(),
{
    if groups.len() == 0 {
        assert(groups.flatten().len() == 0);
        (0, 0)
    } else {
        let front = groups.drop_last();
        assert(groups =~= front.push(groups.last()));
        front.lemma_flatten_push(groups.last());
        if i < front.flatten().len() {
            let place = place_in_groups(front, i);
            assert(groups.take(place.0) =~= front.take(place.0));
            place
        } else {
            assert(groups.take(front.len() as int) =~= front);
            (front.len() as int, i - front.flatten().len())
        }
    }
}

/// Whether no two routes of the network have the same identifier.
pub open spec fn route_ids_are_distinct(grid: GridView) -> bool {
    forall|r: int, s: int|
        0 <= r < s < grid.routes.len() ==> (#[trigger] grid.routes[r]).id != (
        #[trigger] grid.routes[s]).id
}

/// An identifier is known from its parent and its direction.
pub proof fn parent_and_direction_name_the_route(id: Seq<char>, other: Seq<char>)
    requires
        parent_route_id(id) == parent_route_id(other),
        direction_of(id) == direction_of(other),
    ensures
        id == other,
{
    let marker = reverse_marker();
    if has_reverse_marker(id) {
        assert(id =~= parent_route_id(id) + marker);
        assert(other =~= parent_route_id(other) + marker);
    }
}

/// In a well-formed network whose routes have different identifiers, no
/// two trips have the same identifier.
pub proof fn trip_ids_are_unique_in_the_feed(grid: GridView, i: int, j: int)
    requires
        grid.well_formed(),
        route_ids_are_distinct(grid),
        0 <= i < j < grid_trips(grid).len(),
    ensures
        grid_trips(grid)[i].trip_id != grid_trips(grid)[j].trip_id,
{
    let groups = trips_by_route(grid);
    let first = place_in_groups(groups, i);
    let second = place_in_groups(groups, j);
    let route = grid.routes[first.0];
    let other = grid.routes[second.0];
    trips_of_one_departure(route, first.1);
    trips_of_one_departure(other, second.1);
    if grid_trips(grid)[i].trip_id == grid_trips(grid)[j].trip_id {
        trip_ids_are_distinct(
            parent_route_id(route.id),
            first.1 as nat,
            direction_of(route.id) as nat,
            parent_route_id(other.id),
            second.1 as nat,
            direction_of(other.id) as nat,
        );
        parent_and_direction_name_the_route(route.id, other.id);
    }
}

/// Writes the identifier of a trip.
pub fn trip_id(parent: &str, index: usize, direction: u8) -> (id: String)
    ensures
        id@ == trip_id_text(parent@, index as nat, direction as nat),
{
    let mut id = String::from_str(parent);
    id.append("_");
    id.append(decimal_string(index as u128).as_str());
    id.append("_dir");
    id.append(decimal_string(direction as u128).as_str());
    id
}

impl GridRoute {
    /// Whether this is the reverse direction of a route.
    pub fn is_reverse(&self) -> (reverse: bool)
        ensures
            reverse == has_reverse_marker(self.id@),
    {
        ends_with(self.id.as_str(), "_reverse")
    }

    /// The identifier that the route shares with its other direction.
    pub fn parent_id(&self) -> (parent: String)
        ensures
            parent@ == parent_route_id(self.id@),
    {
        match strip_suffix(self.id.as_str(), "_reverse") {
            Some(parent) => parent,
            None => self.id.clone(),
        }
    }

    /// The direction of the route: 1 for a reverse direction, else 0.
    pub fn direction_id(&self) -> (direction: u8)
        ensures
            direction == direction_of(self.id@),
    {
        if self.is_reverse() {
            1
        } else {
            0
        }
    }

    /// The trips of the route: from each first departure one trip every
    /// `frequency` minutes, as long as it departs before the end of service
    /// and the cap is not reached.
    pub fn trips(&self) -> (trips: Vec<Trip>)
        requires
            self.frequency > 0,
        ensures
            trip_views(trips@) == route_trips(self@),
    {
        let parent = self.parent_id();
        let direction = self.direction_id();
        let period = self.frequency as u64 * 60;
        let mut trips: Vec<Trip> = Vec::new();
        let mut e: usize = 0;
        assert(trips_by_departure(self@).take(0) =~= Seq::empty());
        while e < self.schedule.len()
            invariant
                e <= self.schedule.len(),
                self.frequency > 0,
                period == self.frequency * 60,
                parent@ == parent_route_id(self.id@),
                direction == direction_of(self.id@),
                trip_views(trips@) == trips_by_departure(self@).take(e as int).flatten(),
            decreases self.schedule.len() - e,
        {
            let first = self.schedule[e];
            let ghost base = trip_views(trips@);
            let ghost from_first = trips_from(self@, first as int);
            let mut departure = first;
            let mut index: usize = 0;
            while departure < SERVICE_END_SECONDS && index < MAX_TRIPS_PER_ROUTE
                invariant
                    self.frequency > 0,
                    period == self.frequency * 60,
                    parent@ == parent_route_id(self.id@),
                    direction == direction_of(self.id@),
                    from_first == trips_from(self@, first as int),
                    index <= MAX_TRIPS_PER_ROUTE,
                    index <= from_first.len(),
                    departure == trip_departure(first as int, self.frequency as int, index as int),
                    trip_views(trips@) == base + from_first.take(index as int),
                decreases MAX_TRIPS_PER_ROUTE - index,
            {
                proof {
                    trip_count_counts_departures(
                        first as int,
                        self.frequency as int,
                        index as int,
                    );
                    trip_count_counts_departures(
                        first as int,
                        self.frequency as int,
                        index + 1,
                    );
                }
                let trip = Trip {
                    route_id: parent.clone(),
                    trip_id: trip_id(parent.as_str(), index, direction),
                    direction_id: direction,
                };
                let ghost before = trip_views(trips@);
                let ghost added = trip@;
                assert(added == from_first[index as int]);
                trips.push(trip);
                assert(trip_views(trips@) =~= before.push(added));
                assert(from_first.take(index + 1) =~= from_first.take(index as int).push(added));
                assert(before.push(added) =~= base + from_first.take(index + 1));
                assert((index + 1) * period == index * period + period) by (nonlinear_arith);
                index += 1;
                departure += period;
            }
            proof {
                trip_count_counts_departures(first as int, self.frequency as int, index as int);
                assert(from_first.take(index as int) =~= from_first);
                let groups = trips_by_departure(self@);
                assert(groups.take(e + 1) =~= groups.take(e as int).push(from_first));
                groups.take(e as int).lemma_flatten_push(from_first);
            }
            e += 1;
        }
        assert(trips_by_departure(self@).take(e as int) =~= trips_by_departure(self@));
        trips
    }

    /// Adds the visits of one trip to `visits`.
    fn push_trip_visits(
        &self,
        legs: &Vec<u32>,
        trip_id: &str,
        departure: u64,
        visits: &mut Vec<StopVisit>,
    )
        requires
            legs.len() == leg_count(self.stops.len() as nat),
        ensures
            visit_views(final(visits)@) == visit_views(old(visits)@) + visits_of_trip(
                self@.stops,
                minutes(legs@),
                trip_id@,
                departure as int,
            ),
    {
        let ghost base = visit_views(visits@);
        let ghost of_trip = visits_of_trip(
            self@.stops,
            minutes(legs@),
            trip_id@,
            departure as int,
        );
        let count = self.stops.len();
        let mut current: u128 = departure as u128;
        let mut stop: usize = 0;
        while stop < count
            invariant
                count == self.stops.len(),
                legs.len() == leg_count(count as nat),
                stop <= count,
                of_trip == visits_of_trip(
                    self@.stops,
                    minutes(legs@),
                    trip_id@,
                    departure as int,
                ),
                stop < count ==> current == departure + 60 * elapsed_minutes(
                    minutes(legs@),
                    stop as int,
                ),
                visit_views(visits@) == base + of_trip.take(stop as int),
            decreases count - stop,
        {
            let visit = StopVisit {
                trip_id: String::from_str(trip_id),
                arrival: current,
                departure: current,
                stop_id: self.stops[stop].clone(),
                stop_sequence: stop,
            };
            let ghost before = visit_views(visits@);
            let ghost added = visit@;
            assert(added == of_trip[stop as int]);
            visits.push(visit);
            assert(visit_views(visits@) =~= before.push(added));
            assert(of_trip.take(stop + 1) =~= of_trip.take(stop as int).push(added));
            assert(before.push(added) =~= base + of_trip.take(stop + 1));
            if stop + 1 < count {
                proof {
                    elapsed_minutes_are_bounded(legs@, stop as int);
                    assert(minutes(legs@)[stop as int] == legs@[stop as int]);
                }
                current = current + legs[stop] as u128 * 60;
            }
            stop += 1;
        }
        assert(of_trip.take(count as int) =~= of_trip);
    }

    /// The visits of the route's trips at its stops, where `legs` holds the
    /// travel time of each leg in minutes: `legs[i]` from stop `i` to the
    /// stop after it. A route of fewer than two stops has no leg. Where
    /// `legs` does not hold as many legs as the route has, there is no
    /// result.
    pub fn stop_visits(&self, legs: &Vec<u32>) -> (visits: Option<Vec<StopVisit>>)
        requires
            self.frequency > 0,
        ensures
            visits is Some <==> legs.len() == leg_count(self.stops.len() as nat),
            visits matches Some(v) ==> visit_views(v@) == route_visits(self@, minutes(legs@)),
    {
        let expected = if self.stops.len() == 0 {
            0
        } else {
            self.stops.len() - 1
        };
        if legs.len() != expected {
            return None;
        }
        let parent = self.parent_id();
        let direction = self.direction_id();
        let period = self.frequency as u64 * 60;
        let ghost groups = visits_by_departure(self@, minutes(legs@));
        let mut visits: Vec<StopVisit> = Vec::new();
        let mut e: usize = 0;
        assert(groups.take(0) =~= Seq::empty());
        while e < self.schedule.len()
            invariant
                e <= self.schedule.len(),
                self.frequency > 0,
                period == self.frequency * 60,
                legs.len() == leg_count(self.stops.len() as nat),
                parent@ == parent_route_id(self.id@),
                direction == direction_of(self.id@),
                groups == visits_by_departure(self@, minutes(legs@)),
                visit_views(visits@) == groups.take(e as int).flatten(),
            decreases self.schedule.len() - e,
        {
            let first = self.schedule[e];
            let ghost base = visit_views(visits@);
            let ghost by_trip = visits_by_trip(self@, minutes(legs@), first as int);
            let mut departure = first;
            let mut index: usize = 0;
            assert(by_trip.take(0) =~= Seq::empty());
            while departure < SERVICE_END_SECONDS && index < MAX_TRIPS_PER_ROUTE
                invariant
                    self.frequency > 0,
                    period == self.frequency * 60,
                    legs.len() == leg_count(self.stops.len() as nat),
                    parent@ == parent_route_id(self.id@),
                    direction == direction_of(self.id@),
                    by_trip == visits_by_trip(self@, minutes(legs@), first as int),
                    index <= MAX_TRIPS_PER_ROUTE,
                    index <= by_trip.len(),
                    departure == trip_departure(first as int, self.frequency as int, index as int),
                    visit_views(visits@) == base + by_trip.take(index as int).flatten(),
                decreases MAX_TRIPS_PER_ROUTE - index,
            {
                proof {
                    trip_count_counts_departures(
                        first as int,
                        self.frequency as int,
                        index as int,
                    );
                    trip_count_counts_departures(
                        first as int,
                        self.frequency as int,
                        index + 1,
                    );
                }
                let id = trip_id(parent.as_str(), index, direction);
                self.push_trip_visits(legs, id.as_str(), departure, &mut visits);
                proof {
                    assert(by_trip.take(index + 1) =~= by_trip.take(index as int).push(
                        by_trip[index as int],
                    ));
                    by_trip.take(index as int).lemma_flatten_push(by_trip[index as int]);
                    assert((index + 1) * period == index * period + period) by (nonlinear_arith);
                }
                index += 1;
                departure += period;
            }
            proof {
                trip_count_counts_departures(first as int, self.frequency as int, index as int);
                assert(by_trip.take(index as int) =~= by_trip);
                assert(groups.take(e + 1) =~= groups.take(e as int).push(by_trip.flatten()));
                groups.take(e as int).lemma_flatten_push(by_trip.flatten());
            }
            e += 1;
        }
        assert(groups.take(e as int) =~= groups);
        Some(visits)
    }
}

impl TransitGrid {
    /// The trips of every route, route after route.
    pub fn trips(&self) -> (trips: Vec<Trip>)
        ensures
            trip_views(trips@) == grid_trips(self@),
    {
        let routes = self.routes();
        let ghost groups = trips_by_route(self@);
        let mut trips: Vec<Trip> = Vec::new();
        let mut r: usize = 0;
        assert(groups.take(0) =~= Seq::empty());
        while r < routes.len()
            invariant
                r <= routes.len(),
                route_views(routes@) == self@.routes,
                self@.well_formed(),
                groups == trips_by_route(self@),
                trip_views(trips@) == groups.take(r as int).flatten(),
            decreases routes.len() - r,
        {
            assert(routes[r as int]@ == self@.routes[r as int]);
            let mut of_route = routes[r].trips();
            let ghost before = trip_views(trips@);
            let ghost added = trip_views(of_route@);
            trips.append(&mut of_route);
            proof {
                assert(trip_views(trips@) =~= before + added);
                assert(groups.take(r + 1) =~= groups.take(r as int).push(added));
                groups.take(r as int).lemma_flatten_push(added);
            }
            r += 1;
        }
        assert(groups.take(r as int) =~= groups);
        trips
    }

    /// The legs of every route: for each two stops in a row, the cells
    /// that the leg leads from and to.
    pub fn legs(&self) -> (legs: Vec<Vec<Leg>>)
        ensures
            leg_lists(legs@) == grid_legs(self@),
    {
        let routes = self.routes();
        let stops = self.stops();
        let mut legs: Vec<Vec<Leg>> = Vec::new();
        let mut r: usize = 0;
        while r < routes.len()
            invariant
                r <= routes.len(),
                route_views(routes@) == self@.routes,
                stop_views(stops@) == self@.stops,
                self@.well_formed(),
                legs.len() == r,
                forall|j: int| 0 <= j < r ==> (#[trigger] legs[j])@ == grid_legs(self@)[j],
            decreases routes.len() - r,
        {
            let route = &routes[r];
            assert(route@ == self@.routes[r as int]);
            assert(self@.has_stops(route@.stops));
            let ghost ids = route@.stops;
            let ghost expected = legs_between(self@, ids);
            let mut of_route: Vec<Leg> = Vec::new();
            let mut i: usize = 0;
            while i + 1 < route.stops.len()
                invariant
                    i <= route.stops.len(),
                    ids == route@.stops,
                    self@.has_stops(ids),
                    stop_views(stops@) == self@.stops,
                    expected == legs_between(self@, ids),
                    of_route.len() == i,
                    i <= expected.len(),
                    forall|j: int| 0 <= j < i ==> of_route[j] == expected[j],
                decreases route.stops.len() - i,
            {
                assert(self@.has_stop(ids[i as int]));
                assert(self@.has_stop(ids[i + 1]));
                let from = self.find_stop(route.stops[i].as_str()).unwrap();
                let to = self.find_stop(route.stops[i + 1].as_str()).unwrap();
                assert(stops[from as int]@ == self@.stops[from as int]);
                assert(stops[to as int]@ == self@.stops[to as int]);
                of_route.push(Leg { from: stops[from].position, to: stops[to].position });
                i += 1;
            }
            assert(of_route@ =~= expected);
            legs.push(of_route);
            r += 1;
        }
        assert(leg_lists(legs@) =~= grid_legs(self@));
        legs
    }

    /// The stop visits of every trip, where `legs` holds for each route,
    /// in the order of the routes, the travel time of each of its legs in
    /// minutes. Where `legs` does not fit the routes, there is no result.
    pub fn stop_visits(&self, legs: &Vec<Vec<u32>>) -> (visits: Option<Vec<StopVisit>>)
        ensures
            visits is Some <==> legs_fit(self@, minute_lists(legs@)),
            visits matches Some(v) ==> visit_views(v@) == grid_visits(
                self@,
                minute_lists(legs@),
            ),
    {
        let routes = self.routes();
        if legs.len() != routes.len() {
            return None;
        }
        let ghost times = minute_lists(legs@);
        let ghost groups = visits_by_route(self@, times);
        let mut visits: Vec<StopVisit> = Vec::new();
        let mut r: usize = 0;
        assert(groups.take(0) =~= Seq::empty());
        while r < routes.len()
            invariant
                r <= routes.len(),
                legs.len() == routes.len(),
                route_views(routes@) == self@.routes,
                self@.well_formed(),
                times == minute_lists(legs@),
                groups == visits_by_route(self@, times),
                forall|j: int|
                    0 <= j < r ==> (#[trigger] times[j]).len() == leg_count(
                        self@.routes[j].stops.len(),
                    ),
                visit_views(visits@) == groups.take(r as int).flatten(),
            decreases routes.len() - r,
        {
            assert(routes[r as int]@ == self@.routes[r as int]);
            assert(times[r as int] == minutes(legs[r as int]@));
            let mut of_route = match routes[r].stop_visits(&legs[r]) {
                Some(v) => v,
                None => {
                    return None;
                },
            };
            let ghost before = visit_views(visits@);
            let ghost added = visit_views(of_route@);
            visits.append(&mut of_route);
            proof {
                assert(visit_views(visits@) =~= before + added);
                assert(groups.take(r + 1) =~= groups.take(r as int).push(added));
                groups.take(r as int).lemma_flatten_push(added);
            }
            r += 1;
        }
        assert(groups.take(r as int) =~= groups);
        Some(visits)
    }
}

} // verus!
