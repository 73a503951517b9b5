//! The network: stops keyed by their grid cell, and the routes that run
//! between them.

use vstd::prelude::*;
use vstd::string::*;
use crate::clock::TimeOfDay;
use crate::position::{parse_keeps_the_name, GridPosition};
use crate::text::{copy_of, has_suffix, reverse_of, texts, without_last};

verus! {

/// A stop on the grid. Its identifier is the name of its cell.
#[derive(Debug)]
pub struct GridStop {
    pub id: String,
    pub name: String,
    pub position: GridPosition,
}

/// A route: the stops it calls at, in order, the times of its first
/// departures in seconds after midnight, and the minutes between two
/// departures.
#[derive(Debug)]
pub struct GridRoute {
    pub id: String,
    pub name: String,
    pub stops: Vec<String>,
    pub schedule: Vec<u64>,
    pub frequency: i32,
}

/// What a stop holds, as plain values.
pub struct StopView {
    pub id: Seq<char>,
    pub name: Seq<char>,
    pub position: GridPosition,
}

/// What a route holds, as plain values.
pub struct RouteView {
    pub id: Seq<char>,
    pub name: Seq<char>,
    pub stops: Seq<Seq<char>>,
    pub schedule: Seq<int>,
    pub frequency: int,
}

/// What a network holds: its stops in the order in which their cells were
/// first registered, and its routes in the order of registration.
pub struct GridView {
    pub stops: Seq<StopView>,
    pub routes: Seq<RouteView>,
}

impl View for GridStop {
    type V = StopView;

    open spec fn view(&self) -> StopView {
        StopView { id: self.id@, name: self.name@, position: self.position }
    }
}

impl View for GridRoute {
    type V = RouteView;

    open spec fn view(&self) -> RouteView {
        RouteView {
            id: self.id@,
            name: self.name@,
            stops: texts(self.stops@),
            schedule: times(self.schedule@),
            frequency: self.frequency as int,
        }
    }
}

/// The times as mathematical integers, in the same order.
pub open spec fn times(schedule: Seq<u64>) -> Seq<int> {
    schedule.map_values(|t: u64| t as int)
}

/// The views of the stops, in the same order.
pub open spec fn stop_views(stops: Seq<GridStop>) -> Seq<StopView> {
    stops.map_values(|s: GridStop| s@)
}

/// The views of the routes, in the same order.
pub open spec fn route_views(routes: Seq<GridRoute>) -> Seq<RouteView> {
    routes.map_values(|r: GridRoute| r@)
}

/// The marker that ends the identifier of a route's reverse direction.
pub open spec fn reverse_marker() -> Seq<char> {
    "_reverse"@
}

/// The message that refuses a text that names no grid cell.
pub open spec fn invalid_position_message(text: Seq<char>) -> Seq<char> {
    "Invalid grid position: "@ + text
}

/// The message that refuses a route over a stop that is not registered.
pub open spec fn unknown_stop_message(id: Seq<char>) -> Seq<char> {
    "Stop "@ + id + " not found"@
}

/// The message that refuses a route whose frequency is not positive.
pub open spec fn invalid_frequency_message() -> Seq<char> {
    "Route frequency must be positive"@
}

/// The route as registered in the forward direction.
pub open spec fn forward_route(
    id: Seq<char>,
    name: Seq<char>,
    stops: Seq<Seq<char>>,
    first_departure: int,
    frequency: int,
) -> RouteView {
    RouteView { id, name, stops, schedule: seq![first_departure], frequency }
}

/// The route's reverse direction: the marker on the identifier, the stops
/// in reverse order, and the first departure half a frequency later, in
/// whole minutes.
pub open spec fn reverse_route(
    id: Seq<char>,
    name: Seq<char>,
    stops: Seq<Seq<char>>,
    first_departure: int,
    frequency: int,
) -> RouteView {
    RouteView {
        id: id + reverse_marker(),
        name,
        stops: stops.reverse(),
        schedule: seq![first_departure + (frequency / 2) * 60],
        frequency,
    }
}

impl GridView {
    /// The network without stops or routes.
    pub open spec fn empty() -> GridView {
        GridView { stops: Seq::empty(), routes: Seq::empty() }
    }

    /// Whether a stop with this identifier is registered.
    pub open spec fn has_stop(self, id: Seq<char>) -> bool {
        exists|i: int| 0 <= i < self.stops.len() && self.stops[i].id == id
    }

    /// Where the stop with this identifier stands among the stops.
    pub open spec fn stop_index(self, id: Seq<char>) -> int
        recommends
            self.has_stop(id),
    {
        choose|i: int| 0 <= i < self.stops.len() && self.stops[i].id == id
    }

    /// The grid cell of the stop with this identifier.
    pub open spec fn position_of(self, id: Seq<char>) -> GridPosition
        recommends
            self.has_stop(id),
    {
        self.stops[self.stop_index(id)].position
    }

    /// Whether each of the identifiers is that of a registered stop.
    pub open spec fn has_stops(self, ids: Seq<Seq<char>>) -> bool {
        forall|k: int| 0 <= k < ids.len() ==> self.has_stop(#[trigger] ids[k])
    }

    /// Whether `ids[k]` is the first identifier of no registered stop.
    pub open spec fn is_first_unknown(self, ids: Seq<Seq<char>>, k: int) -> bool {
        &&& 0 <= k < ids.len()
        &&& !self.has_stop(ids[k])
        &&& self.has_stops(ids.take(k))
    }

    /// The first of the identifiers that is of no registered stop.
    pub open spec fn first_unknown(self, ids: Seq<Seq<char>>) -> Seq<char>
        recommends
            !self.has_stops(ids),
    {
        ids[choose|k: int| self.is_first_unknown(ids, k)]
    }

    /// What holds of every network: a stop is identified by the name of
    /// its cell, no two stops share a cell, and a route calls only at
    /// registered stops, from one first departure, at a positive frequency.
    pub open spec fn well_formed(self) -> bool {
        &&& forall|i: int|
            0 <= i < self.stops.len() ==> {
                &&& (#[trigger] self.stops[i]).position.on_grid()
                &&& self.stops[i].id == self.stops[i].position.text()
            }
        &&& forall|i: int, j: int|
            0 <= i < j < self.stops.len() ==> (#[trigger] self.stops[i]).id != (
            #[trigger] self.stops[j]).id
        &&& forall|r: int|
            0 <= r < self.routes.len() ==> {
                &&& self.has_stops((#[trigger] self.routes[r]).stops)
                &&& self.routes[r].schedule.len() == 1
                &&& self.routes[r].frequency > 0
            }
    }

    /// The network after the stop was registered: it takes the place of
    /// the stop on the same cell, or comes last where the cell was free.
    pub open spec fn with_stop(self, stop: StopView) -> GridView {
        if self.has_stop(stop.id) {
            GridView { stops: self.stops.update(self.stop_index(stop.id), stop), routes: self.routes }
        } else {
            GridView { stops: self.stops.push(stop), routes: self.routes }
        }
    }

    /// What registering a stop on the cell named `text` comes to: the
    /// network with the stop, or the message that refuses the text.
    pub open spec fn stop_added(self, text: Seq<char>, name: Seq<char>) -> Result<
        GridView,
        Seq<char>,
    > {
        match GridPosition::parse(text) {
            Some(position) => Ok(self.with_stop(StopView { id: text, name, position })),
            None => Err(invalid_position_message(text)),
        }
    }

    /// What registering a route comes to: the network with the route, and
    /// with its reverse direction where that is asked for, or the message
    /// that refuses it. The stops are checked first, in order.
    pub open spec fn route_added(
        self,
        id: Seq<char>,
        name: Seq<char>,
        stops: Seq<Seq<char>>,
        first_departure: int,
        frequency: int,
        generate_reverse: bool,
    ) -> Result<GridView, Seq<char>> {
        if !self.has_stops(stops) {
            Err(unknown_stop_message(self.first_unknown(stops)))
        } else if frequency <= 0 {
            Err(invalid_frequency_message())
        } else {
            let forward = forward_route(id, name, stops, first_departure, frequency);
            let reverse = reverse_route(id, name, stops, first_departure, frequency);
            Ok(
                GridView {
                    stops: self.stops,
                    routes: if generate_reverse {
                        self.routes.push(forward).push(reverse)
                    } else {
                        self.routes.push(forward)
                    },
                },
            )
        }
    }
}

/// Registering a stop keeps the network well formed.
pub proof fn with_stop_is_well_formed(grid: GridView, stop: StopView)
    requires
        grid.well_formed(),
        stop.position.on_grid(),
        stop.id == stop.position.text(),
    ensures
        grid.with_stop(stop).well_formed(),
{
    let after = grid.with_stop(stop);
    assert forall|id: Seq<char>| grid.has_stop(id) implies after.has_stop(id) by {
        let j = grid.stop_index(id);
        assert(after.stops[j].id == id);
    }
    assert forall|r: int| 0 <= r < after.routes.len() implies after.has_stops(
        (#[trigger] after.routes[r]).stops,
    ) by {
        assert(grid.has_stops(grid.routes[r].stops));
    }
}

/// Registering a route, with or without its reverse direction, keeps the
/// network well formed.
pub proof fn with_route_is_well_formed(
    grid: GridView,
    id: Seq<char>,
    name: Seq<char>,
    stops: Seq<Seq<char>>,
    first_departure: int,
    frequency: int,
    generate_reverse: bool,
)
    requires
        grid.well_formed(),
    ensures
        grid.route_added(id, name, stops, first_departure, frequency, generate_reverse) matches Ok(
            after,
        ) ==> after.well_formed(),
{
    if let Ok(after) = grid.route_added(
        id,
        name,
        stops,
        first_departure,
        frequency,
        generate_reverse,
    ) {
        assert forall|id: Seq<char>| grid.has_stop(id) implies after.has_stop(id) by {
            let j = grid.stop_index(id);
            assert(after.stops[j].id == id);
        }
        let back = stops.reverse();
        assert forall|k: int| 0 <= k < back.len() implies after.has_stop(#[trigger] back[k]) by {
            assert(grid.has_stop(stops[stops.len() - 1 - k]));
        }
        assert forall|r: int| 0 <= r < after.routes.len() implies after.has_stops(
            (#[trigger] after.routes[r]).stops,
        ) by {
            if r < grid.routes.len() {
                assert(grid.has_stops(grid.routes[r].stops));
            }
        }
    }
}

/// Among the identifiers there is at most one first unknown one.
pub proof fn first_unknown_is_unique(grid: GridView, ids: Seq<Seq<char>>, k: int)
    requires
        grid.is_first_unknown(ids, k),
    ensures
        !grid.has_stops(ids),
        grid.first_unknown(ids) == ids[k],
{
    let chosen = choose|c: int| grid.is_first_unknown(ids, c);
    if chosen < k {
        assert(ids.take(k)[chosen] == ids[chosen]);
    }
    if k < chosen {
        assert(ids.take(chosen)[k] == ids[k]);
    }
}

/// A route over a stop that is not registered is refused with the message
/// that names the first such stop, whatever else is asked for.
pub proof fn unknown_stop_refuses_route(
    grid: GridView,
    id: Seq<char>,
    name: Seq<char>,
    stops: Seq<Seq<char>>,
    first_departure: int,
    frequency: int,
    generate_reverse: bool,
)
    requires
        !grid.has_stops(stops),
    ensures
        grid.route_added(id, name, stops, first_departure, frequency, generate_reverse) == Err::<
            GridView,
            Seq<char>,
        >(unknown_stop_message(grid.first_unknown(stops))),
        !grid.has_stop(grid.first_unknown(stops)),
        stops.contains(grid.first_unknown(stops)),
{
    assert(stops.take(stops.len() as int) =~= stops);
    let k = first_unknown_index(grid, stops, stops.len() as int);
    first_unknown_is_unique(grid, stops, k);
}

/// Among identifiers of which the first `limit` are not all registered,
/// one is the first that is not.
pub proof fn first_unknown_index(grid: GridView, ids: Seq<Seq<char>>, limit: int) -> (k: int)
    requires
        0 <= limit <= ids.len(),
        !grid.has_stops(ids.take(limit)),
    ensures
        grid.is_first_unknown(ids, k),
        k < limit,
    decreases limit,
{
    if limit == 0 {
        assert(grid.has_stops(ids.take(0)));
        0
    } else if grid.has_stops(ids.take(limit - 1)) {
        if grid.has_stop(ids[limit - 1]) {
            assert forall|j: int| 0 <= j < limit implies grid.has_stop(
                #[trigger] ids.take(limit)[j],
            ) by {
                if j < limit - 1 {
                    assert(ids.take(limit - 1)[j] == ids[j]);
                }
            }
        }
        limit - 1
    } else {
        first_unknown_index(grid, ids, limit - 1)
    }
}

/// The reverse direction of a route mirrors the forward one: it calls at
/// the same stops in reverse order, and first departs `frequency / 2` whole
/// minutes after it. Its identifier bears the reverse marker, and without
/// the marker it is the forward identifier.
pub proof fn reverse_route_mirrors_forward(
    id: Seq<char>,
    name: Seq<char>,
    stops: Seq<Seq<char>>,
    first_departure: int,
    frequency: int,
)
    requires
        frequency > 0,
    ensures
        ({
            let forward = forward_route(id, name, stops, first_departure, frequency);
            let reverse = reverse_route(id, name, stops, first_departure, frequency);
            &&& reverse.stops.len() == forward.stops.len()
            &&& forall|i: int|
                0 <= i < stops.len() ==> #[trigger] reverse.stops[i] == forward.stops[stops.len()
                    - 1 - i]
            &&& reverse.schedule.len() == 1
            &&& reverse.schedule[0] == forward.schedule[0] + 60 * (frequency / 2)
            &&& 2 * (frequency / 2) <= frequency < 2 * (frequency / 2) + 2
            &&& reverse.frequency == forward.frequency
            &&& reverse.name == forward.name
            &&& has_suffix(reverse.id, reverse_marker())
            &&& without_last(reverse.id, reverse_marker().len()) == forward.id
        }),
{
    let reverse = reverse_route(id, name, stops, first_departure, frequency);
    let marker = reverse_marker();
    assert(reverse.id.subrange(reverse.id.len() - marker.len(), reverse.id.len() as int) =~= marker);
    assert(without_last(reverse.id, marker.len()) =~= id);
}

/// A transit network on the letter grid.
#[derive(Debug)]
pub struct TransitGrid {
    stops: Vec<GridStop>,
    routes: Vec<GridRoute>,
}

impl View for TransitGrid {
    type V = GridView;

    closed spec fn view(&self) -> GridView {
        GridView { stops: stop_views(self.stops@), routes: route_views(self.routes@) }
    }
}

impl TransitGrid {
    /// What holds of every network.
    #[verifier::type_invariant]
    pub closed spec fn consistent(self) -> bool {
        self@.well_formed()
    }

    /// A network without stops or routes.
    pub fn new() -> (grid: Self)
        ensures
            grid@ == GridView::empty(),
            grid@.well_formed(),
    {
        let grid = TransitGrid { stops: Vec::new(), routes: Vec::new() };
        assert(grid@.stops =~= Seq::empty());
        assert(grid@.routes =~= Seq::empty());
        grid
    }

    /// The registered stops.
    pub fn stops(&self) -> (stops: &Vec<GridStop>)
        ensures
            stop_views(stops@) == self@.stops,
            self@.well_formed(),
    {
        proof {
            use_type_invariant(self);
        }
        &self.stops
    }

    /// The registered routes.
    pub fn routes(&self) -> (routes: &Vec<GridRoute>)
        ensures
            route_views(routes@) == self@.routes,
            self@.well_formed(),
    {
        proof {
            use_type_invariant(self);
        }
        &self.routes
    }

    /// Where the stop with this identifier stands among the stops, if it is
    /// registered.
    pub fn find_stop(&self, id: &str) -> (found: Option<usize>)
        ensures
            found is Some <==> self@.has_stop(id@),
            found matches Some(i) ==> i == self@.stop_index(id@) && i < self@.stops.len(),
    {
        proof {
            use_type_invariant(self);
        }
        let key = String::from_str(id);
        let mut i: usize = 0;
        while i < self.stops.len()
            invariant
                i <= self.stops.len(),
                key@ == id@,
                self@.well_formed(),
                forall|j: int| 0 <= j < i ==> self@.stops[j].id != id@,
            decreases self.stops.len() - i,
        {
            if self.stops[i].id == key {
                assert(self@.stops[i as int].id == id@);
                return Some(i);
            }
            i += 1;
        }
        None
    }

    /// Registers a stop on the cell that `position` names. A stop already
    /// on that cell is replaced. A text that names no cell is refused, and
    /// the network stays as it was.
    pub fn add_stop(&mut self, position: &str, name: String) -> (result: Result<(), String>)
        ensures
            match result {
                Ok(_) => old(self)@.stop_added(position@, name@) == Ok::<GridView, Seq<char>>(
                    final(self)@,
                ),
                Err(message) => old(self)@.stop_added(position@, name@) == Err::<
                    GridView,
                    Seq<char>,
                >(message@) && final(self)@ == old(self)@,
            },
            final(self)@.well_formed(),
    {
        proof {
            use_type_invariant(&*self);
        }
        let grid_pos = match GridPosition::new(position) {
            Some(p) => p,
            None => {
                return Err(String::from_str("Invalid grid position: ").concat(position));
            },
        };
        let stop_id = grid_pos.to_string();
        proof {
            parse_keeps_the_name(position@);
        }
        let found = self.find_stop(stop_id.as_str());
        let stop = GridStop { id: stop_id, name, position: grid_pos };
        let ghost before = self@;
        proof {
            with_stop_is_well_formed(before, stop@);
        }
        let mut taken = TransitGrid::new();
        std::mem::swap(self, &mut taken);
        let TransitGrid { mut stops, routes } = taken;
        match found {
            Some(i) => {
                stops.set(i, stop);
                assert(stop_views(stops@) =~= before.stops.update(i as int, stop@));
            },
            None => {
                stops.push(stop);
                assert(stop_views(stops@) =~= before.stops.push(stop@));
            },
        }
        *self = TransitGrid { stops, routes };
        Ok(())
    }

    /// Registers a route over the given stops, and its reverse direction
    /// where `generate_reverse` is set. Every stop must be registered and
    /// the frequency positive: otherwise the route is refused and the
    /// network stays as it was. The stops are checked first, in order.
    pub fn add_route(
        &mut self,
        id: String,
        name: String,
        stops: Vec<String>,
        first_departure: TimeOfDay,
        frequency: i32,
        generate_reverse: bool,
    ) -> (result: Result<(), String>)
        ensures
            match result {
                Ok(_) => old(self)@.route_added(
                    id@,
                    name@,
                    texts(stops@),
                    first_departure.seconds(),
                    frequency as int,
                    generate_reverse,
                ) == Ok::<GridView, Seq<char>>(final(self)@),
                Err(message) => old(self)@.route_added(
                    id@,
                    name@,
                    texts(stops@),
                    first_departure.seconds(),
                    frequency as int,
                    generate_reverse,
                ) == Err::<GridView, Seq<char>>(message@) && final(self)@ == old(self)@,
            },
            !old(self)@.has_stops(texts(stops@)) ==> result is Err && final(self)@ == old(self)@,
            final(self)@.well_formed(),
    {
        proof {
            use_type_invariant(&*self);
        }
        let ghost before = self@;
        let ghost ids = texts(stops@);
        let mut k: usize = 0;
        while k < stops.len()
            invariant
                k <= stops.len(),
                ids == texts(stops@),
                self@ == before,
                before.well_formed(),
                before.has_stops(ids.take(k as int)),
            decreases stops.len() - k,
        {
            if self.find_stop(stops[k].as_str()).is_none() {
                proof {
                    first_unknown_is_unique(before, ids, k as int);
                }
                return Err(
                    String::from_str("Stop ").concat(stops[k].as_str()).concat(" not found"),
                );
            }
            assert forall|j: int| 0 <= j < k + 1 implies before.has_stop(
                #[trigger] ids.take(k + 1)[j],
            ) by {
                if j < k {
                    assert(ids.take(k as int)[j] == ids[j]);
                }
            }
            k += 1;
        }
        assert(ids.take(stops.len() as int) =~= ids);
        if frequency <= 0 {
            return Err(String::from_str("Route frequency must be positive"));
        }
        proof {
            with_route_is_well_formed(
                before,
                id@,
                name@,
                ids,
                first_departure.seconds(),
                frequency as int,
                generate_reverse,
            );
        }
        let departure = first_departure.seconds_from_midnight() as u64;
        let mut taken = TransitGrid::new();
        std::mem::swap(self, &mut taken);
        let TransitGrid { stops: registered, mut routes } = taken;
        let mut schedule: Vec<u64> = Vec::new();
        schedule.push(departure);
        let forward = GridRoute {
            id: id.clone(),
            name: name.clone(),
            stops: copy_of(&stops),
            schedule,
            frequency,
        };
        assert(forward@.schedule =~= seq![first_departure.seconds()]);
        assert(forward@ == forward_route(
            id@,
            name@,
            ids,
            first_departure.seconds(),
            frequency as int,
        ));
        routes.push(forward);
        if generate_reverse {
            let mut schedule: Vec<u64> = Vec::new();
            schedule.push(departure + (frequency / 2) as u64 * 60);
            let reverse = GridRoute {
                id: id.concat("_reverse"),
                name,
                stops: reverse_of(&stops),
                schedule,
                frequency,
            };
            assert(reverse@.schedule =~= seq![
                first_departure.seconds() + (frequency as int / 2) * 60,
            ]);
            assert(reverse@ == reverse_route(
                id@,
                name@,
                ids,
                first_departure.seconds(),
                frequency as int,
            ));
            routes.push(reverse);
            assert(route_views(routes@) =~= before.routes.push(forward@).push(reverse@));
        } else {
            assert(route_views(routes@) =~= before.routes.push(forward@));
        }
        *self = TransitGrid { stops: registered, routes };
        Ok(())
    }
}

} // verus!
