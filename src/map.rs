//! The route map: the fixed catalog of routes between adjacent cities, who claimed them,
//! and the connectivity and longest-route queries over a player's claims.

use crate::card::{train_color_name, TrainColor};
use crate::city::{city_index, city_name, lemma_city_index_injective, City, CityToCity};
use crate::text::{decimal, usize_to_string};
use vstd::prelude::*;

verus! {

/// One of the routes between two adjacent cities.
#[derive(Clone, Copy, Debug, PartialEq, Eq, Structural)]
pub struct Route {
    /// The color of cards needed to claim it; `Wild` means that any single color matches.
    pub train_color: TrainColor,
    /// The number of cards needed to claim it.
    pub length: u8,
    /// The player who claimed it, if any.
    pub claimer: Option<usize>,
}

impl Route {
    /// An unclaimed route of the given color and length.
    pub fn new(train_color: TrainColor, length: u8) -> (r: Route)
        ensures
            r == (Route { train_color, length, claimer: None }),
    {
        Route { train_color, length, claimer: None }
    }

    /// The player who claimed this route, if any.
    pub fn claimer(&self) -> (r: Option<usize>)
        ensures
            r == self.claimer,
    {
        self.claimer
    }
}

/// The one or two parallel routes between two adjacent cities; they are the same routes
/// whichever of the two cities one starts from.
#[derive(Clone, Copy, Debug)]
pub struct ParallelRoutes {
    /// One of the two cities.
    pub start: City,
    /// The other city.
    pub end: City,
    /// The route at parallel index 0.
    pub first: Route,
    /// The route at parallel index 1, if there is one.
    pub second: Option<Route>,
}

/// Holds the information about a route successfully claimed by a player.
#[derive(Clone, Copy, Debug, PartialEq, Eq)]
pub struct ClaimedRoute {
    /// Which two adjacent cities are part of the claimed route.
    pub route: CityToCity,
    /// There can be up to two routes between two cities: this index distinguishes them.
    pub parallel_route_index: usize,
    /// How many cards were used to claim that route.
    pub length: u8,
}

/// Whether an entry of the catalog joins the two cities, in either direction.
pub open spec fn connects(p: ParallelRoutes, a: City, b: City) -> bool {
    (p.start == a && p.end == b) || (p.start == b && p.end == a)
}

/// The number of parallel routes of an entry.
pub open spec fn num_parallel(p: ParallelRoutes) -> int {
    if p.second is Some {
        2
    } else {
        1
    }
}

/// The route at a parallel index of an entry.
pub open spec fn segment(p: ParallelRoutes, i: int) -> Route {
    if i == 0 {
        p.first
    } else {
        p.second.unwrap()
    }
}

/// The entry with the route at parallel index `i` claimed by `player_id`.
pub open spec fn with_claimer(p: ParallelRoutes, i: int, player_id: usize) -> ParallelRoutes {
    if i == 0 {
        ParallelRoutes { first: Route { claimer: Some(player_id), ..p.first }, ..p }
    } else {
        ParallelRoutes { second: Some(Route { claimer: Some(player_id), ..p.second.unwrap() }), ..p }
    }
}

/// Whether one of the routes of an entry is claimed by the player.
pub open spec fn claimed_by(p: ParallelRoutes, player_id: usize) -> bool {
    p.first.claimer == Some(player_id) || (p.second is Some && p.second.unwrap().claimer == Some(
        player_id,
    ))
}

/// The position of the first entry joining the two cities, in either direction.
pub open spec fn lookup(s: Seq<ParallelRoutes>, a: City, b: City) -> Option<int>
    decreases s.len(),
{
    if s.len() == 0 {
        None
    } else {
        match lookup(s.drop_last(), a, b) {
            Some(i) => Some(i),
            None => if connects(s.last(), a, b) {
                Some(s.len() - 1)
            } else {
                None
            },
        }
    }
}

/// An entry is found whichever of its two cities one starts from.
pub proof fn lemma_lookup_symmetric(s: Seq<ParallelRoutes>, a: City, b: City)
    ensures
        lookup(s, a, b) == lookup(s, b, a),
        match lookup(s, a, b) {
            Some(i) => 0 <= i < s.len() && connects(s[i], a, b),
            None => forall|i: int| 0 <= i < s.len() ==> !connects(#[trigger] s[i], a, b),
        },
    decreases s.len(),
{
    if s.len() > 0 {
        lemma_lookup_symmetric(s.drop_last(), a, b);
        assert forall|i: int| 0 <= i < s.len() - 1 implies #[trigger] s[i] == s.drop_last()[i] by {}
    }
}

/// Whether every entry of the catalog is well formed: one or two routes of the same
/// length, between 1 and 6.
pub open spec fn catalog_wf(s: Seq<ParallelRoutes>) -> bool {
    forall|i: int|
        0 <= i < s.len() ==> {
            let p = #[trigger] s[i];
            &&& 1 <= p.first.length <= 6
            &&& p.second is Some ==> p.second.unwrap().length == p.first.length
            &&& p.start != p.end
        }
}

/// Whether no route of the catalog is claimed.
pub open spec fn all_unclaimed(s: Seq<ParallelRoutes>) -> bool {
    forall|i: int|
        0 <= i < s.len() ==> {
            let p = #[trigger] s[i];
            &&& p.first.claimer is None
            &&& p.second is Some ==> p.second.unwrap().claimer is None
        }
}


/// The common color of the first `n` cards of a hand, ignoring wild cards (`Wild` if they
/// are all wild), or the first two real colors that differ.
pub open spec fn common_color_prefix(cards: Seq<TrainColor>, n: int) -> Result<
    TrainColor,
    (TrainColor, TrainColor),
>
    decreases n,
{
    if n <= 0 {
        Ok(TrainColor::Wild)
    } else {
        match common_color_prefix(cards, n - 1) {
            Err(e) => Err(e),
            Ok(common) => {
                let c = cards[n - 1];
                if c == TrainColor::Wild {
                    Ok(common)
                } else if common == TrainColor::Wild {
                    Ok(c)
                } else if common != c {
                    Err((common, c))
                } else {
                    Ok(common)
                }
            },
        }
    }
}

/// The common color of a hand, ignoring wild cards, or the first two real colors that
/// differ.
pub open spec fn common_color(cards: Seq<TrainColor>) -> Result<TrainColor, (TrainColor, TrainColor)> {
    common_color_prefix(cards, cards.len() as int)
}

/// `prefix`, the two cities, and `suffix`.
pub open spec fn between_message(prefix: Seq<char>, a: City, b: City, suffix: Seq<char>) -> Seq<
    char,
> {
    prefix + city_name(a) + " and "@ + city_name(b) + suffix
}

/// Why a player may not claim a route with the given cards, if they may not; the checks
/// are made in a fixed order and the first that fails is reported.
pub open spec fn claim_error(
    routes: Seq<ParallelRoutes>,
    parallel_allowed: bool,
    route: CityToCity,
    index: int,
    cards: Seq<TrainColor>,
    player_id: usize,
) -> Option<Seq<char>> {
    let (a, b) = route;
    match lookup(routes, a, b) {
        None => Some(between_message("No routes exist between "@, a, b, "."@)),
        Some(k) => {
            let p = routes[k];
            if index >= num_parallel(p) {
                Some(
                    between_message(
                        "The selected route ("@ + decimal(index as nat) + ") between "@,
                        a,
                        b,
                        " does not exist."@,
                    ),
                )
            } else if segment(p, index).length != cards.len() {
                Some(
                    between_message("A route between "@, a, b, " needs "@) + decimal(
                        segment(p, index).length as nat,
                    ) + " cards, but "@ + decimal(cards.len()) + " were provided."@,
                )
            } else if segment(p, index).claimer is Some {
                Some(between_message("The selected route between "@, a, b, " is already claimed."@))
            } else if num_parallel(p) == 2 && segment(p, 1 - index).claimer == Some(player_id) {
                Some(between_message("Cannot claim more than one route between "@, a, b, "."@))
            } else if num_parallel(p) == 2 && segment(p, 1 - index).claimer is Some
                && !parallel_allowed {
                Some(
                    between_message(
                        "Another route is already claimed by someone else between "@,
                        a,
                        b,
                        "."@,
                    ),
                )
            } else {
                match common_color(cards) {
                    Err((c1, c2)) => Some(
                        "Cannot claim a route with "@ + train_color_name(c1) + " and "@
                            + train_color_name(c2) + " cards."@,
                    ),
                    Ok(common) => {
                        let color = segment(p, index).train_color;
                        if common != TrainColor::Wild && color != TrainColor::Wild && color
                            != common {
                            Some(
                                "Cannot claim a route of color "@ + train_color_name(color)
                                    + " with "@ + train_color_name(common) + " cards."@,
                            )
                        } else {
                            None
                        }
                    },
                }
            }
        },
    }
}

fn between(prefix: &str, a: City, b: City, suffix: &str) -> (r: String)
    ensures
        r@ == between_message(prefix@, a, b, suffix@),
{
    let mut msg = String::from_str(prefix);
    msg.append(a.to_string().as_str());
    msg.append(" and ");
    msg.append(b.to_string().as_str());
    msg.append(suffix);
    msg
}

/// Once two real colors differ, the hand has no common color, whatever follows.
proof fn lemma_common_color_err(cards: Seq<TrainColor>, n: int, m: int)
    requires
        0 <= n <= m,
        common_color_prefix(cards, n) is Err,
    ensures
        common_color_prefix(cards, m) == common_color_prefix(cards, n),
    decreases m - n,
{
    if m > n {
        lemma_common_color_err(cards, n, m - 1);
    }
}

fn hand_common_color(cards: &Vec<TrainColor>) -> (r: Result<TrainColor, (TrainColor, TrainColor)>)
    ensures
        r == common_color(cards@),
{
    let mut common = TrainColor::Wild;
    let mut i: usize = 0;
    while i < cards.len()
        invariant
            i <= cards@.len(),
            common_color_prefix(cards@, i as int) == Ok::<TrainColor, (TrainColor, TrainColor)>(
                common,
            ),
        decreases cards@.len() - i,
    {
        let card = cards[i];
        if card.is_wild() {
        } else if common.is_wild() {
            common = card;
        } else if common != card {
            proof {
                lemma_common_color_err(cards@, i + 1, cards@.len() as int);
            }
            return Err((common, card));
        }
        i = i + 1;
    }
    Ok(common)
}


/// Whether the player has claimed a route joining the two cities.
pub open spec fn adjacent(routes: Seq<ParallelRoutes>, player_id: usize, a: City, b: City) -> bool {
    exists|i: int|
        0 <= i < routes.len() && #[trigger] connects(routes[i], a, b) && claimed_by(
            routes[i],
            player_id,
        )
}

/// Whether a sequence of two or more cities is a walk along routes claimed by the player.
pub open spec fn is_walk(routes: Seq<ParallelRoutes>, player_id: usize, path: Seq<City>) -> bool {
    &&& path.len() >= 2
    &&& forall|i: int|
        0 <= i < path.len() - 1 ==> adjacent(routes, player_id, #[trigger] path[i], path[i + 1])
}

/// Whether a walk of one or more of the player's routes leads from `a` to `b`.
pub open spec fn connected(routes: Seq<ParallelRoutes>, player_id: usize, a: City, b: City) -> bool {
    exists|path: Seq<City>|
        #[trigger] is_walk(routes, player_id, path) && path[0] == a && path.last() == b
}

/// The number of `true` entries.
pub open spec fn count_true(s: Seq<bool>) -> nat
    decreases s.len(),
{
    if s.len() == 0 {
        0
    } else {
        count_true(s.drop_last()) + if s.last() {
            1nat
        } else {
            0
        }
    }
}

proof fn lemma_count_true_bound(s: Seq<bool>)
    ensures
        count_true(s) <= s.len(),
    decreases s.len(),
{
    if s.len() > 0 {
        lemma_count_true_bound(s.drop_last());
    }
}

proof fn lemma_count_true_set(s: Seq<bool>, j: int)
    requires
        0 <= j < s.len(),
        !s[j],
    ensures
        count_true(s.update(j, true)) == count_true(s) + 1,
    decreases s.len(),
{
    let u = s.update(j, true);
    if j == s.len() - 1 {
        assert(u.drop_last() =~= s.drop_last());
    } else {
        assert(u.drop_last() =~= s.drop_last().update(j, true));
        lemma_count_true_set(s.drop_last(), j);
    }
}

/// A set of cities that holds every city next to `start` and is closed under the player's
/// routes holds every city of a walk from `start` but perhaps `start` itself.
proof fn lemma_closed_set_complete(
    routes: Seq<ParallelRoutes>,
    player_id: usize,
    start: City,
    visited: Seq<bool>,
    path: Seq<City>,
    j: int,
)
    requires
        visited.len() == 36,
        forall|x: City|
            adjacent(routes, player_id, start, x) ==> #[trigger] visited[city_index(x) as int],
        forall|i: int|
            0 <= i < routes.len() && claimed_by(#[trigger] routes[i], player_id) ==> (
            visited[city_index(routes[i].start) as int] <==> visited[city_index(routes[i].end) as int]),
        is_walk(routes, player_id, path),
        path[0] == start,
        1 <= j < path.len(),
    ensures
        visited[city_index(path[j]) as int],
    decreases j,
{
    assert(adjacent(routes, player_id, path[j - 1], path[j]));
    if j > 1 {
        lemma_closed_set_complete(routes, player_id, start, visited, path, j - 1);
        let i = choose|i: int|
            0 <= i < routes.len() && #[trigger] connects(routes[i], path[j - 1], path[j])
                && claimed_by(routes[i], player_id);
        assert(claimed_by(routes[i], player_id));
    }
}

proof fn lemma_count_true_zero(s: Seq<bool>)
    requires
        forall|j: int| 0 <= j < s.len() ==> !(#[trigger] s[j]),
    ensures
        count_true(s) == 0,
    decreases s.len(),
{
    if s.len() > 0 {
        lemma_count_true_zero(s.drop_last());
    }
}

/// A city reached from `start` extends the reach along any route the player claimed from it.
proof fn lemma_extend_connected(
    routes: Seq<ParallelRoutes>,
    player_id: usize,
    start: City,
    from: City,
    to: City,
    i: int,
)
    requires
        0 <= i < routes.len(),
        connects(routes[i], from, to),
        claimed_by(routes[i], player_id),
        connected(routes, player_id, start, from),
    ensures
        connected(routes, player_id, start, to),
{
    let path = choose|path: Seq<City>|
        #[trigger] is_walk(routes, player_id, path) && path[0] == start && path.last() == from;
    assert(adjacent(routes, player_id, from, to));
    let longer = path.push(to);
    assert forall|j: int| 0 <= j < longer.len() - 1 implies adjacent(
        routes,
        player_id,
        #[trigger] longer[j],
        longer[j + 1],
    ) by {
        if j < path.len() - 1 {
            assert(longer[j] == path[j] && longer[j + 1] == path[j + 1]);
        }
    }
    assert(is_walk(routes, player_id, longer));
}


/// Whether a claimed route has the city as one of its ends.
pub open spec fn incident(e: ClaimedRoute, c: City) -> bool {
    e.route.0 == c || e.route.1 == c
}

/// The end of a claimed route that is not `c`.
pub open spec fn other_end(e: ClaimedRoute, c: City) -> City {
    if e.route.0 == c {
        e.route.1
    } else {
        e.route.0
    }
}

/// Whether a sequence of positions in `edges` is a trail from `start`: each route leaves
/// from where the previous one ended, and no route is used twice. Cities may repeat.
pub open spec fn is_trail(edges: Seq<ClaimedRoute>, start: City, t: Seq<int>) -> bool
    decreases t.len(),
{
    if t.len() == 0 {
        true
    } else {
        &&& 0 <= t[0] < edges.len()
        &&& incident(edges[t[0]], start)
        &&& !t.drop_first().contains(t[0])
        &&& is_trail(edges, other_end(edges[t[0]], start), t.drop_first())
    }
}

/// The total length of the routes of a trail.
pub open spec fn trail_length(edges: Seq<ClaimedRoute>, t: Seq<int>) -> nat
    decreases t.len(),
{
    if t.len() == 0 {
        0
    } else {
        edges[t[0]].length as nat + trail_length(edges, t.drop_first())
    }
}

/// Whether a trail uses none of the routes marked in `used`.
pub open spec fn avoids(t: Seq<int>, used: Seq<bool>) -> bool {
    forall|i: int| 0 <= i < t.len() ==> 0 <= #[trigger] t[i] < used.len() && !used[t[i]]
}

/// The length of the longest trail from `start`: some trail has it, and none is longer.
pub open spec fn is_longest_from(edges: Seq<ClaimedRoute>, start: City, length: nat) -> bool {
    &&& exists|t: Seq<int>| #[trigger] is_trail(edges, start, t) && trail_length(edges, t) == length
    &&& forall|t: Seq<int>| #[trigger] is_trail(edges, start, t) ==> trail_length(edges, t) <= length
}

/// The length of the longest trail of the graph: some trail has it, and none is longer.
pub open spec fn is_longest(edges: Seq<ClaimedRoute>, length: nat) -> bool {
    &&& exists|start: City, t: Seq<int>|
        #[trigger] is_trail(edges, start, t) && trail_length(edges, t) == length
    &&& forall|start: City, t: Seq<int>|
        #[trigger] is_trail(edges, start, t) ==> trail_length(edges, t) <= length
}

fn longest_trail_avoiding(edges: &Vec<ClaimedRoute>, city: City, used: &Vec<bool>) -> (r: (
    u16,
    Ghost<Seq<int>>,
))
    requires
        used@.len() == edges@.len(),
        edges@.len() <= 255,
    ensures
        is_trail(edges@, city, r.1@),
        avoids(r.1@, used@),
        trail_length(edges@, r.1@) == r.0,
        r.0 <= 255 * (edges@.len() - count_true(used@)),
        forall|t: Seq<int>|
            #[trigger] is_trail(edges@, city, t) && avoids(t, used@) ==> trail_length(edges@, t)
                <= r.0,
    decreases edges@.len() - count_true(used@),
{
    let ghost u = used@;
    let mut best: u16 = 0;
    let ghost mut best_trail: Seq<int> = Seq::empty();
    proof {
        lemma_count_true_bound(u);
    }
    let mut i: usize = 0;
    while i < edges.len()
        invariant
            i <= edges@.len() <= 255,
            used@ == u,
            u.len() == edges@.len(),
            count_true(u) <= u.len(),
            is_trail(edges@, city, best_trail),
            avoids(best_trail, u),
            trail_length(edges@, best_trail) == best,
            best <= 255 * (edges@.len() - count_true(u)),
            forall|j: int, t2: Seq<int>|
                0 <= j < i && !u[j] && incident(edges@[j], city) && #[trigger] is_trail(
                    edges@,
                    other_end(edges@[j], city),
                    t2,
                ) && avoids(t2, u.update(j, true)) ==> edges@[j].length + trail_length(edges@, t2)
                    <= best,
        decreases edges@.len() - i,
    {
        let e = edges[i];
        if !used[i] && (e.route.0 == city || e.route.1 == city) {
            let next = if e.route.0 == city {
                e.route.1
            } else {
                e.route.0
            };
            proof {
                lemma_count_true_set(u, i as int);
                lemma_count_true_bound(u.update(i as int, true));
            }
            let mut next_used = used.clone();
            proof {
                assert(next_used@ =~= u);
            }
            next_used.set(i, true);
            let (sub, sub_trail) = longest_trail_avoiding(edges, next, &next_used);
            let total = e.length as u16 + sub;
            if total > best {
                best = total;
                proof {
                    let t = seq![i as int] + sub_trail@;
                    assert(t.drop_first() =~= sub_trail@);
                    assert(t[0] == i as int);
                    assert(!sub_trail@.contains(i as int)) by {
                        if sub_trail@.contains(i as int) {
                            let k = choose|k: int| 0 <= k < sub_trail@.len() && sub_trail@[k] == i;
                            assert(!u.update(i as int, true)[sub_trail@[k]]);
                        }
                    }
                    assert forall|k: int| 0 <= k < t.len() implies 0 <= #[trigger] t[k] < u.len()
                        && !u[t[k]] by {
                        if k > 0 {
                            assert(t[k] == sub_trail@[k - 1]);
                            assert(!u.update(i as int, true)[sub_trail@[k - 1]]);
                            assert(sub_trail@[k - 1] != i);
                        }
                    }
                    best_trail = t;
                }
            }
        }
        i = i + 1;
    }
    proof {
        assert forall|t: Seq<int>|
            #[trigger] is_trail(edges@, city, t) && avoids(t, u) implies trail_length(edges@, t)
            <= best by {
            if t.len() > 0 {
                let j = t[0];
                let t2 = t.drop_first();
                assert(!u[t[0]]);
                assert forall|k: int| 0 <= k < t2.len() implies 0 <= #[trigger] t2[k] < u.len()
                    && !u.update(j, true)[t2[k]] by {
                    assert(t2[k] == t[k + 1]);
                    if t2[k] == j {
                        assert(t.drop_first().contains(j));
                    }
                    assert(!u[t[k + 1]]);
                }
                assert(is_trail(edges@, other_end(edges@[j], city), t2));
            }
        }
    }
    (best, Ghost(best_trail))
}

impl GameMap {
    /// The length of the longest trail from `start` over the claimed routes: the greatest total
    /// length of routes followed one after the other from `start`, never twice the same route.
    pub fn get_longest_route_from_city(start: City, claimed_routes: &Vec<ClaimedRoute>) -> (r: u16)
        requires
            claimed_routes@.len() <= 255,
        ensures
            is_longest_from(claimed_routes@, start, r as nat),
    {
        let mut used: Vec<bool> = Vec::new();
        let mut k: usize = 0;
        while k < claimed_routes.len()
            invariant
                k <= claimed_routes@.len(),
                used@.len() == k,
                forall|j: int| 0 <= j < k ==> !(#[trigger] used@[j]),
            decreases claimed_routes@.len() - k,
        {
            used.push(false);
            k = k + 1;
        }
        let (best, trail) = longest_trail_avoiding(claimed_routes, start, &used);
        proof {
            assert forall|t: Seq<int>| #[trigger] is_trail(claimed_routes@, start, t) implies avoids(
                t,
                used@,
            ) by {
                lemma_trail_in_range(claimed_routes@, start, t);
            }
        }
        best
    }
}


impl GameMap {
    /// The length of the longest trail over the claimed routes, wherever it starts: the
    /// greatest total length of routes followed one after the other, never twice the same route.
    pub fn get_longest_route(claimed_routes: &Vec<ClaimedRoute>) -> (r: u16)
        requires
            claimed_routes@.len() <= 255,
        ensures
            is_longest(claimed_routes@, r as nat),
    {
        let ghost edges = claimed_routes@;
        let mut best: u16 = 0;
        let ghost mut best_start: City = City::Atlanta;
        let ghost mut best_trail: Seq<int> = Seq::empty();
        let mut i: usize = 0;
        while i < claimed_routes.len()
            invariant
                i <= edges.len() <= 255,
                edges == claimed_routes@,
                is_trail(edges, best_start, best_trail),
                trail_length(edges, best_trail) == best,
                forall|j: int, t: Seq<int>|
                    0 <= j < i && #[trigger] is_trail(edges, edges[j].route.0, t) ==> trail_length(
                        edges,
                        t,
                    ) <= best,
                forall|j: int, t: Seq<int>|
                    0 <= j < i && #[trigger] is_trail(edges, edges[j].route.1, t) ==> trail_length(
                        edges,
                        t,
                    ) <= best,
            decreases edges.len() - i,
        {
            let (a, b) = claimed_routes[i].route;
            let from_a = GameMap::get_longest_route_from_city(a, claimed_routes);
            let from_b = GameMap::get_longest_route_from_city(b, claimed_routes);
            if from_a > best {
                best = from_a;
                proof {
                    let t = choose|t: Seq<int>|
                        #[trigger] is_trail(edges, a, t) && trail_length(edges, t) == from_a;
                    best_start = a;
                    best_trail = t;
                }
            }
            if from_b > best {
                best = from_b;
                proof {
                    let t = choose|t: Seq<int>|
                        #[trigger] is_trail(edges, b, t) && trail_length(edges, t) == from_b;
                    best_start = b;
                    best_trail = t;
                }
            }
            i = i + 1;
        }
        proof {
            assert forall|start: City, t: Seq<int>| #[trigger] is_trail(edges, start, t) implies trail_length(
                edges,
                t,
            ) <= best by {
                if t.len() > 0 {
                    let j = t[0];
                    assert(incident(edges[j], start));
                    if start == edges[j].route.0 {
                        assert(is_trail(edges, edges[j].route.0, t));
                    } else {
                        assert(is_trail(edges, edges[j].route.1, t));
                    }
                }
            }
        }
        best
    }
}

/// The positions of a trail are positions of `edges`.
proof fn lemma_trail_in_range(edges: Seq<ClaimedRoute>, start: City, t: Seq<int>)
    requires
        is_trail(edges, start, t),
    ensures
        forall|i: int| 0 <= i < t.len() ==> 0 <= #[trigger] t[i] < edges.len(),
    decreases t.len(),
{
    if t.len() > 0 {
        lemma_trail_in_range(edges, other_end(edges[t[0]], start), t.drop_first());
        assert forall|i: int| 0 <= i < t.len() implies 0 <= #[trigger] t[i] < edges.len() by {
            if i > 0 {
                assert(t[i] == t.drop_first()[i - 1]);
            }
        }
    }
}


/// A claim made from one city is seen from the other: whichever direction one looks up a
/// pair of adjacent cities, one finds the same routes, with the same claimers.
pub proof fn lemma_route_same_in_both_directions(map: GameMap, a: City, b: City, index: int)
    ensures
        map.route_at((a, b), index) == map.route_at((b, a), index),
{
    lemma_lookup_symmetric(map.routes(), a, b);
}

/// With parallel claims not allowed (two or three players), once one of two parallel routes
/// is claimed, nobody can claim the other.
pub proof fn lemma_no_parallel_claim_when_disallowed(
    map: GameMap,
    route: CityToCity,
    index: int,
    cards: Seq<TrainColor>,
    player_id: usize,
)
    requires
        !map.parallel_allowed(),
        index == 0 || index == 1,
        map.route_at(route, 1 - index) matches Some(other) && other.claimer is Some,
    ensures
        map.claim_error(route, index, cards, player_id) is Some,
{
    lemma_lookup_symmetric(map.routes(), route.0, route.1);
}

/// Nobody can claim both parallel routes between two cities, whatever the number of players.
pub proof fn lemma_no_claim_of_both_parallels(
    map: GameMap,
    route: CityToCity,
    index: int,
    cards: Seq<TrainColor>,
    player_id: usize,
)
    requires
        index == 0 || index == 1,
        map.route_at(route, 1 - index) matches Some(other) && other.claimer == Some(player_id),
    ensures
        map.claim_error(route, index, cards, player_id) is Some,
{
    lemma_lookup_symmetric(map.routes(), route.0, route.1);
}

/// A hand of wild cards only has the wild color as its common color.
proof fn lemma_common_color_all_wild(cards: Seq<TrainColor>, n: int)
    requires
        0 <= n <= cards.len(),
        forall|i: int| 0 <= i < cards.len() ==> cards[i] == TrainColor::Wild,
    ensures
        common_color_prefix(cards, n) == Ok::<TrainColor, (TrainColor, TrainColor)>(TrainColor::Wild),
    decreases n,
{
    if n > 0 {
        lemma_common_color_all_wild(cards, n - 1);
    }
}

/// With parallel claims allowed (four or five players), a player may claim a free route
/// whose parallel route another player holds: a hand of wild cards of its length will do.
pub proof fn lemma_parallel_claim_when_allowed(
    map: GameMap,
    route: CityToCity,
    index: int,
    player_id: usize,
)
    requires
        map.parallel_allowed(),
        index == 0 || index == 1,
        map.route_at(route, index) matches Some(target) && target.claimer is None,
        map.route_at(route, 1 - index) matches Some(other) && other.claimer is Some
            && other.claimer != Some(player_id),
    ensures
        map.claim_error(
            route,
            index,
            Seq::new(map.route_at(route, index).unwrap().length as nat, |i: int| TrainColor::Wild),
            player_id,
        ) is None,
{
    let cards = Seq::new(map.route_at(route, index).unwrap().length as nat, |i: int| TrainColor::Wild);
    lemma_common_color_all_wild(cards, cards.len() as int);
}

/// Walks can be taken backwards: connectivity is symmetric in its two cities.
pub proof fn lemma_connected_symmetric(routes: Seq<ParallelRoutes>, player_id: usize, a: City, b: City)
    ensures
        connected(routes, player_id, a, b) == connected(routes, player_id, b, a),
{
    if connected(routes, player_id, a, b) {
        lemma_reverse_walk(routes, player_id, a, b);
    }
    if connected(routes, player_id, b, a) {
        lemma_reverse_walk(routes, player_id, b, a);
    }
}

proof fn lemma_reverse_walk(routes: Seq<ParallelRoutes>, player_id: usize, a: City, b: City)
    requires
        connected(routes, player_id, a, b),
    ensures
        connected(routes, player_id, b, a),
{
    let path = choose|path: Seq<City>|
        #[trigger] is_walk(routes, player_id, path) && path[0] == a && path.last() == b;
    let rev = path.reverse();
    assert forall|i: int| 0 <= i < rev.len() - 1 implies adjacent(
        routes,
        player_id,
        #[trigger] rev[i],
        rev[i + 1],
    ) by {
        let j = path.len() - 2 - i;
        assert(adjacent(routes, player_id, path[j], path[j + 1]));
        let k = choose|k: int|
            0 <= k < routes.len() && #[trigger] connects(routes[k], path[j], path[j + 1])
                && claimed_by(routes[k], player_id);
        assert(connects(routes[k], rev[i], rev[i + 1]));
    }
    assert(is_walk(routes, player_id, rev));
}

/// A city is connected to itself exactly when the player claimed a route from it.
pub proof fn lemma_connected_to_itself(routes: Seq<ParallelRoutes>, player_id: usize, a: City)
    ensures
        connected(routes, player_id, a, a) == exists|b: City| #[trigger]
            adjacent(routes, player_id, a, b),
{
    if connected(routes, player_id, a, a) {
        let path = choose|path: Seq<City>|
            #[trigger] is_walk(routes, player_id, path) && path[0] == a && path.last() == a;
        assert(adjacent(routes, player_id, path[0], path[1]));
    }
    if exists|b: City| #[trigger] adjacent(routes, player_id, a, b) {
        let b = choose|b: City| #[trigger] adjacent(routes, player_id, a, b);
        let k = choose|k: int|
            0 <= k < routes.len() && #[trigger] connects(routes[k], a, b) && claimed_by(
                routes[k],
                player_id,
            );
        assert(connects(routes[k], b, a));
        let path = seq![a, b, a];
        assert(adjacent(routes, player_id, path[1], path[2]));
        assert(is_walk(routes, player_id, path));
    }
}

/// More claims never disconnect cities: if every route the player claimed in one map is
/// claimed by them in another with the same routes, what is connected in the first is
/// connected in the second.
pub proof fn lemma_connected_monotone(
    routes: Seq<ParallelRoutes>,
    more: Seq<ParallelRoutes>,
    player_id: usize,
    a: City,
    b: City,
)
    requires
        more.len() == routes.len(),
        forall|i: int|
            0 <= i < routes.len() ==> (#[trigger] more[i]).start == routes[i].start && more[i].end
                == routes[i].end && (claimed_by(routes[i], player_id) ==> claimed_by(
                more[i],
                player_id,
            )),
        connected(routes, player_id, a, b),
    ensures
        connected(more, player_id, a, b),
{
    let path = choose|path: Seq<City>|
        #[trigger] is_walk(routes, player_id, path) && path[0] == a && path.last() == b;
    assert forall|i: int| 0 <= i < path.len() - 1 implies adjacent(
        more,
        player_id,
        #[trigger] path[i],
        path[i + 1],
    ) by {
        assert(adjacent(routes, player_id, path[i], path[i + 1]));
        let k = choose|k: int|
            0 <= k < routes.len() && #[trigger] connects(routes[k], path[i], path[i + 1])
                && claimed_by(routes[k], player_id);
        assert(connects(more[k], path[i], path[i + 1]));
    }
    assert(is_walk(more, player_id, path));
}

/// The total length of the routes not marked in `used`.
pub open spec fn free_length(edges: Seq<ClaimedRoute>, used: Seq<bool>) -> nat
    decreases edges.len(),
{
    if edges.len() == 0 || used.len() < edges.len() {
        0
    } else {
        free_length(edges.drop_last(), used.drop_last()) + if used[edges.len() - 1] {
            0nat
        } else {
            edges.last().length as nat
        }
    }
}

/// The total length of all routes.
pub open spec fn total_length(edges: Seq<ClaimedRoute>) -> nat
    decreases edges.len(),
{
    if edges.len() == 0 {
        0
    } else {
        total_length(edges.drop_last()) + edges.last().length as nat
    }
}

proof fn lemma_free_length_set(edges: Seq<ClaimedRoute>, used: Seq<bool>, j: int)
    requires
        used.len() == edges.len(),
        0 <= j < edges.len(),
        !used[j],
    ensures
        free_length(edges, used.update(j, true)) + edges[j].length == free_length(edges, used),
    decreases edges.len(),
{
    let u = used.update(j, true);
    if j == edges.len() - 1 {
        assert(u.drop_last() =~= used.drop_last());
    } else {
        assert(u.drop_last() =~= used.drop_last().update(j, true));
        lemma_free_length_set(edges.drop_last(), used.drop_last(), j);
    }
}

proof fn lemma_free_length_all(edges: Seq<ClaimedRoute>, used: Seq<bool>)
    requires
        used.len() == edges.len(),
        forall|i: int| 0 <= i < used.len() ==> !used[i],
    ensures
        free_length(edges, used) == total_length(edges),
    decreases edges.len(),
{
    if edges.len() > 0 {
        lemma_free_length_all(edges.drop_last(), used.drop_last());
    }
}

proof fn lemma_trail_within_free(edges: Seq<ClaimedRoute>, start: City, t: Seq<int>, used: Seq<bool>)
    requires
        used.len() == edges.len(),
        is_trail(edges, start, t),
        avoids(t, used),
    ensures
        trail_length(edges, t) <= free_length(edges, used),
    decreases t.len(),
{
    if t.len() > 0 {
        let j = t[0];
        let rest = t.drop_first();
        let u = used.update(j, true);
        assert forall|k: int| 0 <= k < rest.len() implies 0 <= #[trigger] rest[k] < u.len() && !u[rest[k]] by {
            assert(rest[k] == t[k + 1]);
            if rest[k] == j {
                assert(rest.contains(j));
            }
        }
        lemma_trail_within_free(edges, other_end(edges[j], start), rest, u);
        lemma_free_length_set(edges, used, j);
    }
}

/// The longest route of no route at all is 0.
pub proof fn lemma_longest_of_nothing(length: nat)
    requires
        is_longest(Seq::<ClaimedRoute>::empty(), length),
    ensures
        length == 0,
{
    let (start, t) = choose|start: City, t: Seq<int>|
        #[trigger] is_trail(Seq::<ClaimedRoute>::empty(), start, t) && trail_length(
            Seq::<ClaimedRoute>::empty(),
            t,
        ) == length;
    if t.len() > 0 {
        assert(0 <= t[0] < 0);
    }
}

/// The longest route of a single route is its length.
pub proof fn lemma_longest_of_one(e: ClaimedRoute, length: nat)
    requires
        is_longest(seq![e], length),
    ensures
        length == e.length,
{
    let edges = seq![e];
    let one = seq![0int];
    assert(one.drop_first() =~= Seq::<int>::empty());
    reveal_with_fuel(is_trail, 2);
    reveal_with_fuel(trail_length, 2);
    assert(is_trail(edges, e.route.0, one));
    assert(trail_length(edges, one) == e.length);
    let (start, t) = choose|start: City, t: Seq<int>|
        #[trigger] is_trail(edges, start, t) && trail_length(edges, t) == length;
    let used = seq![false];
    lemma_trail_in_range(edges, start, t);
    lemma_trail_within_free(edges, start, t, used);
    lemma_free_length_all(edges, used);
    assert(total_length(edges) == e.length) by {
        assert(edges.drop_last() =~= Seq::<ClaimedRoute>::empty());
        reveal_with_fuel(total_length, 2);
    }
}

/// The longest route never exceeds the total length of the routes.
pub proof fn lemma_longest_at_most_total(edges: Seq<ClaimedRoute>, length: nat)
    requires
        is_longest(edges, length),
    ensures
        length <= total_length(edges),
{
    let (start, t) = choose|start: City, t: Seq<int>|
        #[trigger] is_trail(edges, start, t) && trail_length(edges, t) == length;
    let used = Seq::new(edges.len(), |i: int| false);
    lemma_trail_in_range(edges, start, t);
    lemma_trail_within_free(edges, start, t, used);
    lemma_free_length_all(edges, used);
}

proof fn lemma_trail_extends(edges: Seq<ClaimedRoute>, more: Seq<ClaimedRoute>, start: City, t: Seq<int>)
    requires
        is_trail(edges, start, t),
    ensures
        is_trail(edges + more, start, t),
        trail_length(edges + more, t) == trail_length(edges, t),
    decreases t.len(),
{
    if t.len() > 0 {
        lemma_trail_extends(edges, more, other_end(edges[t[0]], start), t.drop_first());
    }
}

/// Adding routes never shortens the longest route.
pub proof fn lemma_longest_monotone(
    edges: Seq<ClaimedRoute>,
    more: Seq<ClaimedRoute>,
    length: nat,
    extended: nat,
)
    requires
        is_longest(edges, length),
        is_longest(edges + more, extended),
    ensures
        length <= extended,
{
    let (start, t) = choose|start: City, t: Seq<int>|
        #[trigger] is_trail(edges, start, t) && trail_length(edges, t) == length;
    lemma_trail_extends(edges, more, start, t);
}

/// The points that a claimed route of the given length is worth.
pub open spec fn points_for_length(length: int) -> u8 {
    if length == 1 {
        1
    } else if length == 2 {
        2
    } else if length == 3 {
        4
    } else if length == 4 {
        7
    } else if length == 5 {
        10
    } else {
        15
    }
}

/// An entry of the catalog: unclaimed routes of one length and one or two colors.
pub open spec fn entry(
    start: City,
    end: City,
    length: u8,
    first: TrainColor,
    second: Option<TrainColor>,
) -> ParallelRoutes {
    ParallelRoutes {
        start,
        end,
        first: Route { train_color: first, length, claimer: None },
        second: match second {
            Some(color) => Some(Route { train_color: color, length, claimer: None }),
            None => None,
        },
    }
}

/// Part 1 of the catalog of routes.
pub open spec fn catalog_part_0() -> Seq<ParallelRoutes> {
    seq![
        entry(City::Atlanta, City::Charleston, 2, TrainColor::Wild, None),
        entry(City::Atlanta, City::Miami, 5, TrainColor::Blue, None),
        entry(City::Atlanta, City::Nashville, 1, TrainColor::Wild, None),
        entry(City::Atlanta, City::NewOrleans, 4, TrainColor::Orange, Some(TrainColor::Yellow)),
        entry(City::Atlanta, City::Raleigh, 2, TrainColor::Wild, Some(TrainColor::Wild)),
        entry(City::Boston, City::Montreal, 2, TrainColor::Wild, Some(TrainColor::Wild)),
        entry(City::Boston, City::NewYork, 2, TrainColor::Yellow, Some(TrainColor::Red)),
        entry(City::Calgary, City::Helena, 4, TrainColor::Wild, None),
        entry(City::Calgary, City::Seattle, 4, TrainColor::Wild, None),
        entry(City::Calgary, City::Vancouver, 3, TrainColor::Wild, None),
        entry(City::Calgary, City::Winnipeg, 6, TrainColor::White, None),
        entry(City::Charleston, City::Miami, 4, TrainColor::Pink, None),
        entry(City::Charleston, City::Raleigh, 2, TrainColor::Wild, None),
    ]
}

/// Part 2 of the catalog of routes.
pub open spec fn catalog_part_1() -> Seq<ParallelRoutes> {
    seq![
        entry(City::Chicago, City::Duluth, 3, TrainColor::Red, None),
        entry(City::Chicago, City::Omaha, 4, TrainColor::Blue, None),
        entry(City::Chicago, City::Pittsburgh, 3, TrainColor::Black, Some(TrainColor::Orange)),
        entry(City::Chicago, City::SaintLouis, 2, TrainColor::Green, Some(TrainColor::White)),
        entry(City::Chicago, City::Toronto, 4, TrainColor::White, None),
        entry(City::Dallas, City::ElPaso, 4, TrainColor::Red, None),
        entry(City::Dallas, City::Houston, 1, TrainColor::Wild, Some(TrainColor::Wild)),
        entry(City::Dallas, City::LittleRock, 2, TrainColor::Wild, None),
        entry(City::Dallas, City::OklahomaCity, 2, TrainColor::Wild, Some(TrainColor::Wild)),
        entry(City::Denver, City::Helena, 4, TrainColor::Green, None),
        entry(City::Denver, City::KansasCity, 4, TrainColor::Black, Some(TrainColor::Orange)),
        entry(City::Denver, City::OklahomaCity, 4, TrainColor::Red, None),
        entry(City::Denver, City::Omaha, 4, TrainColor::Pink, None),
    ]
}

/// Part 3 of the catalog of routes.
pub open spec fn catalog_part_2() -> Seq<ParallelRoutes> {
    seq![
        entry(City::Denver, City::Phoenix, 5, TrainColor::White, None),
        entry(City::Denver, City::SaltLakeCity, 3, TrainColor::Red, Some(TrainColor::Yellow)),
        entry(City::Denver, City::SantaFe, 2, TrainColor::Wild, None),
        entry(City::Duluth, City::Helena, 6, TrainColor::Orange, None),
        entry(City::Duluth, City::Omaha, 2, TrainColor::Wild, Some(TrainColor::Wild)),
        entry(City::Duluth, City::SaultStMarie, 3, TrainColor::Wild, None),
        entry(City::Duluth, City::Toronto, 6, TrainColor::Pink, None),
        entry(City::Duluth, City::Winnipeg, 4, TrainColor::Black, None),
        entry(City::ElPaso, City::Houston, 6, TrainColor::Green, None),
        entry(City::ElPaso, City::LosAngeles, 6, TrainColor::Black, None),
        entry(City::ElPaso, City::OklahomaCity, 5, TrainColor::Yellow, None),
        entry(City::ElPaso, City::Phoenix, 3, TrainColor::Wild, None),
        entry(City::ElPaso, City::SantaFe, 2, TrainColor::Wild, None),
    ]
}

/// Part 4 of the catalog of routes.
pub open spec fn catalog_part_3() -> Seq<ParallelRoutes> {
    seq![
        entry(City::Helena, City::Omaha, 5, TrainColor::Red, None),
        entry(City::Helena, City::SaltLakeCity, 3, TrainColor::Pink, None),
        entry(City::Helena, City::Seattle, 6, TrainColor::Yellow, None),
        entry(City::Helena, City::Winnipeg, 4, TrainColor::Blue, None),
        entry(City::Houston, City::NewOrleans, 2, TrainColor::Wild, None),
        entry(City::KansasCity, City::SaintLouis, 2, TrainColor::Blue, Some(TrainColor::Pink)),
        entry(City::KansasCity, City::OklahomaCity, 2, TrainColor::Wild, Some(TrainColor::Wild)),
        entry(City::KansasCity, City::Omaha, 1, TrainColor::Wild, Some(TrainColor::Wild)),
        entry(City::LasVegas, City::LosAngeles, 2, TrainColor::Wild, None),
        entry(City::LasVegas, City::SaltLakeCity, 3, TrainColor::Orange, None),
        entry(City::LittleRock, City::Nashville, 3, TrainColor::White, None),
        entry(City::LittleRock, City::NewOrleans, 3, TrainColor::Wild, None),
        entry(City::LittleRock, City::OklahomaCity, 2, TrainColor::Wild, None),
    ]
}

/// Part 5 of the catalog of routes.
pub open spec fn catalog_part_4() -> Seq<ParallelRoutes> {
    seq![
        entry(City::LittleRock, City::SaintLouis, 2, TrainColor::Wild, None),
        entry(City::LosAngeles, City::Phoenix, 3, TrainColor::Wild, None),
        entry(City::LosAngeles, City::SanFrancisco, 3, TrainColor::Pink, Some(TrainColor::Yellow)),
        entry(City::Miami, City::NewOrleans, 6, TrainColor::Red, None),
        entry(City::Montreal, City::NewYork, 3, TrainColor::Blue, None),
        entry(City::Montreal, City::SaultStMarie, 5, TrainColor::Black, None),
        entry(City::Montreal, City::Toronto, 3, TrainColor::Wild, None),
        entry(City::Nashville, City::Pittsburgh, 4, TrainColor::Yellow, None),
        entry(City::Nashville, City::Raleigh, 3, TrainColor::Black, None),
        entry(City::Nashville, City::SaintLouis, 2, TrainColor::Wild, None),
        entry(City::NewYork, City::Pittsburgh, 2, TrainColor::Green, Some(TrainColor::White)),
        entry(City::NewYork, City::Washington, 2, TrainColor::Black, Some(TrainColor::Orange)),
        entry(City::OklahomaCity, City::SantaFe, 3, TrainColor::Blue, None),
    ]
}

/// Part 6 of the catalog of routes.
pub open spec fn catalog_part_5() -> Seq<ParallelRoutes> {
    seq![
        entry(City::Phoenix, City::SantaFe, 3, TrainColor::Wild, None),
        entry(City::Pittsburgh, City::Raleigh, 2, TrainColor::Wild, None),
        entry(City::Pittsburgh, City::SaintLouis, 5, TrainColor::Green, None),
        entry(City::Pittsburgh, City::Toronto, 2, TrainColor::Wild, None),
        entry(City::Pittsburgh, City::Washington, 2, TrainColor::Wild, None),
        entry(City::Portland, City::SaltLakeCity, 6, TrainColor::Blue, None),
        entry(City::Portland, City::SanFrancisco, 5, TrainColor::Green, Some(TrainColor::Pink)),
        entry(City::Raleigh, City::Washington, 2, TrainColor::Wild, Some(TrainColor::Wild)),
        entry(City::SaltLakeCity, City::SanFrancisco, 5, TrainColor::Orange, Some(TrainColor::White)),
        entry(City::SaultStMarie, City::Toronto, 2, TrainColor::Wild, None),
        entry(City::SaultStMarie, City::Winnipeg, 6, TrainColor::Wild, None),
        entry(City::Seattle, City::Portland, 1, TrainColor::Wild, Some(TrainColor::Wild)),
        entry(City::Seattle, City::Vancouver, 1, TrainColor::Wild, Some(TrainColor::Wild)),
    ]
}

/// The routes of the map of North America, in the order of their first city.
pub open spec fn us_catalog() -> Seq<ParallelRoutes> {
    catalog_part_0() + catalog_part_1() + catalog_part_2() + catalog_part_3() + catalog_part_4()
        + catalog_part_5()
}

/// The authoritative state of the map, per game.
pub struct GameMap {
    all_parallel_routes: Vec<ParallelRoutes>,
    parallel_routes_allowed: bool,
}

fn add_routes(
    routes: &mut Vec<ParallelRoutes>,
    start: City,
    end: City,
    length: u8,
    first: TrainColor,
    second: Option<TrainColor>,
)
    requires
        catalog_wf(old(routes)@),
        all_unclaimed(old(routes)@),
        1 <= length <= 6,
        start != end,
    ensures
        catalog_wf(final(routes)@),
        all_unclaimed(final(routes)@),
        final(routes)@ == old(routes)@.push(entry(start, end, length, first, second)),
{
    let second_route = match second {
        Some(color) => Some(Route::new(color, length)),
        None => None,
    };
    routes.push(ParallelRoutes { start, end, first: Route::new(first, length), second: second_route });
}

fn add_catalog_part_0(routes: &mut Vec<ParallelRoutes>)
    requires
        catalog_wf(old(routes)@),
        all_unclaimed(old(routes)@),
    ensures
        catalog_wf(final(routes)@),
        all_unclaimed(final(routes)@),
        final(routes)@ == old(routes)@ + catalog_part_0(),
{
    let ghost start = routes@;
    add_routes(routes, City::Atlanta, City::Charleston, 2, TrainColor::Wild, None);
    add_routes(routes, City::Atlanta, City::Miami, 5, TrainColor::Blue, None);
    add_routes(routes, City::Atlanta, City::Nashville, 1, TrainColor::Wild, None);
    add_routes(routes, City::Atlanta, City::NewOrleans, 4, TrainColor::Orange, Some(TrainColor::Yellow));
    add_routes(routes, City::Atlanta, City::Raleigh, 2, TrainColor::Wild, Some(TrainColor::Wild));
    add_routes(routes, City::Boston, City::Montreal, 2, TrainColor::Wild, Some(TrainColor::Wild));
    add_routes(routes, City::Boston, City::NewYork, 2, TrainColor::Yellow, Some(TrainColor::Red));
    add_routes(routes, City::Calgary, City::Helena, 4, TrainColor::Wild, None);
    add_routes(routes, City::Calgary, City::Seattle, 4, TrainColor::Wild, None);
    add_routes(routes, City::Calgary, City::Vancouver, 3, TrainColor::Wild, None);
    add_routes(routes, City::Calgary, City::Winnipeg, 6, TrainColor::White, None);
    add_routes(routes, City::Charleston, City::Miami, 4, TrainColor::Pink, None);
    add_routes(routes, City::Charleston, City::Raleigh, 2, TrainColor::Wild, None);
    assert(routes@ =~= start + catalog_part_0());
}

fn add_catalog_part_1(routes: &mut Vec<ParallelRoutes>)
    requires
        catalog_wf(old(routes)@),
        all_unclaimed(old(routes)@),
    ensures
        catalog_wf(final(routes)@),
        all_unclaimed(final(routes)@),
        final(routes)@ == old(routes)@ + catalog_part_1(),
{
    let ghost start = routes@;
    add_routes(routes, City::Chicago, City::Duluth, 3, TrainColor::Red, None);
    add_routes(routes, City::Chicago, City::Omaha, 4, TrainColor::Blue, None);
    add_routes(routes, City::Chicago, City::Pittsburgh, 3, TrainColor::Black, Some(TrainColor::Orange));
    add_routes(routes, City::Chicago, City::SaintLouis, 2, TrainColor::Green, Some(TrainColor::White));
    add_routes(routes, City::Chicago, City::Toronto, 4, TrainColor::White, None);
    add_routes(routes, City::Dallas, City::ElPaso, 4, TrainColor::Red, None);
    add_routes(routes, City::Dallas, City::Houston, 1, TrainColor::Wild, Some(TrainColor::Wild));
    add_routes(routes, City::Dallas, City::LittleRock, 2, TrainColor::Wild, None);
    add_routes(routes, City::Dallas, City::OklahomaCity, 2, TrainColor::Wild, Some(TrainColor::Wild));
    add_routes(routes, City::Denver, City::Helena, 4, TrainColor::Green, None);
    add_routes(routes, City::Denver, City::KansasCity, 4, TrainColor::Black, Some(TrainColor::Orange));
    add_routes(routes, City::Denver, City::OklahomaCity, 4, TrainColor::Red, None);
    add_routes(routes, City::Denver, City::Omaha, 4, TrainColor::Pink, None);
    assert(routes@ =~= start + catalog_part_1());
}

fn add_catalog_part_2(routes: &mut Vec<ParallelRoutes>)
    requires
        catalog_wf(old(routes)@),
        all_unclaimed(old(routes)@),
    ensures
        catalog_wf(final(routes)@),
        all_unclaimed(final(routes)@),
        final(routes)@ == old(routes)@ + catalog_part_2(),
{
    let ghost start = routes@;
    add_routes(routes, City::Denver, City::Phoenix, 5, TrainColor::White, None);
    add_routes(routes, City::Denver, City::SaltLakeCity, 3, TrainColor::Red, Some(TrainColor::Yellow));
    add_routes(routes, City::Denver, City::SantaFe, 2, TrainColor::Wild, None);
    add_routes(routes, City::Duluth, City::Helena, 6, TrainColor::Orange, None);
    add_routes(routes, City::Duluth, City::Omaha, 2, TrainColor::Wild, Some(TrainColor::Wild));
    add_routes(routes, City::Duluth, City::SaultStMarie, 3, TrainColor::Wild, None);
    add_routes(routes, City::Duluth, City::Toronto, 6, TrainColor::Pink, None);
    add_routes(routes, City::Duluth, City::Winnipeg, 4, TrainColor::Black, None);
    add_routes(routes, City::ElPaso, City::Houston, 6, TrainColor::Green, None);
    add_routes(routes, City::ElPaso, City::LosAngeles, 6, TrainColor::Black, None);
    add_routes(routes, City::ElPaso, City::OklahomaCity, 5, TrainColor::Yellow, None);
    add_routes(routes, City::ElPaso, City::Phoenix, 3, TrainColor::Wild, None);
    add_routes(routes, City::ElPaso, City::SantaFe, 2, TrainColor::Wild, None);
    assert(routes@ =~= start + catalog_part_2());
}

fn add_catalog_part_3(routes: &mut Vec<ParallelRoutes>)
    requires
        catalog_wf(old(routes)@),
        all_unclaimed(old(routes)@),
    ensures
        catalog_wf(final(routes)@),
        all_unclaimed(final(routes)@),
        final(routes)@ == old(routes)@ + catalog_part_3(),
{
    let ghost start = routes@;
    add_routes(routes, City::Helena, City::Omaha, 5, TrainColor::Red, None);
    add_routes(routes, City::Helena, City::SaltLakeCity, 3, TrainColor::Pink, None);
    add_routes(routes, City::Helena, City::Seattle, 6, TrainColor::Yellow, None);
    add_routes(routes, City::Helena, City::Winnipeg, 4, TrainColor::Blue, None);
    add_routes(routes, City::Houston, City::NewOrleans, 2, TrainColor::Wild, None);
    add_routes(routes, City::KansasCity, City::SaintLouis, 2, TrainColor::Blue, Some(TrainColor::Pink));
    add_routes(routes, City::KansasCity, City::OklahomaCity, 2, TrainColor::Wild, Some(TrainColor::Wild));
    add_routes(routes, City::KansasCity, City::Omaha, 1, TrainColor::Wild, Some(TrainColor::Wild));
    add_routes(routes, City::LasVegas, City::LosAngeles, 2, TrainColor::Wild, None);
    add_routes(routes, City::LasVegas, City::SaltLakeCity, 3, TrainColor::Orange, None);
    add_routes(routes, City::LittleRock, City::Nashville, 3, TrainColor::White, None);
    add_routes(routes, City::LittleRock, City::NewOrleans, 3, TrainColor::Wild, None);
    add_routes(routes, City::LittleRock, City::OklahomaCity, 2, TrainColor::Wild, None);
    assert(routes@ =~= start + catalog_part_3());
}

fn add_catalog_part_4(routes: &mut Vec<ParallelRoutes>)
    requires
        catalog_wf(old(routes)@),
        all_unclaimed(old(routes)@),
    ensures
        catalog_wf(final(routes)@),
        all_unclaimed(final(routes)@),
        final(routes)@ == old(routes)@ + catalog_part_4(),
{
    let ghost start = routes@;
    add_routes(routes, City::LittleRock, City::SaintLouis, 2, TrainColor::Wild, None);
    add_routes(routes, City::LosAngeles, City::Phoenix, 3, TrainColor::Wild, None);
    add_routes(routes, City::LosAngeles, City::SanFrancisco, 3, TrainColor::Pink, Some(TrainColor::Yellow));
    add_routes(routes, City::Miami, City::NewOrleans, 6, TrainColor::Red, None);
    add_routes(routes, City::Montreal, City::NewYork, 3, TrainColor::Blue, None);
    add_routes(routes, City::Montreal, City::SaultStMarie, 5, TrainColor::Black, None);
    add_routes(routes, City::Montreal, City::Toronto, 3, TrainColor::Wild, None);
    add_routes(routes, City::Nashville, City::Pittsburgh, 4, TrainColor::Yellow, None);
    add_routes(routes, City::Nashville, City::Raleigh, 3, TrainColor::Black, None);
    add_routes(routes, City::Nashville, City::SaintLouis, 2, TrainColor::Wild, None);
    add_routes(routes, City::NewYork, City::Pittsburgh, 2, TrainColor::Green, Some(TrainColor::White));
    add_routes(routes, City::NewYork, City::Washington, 2, TrainColor::Black, Some(TrainColor::Orange));
    add_routes(routes, City::OklahomaCity, City::SantaFe, 3, TrainColor::Blue, None);
    assert(routes@ =~= start + catalog_part_4());
}

fn add_catalog_part_5(routes: &mut Vec<ParallelRoutes>)
    requires
        catalog_wf(old(routes)@),
        all_unclaimed(old(routes)@),
    ensures
        catalog_wf(final(routes)@),
        all_unclaimed(final(routes)@),
        final(routes)@ == old(routes)@ + catalog_part_5(),
{
    let ghost start = routes@;
    add_routes(routes, City::Phoenix, City::SantaFe, 3, TrainColor::Wild, None);
    add_routes(routes, City::Pittsburgh, City::Raleigh, 2, TrainColor::Wild, None);
    add_routes(routes, City::Pittsburgh, City::SaintLouis, 5, TrainColor::Green, None);
    add_routes(routes, City::Pittsburgh, City::Toronto, 2, TrainColor::Wild, None);
    add_routes(routes, City::Pittsburgh, City::Washington, 2, TrainColor::Wild, None);
    add_routes(routes, City::Portland, City::SaltLakeCity, 6, TrainColor::Blue, None);
    add_routes(routes, City::Portland, City::SanFrancisco, 5, TrainColor::Green, Some(TrainColor::Pink));
    add_routes(routes, City::Raleigh, City::Washington, 2, TrainColor::Wild, Some(TrainColor::Wild));
    add_routes(routes, City::SaltLakeCity, City::SanFrancisco, 5, TrainColor::Orange, Some(TrainColor::White));
    add_routes(routes, City::SaultStMarie, City::Toronto, 2, TrainColor::Wild, None);
    add_routes(routes, City::SaultStMarie, City::Winnipeg, 6, TrainColor::Wild, None);
    add_routes(routes, City::Seattle, City::Portland, 1, TrainColor::Wild, Some(TrainColor::Wild));
    add_routes(routes, City::Seattle, City::Vancouver, 1, TrainColor::Wild, Some(TrainColor::Wild));
    assert(routes@ =~= start + catalog_part_5());
}

impl GameMap {
    /// The entries of the catalog.
    pub closed spec fn routes(&self) -> Seq<ParallelRoutes> {
        self.all_parallel_routes@
    }

    /// Whether different players may claim the two parallel routes between two cities.
    pub closed spec fn parallel_allowed(&self) -> bool {
        self.parallel_routes_allowed
    }

    /// The catalog is well formed.
    pub open spec fn wf(&self) -> bool {
        catalog_wf(self.routes())
    }

    /// The route at a parallel index between two cities, whichever city one starts from.
    pub open spec fn route_at(&self, route: CityToCity, index: int) -> Option<Route> {
        match lookup(self.routes(), route.0, route.1) {
            Some(k) => if 0 <= index < num_parallel(self.routes()[k]) {
                Some(segment(self.routes()[k], index))
            } else {
                None
            },
            None => None,
        }
    }

    fn build_us_map() -> (r: Vec<ParallelRoutes>)
        ensures
            catalog_wf(r@),
            all_unclaimed(r@),
            r@ == us_catalog(),
    {
        let mut routes: Vec<ParallelRoutes> = Vec::new();
        add_catalog_part_0(&mut routes);
        add_catalog_part_1(&mut routes);
        add_catalog_part_2(&mut routes);
        add_catalog_part_3(&mut routes);
        add_catalog_part_4(&mut routes);
        add_catalog_part_5(&mut routes);
        assert(routes@ =~= us_catalog());
        routes
    }

    /// Creates the map for a game of `num_players` players, which must be between two and
    /// five; parallel routes may be claimed by different players only with more than three.
    pub fn new(num_players: usize) -> (r: Result<GameMap, String>)
        ensures
            r is Ok <==> 2 <= num_players <= 5,
            match r {
                Ok(map) => {
                    &&& map.wf()
                    &&& all_unclaimed(map.routes())
                    &&& map.routes() == us_catalog()
                    &&& map.routes().len() == 78
                    &&& map.parallel_allowed() == (num_players > 3)
                },
                Err(e) => e@ == "Cannot create a game with "@ + decimal(num_players as nat)
                    + " players: one must have at least two, and at most 5 players."@,
            },
    {
        if num_players < 2 || num_players > 5 {
            let mut msg = String::from_str("Cannot create a game with ");
            msg.append(usize_to_string(num_players).as_str());
            msg.append(" players: one must have at least two, and at most 5 players.");
            Err(msg)
        } else {
            Ok(GameMap { parallel_routes_allowed: num_players > 3, all_parallel_routes: Self::build_us_map() })
        }
    }


    /// Why the player may not claim the route with the given cards, if they may not.
    pub open spec fn claim_error(
        &self,
        route: CityToCity,
        index: int,
        cards: Seq<TrainColor>,
        player_id: usize,
    ) -> Option<Seq<char>> {
        claim_error(self.routes(), self.parallel_allowed(), route, index, cards, player_id)
    }

    /// Request from player `player_id` to claim the route at `parallel_route_index` between
    /// the two cities, with the given cards.
    ///
    /// Fails, with a message, if the cities are not adjacent, the index does not exist, the
    /// number of cards is not the route's length, the route is claimed, the player holds the
    /// parallel route, the parallel route is claimed and parallel claims are not allowed, the
    /// cards have two real colors, or their color is not the route's. Otherwise the route is
    /// claimed by the player, in both directions.
    pub fn claim_route_for_player(
        &mut self,
        route: CityToCity,
        parallel_route_index: usize,
        cards: &Vec<TrainColor>,
        player_id: usize,
    ) -> (r: Result<ClaimedRoute, String>)
        requires
            old(self).wf(),
        ensures
            final(self).wf(),
            final(self).parallel_allowed() == old(self).parallel_allowed(),
            match r {
                Ok(claimed) => {
                    let k = lookup(old(self).routes(), route.0, route.1).unwrap();
                    &&& old(self).claim_error(route, parallel_route_index as int, cards@, player_id)
                        is None
                    &&& claimed == ClaimedRoute {
                        route,
                        parallel_route_index,
                        length: segment(old(self).routes()[k], parallel_route_index as int).length,
                    }
                    &&& final(self).routes() == old(self).routes().update(
                        k,
                        with_claimer(old(self).routes()[k], parallel_route_index as int, player_id),
                    )
                },
                Err(e) => {
                    &&& old(self).claim_error(route, parallel_route_index as int, cards@, player_id)
                        == Some(e@)
                    &&& final(self).routes() == old(self).routes()
                },
            },
    {
        let (start, end) = route;
        let k = match self.find_routes(route) {
            Some(k) => k,
            None => return Err(between("No routes exist between ", start, end, ".")),
        };
        let p = self.all_parallel_routes[k];
        let num: usize = match p.second {
            Some(_) => 2,
            None => 1,
        };
        if parallel_route_index >= num {
            let mut prefix = String::from_str("The selected route (");
            prefix.append(usize_to_string(parallel_route_index).as_str());
            prefix.append(") between ");
            return Err(between(prefix.as_str(), start, end, " does not exist."));
        }
        let (target, other) = if parallel_route_index == 0 {
            (p.first, p.second)
        } else {
            (p.second.unwrap(), Some(p.first))
        };
        if target.length as usize != cards.len() {
            let mut msg = between("A route between ", start, end, " needs ");
            msg.append(usize_to_string(target.length as usize).as_str());
            msg.append(" cards, but ");
            msg.append(usize_to_string(cards.len()).as_str());
            msg.append(" were provided.");
            return Err(msg);
        }
        if target.claimer.is_some() {
            return Err(between("The selected route between ", start, end, " is already claimed."));
        }
        if let Some(other_route) = other {
            if other_route.claimer == Some(player_id) {
                return Err(between("Cannot claim more than one route between ", start, end, "."));
            }
            if other_route.claimer.is_some() && !self.parallel_routes_allowed {
                return Err(
                    between(
                        "Another route is already claimed by someone else between ",
                        start,
                        end,
                        ".",
                    ),
                );
            }
        }
        match hand_common_color(cards) {
            Err((c1, c2)) => {
                let mut msg = String::from_str("Cannot claim a route with ");
                msg.append(c1.to_string().as_str());
                msg.append(" and ");
                msg.append(c2.to_string().as_str());
                msg.append(" cards.");
                return Err(msg);
            },
            Ok(common) => {
                if common.is_not_wild() && target.train_color.is_not_wild() && target.train_color
                    != common {
                    let mut msg = String::from_str("Cannot claim a route of color ");
                    msg.append(target.train_color.to_string().as_str());
                    msg.append(" with ");
                    msg.append(common.to_string().as_str());
                    msg.append(" cards.");
                    return Err(msg);
                }
            },
        }
        let claimed = Route { claimer: Some(player_id), ..target };
        let updated = if parallel_route_index == 0 {
            ParallelRoutes { first: claimed, ..p }
        } else {
            ParallelRoutes { second: Some(claimed), ..p }
        };
        self.all_parallel_routes.set(k, updated);
        proof {
            assert(updated == with_claimer(p, parallel_route_index as int, player_id));
        }
        Ok(ClaimedRoute { route, parallel_route_index, length: target.length })
    }

    /// The routes between two cities, in parallel index order, whichever city one starts
    /// from; `None` if the cities are not adjacent.
    pub fn get_parallel_routes(&self, route: CityToCity) -> (r: Option<Vec<Route>>)
        ensures
            match r {
                Some(v) => {
                    let k = lookup(self.routes(), route.0, route.1);
                    &&& k is Some
                    &&& v@.len() == num_parallel(self.routes()[k.unwrap()])
                    &&& forall|i: int|
                        0 <= i < v@.len() ==> #[trigger] v@[i] == segment(
                            self.routes()[k.unwrap()],
                            i,
                        )
                },
                None => lookup(self.routes(), route.0, route.1) is None,
            },
    {
        match self.find_routes(route) {
            None => None,
            Some(k) => {
                let p = self.all_parallel_routes[k];
                let mut v: Vec<Route> = Vec::new();
                v.push(p.first);
                if let Some(second) = p.second {
                    v.push(second);
                }
                Some(v)
            },
        }
    }

    /// The route at a parallel index between two cities, whichever city one starts from.
    pub fn get_parallel_route(&self, route: CityToCity, parallel_route_index: usize) -> (r: Option<
        Route,
    >)
        ensures
            r == self.route_at(route, parallel_route_index as int),
    {
        match self.find_routes(route) {
            None => None,
            Some(k) => {
                let p = self.all_parallel_routes[k];
                if parallel_route_index == 0 {
                    Some(p.first)
                } else if parallel_route_index == 1 {
                    p.second
                } else {
                    None
                }
            },
        }
    }

    /// Marks the route at a parallel index between two cities as claimed by the player,
    /// without any check of the rules, unless it is claimed already or does not exist.
    pub fn set_route_claimer(&mut self, route: CityToCity, parallel_route_index: usize, player_id: usize)
        requires
            old(self).wf(),
        ensures
            final(self).wf(),
            final(self).parallel_allowed() == old(self).parallel_allowed(),
            match old(self).route_at(route, parallel_route_index as int) {
                Some(seg) => {
                    let k = lookup(old(self).routes(), route.0, route.1).unwrap();
                    if seg.claimer is None {
                        final(self).routes() == old(self).routes().update(
                            k,
                            with_claimer(old(self).routes()[k], parallel_route_index as int, player_id),
                        )
                    } else {
                        final(self).routes() == old(self).routes()
                    }
                },
                None => final(self).routes() == old(self).routes(),
            },
    {
        if let Some(k) = self.find_routes(route) {
            let p = self.all_parallel_routes[k];
            if parallel_route_index == 0 {
                if p.first.claimer.is_none() {
                    let claimed = Route { claimer: Some(player_id), ..p.first };
                    self.all_parallel_routes.set(k, ParallelRoutes { first: claimed, ..p });
                }
            } else if parallel_route_index == 1 {
                if let Some(second) = p.second {
                    if second.claimer.is_none() {
                        let claimed = Route { claimer: Some(player_id), ..second };
                        self.all_parallel_routes.set(
                            k,
                            ParallelRoutes { second: Some(claimed), ..p },
                        );
                    }
                }
            }
        }
    }

    /// Calculates how many points a route of the given length is worth.
    pub fn calculate_points_for_claimed_route(length: u8) -> (r: u8)
        requires
            1 <= length <= 6,
        ensures
            r == points_for_length(length as int),
    {
        match length {
            1 => 1,
            2 => 2,
            3 => 4,
            4 => 7,
            5 => 10,
            _ => 15,
        }
    }


    fn mark(visited: &mut Vec<bool>, count: &mut usize, c: City) -> (changed: bool)
        requires
            old(visited)@.len() == 36,
            *old(count) == count_true(old(visited)@),
        ensures
            final(visited)@ == old(visited)@.update(city_index(c) as int, true),
            *final(count) == count_true(final(visited)@),
            *final(count) <= 36,
            *final(count) == *old(count) + if changed {
                1usize
            } else {
                0
            },
            changed == !old(visited)@[city_index(c) as int],
    {
        let j = c.index();
        if visited[j] {
            proof {
                assert(old(visited)@.update(j as int, true) =~= old(visited)@);
                lemma_count_true_bound(visited@);
            }
            false
        } else {
            proof {
                lemma_count_true_set(visited@, j as int);
                lemma_count_true_bound(visited@.update(j as int, true));
            }
            visited.set(j, true);
            *count = *count + 1;
            true
        }
    }

    /// Whether the player has connected the two cities of a destination with the routes they
    /// claimed: a walk of one or more of their routes leads from one to the other.
    pub fn has_player_fulfilled_destination(&self, destination: CityToCity, player_id: usize) -> (r:
        bool)
        ensures
            r == connected(self.routes(), player_id, destination.0, destination.1),
    {
        let (start, end) = destination;
        let ghost routes = self.routes();
        let mut visited: Vec<bool> = Vec::new();
        let mut k: usize = 0;
        while k < City::COUNT
            invariant
                k <= City::COUNT,
                visited@.len() == k,
                forall|j: int| 0 <= j < k ==> !(#[trigger] visited@[j]),
            decreases City::COUNT - k,
        {
            visited.push(false);
            k = k + 1;
        }
        let mut count: usize = 0;
        proof {
            assert(count_true(visited@) == 0) by {
                lemma_count_true_zero(visited@);
            }
        }
        let mut i: usize = 0;
        while i < self.all_parallel_routes.len()
            invariant
                routes == self.routes(),
                i <= routes.len(),
                visited@.len() == 36,
                count == count_true(visited@),
                forall|x: City|
                    #[trigger] visited@[city_index(x) as int] ==> connected(
                        routes,
                        player_id,
                        start,
                        x,
                    ),
                forall|j: int, x: City|
                    0 <= j < i && #[trigger] connects(routes[j], start, x) && claimed_by(
                        routes[j],
                        player_id,
                    ) ==> visited@[city_index(x) as int],
            decreases routes.len() - i,
        {
            let p = self.all_parallel_routes[i];
            let claimed = p.first.claimer == Some(player_id) || match p.second {
                Some(second) => second.claimer == Some(player_id),
                None => false,
            };
            if claimed {
                if p.start == start {
                    proof {
                        assert(connects(routes[i as int], start, p.end));
                        assert(is_walk(routes, player_id, seq![start, p.end]));
                    }
                    Self::mark(&mut visited, &mut count, p.end);
                }
                if p.end == start {
                    proof {
                        assert(connects(routes[i as int], start, p.start));
                        assert(is_walk(routes, player_id, seq![start, p.start]));
                    }
                    Self::mark(&mut visited, &mut count, p.start);
                }
            }
            proof {
                assert forall|j: int, x: City|
                    0 <= j < i + 1 && #[trigger] connects(routes[j], start, x) && claimed_by(
                        routes[j],
                        player_id,
                    ) implies visited@[city_index(x) as int] by {
                    if j == i {
                        lemma_city_index_injective(x, p.end);
                        lemma_city_index_injective(x, p.start);
                    }
                }
            }
            i = i + 1;
        }
        proof {
            lemma_count_true_bound(visited@);
            assert forall|x: City| adjacent(routes, player_id, start, x) implies #[trigger] visited@[city_index(
                x,
            ) as int] by {
                let j = choose|j: int|
                    0 <= j < routes.len() && #[trigger] connects(routes[j], start, x) && claimed_by(
                        routes[j],
                        player_id,
                    );
            }
        }
        let mut changed = true;
        while changed
            invariant
                routes == self.routes(),
                visited@.len() == 36,
                count == count_true(visited@),
                count <= 36,
                forall|x: City|
                    #[trigger] visited@[city_index(x) as int] ==> connected(
                        routes,
                        player_id,
                        start,
                        x,
                    ),
                forall|x: City|
                    adjacent(routes, player_id, start, x) ==> #[trigger] visited@[city_index(
                        x,
                    ) as int],
                !changed ==> forall|j: int|
                    0 <= j < routes.len() && claimed_by(#[trigger] routes[j], player_id) ==> (
                    visited@[city_index(routes[j].start) as int] <==> visited@[city_index(
                        routes[j].end,
                    ) as int]),
            decreases 36 - count + if changed {
                1int
            } else {
                0
            },
        {
            let ghost count_before = count;
            changed = false;
            let mut i: usize = 0;
            while i < self.all_parallel_routes.len()
                invariant
                    routes == self.routes(),
                    i <= routes.len(),
                    visited@.len() == 36,
                    count == count_true(visited@),
                    count <= 36,
                    changed ==> count > count_before,
                    !changed ==> count == count_before,
                    forall|x: City|
                        #[trigger] visited@[city_index(x) as int] ==> connected(
                            routes,
                            player_id,
                            start,
                            x,
                        ),
                    forall|x: City|
                        adjacent(routes, player_id, start, x) ==> #[trigger] visited@[city_index(
                            x,
                        ) as int],
                    !changed ==> forall|j: int|
                        0 <= j < i && claimed_by(#[trigger] routes[j], player_id) ==> (
                        visited@[city_index(routes[j].start) as int] <==> visited@[city_index(
                            routes[j].end,
                        ) as int]),
                decreases routes.len() - i,
            {
                let p = self.all_parallel_routes[i];
                let claimed = p.first.claimer == Some(player_id) || match p.second {
                    Some(second) => second.claimer == Some(player_id),
                    None => false,
                };
                if claimed {
                    let s = visited[p.start.index()];
                    let e = visited[p.end.index()];
                    if s && !e {
                        proof {
                            lemma_extend_connected(routes, player_id, start, p.start, p.end, i as int);
                        }
                        Self::mark(&mut visited, &mut count, p.end);
                        changed = true;
                    } else if e && !s {
                        proof {
                            lemma_extend_connected(routes, player_id, start, p.end, p.start, i as int);
                        }
                        Self::mark(&mut visited, &mut count, p.start);
                        changed = true;
                    }
                }
                i = i + 1;
            }
        }
        proof {
            if visited@[city_index(end) as int] {
            } else {
                if connected(routes, player_id, start, end) {
                    let path = choose|path: Seq<City>|
                        #[trigger] is_walk(routes, player_id, path) && path[0] == start && path.last()
                            == end;
                    lemma_closed_set_complete(
                        routes,
                        player_id,
                        start,
                        visited@,
                        path,
                        path.len() - 1,
                    );
                }
            }
        }
        visited[end.index()]
    }

    fn find_routes(&self, route: CityToCity) -> (r: Option<usize>)
        ensures
            match r {
                Some(k) => {
                    &&& lookup(self.routes(), route.0, route.1) == Some(k as int)
                    &&& k < self.routes().len()
                    &&& connects(self.routes()[k as int], route.0, route.1)
                },
                None => lookup(self.routes(), route.0, route.1) is None,
            },
    {
        let mut i: usize = 0;
        while i < self.all_parallel_routes.len()
            invariant
                i <= self.all_parallel_routes@.len(),
                lookup(self.all_parallel_routes@.subrange(0, i as int), route.0, route.1) is None,
            decreases self.all_parallel_routes@.len() - i,
        {
            let p = self.all_parallel_routes[i];
            proof {
                let s = self.all_parallel_routes@.subrange(0, i + 1);
                assert(s.drop_last() =~= self.all_parallel_routes@.subrange(0, i as int));
            }
            if (p.start == route.0 && p.end == route.1) || (p.start == route.1 && p.end == route.0) {
                proof {
                    lemma_lookup_prefix(self.all_parallel_routes@, i as int + 1, route.0, route.1);
                    lemma_lookup_symmetric(self.all_parallel_routes@, route.0, route.1);
                }
                return Some(i);
            }
            i = i + 1;
        }
        proof {
            assert(self.all_parallel_routes@.subrange(0, i as int) =~= self.all_parallel_routes@);
        }
        None
    }
}

/// The first entry found in a prefix is the first entry found in the whole catalog.
proof fn lemma_lookup_prefix(s: Seq<ParallelRoutes>, n: int, a: City, b: City)
    requires
        0 <= n <= s.len(),
        lookup(s.subrange(0, n), a, b) is Some,
    ensures
        lookup(s, a, b) == lookup(s.subrange(0, n), a, b),
    decreases s.len() - n,
{
    if n < s.len() {
        assert(s.subrange(0, n + 1).drop_last() =~= s.subrange(0, n));
        lemma_lookup_prefix(s, n + 1, a, b);
    } else {
        assert(s.subrange(0, n) =~= s);
    }
}

} // verus!
