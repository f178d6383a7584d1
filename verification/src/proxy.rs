//! Choosing the HTTPRoute and the upstream peer for a request.
use vstd::prelude::*;

use crate::config::ServerPort;
use crate::model::{Gateway, HTTPRoute, HTTPRouteRulesBackendRefs, RequestParts};
use crate::route::HTTPRouteChecker;
use crate::text::str_equal;

verus! {

/// The kind of a proxy error.
#[derive(PartialEq, Eq, Structural, Clone, Copy)]
pub enum ErrorType {
    InvalidHTTPHeader,
}

/// Which side of the proxy an error comes from.
#[derive(PartialEq, Eq, Structural, Clone, Copy)]
pub enum ErrorSource {
    Downstream,
}

/// Whether a failed request may be retried.
#[derive(PartialEq, Eq, Structural, Clone, Copy)]
pub enum RetryType {
    Decided(bool),
    ReusedOnly,
}

/// An error of the proxy.
pub struct ProxyError {
    pub etype: ErrorType,
    pub esource: ErrorSource,
    pub retry: RetryType,
    pub context: Option<&'static str>,
}

/// The error that a request with unusable headers gets: invalid HTTP header,
/// from downstream, not to be retried, with the given context.
pub open spec fn header_error(context: &'static str) -> ProxyError {
    ProxyError {
        etype: ErrorType::InvalidHTTPHeader,
        esource: ErrorSource::Downstream,
        retry: RetryType::Decided(false),
        context: Some(context),
    }
}

/// The error for a request with unusable headers.
pub fn new_pingora_error(context: &'static str) -> (r: ProxyError)
    ensures
        r == header_error(context),
{
    ProxyError {
        etype: ErrorType::InvalidHTTPHeader,
        esource: ErrorSource::Downstream,
        retry: RetryType::Decided(false),
        context: Some(context),
    }
}

/// The context of the error when no route serves a request.
pub const NO_ROUTE: &'static str = "No suitable http route found";

/// The gateway has this name and namespace.
pub open spec fn gateway_is(g: Gateway, name: Seq<char>, ns: Seq<char>) -> bool {
    &&& g.name@ == name
    &&& g.namespace matches Some(gns)
    &&& gns@ == ns
}

/// Some gateway is named like the route, in the route's namespace.
pub open spec fn has_gateway_named_like(route: HTTPRoute, gateways: Seq<Gateway>) -> bool {
    match route.namespace {
        Some(ns) => exists|i: int|
            0 <= i < gateways.len() && gateway_is(#[trigger] gateways[i], route.name@, ns@),
        None => false,
    }
}

/// Index of the first candidate whose route is named like a gateway.
pub open spec fn first_named_like_gateway(
    candidates: Seq<(&HTTPRoute, &Vec<HTTPRouteRulesBackendRefs>)>,
    gateways: Seq<Gateway>,
) -> Option<int>
    decreases candidates.len(),
{
    if candidates.len() == 0 {
        None
    } else if has_gateway_named_like(*candidates[0].0, gateways) {
        Some(0)
    } else {
        match first_named_like_gateway(candidates.skip(1), gateways) {
            Some(i) => Some(i + 1),
            None => None,
        }
    }
}

pub proof fn lemma_first_named_like_gateway(
    candidates: Seq<(&HTTPRoute, &Vec<HTTPRouteRulesBackendRefs>)>,
    gateways: Seq<Gateway>,
)
    ensures
        first_named_like_gateway(candidates, gateways) matches Some(i) ==> 0 <= i < candidates.len()
            && has_gateway_named_like(*candidates[i].0, gateways) && forall|j: int|
            0 <= j < i ==> !has_gateway_named_like(*(#[trigger] candidates[j]).0, gateways),
        first_named_like_gateway(candidates, gateways) is None ==> forall|j: int|
            0 <= j < candidates.len() ==> !has_gateway_named_like(*(#[trigger] candidates[j]).0, gateways),
    decreases candidates.len(),
{
    if candidates.len() > 0 {
        lemma_first_named_like_gateway(candidates.skip(1), gateways);
        if !has_gateway_named_like(*candidates[0].0, gateways) {
            assert forall|j: int| 1 <= j < candidates.len() implies candidates[j] == candidates.skip(1)[j
                - 1] by {}
        }
    }
}

/// The route serves the request: its outcome picks backends.
pub open spec fn serves(route: HTTPRoute, req: RequestParts, port: i32, gateways: Seq<Gateway>) -> bool {
    route.picked_backends(req, port, gateways) matches Some(Some(_))
}

/// The route is chosen for the request: it serves it and is named like a
/// gateway.
pub open spec fn chosen(route: HTTPRoute, req: RequestParts, port: i32, gateways: Seq<Gateway>) -> bool {
    serves(route, req, port, gateways) && has_gateway_named_like(route, gateways)
}

/// Index of the first route chosen for the request.
pub open spec fn first_chosen(routes: Seq<HTTPRoute>, req: RequestParts, port: i32, gateways: Seq<Gateway>) -> Option<
    int,
>
    decreases routes.len(),
{
    if routes.len() == 0 {
        None
    } else if chosen(routes[0], req, port, gateways) {
        Some(0)
    } else {
        match first_chosen(routes.skip(1), req, port, gateways) {
            Some(i) => Some(i + 1),
            None => None,
        }
    }
}

pub proof fn lemma_first_chosen(routes: Seq<HTTPRoute>, req: RequestParts, port: i32, gateways: Seq<Gateway>)
    ensures
        first_chosen(routes, req, port, gateways) matches Some(i) ==> 0 <= i < routes.len() && chosen(
            routes[i],
            req,
            port,
            gateways,
        ) && forall|j: int| 0 <= j < i ==> !chosen(#[trigger] routes[j], req, port, gateways),
        first_chosen(routes, req, port, gateways) is None ==> forall|j: int|
            0 <= j < routes.len() ==> !chosen(#[trigger] routes[j], req, port, gateways),
    decreases routes.len(),
{
    if routes.len() > 0 {
        lemma_first_chosen(routes.skip(1), req, port, gateways);
        if !chosen(routes[0], req, port, gateways) {
            assert forall|j: int| 1 <= j < routes.len() implies routes[j] == routes.skip(1)[j - 1] by {}
        }
    }
}

/// The route matching of a request can be made for every route, and every
/// route that serves it has a namespace.
pub open spec fn routable(routes: Seq<HTTPRoute>, req: RequestParts, port: i32, gateways: Seq<Gateway>) -> bool {
    forall|i: int|
        0 <= i < routes.len() ==> (#[trigger] routes[i]).picked_backends(req, port, gateways) is Some && (serves(
            routes[i],
            req,
            port,
            gateways,
        ) ==> routes[i].namespace is Some)
}

/// The peer that requests are proxied to.
pub struct UpstreamPeer {
    pub address: String,
    pub tls: bool,
    pub sni: String,
}

/// The HTTP proxy of one server port.
pub struct HttpProxyApp {
    pub port: ServerPort,
}

fn gateway_named_like(route: &HTTPRoute, gateways: &Vec<Gateway>) -> (r: bool)
    requires
        route.namespace is Some,
    ensures
        r == has_gateway_named_like(*route, gateways@),
{
    let ns = match &route.namespace {
        Some(ns) => ns,
        None => return false,
    };
    let mut i: usize = 0;
    while i < gateways.len()
        invariant
            i <= gateways@.len(),
            route.namespace == Some(*ns),
            forall|j: int|
                0 <= j < i ==> !gateway_is(#[trigger] gateways@[j], route.name@, ns@),
        decreases gateways.len() - i,
    {
        let g = &gateways[i];
        if str_equal(g.name.as_str(), route.name.as_str()) {
            match &g.namespace {
                Some(gns) => {
                    if str_equal(gns.as_str(), ns.as_str()) {
                        return true;
                    }
                },
                None => {},
            }
        }
        i = i + 1;
    }
    false
}

impl HttpProxyApp {
    /// The proxy of a server port.
    pub fn new(port: ServerPort) -> (r: Self)
        ensures
            r.port == port,
    {
        HttpProxyApp { port }
    }

    /// Among candidate routes with their backends, the first whose route is
    /// named like a gateway (same name, the route's namespace); the error
    /// "No suitable http route found" when there is none.
    pub fn select_http_route<'a>(
        &self,
        http_routes: Vec<(&'a HTTPRoute, &'a Vec<HTTPRouteRulesBackendRefs>)>,
        gateways: &Vec<Gateway>,
    ) -> (r: Result<(&'a HTTPRoute, &'a Vec<HTTPRouteRulesBackendRefs>), ProxyError>)
        requires
            forall|i: int| 0 <= i < http_routes@.len() ==> (#[trigger] http_routes@[i]).0.namespace is Some,
        ensures
            match first_named_like_gateway(http_routes@, gateways@) {
                Some(i) => r == Ok::<_, ProxyError>(http_routes@[i]),
                None => r == Err::<(&'a HTTPRoute, &'a Vec<HTTPRouteRulesBackendRefs>), _>(
                    header_error(NO_ROUTE),
                ),
            },
    {
        proof { lemma_first_named_like_gateway(http_routes@, gateways@); }
        let mut i: usize = 0;
        while i < http_routes.len()
            invariant
                i <= http_routes@.len(),
                forall|k: int| 0 <= k < http_routes@.len() ==> (#[trigger] http_routes@[k]).0.namespace is Some,
                first_named_like_gateway(http_routes@, gateways@) matches Some(m) ==> 0 <= m
                    < http_routes@.len() && has_gateway_named_like(*http_routes@[m].0, gateways@) && forall|
                    j: int,
                | 0 <= j < m ==> !has_gateway_named_like(*(#[trigger] http_routes@[j]).0, gateways@),
                first_named_like_gateway(http_routes@, gateways@) is None ==> forall|j: int|
                    0 <= j < http_routes@.len() ==> !has_gateway_named_like(
                        *(#[trigger] http_routes@[j]).0,
                        gateways@,
                    ),
                forall|j: int| 0 <= j < i ==> !has_gateway_named_like(*(#[trigger] http_routes@[j]).0, gateways@),
            decreases http_routes.len() - i,
        {
            let (route, backends) = http_routes[i];
            if gateway_named_like(route, gateways) {
                return Ok((route, backends));
            }
            i = i + 1;
        }
        Err(new_pingora_error(NO_ROUTE))
    }

    /// The route that serves a request that came in on this proxy's port:
    /// the first of `routes` that serves it and is named like a gateway, with
    /// the backends it picks; the error "No suitable http route found" when
    /// there is none.  This is what `select_http_route` gives on the routes
    /// that serve the request, in their order, with their backends.  Every
    /// route is matched, so each match must be able to finish, and every
    /// route that serves the request must have a namespace (`routable`).
    pub fn matche_http_route<'a>(&self, headers: &RequestParts, routes: &'a Vec<HTTPRoute>, gateways: &Vec<Gateway>) -> (r:
        Result<(&'a HTTPRoute, &'a Vec<HTTPRouteRulesBackendRefs>), ProxyError>)
        requires
            routable(routes@, *headers, self.port.port, gateways@),
        ensures
            match first_chosen(routes@, *headers, self.port.port, gateways@) {
                Some(i) => (r matches Ok((route, backends)) && *route == routes@[i]
                    && routes@[i].picked_backends(*headers, self.port.port, gateways@) == Some(
                    Some(backends@),
                )),
                None => r == Err::<(&'a HTTPRoute, &'a Vec<HTTPRouteRulesBackendRefs>), _>(
                    header_error(NO_ROUTE),
                ),
            },
            forall|c: Seq<(&HTTPRoute, &Vec<HTTPRouteRulesBackendRefs>)>|
                #[trigger] serving_candidates(c, routes@, *headers, self.port.port, gateways@) ==> match first_named_like_gateway(
                    c,
                    gateways@,
                ) {
                    Some(k) => r matches Ok((route, backends)) && *route == *c[k].0 && backends@ == c[k].1@,
                    None => r == Err::<(&'a HTTPRoute, &'a Vec<HTTPRouteRulesBackendRefs>), _>(
                        header_error(NO_ROUTE),
                    ),
                },
    {
        let port: i32 = self.port.port;
        let mut candidates: Vec<(&'a HTTPRoute, &'a Vec<HTTPRouteRulesBackendRefs>)> = Vec::new();
        let ghost mut idx: Seq<int> = Seq::empty();
        let mut i: usize = 0;
        while i < routes.len()
            invariant
                i <= routes@.len(),
                port == self.port.port,
                routable(routes@, *headers, port, gateways@),
                candidates@.len() == idx.len(),
                forall|k: int|
                    0 <= k < idx.len() ==> 0 <= #[trigger] idx[k] < i && *candidates@[k].0 == routes@[idx[k]]
                        && routes@[idx[k]].picked_backends(*headers, port, gateways@) == Some(
                        Some(candidates@[k].1@),
                    ),
                forall|k1: int, k2: int| 0 <= k1 < k2 < idx.len() ==> idx[k1] < idx[k2],
                forall|j: int|
                    0 <= j < i && serves(#[trigger] routes@[j], *headers, port, gateways@) ==> exists|k: int|
                        0 <= k < idx.len() && idx[k] == j,
            decreases routes.len() - i,
        {
            let route = &routes[i];
            match route.check_headers(headers, port, gateways) {
                Some(backends) => {
                    let ghost old_idx = idx;
                    candidates.push((route, backends));
                    proof {
                        idx = idx.push(i as int);
                        assert forall|j: int|
                            0 <= j < i + 1 && serves(#[trigger] routes@[j], *headers, port, gateways@) implies exists|k: int|
                            0 <= k < idx.len() && idx[k] == j by {
                            if j == i {
                                assert(idx[idx.len() - 1] == j);
                            } else {
                                let k = choose|k: int| 0 <= k < old_idx.len() && old_idx[k] == j;
                                assert(idx[k] == j);
                            }
                        }
                    }
                },
                None => {},
            }
            i = i + 1;
        }
        proof {
            assert forall|k: int| 0 <= k < candidates@.len() implies (#[trigger] candidates@[k]).0.namespace is Some by {
                assert(serves(routes@[idx[k]], *headers, port, gateways@));
            }
            lemma_first_chosen(routes@, *headers, port, gateways@);
            lemma_first_named_like_gateway(candidates@, gateways@);
            match first_named_like_gateway(candidates@, gateways@) {
                Some(m) => {
                    let j = idx[m];
                    assert(chosen(routes@[j], *headers, port, gateways@));
                    assert forall|j2: int| 0 <= j2 < j implies !chosen(#[trigger] routes@[j2], *headers, port, gateways@) by {
                        if chosen(routes@[j2], *headers, port, gateways@) {
                            let k = choose|k: int| 0 <= k < idx.len() && idx[k] == j2;
                            if k >= m {
                                assert(idx[m] <= idx[k]);
                            }
                            assert(!has_gateway_named_like(*candidates@[k].0, gateways@));
                        }
                    }
                    lemma_first_chosen_unique(routes@, *headers, port, gateways@, j);
                },
                None => {
                    assert forall|j2: int| 0 <= j2 < routes@.len() implies !chosen(#[trigger] routes@[j2], *headers, port, gateways@) by {
                        if chosen(routes@[j2], *headers, port, gateways@) {
                            let k = choose|k: int| 0 <= k < idx.len() && idx[k] == j2;
                            assert(!has_gateway_named_like(*candidates@[k].0, gateways@));
                        }
                    }
                },
            }
        }
        let r = self.select_http_route(candidates, gateways);
        proof {
            assert forall|c: Seq<(&HTTPRoute, &Vec<HTTPRouteRulesBackendRefs>)>|
                #[trigger] serving_candidates(c, routes@, *headers, port, gateways@) implies match first_named_like_gateway(
                    c,
                    gateways@,
                ) {
                    Some(k) => r matches Ok((route, backends)) && *route == *c[k].0 && backends@ == c[k].1@,
                    None => r == Err::<(&'a HTTPRoute, &'a Vec<HTTPRouteRulesBackendRefs>), _>(
                        header_error(NO_ROUTE),
                    ),
                } by {
                law_choice_selects_among_serving_routes(routes@, *headers, port, gateways@, c);
                lemma_first_named_like_gateway(c, gateways@);
            }
        }
        r
    }

    /// The peer for a request: when `matche_http_route` fails, its error;
    /// else, whichever route was chosen, the peer at `127.0.0.1:80`, without
    /// TLS and without SNI.  Both contracts speak through `first_chosen`.
    pub fn route(&self, headers: &RequestParts, routes: &Vec<HTTPRoute>, gateways: &Vec<Gateway>) -> (r: Result<
        UpstreamPeer,
        ProxyError,
    >)
        requires
            routable(routes@, *headers, self.port.port, gateways@),
        ensures
            routed(routes@, *headers, self.port.port, gateways@, r),
    {
        match self.matche_http_route(headers, routes, gateways) {
            Ok(_) => {},
            Err(e) => return Err(e),
        }
        Ok(UpstreamPeer { address: "127.0.0.1:80".to_owned(), tls: false, sni: String::new() })
    }

    /// Whether the route matching of a request can be made for every route
    /// and every route that serves it has a namespace.
    pub fn is_routable(&self, headers: &RequestParts, routes: &Vec<HTTPRoute>, gateways: &Vec<Gateway>) -> (r: bool)
        ensures
            r == routable(routes@, *headers, self.port.port, gateways@),
    {
        let port: i32 = self.port.port;
        let mut i: usize = 0;
        while i < routes.len()
            invariant
                i <= routes@.len(),
                port == self.port.port,
                forall|j: int|
                    0 <= j < i ==> (#[trigger] routes@[j]).picked_backends(*headers, port, gateways@) is Some
                        && (serves(routes@[j], *headers, port, gateways@) ==> routes@[j].namespace is Some),
            decreases routes.len() - i,
        {
            match routes[i].outcome(headers, port, gateways) {
                None => return false,
                Some(Some(_)) => {
                    if routes[i].namespace.is_none() {
                        return false;
                    }
                },
                Some(None) => {},
            }
            i = i + 1;
        }
        true
    }

    /// The peer for a request, as `route` gives it, where the route matching
    /// can be made (`routable`); `None` where it cannot.
    pub fn try_route(&self, headers: &RequestParts, routes: &Vec<HTTPRoute>, gateways: &Vec<Gateway>) -> (r: Option<
        Result<UpstreamPeer, ProxyError>,
    >)
        ensures
            r is Some <==> routable(routes@, *headers, self.port.port, gateways@),
            r matches Some(x) ==> routed(routes@, *headers, self.port.port, gateways@, x),
    {
        if self.is_routable(headers, routes, gateways) {
            Some(self.route(headers, routes, gateways))
        } else {
            None
        }
    }
}

/// What routing a request gives: when a route is chosen, the peer at
/// `127.0.0.1:80` without TLS and without SNI; when none is, the error
/// "No suitable http route found".
pub open spec fn routed(
    routes: Seq<HTTPRoute>,
    req: RequestParts,
    port: i32,
    gateways: Seq<Gateway>,
    r: Result<UpstreamPeer, ProxyError>,
) -> bool {
    match first_chosen(routes, req, port, gateways) {
        Some(_) => r matches Ok(peer) && peer.address@ == "127.0.0.1:80"@ && !peer.tls && peer.sni@.len() == 0,
        None => r == Err::<UpstreamPeer, _>(header_error(NO_ROUTE)),
    }
}

/// The first chosen route is the one before which no route is chosen.
pub proof fn lemma_first_chosen_unique(
    routes: Seq<HTTPRoute>,
    req: RequestParts,
    port: i32,
    gateways: Seq<Gateway>,
    j: int,
)
    requires
        0 <= j < routes.len(),
        chosen(routes[j], req, port, gateways),
        forall|j2: int| 0 <= j2 < j ==> !chosen(#[trigger] routes[j2], req, port, gateways),
    ensures
        first_chosen(routes, req, port, gateways) == Some(j),
    decreases j,
{
    if j > 0 {
        assert forall|j2: int| 0 <= j2 < j - 1 implies !chosen(#[trigger] routes.skip(1)[j2], req, port, gateways) by {
            assert(routes.skip(1)[j2] == routes[j2 + 1]);
        }
        assert(routes.skip(1)[j - 1] == routes[j]);
        assert(!chosen(routes[0], req, port, gateways));
        lemma_first_chosen_unique(routes.skip(1), req, port, gateways, j - 1);
    }
}

/// The routes that serve the request, in their order.
pub open spec fn serving_routes(routes: Seq<HTTPRoute>, req: RequestParts, port: i32, gateways: Seq<Gateway>) -> Seq<
    HTTPRoute,
>
    decreases routes.len(),
{
    if routes.len() == 0 {
        Seq::empty()
    } else if serves(routes[0], req, port, gateways) {
        seq![routes[0]] + serving_routes(routes.skip(1), req, port, gateways)
    } else {
        serving_routes(routes.skip(1), req, port, gateways)
    }
}

/// Candidates that are the routes serving the request, in their order, each
/// with the backends it picks: what route selection is made among.
pub open spec fn serving_candidates(
    c: Seq<(&HTTPRoute, &Vec<HTTPRouteRulesBackendRefs>)>,
    routes: Seq<HTTPRoute>,
    req: RequestParts,
    port: i32,
    gateways: Seq<Gateway>,
) -> bool {
    &&& c.len() == serving_routes(routes, req, port, gateways).len()
    &&& forall|k: int|
        0 <= k < c.len() ==> *(#[trigger] c[k]).0 == serving_routes(routes, req, port, gateways)[k] && (*c[k].0).picked_backends(
            req,
            port,
            gateways,
        ) == Some(Some(c[k].1@))
}

/// Choosing a route for a request is selecting, among the routes that serve
/// it taken in order, the first one named like a gateway: for candidates
/// whose routes are the serving routes in order, the selection finds a
/// candidate exactly when a route is chosen, and that candidate's route is
/// the chosen route.
pub proof fn law_choice_selects_among_serving_routes(
    routes: Seq<HTTPRoute>,
    req: RequestParts,
    port: i32,
    gateways: Seq<Gateway>,
    candidates: Seq<(&HTTPRoute, &Vec<HTTPRouteRulesBackendRefs>)>,
)
    requires
        candidates.len() == serving_routes(routes, req, port, gateways).len(),
        forall|k: int|
            0 <= k < candidates.len() ==> *(#[trigger] candidates[k]).0 == serving_routes(
                routes,
                req,
                port,
                gateways,
            )[k],
    ensures
        match first_chosen(routes, req, port, gateways) {
            Some(i) => first_named_like_gateway(candidates, gateways) matches Some(k) && *candidates[k].0
                == routes[i],
            None => first_named_like_gateway(candidates, gateways) is None,
        },
    decreases routes.len(),
{
    if routes.len() > 0 {
        let rest = routes.skip(1);
        lemma_first_chosen(rest, req, port, gateways);
        if serves(routes[0], req, port, gateways) {
            let c1 = candidates.skip(1);
            assert forall|k: int| 0 <= k < c1.len() implies *(#[trigger] c1[k]).0 == serving_routes(
                rest,
                req,
                port,
                gateways,
            )[k] by {
                assert(c1[k] == candidates[k + 1]);
            }
            assert(*candidates[0].0 == routes[0]);
            law_choice_selects_among_serving_routes(rest, req, port, gateways, c1);
            if !has_gateway_named_like(routes[0], gateways) {
                lemma_first_named_like_gateway(c1, gateways);
                match first_chosen(rest, req, port, gateways) {
                    Some(i) => {
                        let k = first_named_like_gateway(c1, gateways)->0;
                        assert(rest[i] == routes[i + 1]);
                        assert(c1[k] == candidates[k + 1]);
                    },
                    None => {},
                }
            }
        } else {
            law_choice_selects_among_serving_routes(rest, req, port, gateways, candidates);
            match first_chosen(rest, req, port, gateways) {
                Some(i) => {
                    assert(rest[i] == routes[i + 1]);
                },
                None => {},
            }
        }
    }
}

/// A route is named like a gateway exactly when it has a namespace and some
/// gateway has the route's name and that same namespace; a route without a
/// namespace is named like no gateway.
pub proof fn law_named_like_a_gateway(route: HTTPRoute, gateways: Seq<Gateway>)
    ensures
        has_gateway_named_like(route, gateways) <==> (route.namespace matches Some(ns) && exists|i: int|
            0 <= i < gateways.len() && (#[trigger] gateways[i]).name@ == route.name@ && gateways[i].namespace is Some
                && gateways[i].namespace->0@ == ns@),
{
    if let Some(ns) = route.namespace {
        if exists|i: int|
            0 <= i < gateways.len() && (#[trigger] gateways[i]).name@ == route.name@ && gateways[i].namespace is Some
                && gateways[i].namespace->0@ == ns@ {
            let i = choose|i: int|
                0 <= i < gateways.len() && (#[trigger] gateways[i]).name@ == route.name@ && gateways[i].namespace is Some
                    && gateways[i].namespace->0@ == ns@;
            assert(gateway_is(gateways[i], route.name@, ns@));
        }
    }
}

/// Where no route serves the request, routing it fails with "No suitable
/// http route found"; a route that serves it and is named like a gateway is
/// always found, so routing does not fail then.
pub proof fn law_routing_fails_only_without_a_chosen_route(
    routes: Seq<HTTPRoute>,
    req: RequestParts,
    port: i32,
    gateways: Seq<Gateway>,
    r: Result<UpstreamPeer, ProxyError>,
    j: int,
)
    requires
        routed(routes, req, port, gateways, r),
    ensures
        0 <= j < routes.len() && serves(routes[j], req, port, gateways) && has_gateway_named_like(
            routes[j],
            gateways,
        ) ==> r is Ok,
        (forall|k: int| 0 <= k < routes.len() ==> !serves(#[trigger] routes[k], req, port, gateways)) ==> r
            == Err::<UpstreamPeer, _>(header_error(NO_ROUTE)),
{
    lemma_first_chosen(routes, req, port, gateways);
    if 0 <= j < routes.len() && serves(routes[j], req, port, gateways) && has_gateway_named_like(
        routes[j],
        gateways,
    ) {
        assert(chosen(routes[j], req, port, gateways));
    }
    if forall|k: int| 0 <= k < routes.len() ==> !serves(#[trigger] routes[k], req, port, gateways) {
        if first_chosen(routes, req, port, gateways) is Some {
            let i = first_chosen(routes, req, port, gateways)->0;
            assert(!serves(routes[i], req, port, gateways));
        }
    }
}

} // verus!
