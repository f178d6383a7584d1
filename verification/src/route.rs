//! Whether an HTTPRoute serves a request, and with which backends.
use vstd::prelude::*;

use crate::gateway::route_verdict;
use crate::matcher::HTTPRouteRulesChecker;
use crate::model::{Gateway, HTTPRoute, HTTPRouteRules, HTTPRouteRulesBackendRefs, RequestParts};
use crate::pattern::{wildcard_match, wildcard_matches, wildcard_valid};
use crate::text::{bytes_equal, utf8_of};

verus! {

/// The gateway has a listener on `port`.
pub open spec fn listens_on(gateway: Gateway, port: i32) -> bool {
    exists|i: int| 0 <= i < gateway.listeners@.len() && (#[trigger] gateway.listeners@[i]).port == port
}

pub open spec fn listening_pred(port: i32) -> spec_fn(Gateway) -> bool {
    |g: Gateway| listens_on(g, port)
}

/// The gateways with a listener on `port`, in order.
pub open spec fn gateways_on(all: Seq<Gateway>, port: i32) -> Seq<Gateway> {
    all.filter(listening_pred(port))
}

fn has_listener_on(gateway: &Gateway, port: i32) -> (r: bool)
    ensures
        r == listens_on(*gateway, port),
{
    let mut i: usize = 0;
    while i < gateway.listeners.len()
        invariant
            i <= gateway.listeners@.len(),
            forall|j: int| 0 <= j < i ==> (#[trigger] gateway.listeners@[j]).port != port,
        decreases gateway.listeners.len() - i,
    {
        if gateway.listeners[i].port == port {
            return true;
        }
        i = i + 1;
    }
    false
}

/// The gateways of `all` that have a listener on `port`, in order.
pub fn gateways<'a>(all: &'a Vec<Gateway>, port: i32) -> (r: Vec<&'a Gateway>)
    ensures
        r@.len() == gateways_on(all@, port).len(),
        forall|k: int| 0 <= k < r@.len() ==> *r@[k] == gateways_on(all@, port)[k],
{
    let ghost pred = listening_pred(port);
    let mut r: Vec<&'a Gateway> = Vec::new();
    let mut i: usize = 0;
    while i < all.len()
        invariant
            i <= all@.len(),
            pred == listening_pred(port),
            r@.len() == all@.take(i as int).filter(pred).len(),
            forall|k: int| 0 <= k < r@.len() ==> *r@[k] == all@.take(i as int).filter(pred)[k],
        decreases all.len() - i,
    {
        let g = &all[i];
        proof {
            reveal(Seq::filter);
            assert(all@.take(i + 1).drop_last() =~= all@.take(i as int));
            assert(all@.take(i + 1).last() == all@[i as int]);
        }
        if has_listener_on(g, port) {
            r.push(g);
        }
        i = i + 1;
    }
    assert(all@.take(all@.len() as int) =~= all@);
    r
}

/// The hostname of a route begins with `*.`, byte-wise.
pub open spec fn star_dot_prefixed(p: Seq<u8>) -> bool {
    p.len() >= 2 && p[0] == 42u8 && p[1] == 46u8
}

/// The outcome of matching the host against one hostname of a route: a
/// hostname that begins with `*.` is a wildcard (`None` when it is not a
/// valid wildcard, the match cannot be made), every other hostname must
/// equal the host byte for byte.
pub open spec fn hostname_verdict(hostname: Seq<char>, host: Seq<u8>) -> Option<bool> {
    let p = utf8_of(hostname);
    if star_dot_prefixed(p) {
        if wildcard_valid(p) {
            Some(wildcard_matches(p, host))
        } else {
            None
        }
    } else {
        Some(host == p)
    }
}

/// The outcome of matching the host against hostnames in order until one
/// matches.
pub open spec fn hostnames_verdict(hostnames: Seq<String>, host: Seq<u8>) -> Option<bool>
    decreases hostnames.len(),
{
    if hostnames.len() == 0 {
        Some(false)
    } else {
        match hostname_verdict(hostnames[0]@, host) {
            None => None,
            Some(true) => Some(true),
            Some(false) => hostnames_verdict(hostnames.skip(1), host),
        }
    }
}

/// The outcome of checking the route against gateways in order until it
/// attaches to one.
pub open spec fn gateways_verdict(route: HTTPRoute, gateways: Seq<Gateway>) -> Option<bool>
    decreases gateways.len(),
{
    if gateways.len() == 0 {
        Some(false)
    } else {
        match route_verdict(route, gateways[0]) {
            None => None,
            Some(true) => Some(true),
            Some(false) => gateways_verdict(route, gateways.skip(1)),
        }
    }
}

/// Index of the first rule that applies to the request.
pub open spec fn first_applicable(rules: Seq<HTTPRouteRules>, req: RequestParts) -> Option<int>
    decreases rules.len(),
{
    if rules.len() == 0 {
        None
    } else if rules[0].applies_to(req) {
        Some(0)
    } else {
        match first_applicable(rules.skip(1), req) {
            Some(i) => Some(i + 1),
            None => None,
        }
    }
}

pub proof fn lemma_first_applicable(rules: Seq<HTTPRouteRules>, req: RequestParts)
    ensures
        first_applicable(rules, req) matches Some(i) ==> 0 <= i < rules.len() && rules[i].applies_to(req)
            && forall|j: int| 0 <= j < i ==> !(#[trigger] rules[j]).applies_to(req),
        first_applicable(rules, req) is None ==> forall|j: int|
            0 <= j < rules.len() ==> !(#[trigger] rules[j]).applies_to(req),
    decreases rules.len(),
{
    if rules.len() > 0 {
        lemma_first_applicable(rules.skip(1), req);
        if !rules[0].applies_to(req) {
            assert forall|j: int| 1 <= j < rules.len() implies rules[j] == rules.skip(1)[j - 1] by {}
        }
    }
}

/// The outcome of matching a request against a route: `None` when the match
/// cannot be made (an invalid wildcard hostname or a gateway without
/// namespace is reached), `Some(None)` when the route does not serve the
/// request, `Some(Some(i))` when its rule `i` does.  The route needs parent
/// references, a `host` header matching one of its hostnames, a gateway
/// listening on `port` that it attaches to, and a rule that applies.
pub open spec fn route_outcome(route: HTTPRoute, req: RequestParts, port: i32, gateways: Seq<Gateway>) -> Option<
    Option<int>,
> {
    if route.parent_refs is None {
        Some(None)
    } else {
        match req.header_of("host"@) {
            None => Some(None),
            Some(host) => match route.hostnames {
                None => Some(None),
                Some(hs) => match hostnames_verdict(hs@, host.value@) {
                    None => None,
                    Some(false) => Some(None),
                    Some(true) => match gateways_verdict(route, gateways_on(gateways, port)) {
                        None => None,
                        Some(false) => Some(None),
                        Some(true) => match route.rules {
                            None => Some(None),
                            Some(rules) => Some(first_applicable(rules@, req)),
                        },
                    },
                },
            },
        }
    }
}

/// A route that picks backends for requests.
pub trait HTTPRouteChecker {
    /// The backends picked for the request: `None` when the match cannot be
    /// made, `Some(None)` when none are picked.
    spec fn picked_backends(&self, headers: RequestParts, port: i32, gateways: Seq<Gateway>) -> Option<
        Option<Seq<HTTPRouteRulesBackendRefs>>,
    >;

    /// Matches the request that came in on `port` against this route, with
    /// the gateways known now.
    fn check_headers<'a>(&'a self, headers: &RequestParts, port: i32, gateways: &Vec<Gateway>) -> (r:
        Option<&'a Vec<HTTPRouteRulesBackendRefs>>)
        requires
            self.picked_backends(*headers, port, gateways@) is Some,
        ensures
            match self.picked_backends(*headers, port, gateways@) {
                Some(Some(b)) => r matches Some(v) && v@ == b,
                _ => r is None,
            },
    ;
}

impl HTTPRoute {
    /// Matches the request that came in on `port` against this route, with
    /// the gateways known now: `None` where the match cannot be made (an
    /// invalid wildcard hostname or a gateway without namespace is reached),
    /// else the backends picked, if any.
    pub fn outcome<'a>(&'a self, headers: &RequestParts, port: i32, gateways: &Vec<Gateway>) -> (r: Option<
        Option<&'a Vec<HTTPRouteRulesBackendRefs>>,
    >)
        ensures
            match self.picked_backends(*headers, port, gateways@) {
                None => r is None,
                Some(None) => r matches Some(None),
                Some(Some(b)) => r matches Some(Some(v)) && v@ == b,
            },
    {
        // 0. the route needs a parent
        if self.parent_refs.is_none() {
            return Some(None);
        }
        // 1. the hostnames
        let req_host = match headers.header("host") {
            Some(h) => h,
            None => return Some(None),
        };
        let hostnames = match &self.hostnames {
            None => return Some(None),
            Some(hs) => hs,
        };
        let mut i: usize = 0;
        let mut host_matched = false;
        assert(hostnames@.skip(0) =~= hostnames@);
        while i < hostnames.len()
            invariant_except_break
                i <= hostnames@.len(),
                !host_matched,
                self.parent_refs is Some,
                headers.header_of("host"@) == Some(*req_host),
                self.hostnames == Some(*hostnames),
                hostnames_verdict(hostnames@, req_host.value@) == hostnames_verdict(
                    hostnames@.skip(i as int),
                    req_host.value@,
                ),
            ensures
                host_matched ==> hostnames_verdict(hostnames@, req_host.value@) == Some(true),
                !host_matched ==> hostnames_verdict(hostnames@, req_host.value@) == Some(false),
            decreases hostnames.len() - i,
        {
            let ghost rest = hostnames@.skip(i as int);
            assert(rest[0] == hostnames@[i as int]);
            assert(rest.skip(1) =~= hostnames@.skip(i + 1));
            let p = hostnames[i].as_str().as_bytes();
            let ok = if p.len() >= 2 && p[0] == 42u8 && p[1] == 46u8 {
                match wildcard_match(p, req_host.value.as_slice()) {
                    Some(b) => b,
                    None => return None,
                }
            } else {
                bytes_equal(req_host.value.as_slice(), p)
            };
            if ok {
                host_matched = true;
                break;
            }
            i = i + 1;
        }
        if !host_matched {
            return Some(None);
        }
        // 2. the gateways
        let gws = crate::route::gateways(gateways, port);
        let ghost on = gateways_on(gateways@, port);
        let mut k: usize = 0;
        let mut attached = false;
        assert(on.skip(0) =~= on);
        while k < gws.len()
            invariant_except_break
                k <= gws@.len(),
                !attached,
                gws@.len() == on.len(),
                forall|m: int| 0 <= m < gws@.len() ==> *gws@[m] == on[m],
                on == gateways_on(gateways@, port),
                self.parent_refs is Some,
                headers.header_of("host"@) == Some(*req_host),
                self.hostnames == Some(*hostnames),
                hostnames_verdict(hostnames@, req_host.value@) == Some(true),
                gateways_verdict(*self, on) == gateways_verdict(*self, on.skip(k as int)),
            ensures
                attached ==> gateways_verdict(*self, on) == Some(true),
                !attached ==> gateways_verdict(*self, on) == Some(false),
            decreases gws.len() - k,
        {
            let ghost rest = on.skip(k as int);
            assert(rest[0] == on[k as int]);
            assert(rest.skip(1) =~= on.skip(k + 1));
            match self.gateway_verdict_of(gws[k]) {
                None => return None,
                Some(true) => {
                    attached = true;
                    break;
                },
                Some(false) => {},
            }
            k = k + 1;
        }
        if !attached {
            return Some(None);
        }
        // 3. the rules
        match &self.rules {
            None => Some(None),
            Some(rules) => {
                proof { crate::route::lemma_first_applicable(rules@, *headers); }
                let mut j: usize = 0;
                while j < rules.len()
                    invariant
                        j <= rules@.len(),
                        self.rules == Some(*rules),
                        route_outcome(*self, *headers, port, gateways@) == Some(
                            first_applicable(rules@, *headers),
                        ),
                        first_applicable(rules@, *headers) matches Some(i) ==> 0 <= i < rules@.len()
                            && rules@[i].applies_to(*headers) && forall|m: int|
                            0 <= m < i ==> !(#[trigger] rules@[m]).applies_to(*headers),
                        first_applicable(rules@, *headers) is None ==> forall|m: int|
                            0 <= m < rules@.len() ==> !(#[trigger] rules@[m]).applies_to(*headers),
                        forall|m: int| 0 <= m < j ==> !(#[trigger] rules@[m]).applies_to(*headers),
                    decreases rules.len() - j,
                {
                    match rules[j].check_headers(headers) {
                        Some(b) => {
                            return Some(Some(b));
                        },
                        None => {},
                    }
                    j = j + 1;
                }
                Some(None)
            },
        }
    }
}

impl HTTPRouteChecker for HTTPRoute {
    open spec fn picked_backends(&self, headers: RequestParts, port: i32, gateways: Seq<Gateway>) -> Option<
        Option<Seq<HTTPRouteRulesBackendRefs>>,
    > {
        match route_outcome(*self, headers, port, gateways) {
            None => None,
            Some(None) => Some(None),
            Some(Some(i)) => Some(Some(self.rules->0@[i].backend_refs->0@)),
        }
    }

    fn check_headers<'a>(&'a self, headers: &RequestParts, port: i32, gateways: &Vec<Gateway>) -> (r:
        Option<&'a Vec<HTTPRouteRulesBackendRefs>>) {
        match self.outcome(headers, port, gateways) {
            Some(picked) => picked,
            None => None,
        }
    }
}

} // verus!

verus! {

/// Every gateway that listens on a port is one of the gateways it was
/// picked from, and listens on the port.
pub proof fn lemma_gateways_on_members(all: Seq<Gateway>, port: i32, i: int)
    requires
        0 <= i < gateways_on(all, port).len(),
    ensures
        listens_on(gateways_on(all, port)[i], port),
        exists|j: int| 0 <= j < all.len() && all[j] == gateways_on(all, port)[i],
    decreases all.len(),
{
    reveal(Seq::filter);
    all.lemma_filter_pred(listening_pred(port), i);
    let pred = listening_pred(port);
    let sub = all.drop_last().filter(pred);
    if pred(all.last()) && i == sub.len() {
        assert(all[all.len() - 1] == gateways_on(all, port)[i]);
    } else {
        assert(gateways_on(all, port)[i] == sub[i]);
        lemma_gateways_on_members(all.drop_last(), port, i);
        let j = choose|j: int| 0 <= j < all.drop_last().len() && all.drop_last()[j] == sub[i];
        assert(all[j] == all.drop_last()[j]);
    }
}

/// When the route attaches to some gateway of a list, there is a first one.
pub proof fn lemma_gateways_verdict_true(route: HTTPRoute, gs: Seq<Gateway>)
    requires
        gateways_verdict(route, gs) == Some(true),
    ensures
        exists|i: int| 0 <= i < gs.len() && route_verdict(route, #[trigger] gs[i]) == Some(true),
    decreases gs.len(),
{
    if route_verdict(route, gs[0]) != Some(true) {
        lemma_gateways_verdict_true(route, gs.skip(1));
        let i = choose|i: int| 0 <= i < gs.skip(1).len() && route_verdict(route, gs.skip(1)[i]) == Some(true);
        assert(gs.skip(1)[i] == gs[i + 1]);
    }
}

/// A route without parent references serves no request.
pub proof fn law_route_needs_parent_refs(route: HTTPRoute, req: RequestParts, port: i32, gateways: Seq<Gateway>)
    requires
        route.parent_refs is None,
    ensures
        route_outcome(route, req, port, gateways) == Some(None::<int>),
{
}

/// A request without a `host` header is served by no route.
pub proof fn law_request_needs_host(route: HTTPRoute, req: RequestParts, port: i32, gateways: Seq<Gateway>)
    requires
        req.header_of("host"@) is None,
    ensures
        route_outcome(route, req, port, gateways) == Some(None::<int>),
{
}

/// A route without hostnames serves no request.
pub proof fn law_route_needs_hostnames(route: HTTPRoute, req: RequestParts, port: i32, gateways: Seq<Gateway>)
    requires
        route.hostnames is None,
    ensures
        route_outcome(route, req, port, gateways) == Some(None::<int>),
{
}

/// A hostname that does not begin with `*.` matches exactly the host with
/// the same bytes.
pub proof fn law_exact_hostname(hostname: Seq<char>, host: Seq<u8>)
    requires
        !star_dot_prefixed(utf8_of(hostname)),
    ensures
        hostname_verdict(hostname, host) == Some(host == utf8_of(hostname)),
{
}

/// A route serves a request only through a gateway that listens on the
/// request's port and that one of the route's parent references names, and
/// only with a rule that applies to the request.
pub proof fn law_served_through_listening_gateway(
    route: HTTPRoute,
    req: RequestParts,
    port: i32,
    gateways: Seq<Gateway>,
)
    requires
        route_outcome(route, req, port, gateways) matches Some(Some(_)),
    ensures
        exists|j: int|
            0 <= j < gateways.len() && listens_on(#[trigger] gateways[j], port) && route_verdict(route, gateways[j])
                == Some(true),
        route.rules matches Some(rules) && route_outcome(route, req, port, gateways) matches Some(Some(i))
            && rules@[i].applies_to(req),
{
    let gs = gateways_on(gateways, port);
    lemma_gateways_verdict_true(route, gs);
    let i = choose|i: int| 0 <= i < gs.len() && route_verdict(route, gs[i]) == Some(true);
    lemma_gateways_on_members(gateways, port, i);
    let j = choose|j: int| 0 <= j < gateways.len() && gateways[j] == gs[i];
    assert(listens_on(gateways[j], port));
    lemma_first_applicable(route.rules->0@, req);
}

/// Once a route has parent references, the request's `host` header matches
/// one of its hostnames and the route attaches to a gateway listening on the
/// request's port, the route picks the backends of its first rule, in order,
/// that applies to the request; none when it has no rules or none applies.
pub proof fn law_first_applicable_rule_gives_backends(
    route: HTTPRoute,
    req: RequestParts,
    port: i32,
    gateways: Seq<Gateway>,
)
    requires
        route.parent_refs is Some,
        req.header_of("host"@) matches Some(h) && route.hostnames matches Some(hs) && hostnames_verdict(
            hs@,
            h.value@,
        ) == Some(true),
        gateways_verdict(route, gateways_on(gateways, port)) == Some(true),
    ensures
        route.rules is None ==> route.picked_backends(req, port, gateways) == Some(
            None::<Seq<HTTPRouteRulesBackendRefs>>,
        ),
        route.rules matches Some(rules) ==> ((forall|j: int| 0 <= j < rules@.len() ==> !(#[trigger] rules@[j]).applies_to(req))
            ==> route.picked_backends(req, port, gateways) == Some(None::<Seq<HTTPRouteRulesBackendRefs>>)),
        route.rules matches Some(rules) ==> forall|i: int|
            0 <= i < rules@.len() && (#[trigger] rules@[i]).applies_to(req) && (forall|j: int|
                0 <= j < i ==> !(#[trigger] rules@[j]).applies_to(req)) ==> route.picked_backends(req, port, gateways)
                == Some(Some(rules@[i].backend_refs->0@)),
{
    if let Some(rules) = route.rules {
        lemma_first_applicable(rules@, req);
        assert forall|i: int|
            0 <= i < rules@.len() && (#[trigger] rules@[i]).applies_to(req) && (forall|j: int|
                0 <= j < i ==> !(#[trigger] rules@[j]).applies_to(req)) implies route.picked_backends(
            req,
            port,
            gateways,
        ) == Some(Some(rules@[i].backend_refs->0@)) by {
            match first_applicable(rules@, req) {
                Some(m) => {
                    if m < i {
                        assert(!rules@[m].applies_to(req));
                    }
                    if i < m {
                        assert(!rules@[i].applies_to(req));
                    }
                },
                None => {
                    assert(!rules@[i].applies_to(req));
                },
            }
        }
    }
}

/// Every gateway with a listener on the port is among the gateways picked
/// for the port, and every picked gateway has such a listener.
pub proof fn law_gateways_on_are_the_listening_ones(all: Seq<Gateway>, port: i32)
    ensures
        forall|j: int, i: int|
            0 <= j < all.len() && 0 <= i < all[j].listeners@.len() && (#[trigger] all[j].listeners@[i]).port
                == port ==> gateways_on(all, port).contains(all[j]),
        forall|k: int|
            #![trigger gateways_on(all, port)[k]]
            0 <= k < gateways_on(all, port).len() ==> exists|i: int|
                0 <= i < gateways_on(all, port)[k].listeners@.len() && (#[trigger] gateways_on(
                    all,
                    port,
                )[k].listeners@[i]).port == port,
{
    assert forall|j: int, i: int|
        0 <= j < all.len() && 0 <= i < all[j].listeners@.len() && (#[trigger] all[j].listeners@[i]).port
            == port implies gateways_on(all, port).contains(all[j]) by {
        assert(listening_pred(port)(all[j]));
        all.lemma_filter_contains(listening_pred(port), j);
    }
    assert forall|k: int|
        #![trigger gateways_on(all, port)[k]]
        0 <= k < gateways_on(all, port).len() implies exists|i: int|
        0 <= i < gateways_on(all, port)[k].listeners@.len() && (#[trigger] gateways_on(
            all,
            port,
        )[k].listeners@[i]).port == port by {
        lemma_gateways_on_members(all, port, k);
    }
}

/// A hostname that begins with `*.` is a wildcard: when it is a valid
/// pattern, it matches exactly the hosts the pattern matches; when it is not,
/// no outcome can be had.
pub proof fn law_wildcard_hostname(hostname: Seq<char>, host: Seq<u8>)
    requires
        utf8_of(hostname).len() >= 2,
        utf8_of(hostname)[0] == 42u8,
        utf8_of(hostname)[1] == 46u8,
    ensures
        wildcard_valid(utf8_of(hostname)) ==> hostname_verdict(hostname, host) == Some(
            wildcard_matches(utf8_of(hostname), host),
        ),
        !wildcard_valid(utf8_of(hostname)) ==> hostname_verdict(hostname, host) is None,
{
}

/// Where every hostname of a list comes to an outcome, the list matches the
/// host exactly when one of its hostnames does.
pub proof fn law_some_hostname_matches(hostnames: Seq<String>, host: Seq<u8>)
    requires
        forall|i: int| 0 <= i < hostnames.len() ==> (#[trigger] hostname_verdict(hostnames[i]@, host)) is Some,
    ensures
        hostnames_verdict(hostnames, host) == Some(
            exists|i: int| 0 <= i < hostnames.len() && hostname_verdict(hostnames[i]@, host) == Some(true),
        ),
    decreases hostnames.len(),
{
    if hostnames.len() > 0 {
        let rest = hostnames.skip(1);
        assert forall|i: int| 0 <= i < rest.len() implies (#[trigger] hostname_verdict(rest[i]@, host)) is Some by {
            assert(rest[i] == hostnames[i + 1]);
            assert(hostname_verdict(hostnames[i + 1]@, host) is Some);
        }
        assert(hostname_verdict(hostnames[0]@, host) is Some);
        law_some_hostname_matches(rest, host);
        if exists|i: int| 0 <= i < hostnames.len() && hostname_verdict(hostnames[i]@, host) == Some(true) {
            let i = choose|i: int| 0 <= i < hostnames.len() && hostname_verdict(hostnames[i]@, host) == Some(true);
            if i > 0 {
                assert(rest[i - 1] == hostnames[i]);
            }
        }
        if exists|i: int| 0 <= i < rest.len() && hostname_verdict(rest[i]@, host) == Some(true) {
            let i = choose|i: int| 0 <= i < rest.len() && hostname_verdict(rest[i]@, host) == Some(true);
            assert(rest[i] == hostnames[i + 1]);
        }
    }
}

/// Where the route's check against every gateway of a list comes to an
/// outcome, the route attaches to the list exactly when it attaches to one of
/// its gateways.
pub proof fn law_some_gateway_attaches(route: HTTPRoute, gs: Seq<Gateway>)
    requires
        forall|i: int| 0 <= i < gs.len() ==> (#[trigger] route_verdict(route, gs[i])) is Some,
    ensures
        gateways_verdict(route, gs) == Some(
            exists|i: int| 0 <= i < gs.len() && route_verdict(route, gs[i]) == Some(true),
        ),
    decreases gs.len(),
{
    if gs.len() > 0 {
        let rest = gs.skip(1);
        assert forall|i: int| 0 <= i < rest.len() implies (#[trigger] route_verdict(route, rest[i])) is Some by {
            assert(rest[i] == gs[i + 1]);
            assert(route_verdict(route, gs[i + 1]) is Some);
        }
        assert(route_verdict(route, gs[0]) is Some);
        law_some_gateway_attaches(route, rest);
        if exists|i: int| 0 <= i < gs.len() && route_verdict(route, gs[i]) == Some(true) {
            let i = choose|i: int| 0 <= i < gs.len() && route_verdict(route, gs[i]) == Some(true);
            if i > 0 {
                assert(rest[i - 1] == gs[i]);
            }
        }
        if exists|i: int| 0 <= i < rest.len() && route_verdict(route, rest[i]) == Some(true) {
            let i = choose|i: int| 0 <= i < rest.len() && route_verdict(route, rest[i]) == Some(true);
            assert(rest[i] == gs[i + 1]);
        }
    }
}

} // verus!
