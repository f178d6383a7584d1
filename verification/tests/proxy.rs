use pingora_gateway::config::{Protocol, ServerPort};
use pingora_gateway::model::{
    Gateway, GatewayListener, HTTPRoute, HTTPRouteParentRefs, HTTPRouteRules, HTTPRouteRulesBackendRefs,
    HTTPRouteRulesMatches, RequestHeader, RequestParts,
};
use pingora_gateway::proxy::{new_pingora_error, ErrorSource, ErrorType, HttpProxyApp, RetryType};

fn app(port: i32) -> HttpProxyApp {
    HttpProxyApp::new(ServerPort { port, name: None, protocol: Protocol::HTTP, cert: None })
}

fn req(host: &str) -> RequestParts {
    RequestParts {
        method: "GET".to_string(),
        path: "/".to_string(),
        query: None,
        headers: vec![RequestHeader { name: "host".to_string(), value: host.as_bytes().to_vec(), text: Some(host.to_string()) }],
    }
}

fn gw(name: &str, ns: &str) -> Gateway {
    Gateway {
        name: name.to_string(),
        namespace: Some(ns.to_string()),
        listeners: vec![GatewayListener { name: "http".to_string(), port: 80 }],
    }
}

fn route(name: &str, ns: &str, parent: &str, host: &str, svc: &str) -> HTTPRoute {
    HTTPRoute {
        name: name.to_string(),
        namespace: Some(ns.to_string()),
        parent_refs: Some(vec![HTTPRouteParentRefs {
            group: None,
            kind: None,
            name: parent.to_string(),
            namespace: Some(ns.to_string()),
            port: None,
            section_name: None,
        }]),
        hostnames: Some(vec![host.to_string()]),
        rules: Some(vec![HTTPRouteRules {
            backend_refs: Some(vec![HTTPRouteRulesBackendRefs {
                group: None,
                kind: None,
                name: svc.to_string(),
                namespace: None,
                port: Some(80),
                weight: None,
            }]),
            matches: Some(vec![HTTPRouteRulesMatches { headers: None, method: None, path: None, query_params: None }]),
        }]),
    }
}

#[test]
fn error_for_unusable_headers() {
    let e = new_pingora_error("No suitable http route found");
    assert!(e.etype == ErrorType::InvalidHTTPHeader);
    assert!(e.esource == ErrorSource::Downstream);
    assert!(e.retry == RetryType::Decided(false));
    assert_eq!(e.context, Some("No suitable http route found"));
}

#[test]
fn route_named_like_a_gateway_is_chosen() {
    // The route lookup goes through the gateways by the route's own name.
    let gateways = vec![gw("gw", "default"), gw("web", "default")];
    let routes = vec![route("api", "default", "gw", "a.com", "one"), route("web", "default", "gw", "a.com", "two")];
    let (r, backends) = app(80).matche_http_route(&req("a.com"), &routes, &gateways).ok().expect("a route");
    assert_eq!(r.name, "web");
    assert_eq!(backends[0].name, "two");
}

#[test]
fn first_suitable_route_wins() {
    let gateways = vec![gw("gw", "default"), gw("x", "default"), gw("y", "default")];
    let routes = vec![route("x", "default", "gw", "a.com", "one"), route("y", "default", "gw", "a.com", "two")];
    let (r, _) = app(80).matche_http_route(&req("a.com"), &routes, &gateways).ok().expect("a route");
    assert_eq!(r.name, "x");
}

#[test]
fn no_suitable_route_is_an_error() {
    let gateways = vec![gw("gw", "default")];
    let routes = vec![route("api", "default", "gw", "a.com", "one")];
    let e = app(80).matche_http_route(&req("a.com"), &routes, &gateways).err().expect("an error");
    assert_eq!(e.context, Some("No suitable http route found"));
    let routes_b = vec![route("gw", "default", "gw", "b.com", "one")];
    assert!(app(80).matche_http_route(&req("a.com"), &routes_b, &gateways).is_err());
    let routes_c = vec![route("gw", "default", "gw", "a.com", "one")];
    assert!(app(81).matche_http_route(&req("a.com"), &routes_c, &gateways).is_err());
}

#[test]
fn route_goes_to_the_local_backend() {
    let gateways = vec![gw("gw", "default")];
    let routes = vec![route("gw", "default", "gw", "a.com", "one")];
    let peer = app(80).route(&req("a.com"), &routes, &gateways).ok().expect("a peer");
    assert_eq!(peer.address, "127.0.0.1:80");
    assert!(!peer.tls);
    assert_eq!(peer.sni, "");
    assert!(app(80).route(&req("b.com"), &routes, &gateways).is_err());
}

#[test]
fn select_keeps_candidates_named_like_a_gateway() {
    let gateways = vec![gw("b", "ns1")];
    let ra = route("a", "ns1", "gw", "a.com", "one");
    let rb = route("b", "ns2", "gw", "a.com", "two");
    let rc = route("b", "ns1", "gw", "a.com", "three");
    let candidates = vec![
        (&ra, ra.rules.as_ref().unwrap()[0].backend_refs.as_ref().unwrap()),
        (&rb, rb.rules.as_ref().unwrap()[0].backend_refs.as_ref().unwrap()),
        (&rc, rc.rules.as_ref().unwrap()[0].backend_refs.as_ref().unwrap()),
    ];
    let (r, b) = app(80).select_http_route(candidates, &gateways).ok().expect("a route");
    assert_eq!(r.name, "b");
    assert_eq!(r.namespace.as_deref(), Some("ns1"));
    assert_eq!(b[0].name, "three");
    assert!(app(80).select_http_route(vec![], &gateways).is_err());
}

#[test]
fn try_route_refuses_what_cannot_be_routed() {
    let gateways = vec![gw("gw", "default")];
    let mut r = route("gw", "default", "gw", "a.com", "one");
    r.namespace = None;
    let routes = vec![r];
    assert!(!app(80).is_routable(&req("a.com"), &routes, &gateways));
    assert!(app(80).try_route(&req("a.com"), &routes, &gateways).is_none());
    // A route that serves nothing needs no namespace.
    assert!(app(80).is_routable(&req("b.com"), &routes, &gateways));
    let e = app(80).try_route(&req("b.com"), &routes, &gateways).expect("routable").err().expect("an error");
    assert_eq!(e.context, Some("No suitable http route found"));
    let ok = vec![route("gw", "default", "gw", "a.com", "one")];
    let peer = app(80).try_route(&req("a.com"), &ok, &gateways).expect("routable").ok().expect("a peer");
    assert_eq!(peer.address, "127.0.0.1:80");
}

#[test]
fn choice_equals_selection_among_serving_routes() {
    let gateways = vec![gw("gw", "default"), gw("x", "default"), gw("y", "default")];
    // "x" is named like a gateway but serves another host; "z" serves but is
    // named like no gateway; "y" serves and is named like one.
    let routes = vec![
        route("x", "default", "gw", "b.com", "one"),
        route("z", "default", "gw", "a.com", "two"),
        route("y", "default", "gw", "a.com", "three"),
    ];
    let (chosen, backends) = app(80).matche_http_route(&req("a.com"), &routes, &gateways).ok().expect("a route");
    let serving = vec![
        (&routes[1], routes[1].rules.as_ref().unwrap()[0].backend_refs.as_ref().unwrap()),
        (&routes[2], routes[2].rules.as_ref().unwrap()[0].backend_refs.as_ref().unwrap()),
    ];
    let (selected, selected_backends) = app(80).select_http_route(serving, &gateways).ok().expect("a route");
    assert_eq!(chosen.name, "y");
    assert_eq!(selected.name, chosen.name);
    assert_eq!(backends[0].name, "three");
    assert_eq!(selected_backends[0].name, backends[0].name);
}
