use pingora_gateway::gateway::GatewayChecker;
use pingora_gateway::matcher::{HTTPRouteRulesChecker, HTTPRouteRulesMatchesChecker};
use pingora_gateway::model::{
    Gateway, GatewayListener, HTTPRoute, HTTPRouteParentRefs, HTTPRouteRules,
    HTTPRouteRulesBackendRefs, HTTPRouteRulesMatches, HTTPRouteRulesMatchesHeaders,
    HTTPRouteRulesMatchesHeadersType, HTTPRouteRulesMatchesMethod, HTTPRouteRulesMatchesPath,
    HTTPRouteRulesMatchesPathType, HTTPRouteRulesMatchesQueryParams,
    HTTPRouteRulesMatchesQueryParamsType, RequestHeader, RequestParts,
};
use pingora_gateway::route::{gateways, HTTPRouteChecker};

fn header(name: &str, value: &str) -> RequestHeader {
    RequestHeader {
        name: name.to_string(),
        value: value.as_bytes().to_vec(),
        text: Some(value.to_string()),
    }
}

fn request(method: &str, path: &str, query: Option<&str>, headers: Vec<RequestHeader>) -> RequestParts {
    RequestParts {
        method: method.to_string(),
        path: path.to_string(),
        query: query.map(|q| q.to_string()),
        headers,
    }
}

fn get(host: &str, path: &str) -> RequestParts {
    request("GET", path, None, vec![header("host", host)])
}

fn gateway(name: &str, ns: &str, listeners: &[(&str, i32)]) -> Gateway {
    Gateway {
        name: name.to_string(),
        namespace: Some(ns.to_string()),
        listeners: listeners
            .iter()
            .map(|(n, p)| GatewayListener { name: n.to_string(), port: *p })
            .collect(),
    }
}

fn parent(name: &str, ns: Option<&str>) -> HTTPRouteParentRefs {
    HTTPRouteParentRefs {
        group: None,
        kind: None,
        name: name.to_string(),
        namespace: ns.map(|s| s.to_string()),
        port: None,
        section_name: None,
    }
}

fn backend(name: &str) -> HTTPRouteRulesBackendRefs {
    HTTPRouteRulesBackendRefs {
        group: None,
        kind: Some("Service".to_string()),
        name: name.to_string(),
        namespace: None,
        port: Some(8080),
        weight: None,
    }
}

fn path_match(kind: Option<HTTPRouteRulesMatchesPathType>, value: &str) -> HTTPRouteRulesMatches {
    HTTPRouteRulesMatches {
        headers: None,
        method: None,
        path: Some(HTTPRouteRulesMatchesPath { match_type: kind, value: Some(value.to_string()) }),
        query_params: None,
    }
}

fn empty_match() -> HTTPRouteRulesMatches {
    HTTPRouteRulesMatches { headers: None, method: None, path: None, query_params: None }
}

fn rule(backend_name: &str, matches: Vec<HTTPRouteRulesMatches>) -> HTTPRouteRules {
    HTTPRouteRules { backend_refs: Some(vec![backend(backend_name)]), matches: Some(matches) }
}

fn route(name: &str, hostnames: &[&str], rules: Vec<HTTPRouteRules>) -> HTTPRoute {
    HTTPRoute {
        name: name.to_string(),
        namespace: Some("default".to_string()),
        parent_refs: Some(vec![parent("gw", Some("default"))]),
        hostnames: Some(hostnames.iter().map(|h| h.to_string()).collect()),
        rules: Some(rules),
    }
}

fn gws() -> Vec<Gateway> {
    vec![gateway("gw", "default", &[("http", 80), ("https", 443)])]
}

fn backend_names(b: Option<&Vec<HTTPRouteRulesBackendRefs>>) -> Option<Vec<String>> {
    b.map(|v| v.iter().map(|b| b.name.clone()).collect())
}

#[test]
fn wildcard_hostname_matches_subdomain_and_itself() {
    let r = route("r", &["*.example.com"], vec![rule("svc", vec![path_match(None, "/")])]);
    let g = gws();
    assert_eq!(backend_names(r.check_headers(&get("www.example.com", "/"), 80, &g)), Some(vec!["svc".to_string()]));
    assert_eq!(backend_names(r.check_headers(&get("*.example.com", "/"), 80, &g)), Some(vec!["svc".to_string()]));
    assert_eq!(backend_names(r.check_headers(&get("a.b.example.com", "/"), 80, &g)), Some(vec!["svc".to_string()]));
    assert!(r.check_headers(&get("example.com", "/"), 80, &g).is_none());
    assert!(r.check_headers(&get("www.example.org", "/"), 80, &g).is_none());
}

#[test]
fn exact_hostname_matches_only_itself() {
    let r = route("r", &["abc.example.com"], vec![rule("svc", vec![path_match(None, "/")])]);
    let g = gws();
    assert!(r.check_headers(&get("abc.example.com", "/"), 80, &g).is_some());
    assert!(r.check_headers(&get("ABC.example.com", "/"), 80, &g).is_none());
    assert!(r.check_headers(&get("www.example.com", "/"), 80, &g).is_none());
}

#[test]
fn route_without_parent_refs_or_hostnames_or_host_header_serves_nothing() {
    let g = gws();
    let mut r = route("r", &["a.com"], vec![rule("svc", vec![empty_match()])]);
    assert!(r.check_headers(&get("a.com", "/"), 80, &g).is_some());
    assert!(r.check_headers(&request("GET", "/", None, vec![]), 80, &g).is_none());
    r.parent_refs = None;
    assert!(r.check_headers(&get("a.com", "/"), 80, &g).is_none());
    let mut r2 = route("r", &["a.com"], vec![rule("svc", vec![empty_match()])]);
    r2.hostnames = None;
    assert!(r2.check_headers(&get("a.com", "/"), 80, &g).is_none());
}

#[test]
fn request_port_must_have_a_gateway_listener() {
    let r = route("r", &["a.com"], vec![rule("svc", vec![empty_match()])]);
    let g = gws();
    assert!(r.check_headers(&get("a.com", "/"), 443, &g).is_some());
    assert!(r.check_headers(&get("a.com", "/"), 8080, &g).is_none());
}

#[test]
fn first_applicable_rule_gives_the_backends() {
    let r = route(
        "r",
        &["a.com"],
        vec![
            rule("exact", vec![path_match(Some(HTTPRouteRulesMatchesPathType::Exact), "/x")]),
            rule("any", vec![empty_match()]),
        ],
    );
    let g = gws();
    assert_eq!(backend_names(r.check_headers(&get("a.com", "/x"), 80, &g)), Some(vec!["exact".to_string()]));
    assert_eq!(backend_names(r.check_headers(&get("a.com", "/y"), 80, &g)), Some(vec!["any".to_string()]));
}

#[test]
fn rule_without_backends_or_matches_never_applies() {
    let req = get("a.com", "/");
    let no_backends = HTTPRouteRules { backend_refs: None, matches: Some(vec![empty_match()]) };
    assert!(no_backends.check_headers(&req).is_none());
    let no_matches = HTTPRouteRules { backend_refs: Some(vec![backend("svc")]), matches: None };
    assert!(no_matches.check_headers(&req).is_none());
    assert!(no_matches.check_headers(&get("a.com", "/any/path")).is_none());
    let empty_backends = HTTPRouteRules { backend_refs: Some(vec![]), matches: None };
    assert!(empty_backends.check_headers(&req).is_none());
    let empty_matches = HTTPRouteRules { backend_refs: Some(vec![backend("svc")]), matches: Some(vec![]) };
    assert!(empty_matches.check_headers(&req).is_none());
}

#[test]
fn path_prefix_rule_is_a_prefix_of_the_request_path() {
    let m = path_match(Some(HTTPRouteRulesMatchesPathType::PathPrefix), "/api");
    assert!(m.check_headers(&get("a.com", "/api")));
    assert!(m.check_headers(&get("a.com", "/api/v1")));
    assert!(m.check_headers(&get("a.com", "/api/users")));
    assert!(!m.check_headers(&get("a.com", "/a")));
    assert!(!m.check_headers(&get("a.com", "/")));
    let untyped = path_match(None, "/api");
    assert!(untyped.check_headers(&get("a.com", "/api/x")));
    assert!(!untyped.check_headers(&get("a.com", "/")));
    assert!(!untyped.check_headers(&get("a.com", "/b")));
    let root = path_match(None, "/");
    assert!(root.check_headers(&get("a.com", "/")));
    assert!(root.check_headers(&get("a.com", "/anything")));
}

#[test]
fn path_exact_and_regex() {
    let exact = path_match(Some(HTTPRouteRulesMatchesPathType::Exact), "/api");
    assert!(exact.check_headers(&get("a.com", "/api")));
    assert!(!exact.check_headers(&get("a.com", "/ap")));
    let re = path_match(Some(HTTPRouteRulesMatchesPathType::RegularExpression), "^/v[0-9]+/");
    assert!(re.check_headers(&get("a.com", "/v2/users")));
    assert!(!re.check_headers(&get("a.com", "/vx/users")));
    let bad = path_match(Some(HTTPRouteRulesMatchesPathType::RegularExpression), "(");
    assert!(!bad.check_headers(&get("a.com", "(")));
}

#[test]
fn path_matcher_without_value_accepts_all() {
    let m = HTTPRouteRulesMatches {
        headers: None,
        method: None,
        path: Some(HTTPRouteRulesMatchesPath { match_type: Some(HTTPRouteRulesMatchesPathType::Exact), value: None }),
        query_params: None,
    };
    assert!(m.check_headers(&get("a.com", "/anything")));
}

#[test]
fn header_matchers() {
    let req = request("GET", "/", None, vec![header("host", "a.com"), header("x-version", "v1"), header("x-version", "v2")]);
    let exact = HTTPRouteRulesMatchesHeaders { name: "X-Version".to_string(), match_type: None, value: "v1".to_string() };
    assert!(exact.check_headers(&req));
    let second = HTTPRouteRulesMatchesHeaders {
        name: "x-version".to_string(),
        match_type: Some(HTTPRouteRulesMatchesHeadersType::Exact),
        value: "v2".to_string(),
    };
    assert!(!second.check_headers(&req));
    let re = HTTPRouteRulesMatchesHeaders {
        name: "x-version".to_string(),
        match_type: Some(HTTPRouteRulesMatchesHeadersType::RegularExpression),
        value: "^v[0-9]$".to_string(),
    };
    assert!(re.check_headers(&req));
    let missing = HTTPRouteRulesMatchesHeaders { name: "x-other".to_string(), match_type: None, value: "v1".to_string() };
    assert!(!missing.check_headers(&req));
}

#[test]
fn header_value_that_is_not_text_never_matches() {
    let raw = RequestHeader { name: "x-bin".to_string(), value: vec![0xff], text: None };
    let req = request("GET", "/", None, vec![raw]);
    let m = HTTPRouteRulesMatchesHeaders {
        name: "x-bin".to_string(),
        match_type: Some(HTTPRouteRulesMatchesHeadersType::RegularExpression),
        value: ".*".to_string(),
    };
    assert!(!m.check_headers(&req));
}

#[test]
fn query_param_matchers() {
    let req = request("GET", "/", Some("a=1&b=xyz&a=2"), vec![header("host", "a.com")]);
    let last = HTTPRouteRulesMatchesQueryParams { name: "a".to_string(), match_type: None, value: "2".to_string() };
    assert!(last.check_headers(&req));
    let first = HTTPRouteRulesMatchesQueryParams {
        name: "a".to_string(),
        match_type: Some(HTTPRouteRulesMatchesQueryParamsType::Exact),
        value: "1".to_string(),
    };
    assert!(!first.check_headers(&req));
    let re = HTTPRouteRulesMatchesQueryParams {
        name: "b".to_string(),
        match_type: Some(HTTPRouteRulesMatchesQueryParamsType::RegularExpression),
        value: "^x".to_string(),
    };
    assert!(re.check_headers(&req));
    let no_query = request("GET", "/", None, vec![]);
    assert!(!last.check_headers(&no_query));
}

#[test]
fn all_conditions_of_a_match_must_hold() {
    let m = HTTPRouteRulesMatches {
        headers: Some(vec![HTTPRouteRulesMatchesHeaders { name: "x-a".to_string(), match_type: None, value: "1".to_string() }]),
        method: None,
        path: Some(HTTPRouteRulesMatchesPath { match_type: Some(HTTPRouteRulesMatchesPathType::Exact), value: Some("/p".to_string()) }),
        query_params: Some(vec![HTTPRouteRulesMatchesQueryParams { name: "q".to_string(), match_type: None, value: "v".to_string() }]),
    };
    assert!(m.check_headers(&request("GET", "/p", Some("q=v"), vec![header("x-a", "1")])));
    assert!(!m.check_headers(&request("GET", "/p", Some("q=w"), vec![header("x-a", "1")])));
    assert!(!m.check_headers(&request("GET", "/p", Some("q=v"), vec![header("x-a", "2")])));
    assert!(!m.check_headers(&request("GET", "/r", Some("q=v"), vec![header("x-a", "1")])));
}

#[test]
fn method_condition_compares_the_method() {
    let m = HTTPRouteRulesMatches { headers: None, method: Some(HTTPRouteRulesMatchesMethod::Get), path: None, query_params: None };
    assert!(m.check_headers(&request("GET", "/", None, vec![])));
    assert!(m.check_headers(&request("get", "/", None, vec![])));
    assert!(!m.check_headers(&request("POST", "/", None, vec![])));
    assert!(!m.check_headers(&request("\"GET\"", "/", None, vec![])));
    let p = HTTPRouteRulesMatches { headers: None, method: Some(HTTPRouteRulesMatchesMethod::Patch), path: None, query_params: None };
    assert!(p.check_headers(&request("PATCH", "/", None, vec![])));
    assert!(!p.check_headers(&request("PUT", "/", None, vec![])));
    assert_eq!(HTTPRouteRulesMatchesMethod::Patch.wire_str(), "PATCH");
    assert_eq!(HTTPRouteRulesMatchesMethod::Options.wire_str(), "OPTIONS");
}

#[test]
fn parent_ref_checks() {
    let g = gateway("gw", "default", &[("http", 80), ("https", 443)]);
    assert!(parent("gw", Some("default")).check(&g));
    assert!(!parent("gw", None).check(&g));
    assert!(!parent("gw", Some("other")).check(&g));
    assert!(!parent("gw2", Some("default")).check(&g));
    let mut p = parent("gw", Some("default"));
    p.section_name = Some("https".to_string());
    assert!(p.check(&g));
    p.port = Some(80);
    assert!(!p.check(&g));
    p.port = Some(443);
    assert!(p.check(&g));
    p.section_name = None;
    p.port = Some(8080);
    assert!(!p.check(&g));
    let mut q = parent("gw", Some("default"));
    q.group = Some(String::new());
    assert!(q.check(&g));
    q.group = Some("gateway.networking.k8s.io".to_string());
    q.kind = Some("Gateway".to_string());
    assert!(q.check(&g));
    q.kind = Some("Service".to_string());
    assert!(!q.check(&g));
    q.kind = None;
    q.group = Some("example.com".to_string());
    assert!(!q.check(&g));
}

#[test]
fn route_attaches_through_any_parent_ref() {
    let g = gateway("gw", "default", &[("http", 80)]);
    let mut r = route("r", &["a.com"], vec![]);
    r.parent_refs = Some(vec![parent("other", Some("default")), parent("gw", Some("default"))]);
    assert!(r.check(&g));
    r.parent_refs = Some(vec![parent("other", Some("default"))]);
    assert!(!r.check(&g));
    r.parent_refs = None;
    assert!(!r.check(&g));
}

#[test]
fn gateways_listening_on_a_port() {
    let all = vec![
        gateway("a", "ns", &[("http", 80)]),
        gateway("b", "ns", &[("https", 443)]),
        gateway("c", "ns", &[("http", 80), ("alt", 8080)]),
    ];
    let on80: Vec<String> = gateways(&all, 80).iter().map(|g| g.name.clone()).collect();
    assert_eq!(on80, vec!["a".to_string(), "c".to_string()]);
    assert_eq!(gateways(&all, 9090).len(), 0);
}

#[test]
fn header_lookup_ignores_ascii_case_of_the_name() {
    let req = request("GET", "/", None, vec![header("host", "a.com")]);
    assert!(req.header("HOST").is_some());
    assert!(req.header("Host").is_some());
    assert!(req.header("hosts").is_none());
}

#[test]
fn invalid_wildcard_hostname_stops_the_match() {
    let g = gws();
    let r = route("r", &["*.exa\\mple.com"], vec![rule("svc", vec![empty_match()])]);
    assert!(r.outcome(&get("www.example.com", "/"), 80, &g).is_none());
    let r2 = route("r", &["a.com", "*.bad\\"], vec![rule("svc", vec![empty_match()])]);
    assert!(matches!(r2.outcome(&get("a.com", "/"), 80, &g), Some(Some(_))));
    assert!(r2.outcome(&get("b.com", "/"), 80, &g).is_none());
    let r3 = route("r", &["*.ex\\*ample.com"], vec![rule("svc", vec![empty_match()])]);
    assert!(matches!(r3.outcome(&get("a.ex*ample.com", "/"), 80, &g), Some(Some(_))));
}

#[test]
fn gateway_without_namespace_stops_the_check() {
    let g = Gateway { name: "gw".to_string(), namespace: None, listeners: vec![] };
    assert_eq!(parent("gw", Some("default")).verdict(&g), None);
    assert_eq!(parent("gw", None).verdict(&g), Some(false));
    let mut r = route("r", &["a.com"], vec![]);
    assert_eq!(r.gateway_verdict_of(&g), None);
    r.parent_refs = Some(vec![parent("gw", None)]);
    assert_eq!(r.gateway_verdict_of(&g), Some(false));
}

#[test]
fn parent_ref_without_namespace_names_no_gateway() {
    let g = gateway("gw", "default", &[("http", 80)]);
    assert!(!parent("gw", None).check(&g));
    let mut r = route("r", &["a.com"], vec![rule("svc", vec![empty_match()])]);
    r.parent_refs = Some(vec![parent("gw", None)]);
    assert!(!r.check(&g));
    let all = vec![gateway("gw", "default", &[("http", 80)])];
    assert!(r.check_headers(&get("a.com", "/"), 80, &all).is_none());
    r.parent_refs = Some(vec![parent("gw", None), parent("gw", Some("default"))]);
    assert!(r.check(&g));
    assert!(r.check_headers(&get("a.com", "/"), 80, &all).is_some());
}
