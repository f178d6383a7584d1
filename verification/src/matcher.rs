//! Matching the head of a request against the rules of an HTTPRoute.
use vstd::prelude::*;

use crate::model::{
    HTTPRouteRules, HTTPRouteRulesBackendRefs, HTTPRouteRulesMatches, HTTPRouteRulesMatchesHeaders,
    HTTPRouteRulesMatchesHeadersType, HTTPRouteRulesMatchesMethod, HTTPRouteRulesMatchesPath,
    HTTPRouteRulesMatchesPathType, HTTPRouteRulesMatchesQueryParams,
    HTTPRouteRulesMatchesQueryParamsType, RequestParts,
};
use crate::pattern::{regex_compiles, regex_finds, regex_hits, regex_is_match, to_uppercase, uppercase_of};
use crate::query::{last_value, parse_query, query_pairs, query_value};
use crate::text::{is_prefix_of, str_equal, str_starts_with, utf8_of};

verus! {

impl HTTPRouteRulesMatchesMethod {
    /// The name of the method on the wire.
    pub open spec fn wire_name(self) -> Seq<char> {
        match self {
            HTTPRouteRulesMatchesMethod::Get => seq!['G', 'E', 'T'],
            HTTPRouteRulesMatchesMethod::Head => seq!['H', 'E', 'A', 'D'],
            HTTPRouteRulesMatchesMethod::Post => seq!['P', 'O', 'S', 'T'],
            HTTPRouteRulesMatchesMethod::Put => seq!['P', 'U', 'T'],
            HTTPRouteRulesMatchesMethod::Delete => seq!['D', 'E', 'L', 'E', 'T', 'E'],
            HTTPRouteRulesMatchesMethod::Connect => seq!['C', 'O', 'N', 'N', 'E', 'C', 'T'],
            HTTPRouteRulesMatchesMethod::Options => seq!['O', 'P', 'T', 'I', 'O', 'N', 'S'],
            HTTPRouteRulesMatchesMethod::Trace => seq!['T', 'R', 'A', 'C', 'E'],
            HTTPRouteRulesMatchesMethod::Patch => seq!['P', 'A', 'T', 'C', 'H'],
        }
    }

    /// Writes out the method's wire name.
    pub fn wire_str(&self) -> (r: String)
        ensures
            r@ == self.wire_name(),
    {
        let s: &str = match self {
            HTTPRouteRulesMatchesMethod::Get => {
                proof { reveal_strlit("GET"); }
                "GET"
            },
            HTTPRouteRulesMatchesMethod::Head => {
                proof { reveal_strlit("HEAD"); }
                "HEAD"
            },
            HTTPRouteRulesMatchesMethod::Post => {
                proof { reveal_strlit("POST"); }
                "POST"
            },
            HTTPRouteRulesMatchesMethod::Put => {
                proof { reveal_strlit("PUT"); }
                "PUT"
            },
            HTTPRouteRulesMatchesMethod::Delete => {
                proof { reveal_strlit("DELETE"); }
                "DELETE"
            },
            HTTPRouteRulesMatchesMethod::Connect => {
                proof { reveal_strlit("CONNECT"); }
                "CONNECT"
            },
            HTTPRouteRulesMatchesMethod::Options => {
                proof { reveal_strlit("OPTIONS"); }
                "OPTIONS"
            },
            HTTPRouteRulesMatchesMethod::Trace => {
                proof { reveal_strlit("TRACE"); }
                "TRACE"
            },
            HTTPRouteRulesMatchesMethod::Patch => {
                proof { reveal_strlit("PATCH"); }
                "PATCH"
            },
        };
        let r = s.to_owned();
        assert(r@ =~= self.wire_name());
        r
    }
}

/// Whether the request path satisfies a path matcher.  A matcher without a
/// value accepts every path.  Without a type and with `PathPrefix` the
/// request path must start with the matcher's value (byte-wise); `Exact`
/// asks for equality; `RegularExpression` for a match of the value as a
/// regular expression.
pub open spec fn path_accepts(path: Option<HTTPRouteRulesMatchesPath>, req_path: Seq<char>) -> bool {
    match path {
        None => true,
        Some(rule) => match rule.value {
            None => true,
            Some(v) => match rule.match_type {
                None => is_prefix_of(utf8_of(v@), utf8_of(req_path)),
                Some(HTTPRouteRulesMatchesPathType::PathPrefix) => is_prefix_of(
                    utf8_of(v@),
                    utf8_of(req_path),
                ),
                Some(HTTPRouteRulesMatchesPathType::Exact) => v@ == req_path,
                Some(HTTPRouteRulesMatchesPathType::RegularExpression) => regex_hits(v@, req_path),
            },
        },
    }
}

/// The text of the header that a lookup by `name` finds, if it is text.
pub open spec fn header_text(req: RequestParts, name: Seq<char>) -> Option<Seq<char>> {
    match req.header_of(name) {
        Some(h) => match h.text {
            Some(t) => Some(t@),
            None => None,
        },
        None => None,
    }
}

/// Whether every header matcher of a list holds.
pub open spec fn all_headers_accept(rules: Option<Vec<HTTPRouteRulesMatchesHeaders>>, req: RequestParts) -> bool {
    match rules {
        None => true,
        Some(v) => forall|i: int| 0 <= i < v@.len() ==> (#[trigger] v@[i]).accepts(req),
    }
}

/// Whether every query parameter matcher of a list holds.
pub open spec fn all_query_params_accept(
    rules: Option<Vec<HTTPRouteRulesMatchesQueryParams>>,
    req: RequestParts,
) -> bool {
    match rules {
        None => true,
        Some(v) => forall|i: int| 0 <= i < v@.len() ==> (#[trigger] v@[i]).accepts(req),
    }
}

/// Whether the method condition holds: none given, or the method's wire name
/// equals the uppercase form of the request method.
pub open spec fn method_accepts(method: Option<HTTPRouteRulesMatchesMethod>, req: RequestParts) -> bool {
    match method {
        None => true,
        Some(m) => m.wire_name() == uppercase_of(req.method@),
    }
}

/// A condition on the head of a request.
pub trait HTTPRouteRulesMatchesChecker {
    /// Whether the condition holds for the request head.
    spec fn accepts(&self, headers: RequestParts) -> bool;

    /// Checks the condition.
    fn check_headers(&self, headers: &RequestParts) -> (r: bool)
        ensures
            r == self.accepts(*headers),
    ;
}

impl HTTPRouteRulesMatchesChecker for HTTPRouteRulesMatches {
    /// Path, all header matchers, all query matchers and the method hold.
    open spec fn accepts(&self, headers: RequestParts) -> bool {
        &&& path_accepts(self.path, headers.path@)
        &&& all_headers_accept(self.headers, headers)
        &&& all_query_params_accept(self.query_params, headers)
        &&& method_accepts(self.method, headers)
    }

    #[verifier::loop_isolation(false)]
    fn check_headers(&self, headers: &RequestParts) -> (r: bool) {
        // the path
        match &self.path {
            None => {},
            Some(rule) => match &rule.value {
                None => {},
                Some(rule_path) => {
                    let path = headers.path.as_str();
                    let ok = match rule.match_type {
                        None => str_starts_with(path, rule_path.as_str()),
                        Some(HTTPRouteRulesMatchesPathType::PathPrefix) => str_starts_with(
                            path,
                            rule_path.as_str(),
                        ),
                        Some(HTTPRouteRulesMatchesPathType::Exact) => str_equal(rule_path.as_str(), path),
                        Some(HTTPRouteRulesMatchesPathType::RegularExpression) => regex_is_match(
                            rule_path.as_str(),
                            path,
                        ),
                    };
                    if !ok {
                        return false;
                    }
                },
            },
        }
        // the headers
        match &self.headers {
            None => {},
            Some(rules) => {
                let mut i: usize = 0;
                while i < rules.len()
                    invariant
                        i <= rules@.len(),
                        forall|j: int| 0 <= j < i ==> (#[trigger] rules@[j]).accepts(*headers),
                    decreases rules.len() - i,
                {
                    if !rules[i].check_headers(headers) {
                        return false;
                    }
                    i = i + 1;
                }
            },
        }
        // the query parameters
        match &self.query_params {
            None => {},
            Some(rules) => {
                let mut i: usize = 0;
                while i < rules.len()
                    invariant
                        i <= rules@.len(),
                        forall|j: int| 0 <= j < i ==> (#[trigger] rules@[j]).accepts(*headers),
                    decreases rules.len() - i,
                {
                    if !rules[i].check_headers(headers) {
                        return false;
                    }
                    i = i + 1;
                }
            },
        }
        // the method
        match &self.method {
            None => {},
            Some(method) => {
                let req_method = to_uppercase(headers.method.as_str());
                let rule_method = method.wire_str();
                if !str_equal(rule_method.as_str(), req_method.as_str()) {
                    return false;
                }
            },
        }
        true
    }
}

impl HTTPRouteRulesMatchesChecker for HTTPRouteRulesMatchesHeaders {
    /// The header that a lookup by this name finds is text, and the text
    /// equals the value (no type, or `Exact`) or matches it as a regular
    /// expression.
    open spec fn accepts(&self, headers: RequestParts) -> bool {
        match header_text(headers, self.name@) {
            Some(t) => match self.match_type {
                None => t == self.value@,
                Some(HTTPRouteRulesMatchesHeadersType::Exact) => t == self.value@,
                Some(HTTPRouteRulesMatchesHeadersType::RegularExpression) => regex_hits(self.value@, t),
            },
            None => false,
        }
    }

    fn check_headers(&self, headers: &RequestParts) -> (r: bool) {
        let found = headers.header(self.name.as_str());
        let actual: Option<&String> = match found {
            Some(h) => match &h.text {
                Some(t) => Some(t),
                None => None,
            },
            None => None,
        };
        match actual {
            Some(actual_value) => match self.match_type {
                None => str_equal(actual_value.as_str(), self.value.as_str()),
                Some(HTTPRouteRulesMatchesHeadersType::Exact) => str_equal(
                    actual_value.as_str(),
                    self.value.as_str(),
                ),
                Some(HTTPRouteRulesMatchesHeadersType::RegularExpression) => regex_is_match(
                    self.value.as_str(),
                    actual_value.as_str(),
                ),
            },
            None => false,
        }
    }
}

impl HTTPRouteRulesMatchesChecker for HTTPRouteRulesMatchesQueryParams {
    /// The request has a query, the last pair of the query under this name
    /// exists, and its value equals the value (no type, or `Exact`) or
    /// matches it as a regular expression.
    open spec fn accepts(&self, headers: RequestParts) -> bool {
        match headers.query {
            None => false,
            Some(q) => match last_value(query_pairs(q@), self.name@) {
                None => false,
                Some(v) => match self.match_type {
                    None => self.value@ == v,
                    Some(HTTPRouteRulesMatchesQueryParamsType::Exact) => self.value@ == v,
                    Some(HTTPRouteRulesMatchesQueryParamsType::RegularExpression) => regex_hits(
                        self.value@,
                        v,
                    ),
                },
            },
        }
    }

    fn check_headers(&self, headers: &RequestParts) -> (r: bool) {
        match &headers.query {
            None => false,
            Some(q) => {
                let map = parse_query(q.as_str());
                match query_value(&map, self.name.as_str()) {
                    None => false,
                    Some(v) => match self.match_type {
                        None => str_equal(self.value.as_str(), v.as_str()),
                        Some(HTTPRouteRulesMatchesQueryParamsType::Exact) => str_equal(
                            self.value.as_str(),
                            v.as_str(),
                        ),
                        Some(HTTPRouteRulesMatchesQueryParamsType::RegularExpression) => regex_is_match(
                            self.value.as_str(),
                            v.as_str(),
                        ),
                    },
                }
            },
        }
    }
}

/// Whether some match of an optional list holds for the request; without a
/// list none does.
pub open spec fn some_match_accepts(matches: Option<Vec<HTTPRouteRulesMatches>>, req: RequestParts) -> bool {
    match matches {
        None => false,
        Some(v) => exists|i: int| 0 <= i < v@.len() && (#[trigger] v@[i]).accepts(req),
    }
}

/// A rule that hands out its backends when it applies to a request.
pub trait HTTPRouteRulesChecker {
    /// Whether the rule applies to the request head.
    spec fn applies_to(&self, headers: RequestParts) -> bool;

    /// The backends of the rule when it applies, else `None`.
    fn check_headers(&self, headers: &RequestParts) -> (r: Option<&Vec<HTTPRouteRulesBackendRefs>>)
        ensures
            r is Some <==> self.applies_to(*headers),
    ;
}

impl HTTPRouteRulesChecker for HTTPRouteRules {
    /// The rule has backends and one of its matches holds; a rule without
    /// matches applies to nothing.
    open spec fn applies_to(&self, headers: RequestParts) -> bool {
        self.backend_refs is Some && some_match_accepts(self.matches, headers)
    }

    #[verifier::loop_isolation(false)]
    fn check_headers(&self, headers: &RequestParts) -> (r: Option<&Vec<HTTPRouteRulesBackendRefs>>)
        ensures
            r matches Some(b) ==> self.backend_refs == Some(*b),
    {
        let backend_refs = match &self.backend_refs {
            None => return None,
            Some(b) => b,
        };
        match &self.matches {
            None => None,
            Some(matches) => {
                let mut i: usize = 0;
                while i < matches.len()
                    invariant
                        i <= matches@.len(),
                        forall|j: int| 0 <= j < i ==> !(#[trigger] matches@[j]).accepts(*headers),
                    decreases matches.len() - i,
                {
                    if matches[i].check_headers(headers) {
                        return Some(backend_refs);
                    }
                    i = i + 1;
                }
                None
            },
        }
    }
}

} // verus!

verus! {

/// A match that names a method accepts a request only when the request's
/// method, in uppercase, is that method.
pub proof fn law_method_match_is_method_equality(m: HTTPRouteRulesMatches, req: RequestParts)
    requires
        m.method is Some,
        m.accepts(req),
    ensures
        uppercase_of(req.method@) == m.method->0.wire_name(),
{
}

/// A rule applies only when it has backends and a list of matches one of
/// which holds.
pub proof fn law_rule_needs_backends_and_matches(rule: HTTPRouteRules, req: RequestParts)
    requires
        rule.applies_to(req),
    ensures
        rule.backend_refs is Some,
        rule.matches matches Some(ms) && exists|i: int| 0 <= i < ms@.len() && (#[trigger] ms@[i]).accepts(req),
{
}

/// A rule with backends applies to a request as soon as one of its matches
/// accepts it; one holding match is enough.
pub proof fn law_one_holding_match_is_enough(rule: HTTPRouteRules, req: RequestParts, i: int)
    requires
        rule.backend_refs is Some,
        rule.matches matches Some(ms) && 0 <= i < ms@.len() && ms@[i].accepts(req),
    ensures
        rule.applies_to(req),
{
}

/// A match without conditions on headers, query or method.
pub open spec fn only_path(m: HTTPRouteRulesMatches) -> bool {
    m.headers is None && m.query_params is None && m.method is None
}

/// An `Exact` path matcher accepts only the request path equal to its
/// value, and a match that asks nothing else accepts that path.
pub proof fn law_exact_path_is_equality(m: HTTPRouteRulesMatches, req: RequestParts, v: String)
    requires
        m.path matches Some(p) && p.match_type == Some(HTTPRouteRulesMatchesPathType::Exact) && p.value
            == Some(v),
    ensures
        m.accepts(req) ==> req.path@ == v@,
        only_path(m) && req.path@ == v@ ==> m.accepts(req),
{
}

/// A `PathPrefix` path matcher, or one without a type, accepts only request
/// paths whose bytes begin with the bytes of its value, and a match that asks
/// nothing else accepts every such path.
pub proof fn law_prefix_path_is_byte_prefix(m: HTTPRouteRulesMatches, req: RequestParts, v: String)
    requires
        m.path matches Some(p) && (p.match_type is None || p.match_type == Some(
            HTTPRouteRulesMatchesPathType::PathPrefix,
        )) && p.value == Some(v),
    ensures
        m.accepts(req) ==> utf8_of(v@).len() <= utf8_of(req.path@).len() && utf8_of(req.path@).take(
            utf8_of(v@).len() as int,
        ) == utf8_of(v@),
        only_path(m) && utf8_of(v@).len() <= utf8_of(req.path@).len() && utf8_of(req.path@).take(
            utf8_of(v@).len() as int,
        ) == utf8_of(v@) ==> m.accepts(req),
{
}

/// A `RegularExpression` path matcher accepts exactly the request paths in
/// which its value, compiled, finds a match.
pub proof fn law_regex_path_is_search(m: HTTPRouteRulesMatches, req: RequestParts, v: String)
    requires
        m.path matches Some(p) && p.match_type == Some(HTTPRouteRulesMatchesPathType::RegularExpression)
            && p.value == Some(v),
    ensures
        m.accepts(req) ==> regex_compiles(v@) && regex_finds(v@, req.path@),
        only_path(m) && regex_compiles(v@) && regex_finds(v@, req.path@) ==> m.accepts(req),
{
}

/// A match without conditions accepts every request.
pub proof fn law_match_without_conditions_accepts_all(m: HTTPRouteRulesMatches, req: RequestParts)
    requires
        only_path(m),
        m.path matches Some(p) ==> p.value is None,
    ensures
        m.accepts(req),
{
}

/// A match accepts a request only when every one of its header matchers and
/// every one of its query matchers accepts it; when it asks nothing else,
/// that is also enough.
pub proof fn law_match_needs_every_condition(m: HTTPRouteRulesMatches, req: RequestParts)
    ensures
        m.accepts(req) ==> (m.headers matches Some(hs) ==> forall|i: int|
            0 <= i < hs@.len() ==> (#[trigger] hs@[i]).accepts(req)),
        m.accepts(req) ==> (m.query_params matches Some(qs) ==> forall|i: int|
            0 <= i < qs@.len() ==> (#[trigger] qs@[i]).accepts(req)),
        m.path is None && m.method is None && (m.headers matches Some(hs) ==> forall|i: int|
            0 <= i < hs@.len() ==> (#[trigger] hs@[i]).accepts(req)) && (m.query_params matches Some(qs)
            ==> forall|i: int| 0 <= i < qs@.len() ==> (#[trigger] qs@[i]).accepts(req)) ==> m.accepts(req),
{
}

/// A match that asks only for a method accepts exactly the requests whose
/// method, in uppercase, is that method's name.
pub proof fn law_method_only_match(m: HTTPRouteRulesMatches, req: RequestParts, meth: HTTPRouteRulesMatchesMethod)
    requires
        m.method == Some(meth),
        m.path is None,
        m.headers is None,
        m.query_params is None,
    ensures
        m.accepts(req) <==> uppercase_of(req.method@) == meth.wire_name(),
{
}

/// A header matcher without a type, or of type `Exact`, accepts exactly the
/// requests in which the header found under its name is text equal to its
/// value.
pub proof fn law_header_exact_is_equality(h: HTTPRouteRulesMatchesHeaders, req: RequestParts)
    requires
        h.match_type is None || h.match_type == Some(HTTPRouteRulesMatchesHeadersType::Exact),
    ensures
        h.accepts(req) <==> (req.header_of(h.name@) matches Some(found) && found.text matches Some(t)
            && t@ == h.value@),
{
}

/// A header matcher of type `RegularExpression` accepts exactly the requests
/// in which the header found under its name is text where its value,
/// compiled, finds a match.
pub proof fn law_header_regex_is_search(h: HTTPRouteRulesMatchesHeaders, req: RequestParts)
    requires
        h.match_type == Some(HTTPRouteRulesMatchesHeadersType::RegularExpression),
    ensures
        h.accepts(req) <==> (req.header_of(h.name@) matches Some(found) && found.text matches Some(t)
            && regex_compiles(h.value@) && regex_finds(h.value@, t@)),
{
}

/// A query matcher without a type, or of type `Exact`, accepts exactly the
/// requests with a query whose last pair under its name has its value.
pub proof fn law_query_exact_is_last_value(q: HTTPRouteRulesMatchesQueryParams, req: RequestParts)
    requires
        q.match_type is None || q.match_type == Some(HTTPRouteRulesMatchesQueryParamsType::Exact),
    ensures
        q.accepts(req) <==> (req.query matches Some(text) && last_value(query_pairs(text@), q.name@) == Some(
            q.value@,
        )),
{
}

/// A query matcher of type `RegularExpression` accepts exactly the requests
/// with a query whose last pair under its name has a value where its value,
/// compiled, finds a match.
pub proof fn law_query_regex_is_search(q: HTTPRouteRulesMatchesQueryParams, req: RequestParts)
    requires
        q.match_type == Some(HTTPRouteRulesMatchesQueryParamsType::RegularExpression),
    ensures
        q.accepts(req) <==> (req.query matches Some(text) && last_value(query_pairs(text@), q.name@) matches Some(
            v,
        ) && regex_compiles(q.value@) && regex_finds(q.value@, v)),
{
}

} // verus!
