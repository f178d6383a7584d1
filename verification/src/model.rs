//! The objects that route matching reads: Gateway API objects as plain
//! values, and the head of an HTTP request.
use vstd::prelude::*;

use crate::text::{ascii_lowercase, eq_lowercase_of};

verus! {

/// A listener of a Gateway: its name and port.
pub struct GatewayListener {
    pub name: String,
    pub port: i32,
}

/// A Gateway: its name, its namespace and its listeners.
pub struct Gateway {
    pub name: String,
    pub namespace: Option<String>,
    pub listeners: Vec<GatewayListener>,
}

/// A reference from an HTTPRoute to its parent (a Gateway).
pub struct HTTPRouteParentRefs {
    pub group: Option<String>,
    pub kind: Option<String>,
    pub name: String,
    pub namespace: Option<String>,
    pub port: Option<i32>,
    pub section_name: Option<String>,
}

/// A backend that a rule of an HTTPRoute forwards to.
pub struct HTTPRouteRulesBackendRefs {
    pub group: Option<String>,
    pub kind: Option<String>,
    pub name: String,
    pub namespace: Option<String>,
    pub port: Option<i32>,
    pub weight: Option<i32>,
}

/// How a path is matched.
#[derive(PartialEq, Eq, Structural, Clone, Copy)]
pub enum HTTPRouteRulesMatchesPathType {
    Exact,
    PathPrefix,
    RegularExpression,
}

/// A path matcher.
pub struct HTTPRouteRulesMatchesPath {
    pub match_type: Option<HTTPRouteRulesMatchesPathType>,
    pub value: Option<String>,
}

/// How a header value is matched.
#[derive(PartialEq, Eq, Structural, Clone, Copy)]
pub enum HTTPRouteRulesMatchesHeadersType {
    Exact,
    RegularExpression,
}

/// A header matcher.
pub struct HTTPRouteRulesMatchesHeaders {
    pub name: String,
    pub match_type: Option<HTTPRouteRulesMatchesHeadersType>,
    pub value: String,
}

/// How a query parameter is matched.
#[derive(PartialEq, Eq, Structural, Clone, Copy)]
pub enum HTTPRouteRulesMatchesQueryParamsType {
    Exact,
    RegularExpression,
}

/// A query parameter matcher.
pub struct HTTPRouteRulesMatchesQueryParams {
    pub name: String,
    pub match_type: Option<HTTPRouteRulesMatchesQueryParamsType>,
    pub value: String,
}

/// The HTTP method that a match asks for.
#[derive(PartialEq, Eq, Structural, Clone, Copy)]
pub enum HTTPRouteRulesMatchesMethod {
    Get,
    Head,
    Post,
    Put,
    Delete,
    Connect,
    Options,
    Trace,
    Patch,
}

/// One match of a rule: all of its conditions must hold.
pub struct HTTPRouteRulesMatches {
    pub headers: Option<Vec<HTTPRouteRulesMatchesHeaders>>,
    pub method: Option<HTTPRouteRulesMatchesMethod>,
    pub path: Option<HTTPRouteRulesMatchesPath>,
    pub query_params: Option<Vec<HTTPRouteRulesMatchesQueryParams>>,
}

/// A rule of an HTTPRoute: its matches and its backends.
pub struct HTTPRouteRules {
    pub backend_refs: Option<Vec<HTTPRouteRulesBackendRefs>>,
    pub matches: Option<Vec<HTTPRouteRulesMatches>>,
}

/// An HTTPRoute.
pub struct HTTPRoute {
    pub name: String,
    pub namespace: Option<String>,
    pub parent_refs: Option<Vec<HTTPRouteParentRefs>>,
    pub hostnames: Option<Vec<String>>,
    pub rules: Option<Vec<HTTPRouteRules>>,
}

/// One header of a request: its name as the HTTP layer stores it (lowercase),
/// its raw value, and the value as text when the value is visible ASCII.
pub struct RequestHeader {
    pub name: String,
    pub value: Vec<u8>,
    pub text: Option<String>,
}

/// The head of an HTTP request: method, path, query and headers in order.
pub struct RequestParts {
    pub method: String,
    pub path: String,
    pub query: Option<String>,
    pub headers: Vec<RequestHeader>,
}

/// Index of the first header stored under `key`.
pub open spec fn header_index(hs: Seq<RequestHeader>, key: Seq<char>) -> Option<int>
    decreases hs.len(),
{
    if hs.len() == 0 {
        None
    } else if hs[0].name@ == key {
        Some(0)
    } else {
        match header_index(hs.skip(1), key) {
            Some(i) => Some(i + 1),
            None => None,
        }
    }
}

pub proof fn lemma_header_index(hs: Seq<RequestHeader>, key: Seq<char>)
    ensures
        header_index(hs, key) matches Some(i) ==> 0 <= i < hs.len() && hs[i].name@ == key
            && forall|j: int| 0 <= j < i ==> hs[j].name@ != key,
        header_index(hs, key) is None ==> forall|j: int| 0 <= j < hs.len() ==> hs[j].name@ != key,
    decreases hs.len(),
{
    if hs.len() > 0 {
        lemma_header_index(hs.skip(1), key);
        if hs[0].name@ != key {
            assert forall|j: int| 1 <= j < hs.len() implies hs[j] == hs.skip(1)[j - 1] by {}
        }
    }
}

impl RequestParts {
    /// The header that a lookup by `name` finds: the first one stored under
    /// the lowercase form of `name`.
    pub open spec fn header_of(self, name: Seq<char>) -> Option<RequestHeader> {
        match header_index(self.headers@, ascii_lowercase(name)) {
            Some(i) => Some(self.headers@[i]),
            None => None,
        }
    }

    /// Looks a header up by name, ASCII case-insensitively.
    pub fn header(&self, name: &str) -> (r: Option<&RequestHeader>)
        ensures
            r is Some <==> self.header_of(name@) is Some,
            r matches Some(h) ==> self.header_of(name@) == Some(*h),
    {
        proof { lemma_header_index(self.headers@, ascii_lowercase(name@)); }
        let mut i: usize = 0;
        while i < self.headers.len()
            invariant
                i <= self.headers@.len(),
                forall|j: int| 0 <= j < i ==> self.headers@[j].name@ != ascii_lowercase(name@),
                header_index(self.headers@, ascii_lowercase(name@)) matches Some(k) ==> 0 <= k
                    < self.headers@.len() && self.headers@[k].name@ == ascii_lowercase(name@)
                    && forall|j: int| 0 <= j < k ==> self.headers@[j].name@ != ascii_lowercase(name@),
                header_index(self.headers@, ascii_lowercase(name@)) is None ==> forall|j: int|
                    0 <= j < self.headers@.len() ==> self.headers@[j].name@ != ascii_lowercase(name@),
            decreases self.headers.len() - i,
        {
            if eq_lowercase_of(self.headers[i].name.as_str(), name) {
                return Some(&self.headers[i]);
            }
            i = i + 1;
        }
        None
    }
}

/// A header lookup ignores the ASCII case of the name: it finds the first
/// header stored under the lowercase form of the name, and it finds one
/// whenever some header is stored under that form.
pub proof fn law_header_lookup_by_lowercase_name(req: RequestParts, name: Seq<char>, j: int)
    ensures
        req.header_of(name) matches Some(h) ==> h.name@ == ascii_lowercase(name) && exists|i: int|
            0 <= i < req.headers@.len() && req.headers@[i] == h && forall|k: int|
                0 <= k < i ==> (#[trigger] req.headers@[k]).name@ != ascii_lowercase(name),
        0 <= j < req.headers@.len() && req.headers@[j].name@ == ascii_lowercase(name) ==> req.header_of(name) is Some,
{
    lemma_header_index(req.headers@, ascii_lowercase(name));
    if let Some(i) = header_index(req.headers@, ascii_lowercase(name)) {
        assert(req.headers@[i] == req.header_of(name)->0);
    }
}

} // verus!
