//! Whether an HTTPRoute attaches to a Gateway.
use vstd::prelude::*;

use crate::model::{Gateway, HTTPRoute, HTTPRouteParentRefs};
use crate::text::str_equal;

verus! {

/// The API group of Gateway objects.
pub const GROUP_GATEWAY: &'static str = "gateway.networking.k8s.io";

/// The kind of Gateway objects.
pub const KIND_GATEWAY: &'static str = "Gateway";

/// Whether some listener of the gateway satisfies `pred`.
pub open spec fn some_listener(gateway: Gateway, pred: spec_fn(crate::model::GatewayListener) -> bool) -> bool {
    exists|i: int| 0 <= i < gateway.listeners@.len() && pred(#[trigger] gateway.listeners@[i])
}

/// The port and section name of a parent reference, where given, name a
/// listener of the gateway.
pub open spec fn listener_fits(parent: HTTPRouteParentRefs, gateway: Gateway) -> bool {
    match (parent.port, parent.section_name) {
        (None, Some(sn)) => some_listener(gateway, |l: crate::model::GatewayListener| l.name@ == sn@),
        (Some(p), None) => some_listener(gateway, |l: crate::model::GatewayListener| l.port == p),
        (Some(p), Some(sn)) => some_listener(
            gateway,
            |l: crate::model::GatewayListener| l.port == p && l.name@ == sn@,
        ),
        (None, None) => true,
    }
}

/// The group of a parent reference is absent, empty or the Gateway API group.
pub open spec fn group_fits(parent: HTTPRouteParentRefs) -> bool {
    match parent.group {
        None => true,
        Some(g) => g@.len() == 0 || g@ == GROUP_GATEWAY@,
    }
}

/// The kind of a parent reference is absent or `Gateway`.
pub open spec fn kind_fits(parent: HTTPRouteParentRefs) -> bool {
    match parent.kind {
        None => true,
        Some(k) => k@ == KIND_GATEWAY@,
    }
}

/// The outcome of checking a parent reference against a gateway: `None`
/// when the check reaches a gateway without namespace (the check cannot
/// finish), else whether the reference names the gateway (name, namespace,
/// and the group, kind, port and section name where given).  A reference
/// without a namespace of its own names no gateway.
pub open spec fn parent_verdict(parent: HTTPRouteParentRefs, gateway: Gateway) -> Option<bool> {
    if !listener_fits(parent, gateway) || !group_fits(parent) || !kind_fits(parent) {
        Some(false)
    } else {
        match parent.namespace {
            None => Some(false),
            Some(ns) => match gateway.namespace {
                None => None,
                Some(gns) => Some(ns@ == gns@ && parent.name@ == gateway.name@),
            },
        }
    }
}

/// The outcome of checking parent references in order until one names the
/// gateway.
pub open spec fn parents_verdict(parents: Seq<HTTPRouteParentRefs>, gateway: Gateway) -> Option<bool>
    decreases parents.len(),
{
    if parents.len() == 0 {
        Some(false)
    } else {
        match parent_verdict(parents[0], gateway) {
            None => None,
            Some(true) => Some(true),
            Some(false) => parents_verdict(parents.skip(1), gateway),
        }
    }
}

/// The outcome of checking an HTTPRoute against a gateway: some parent
/// reference names it.
pub open spec fn route_verdict(route: HTTPRoute, gateway: Gateway) -> Option<bool> {
    match route.parent_refs {
        None => Some(false),
        Some(prs) => parents_verdict(prs@, gateway),
    }
}

/// Something that may attach to a Gateway.
pub trait GatewayChecker {
    /// The outcome of the check; `None` when it cannot finish.
    spec fn gateway_verdict(&self, gateway: Gateway) -> Option<bool>;

    /// Whether this attaches to the gateway.
    fn check(&self, gateway: &Gateway) -> (r: bool)
        requires
            self.gateway_verdict(*gateway) is Some,
        ensures
            Some(r) == self.gateway_verdict(*gateway),
    ;
}

/// A listener has the given port and name, where they are given.
pub open spec fn listener_has(l: crate::model::GatewayListener, port: Option<i32>, name: Option<Seq<char>>) -> bool {
    &&& (port matches Some(p) ==> l.port == p)
    &&& (name matches Some(n) ==> l.name@ == n)
}

pub open spec fn opt_view(s: Option<&String>) -> Option<Seq<char>> {
    match s {
        Some(x) => Some(x@),
        None => None,
    }
}

fn any_listener_port_name(gateway: &Gateway, port: Option<i32>, name: Option<&String>) -> (r: bool)
    ensures
        r == exists|i: int|
            0 <= i < gateway.listeners@.len() && listener_has(#[trigger] gateway.listeners@[i], port, opt_view(name)),
{
    let mut i: usize = 0;
    while i < gateway.listeners.len()
        invariant
            i <= gateway.listeners@.len(),
            forall|j: int|
                0 <= j < i ==> !listener_has(#[trigger] gateway.listeners@[j], port, opt_view(name)),
        decreases gateway.listeners.len() - i,
    {
        let l = &gateway.listeners[i];
        let port_ok = match port {
            Some(p) => l.port == p,
            None => true,
        };
        let name_ok = match name {
            Some(n) => str_equal(l.name.as_str(), n.as_str()),
            None => true,
        };
        if port_ok && name_ok {
            return true;
        }
        i = i + 1;
    }
    false
}

impl HTTPRouteParentRefs {
    /// The outcome of checking this reference against the gateway; `None`
    /// where the check meets a gateway without namespace.
    pub fn verdict(&self, gateway: &Gateway) -> (r: Option<bool>)
        ensures
            r == parent_verdict(*self, *gateway),
    {
        // the port and the section name
        let fits = match (self.port, &self.section_name) {
            (None, Some(section_name)) => any_listener_port_name(gateway, None, Some(section_name)),
            (Some(ref_port), None) => any_listener_port_name(gateway, Some(ref_port), None),
            (Some(ref_port), Some(section_name)) => any_listener_port_name(
                gateway,
                Some(ref_port),
                Some(section_name),
            ),
            (None, None) => true,
        };
        proof {
            match (self.port, &self.section_name) {
                (None, Some(sn)) => {
                    if fits {
                        let i = choose|i: int|
                            0 <= i < gateway.listeners@.len() && gateway.listeners@[i].name@ == sn@;
                        assert((|l: crate::model::GatewayListener| l.name@ == sn@)(gateway.listeners@[i]));
                    }
                },
                (Some(p), None) => {
                    if fits {
                        let i = choose|i: int|
                            0 <= i < gateway.listeners@.len() && gateway.listeners@[i].port == p;
                        assert((|l: crate::model::GatewayListener| l.port == p)(gateway.listeners@[i]));
                    }
                },
                (Some(p), Some(sn)) => {
                    if fits {
                        let i = choose|i: int|
                            0 <= i < gateway.listeners@.len() && gateway.listeners@[i].port == p
                                && gateway.listeners@[i].name@ == sn@;
                        assert((|l: crate::model::GatewayListener| l.port == p && l.name@ == sn@)(
                            gateway.listeners@[i],
                        ));
                    }
                },
                (None, None) => {},
            }
            assert(fits == listener_fits(*self, *gateway));
        }
        if !fits {
            return Some(false);
        }
        // the group
        let group_ok = match &self.group {
            None => true,
            Some(g) => g.as_str().unicode_len() == 0 || str_equal(g.as_str(), GROUP_GATEWAY),
        };
        if !group_ok {
            return Some(false);
        }
        // the kind
        let kind_ok = match &self.kind {
            None => true,
            Some(k) => str_equal(k.as_str(), KIND_GATEWAY),
        };
        if !kind_ok {
            return Some(false);
        }
        // the namespace
        match &self.namespace {
            None => Some(false),
            Some(ns) => {
                let gns = match &gateway.namespace {
                    Some(gns) => gns,
                    None => return None,
                };
                if !str_equal(ns.as_str(), gns.as_str()) {
                    return Some(false);
                }
                // the name
                Some(str_equal(self.name.as_str(), gateway.name.as_str()))
            },
        }
    }
}

impl GatewayChecker for HTTPRouteParentRefs {
    open spec fn gateway_verdict(&self, gateway: Gateway) -> Option<bool> {
        parent_verdict(*self, gateway)
    }

    fn check(&self, gateway: &Gateway) -> (r: bool) {
        match self.verdict(gateway) {
            Some(b) => b,
            None => false,
        }
    }
}

impl HTTPRoute {
    /// The outcome of checking this route against the gateway: its parent
    /// references in order until one names the gateway; `None` where a check
    /// meets a gateway without namespace.
    pub fn gateway_verdict_of(&self, gateway: &Gateway) -> (r: Option<bool>)
        ensures
            r == route_verdict(*self, *gateway),
    {
        match &self.parent_refs {
            None => Some(false),
            Some(parent_refs) => {
                let mut i: usize = 0;
                assert(parent_refs@.skip(0) =~= parent_refs@);
                while i < parent_refs.len()
                    invariant
                        i <= parent_refs@.len(),
                        self.parent_refs == Some(*parent_refs),
                        parents_verdict(parent_refs@, *gateway) == parents_verdict(
                            parent_refs@.skip(i as int),
                            *gateway,
                        ),
                    decreases parent_refs.len() - i,
                {
                    let ghost rest = parent_refs@.skip(i as int);
                    assert(rest[0] == parent_refs@[i as int]);
                    assert(rest.skip(1) =~= parent_refs@.skip(i + 1));
                    match parent_refs[i].verdict(gateway) {
                        None => return None,
                        Some(true) => return Some(true),
                        Some(false) => {},
                    }
                    i = i + 1;
                }
                Some(false)
            },
        }
    }
}

impl GatewayChecker for HTTPRoute {
    open spec fn gateway_verdict(&self, gateway: Gateway) -> Option<bool> {
        route_verdict(*self, gateway)
    }

    fn check(&self, gateway: &Gateway) -> (r: bool) {
        match self.gateway_verdict_of(gateway) {
            Some(b) => b,
            None => false,
        }
    }
}

} // verus!

verus! {

/// A parent reference attaches an HTTPRoute only to the gateway of its own
/// name in its own namespace, and only when it names a namespace.
pub proof fn law_parent_ref_names_the_gateway(parent: HTTPRouteParentRefs, gateway: Gateway)
    requires
        parent_verdict(parent, gateway) == Some(true),
    ensures
        parent.namespace is Some,
        gateway.namespace is Some,
        parent.namespace->0@ == gateway.namespace->0@,
        parent.name@ == gateway.name@,
        group_fits(parent),
        kind_fits(parent),
        listener_fits(parent, gateway),
{
}

/// Checked parent references in order come to an outcome exactly when one
/// of them names the gateway or none does, and then say which.
pub proof fn lemma_parents_verdict(parents: Seq<HTTPRouteParentRefs>, gateway: Gateway)
    requires
        parents_verdict(parents, gateway) is Some,
    ensures
        parents_verdict(parents, gateway) == Some(
            exists|i: int| 0 <= i < parents.len() && parent_verdict(#[trigger] parents[i], gateway) == Some(true),
        ),
    decreases parents.len(),
{
    if parents.len() > 0 {
        if parent_verdict(parents[0], gateway) == Some(true) {
            assert(parent_verdict(parents[0], gateway) == Some(true));
        } else {
            lemma_parents_verdict(parents.skip(1), gateway);
            if exists|i: int| 0 <= i < parents.len() && parent_verdict(#[trigger] parents[i], gateway) == Some(true) {
                let i = choose|i: int| 0 <= i < parents.len() && parent_verdict(#[trigger] parents[i], gateway) == Some(true);
                assert(parents.skip(1)[i - 1] == parents[i]);
            }
            if exists|i: int| 0 <= i < parents.len() - 1 && parent_verdict(#[trigger] parents.skip(1)[i], gateway) == Some(true) {
                let i = choose|i: int| 0 <= i < parents.len() - 1 && parent_verdict(#[trigger] parents.skip(1)[i], gateway) == Some(true);
                assert(parents.skip(1)[i] == parents[i + 1]);
            }
        }
    }
}

/// Where the check of a route against a gateway comes to an outcome, the
/// route attaches to the gateway exactly when one of its parent references,
/// checked on its own, names the gateway.
pub proof fn law_route_attaches_through_a_parent_ref(route: HTTPRoute, gateway: Gateway)
    requires
        route_verdict(route, gateway) is Some,
    ensures
        route_verdict(route, gateway) == Some(
            route.parent_refs matches Some(prs) && exists|i: int|
                0 <= i < prs@.len() && (#[trigger] prs@[i]).gateway_verdict(gateway) == Some(true),
        ),
{
    if let Some(prs) = route.parent_refs {
        lemma_parents_verdict(prs@, gateway);
    }
}

/// The listener that a parent reference asks for, where it gives a port or
/// a section name: one with that port and that name, where given.
pub open spec fn listener_asked(parent: HTTPRouteParentRefs, l: crate::model::GatewayListener) -> bool {
    &&& (parent.port matches Some(p) ==> l.port == p)
    &&& (parent.section_name matches Some(sn) ==> l.name@ == sn@)
}

/// A parent reference with its own namespace, the gateway's, and the
/// gateway's name, with no group or kind other than the Gateway API's, names
/// the gateway as soon as some listener of it (any one, not only the first)
/// has the port and the section name the reference gives.
pub proof fn law_parent_ref_finds_any_listener(parent: HTTPRouteParentRefs, gateway: Gateway, i: int)
    requires
        gateway.namespace matches Some(gns) && parent.namespace matches Some(ns) && ns@ == gns@,
        parent.name@ == gateway.name@,
        parent.group matches Some(g) ==> g@.len() == 0 || g@ == GROUP_GATEWAY@,
        parent.kind matches Some(k) ==> k@ == KIND_GATEWAY@,
        0 <= i < gateway.listeners@.len(),
        listener_asked(parent, gateway.listeners@[i]),
    ensures
        parent_verdict(parent, gateway) == Some(true),
{
    let l = gateway.listeners@[i];
    match (parent.port, parent.section_name) {
        (None, Some(sn)) => {
            assert((|l: crate::model::GatewayListener| l.name@ == sn@)(l));
        },
        (Some(p), None) => {
            assert((|l: crate::model::GatewayListener| l.port == p)(l));
        },
        (Some(p), Some(sn)) => {
            assert((|l: crate::model::GatewayListener| l.port == p && l.name@ == sn@)(l));
        },
        (None, None) => {},
    }
}

/// A parent reference names a gateway only when the gateway has a listener
/// with the port and the section name the reference gives, the reference
/// names the gateway's namespace and name, and its group and kind, where
/// given, are the Gateway API's.
pub proof fn law_parent_ref_needs_its_listener(parent: HTTPRouteParentRefs, gateway: Gateway)
    requires
        parent_verdict(parent, gateway) == Some(true),
    ensures
        (parent.port is Some || parent.section_name is Some) ==> exists|i: int|
            0 <= i < gateway.listeners@.len() && listener_asked(parent, #[trigger] gateway.listeners@[i]),
        parent.namespace matches Some(ns) && gateway.namespace matches Some(gns) && ns@ == gns@,
        parent.name@ == gateway.name@,
        parent.group matches Some(g) ==> g@.len() == 0 || g@ == GROUP_GATEWAY@,
        parent.kind matches Some(k) ==> k@ == KIND_GATEWAY@,
{
    match (parent.port, parent.section_name) {
        (None, Some(sn)) => {
            let i = choose|i: int|
                0 <= i < gateway.listeners@.len() && (|l: crate::model::GatewayListener| l.name@ == sn@)(
                    #[trigger] gateway.listeners@[i],
                );
            assert(listener_asked(parent, gateway.listeners@[i]));
        },
        (Some(p), None) => {
            let i = choose|i: int|
                0 <= i < gateway.listeners@.len() && (|l: crate::model::GatewayListener| l.port == p)(
                    #[trigger] gateway.listeners@[i],
                );
            assert(listener_asked(parent, gateway.listeners@[i]));
        },
        (Some(p), Some(sn)) => {
            let i = choose|i: int|
                0 <= i < gateway.listeners@.len() && (|l: crate::model::GatewayListener|
                    l.port == p && l.name@ == sn@)(#[trigger] gateway.listeners@[i]);
            assert(listener_asked(parent, gateway.listeners@[i]));
        },
        (None, None) => {},
    }
}

} // verus!
