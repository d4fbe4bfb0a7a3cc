//! The table of routes over the radix tree.

use vstd::prelude::*;
use crate::index::{
    index_at, index_clone, index_insert, index_inserts, index_new, index_routes, serves,
};
use crate::pattern::{is_route, is_service_route, route_name, service_of};
use crate::router::{resolve, RegistrationError};

verus! {

/// Whether slot `i` of `routes` holds a route of the service `name`.
spec fn slot_of(routes: Seq<Seq<char>>, name: Seq<char>, i: int) -> bool {
    0 <= i < routes.len() && route_name(routes[i]) == name
}

/// The table that registered routes and their handlers stand for: each
/// service name with the handler in the slot of its route.
spec fn table_of<H>(routes: Seq<Seq<char>>, handles: Seq<H>) -> Map<Seq<char>, H> {
    Map::new(
        |name: Seq<char>| exists|i: int| slot_of(routes, name, i),
        |name: Seq<char>| handles[choose|i: int| slot_of(routes, name, i)],
    )
}

/// No two of `routes` are routes of the same service.
spec fn distinct_names(routes: Seq<Seq<char>>) -> bool {
    forall|i: int, j: int|
        0 <= i < j < routes.len() ==> route_name(#[trigger] routes[i]) != route_name(#[trigger] routes[j])
}

/// The index holds exactly `routes`, each a service route, each with its
/// slot as value.
spec fn indexed(index: Map<Seq<char>, usize>, routes: Seq<Seq<char>>) -> bool {
    &&& forall|i: int|
        0 <= i < routes.len() ==> {
            &&& is_service_route(#[trigger] routes[i])
            &&& index.contains_key(routes[i])
            &&& index[routes[i]] == i
        }
    &&& forall|route: Seq<char>| #[trigger] index.contains_key(route) ==> routes.contains(route)
}

/// The table holds the handler in slot `i` under the name of the route in
/// that slot.
proof fn lemma_slot<H>(routes: Seq<Seq<char>>, handles: Seq<H>, name: Seq<char>, i: int)
    requires
        distinct_names(routes),
        slot_of(routes, name, i),
    ensures
        table_of(routes, handles).contains_key(name),
        table_of(routes, handles)[name] == handles[i],
{
    let chosen = choose|k: int| slot_of(routes, name, k);
    if chosen < i {
        assert(route_name(routes[chosen]) != route_name(routes[i]));
    }
    if i < chosen {
        assert(route_name(routes[i]) != route_name(routes[chosen]));
    }
}

/// What the registration of a route of a new service adds: one slot in the
/// index, one name in the table.
proof fn lemma_registered<H>(
    index: Map<Seq<char>, usize>,
    routes: Seq<Seq<char>>,
    handles: Seq<H>,
    route: Seq<char>,
    svc: H,
)
    requires
        indexed(index, routes),
        distinct_names(routes),
        routes.len() == handles.len(),
        routes.len() <= usize::MAX,
        is_service_route(route),
        !serves(index, route_name(route)),
    ensures
        indexed(index.insert(route, routes.len() as usize), routes.push(route)),
        distinct_names(routes.push(route)),
        !table_of(routes, handles).contains_key(route_name(route)),
        table_of(routes.push(route), handles.push(svc)) == table_of(routes, handles).insert(
            route_name(route),
            svc,
        ),
{
    let name = route_name(route);
    let n = routes.len() as int;
    let routes2 = routes.push(route);
    let handles2 = handles.push(svc);
    let index2 = index.insert(route, n as usize);
    assert forall|i: int| 0 <= i < n implies route_name(#[trigger] routes[i]) != name by {
        assert(index.contains_key(routes[i]));
    }
    assert(forall|i: int| 0 <= i < n ==> routes2[i] == routes[i]);
    assert(routes2[n] == route);
    assert forall|found: Seq<char>| #[trigger] index2.contains_key(found) implies routes2.contains(
        found,
    ) by {
        if found != route {
            assert(routes.contains(found));
            let k = routes.index_of(found);
            assert(routes2[k] == found);
        }
    }
    assert(slot_of(routes2, name, n));
    let before = table_of(routes, handles);
    let after = table_of(routes2, handles2);
    if before.contains_key(name) {
        let i = choose|i: int| slot_of(routes, name, i);
        assert(route_name(routes[i]) != name);
    }
    assert forall|key: Seq<char>| #[trigger]
        after.contains_key(key) <==> before.insert(name, svc).contains_key(key) by {
        if after.contains_key(key) {
            let i = choose|i: int| slot_of(routes2, key, i);
            if i < n {
                assert(slot_of(routes, key, i));
            }
        }
        if before.contains_key(key) {
            let i = choose|i: int| slot_of(routes, key, i);
            assert(slot_of(routes2, key, i));
        }
    }
    assert forall|key: Seq<char>| #[trigger] after.contains_key(key) implies after[key] == before.insert(
        name,
        svc,
    )[key] by {
        let i = choose|i: int| slot_of(routes2, key, i);
        lemma_slot(routes2, handles2, key, i);
        if key == name {
            if i < n {
                assert(route_name(routes[i]) != name);
            }
        } else {
            assert(slot_of(routes, key, i));
            lemma_slot(routes, handles, key, i);
        }
    }
    assert(after =~= before.insert(name, svc));
}

/// A table of routes over a radix tree: each registered service name with
/// its handler.
pub struct SimpleRouter<H> {
    inner: matchit::Router<usize>,
    handles: Vec<H>,
    routes: Ghost<Seq<Seq<char>>>,
}

impl<H> SimpleRouter<H> {
    #[verifier::type_invariant]
    spec fn well_formed(&self) -> bool {
        &&& self.routes@.len() == self.handles@.len()
        &&& self.handles@.len() <= u32::MAX
        &&& index_inserts(self.inner) == self.handles@.len()
        &&& indexed(index_routes(self.inner), self.routes@)
        &&& distinct_names(self.routes@)
        &&& table_of(self.routes@, self.handles@).dom().finite()
        &&& table_of(self.routes@, self.handles@).len() == self.handles@.len()
    }

    /// The table: each registered service name with its handler.
    pub closed spec fn view(&self) -> Map<Seq<char>, H> {
        table_of(self.routes@, self.handles@)
    }

    /// A router without routes.
    pub fn new() -> (router: Self)
        ensures
            router@ == Map::<Seq<char>, H>::empty(),
    {
        let ghost routes = Seq::<Seq<char>>::empty();
        let handles: Vec<H> = Vec::new();
        assert(table_of(routes, handles@) =~= Map::<Seq<char>, H>::empty());
        SimpleRouter { inner: index_new(), handles, routes: Ghost(routes) }
    }

    /// The number of registered services.
    pub fn len(&self) -> (n: usize)
        ensures
            self@.dom().finite(),
            n == self@.len(),
            n <= u32::MAX,
    {
        proof {
            use_type_invariant(self);
        }
        self.handles.len()
    }

    /// Registers `svc` under `route`. The route must be a service route,
    /// and no route of the same service may be registered yet; otherwise
    /// nothing changes and the error says which of the two failed. The
    /// index counts in 32 bits, so a router takes fewer services than
    /// that.
    pub fn route_service(&mut self, route: &str, svc: H) -> (r: Result<(), RegistrationError>)
        requires
            old(self)@.len() < u32::MAX,
        ensures
            match r {
                Ok(_) => {
                    &&& is_service_route(route@)
                    &&& !old(self)@.contains_key(route_name(route@))
                    &&& final(self)@ == old(self)@.insert(route_name(route@), svc)
                },
                Err(RegistrationError::Malformed) => {
                    &&& !is_service_route(route@)
                    &&& final(self)@ == old(self)@
                },
                Err(RegistrationError::Duplicate) => {
                    &&& is_service_route(route@)
                    &&& old(self)@.contains_key(route_name(route@))
                    &&& final(self)@ == old(self)@
                },
            },
    {
        proof {
            use_type_invariant(&*self);
        }
        if !is_route(route) {
            return Err(RegistrationError::Malformed);
        }
        // A service route, read as a path, addresses its own service.
        if self.lookup(route).is_some() {
            return Err(RegistrationError::Duplicate);
        }
        let mut taken = SimpleRouter::new();
        core::mem::swap(self, &mut taken);
        let SimpleRouter { inner, handles, routes } = taken;
        let mut inner = inner;
        let mut handles = handles;
        let slot = handles.len();
        let ghost index = index_routes(inner);
        proof {
            if serves(index, route_name(route@)) {
                let found = choose|found: Seq<char>| #[trigger]
                    index.contains_key(found) && route_name(found) == route_name(route@);
                assert(routes@.contains(found));
                let i = routes@.index_of(found);
                lemma_slot(routes@, handles@, route_name(route@), i);
            }
            lemma_registered(index, routes@, handles@, route@, svc);
        }
        match index_insert(&mut inner, route, slot) {
            Ok(_) => {
                handles.push(svc);
                *self = SimpleRouter { inner, handles, routes: Ghost(routes@.push(route@)) };
                Ok(())
            },
            Err(_) => {
                // The index turns no new service down.
                *self = SimpleRouter { inner, handles, routes };
                Err(RegistrationError::Duplicate)
            },
        }
    }

    /// The handler of the service that `path` addresses.
    pub fn lookup(&self, path: &str) -> (found: Option<&H>)
        ensures
            match found {
                Some(handle) => resolve(self@, path@) == Some(*handle),
                None => resolve(self@, path@) is None,
            },
    {
        proof {
            use_type_invariant(self);
        }
        match index_at(&self.inner, path) {
            Some(slot) => {
                proof {
                    let route = choose|route: Seq<char>| #[trigger]
                        index_routes(self.inner).contains_key(route) && index_routes(self.inner)[route]
                            == slot && service_of(path@) == Some(route_name(route));
                    assert(self.routes@.contains(route));
                    let i = self.routes@.index_of(route);
                    lemma_slot(self.routes@, self.handles@, route_name(route), i);
                }
                Some(&self.handles[slot])
            },
            None => {
                proof {
                    if service_of(path@) is Some && self@.contains_key(service_of(path@)->0) {
                        let name = service_of(path@)->0;
                        let i = choose|i: int| slot_of(self.routes@, name, i);
                        assert(index_routes(self.inner).contains_key(self.routes@[i]));
                        assert(serves(index_routes(self.inner), name));
                    }
                }
                None
            },
        }
    }
}

impl<H> Default for SimpleRouter<H> {
    /// A router without routes.
    fn default() -> (router: Self)
        ensures
            router@ == Map::<Seq<char>, H>::empty(),
    {
        SimpleRouter::new()
    }
}

impl<H: Clone> Clone for SimpleRouter<H> {
    /// A router with the same names, each with a clone of its handler.
    fn clone(&self) -> (copy: Self)
        ensures
            copy@.dom() == self@.dom(),
            forall|name: Seq<char>| #[trigger]
                self@.contains_key(name) ==> cloned(self@[name], copy@[name]),
    {
        proof {
            use_type_invariant(self);
        }
        let handles = self.handles.clone();
        assert(table_of(self.routes@, handles@).dom() =~= self@.dom());
        let copy = SimpleRouter { inner: index_clone(&self.inner), handles, routes: Ghost(self.routes@) };
        proof {
            assert(copy@.dom() =~= self@.dom());
            assert forall|name: Seq<char>| #[trigger] self@.contains_key(name) implies cloned(
                self@[name],
                copy@[name],
            ) by {
                let i = choose|i: int| slot_of(self.routes@, name, i);
                lemma_slot(self.routes@, self.handles@, name, i);
                lemma_slot(self.routes@, copy.handles@, name, i);
            }
        }
        copy
    }
}

} // verus!
