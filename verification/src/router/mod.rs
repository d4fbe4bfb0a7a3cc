//! Routing of calls to service handlers by path.

pub mod axum;
pub mod simple;

use vstd::prelude::*;
use crate::body::{
    chunk_step, trailers_step, ChunkPoll, DataEvent, StreamingBody, TrailerEvent, TrailersPoll,
};
use crate::chunk::Chunk;
use crate::pattern::{
    is_segment, is_service_name, lemma_route_for, lemma_service_of_mounted, service_of, service_route,
};
use crate::router::axum::{dispatched, poll_step, Poll, RoutesFuture};
use crate::router::simple::SimpleRouter;
use crate::service::{
    lemma_status_answer, lemma_unimplemented_code, Response, ServiceHandle, HTTP_OK,
};
use crate::status::{Status, UNIMPLEMENTED};

verus! {

/// Why a route was not registered.
#[derive(Clone, Copy, Debug, PartialEq, Eq, Structural)]
pub enum RegistrationError {
    /// A route of the same service is registered already.
    Duplicate,
    /// The text is no service route, or the name no service name.
    Malformed,
}

/// The handler that a table of routes holds for the service which `path`
/// addresses, if it holds one.
pub open spec fn resolve<H>(table: Map<Seq<char>, H>, path: Seq<char>) -> Option<H> {
    match service_of(path) {
        Some(name) => if table.contains_key(name) {
            Some(table[name])
        } else {
            None
        },
        None => None,
    }
}

/// The services of a server, each under its name.
pub struct Routes<C> {
    router: SimpleRouter<ServiceHandle<C>>,
}

impl<C> Routes<C> {
    #[verifier::type_invariant]
    spec fn named(&self) -> bool {
        forall|name: Seq<char>| #[trigger]
            self.router@.contains_key(name) ==> self.router@[name].spec_name() == name
    }

    /// The table: each registered service name with its handle.
    pub closed spec fn view(&self) -> Map<Seq<char>, ServiceHandle<C>> {
        self.router@
    }

    /// The number of registered services.
    pub fn len(&self) -> (n: usize)
        ensures
            self@.dom().finite(),
            n == self@.len(),
            n <= u32::MAX,
    {
        self.router.len()
    }

    /// Routes with `svc` as their one service, where its name can be a
    /// service name.
    pub fn new(svc: ServiceHandle<C>) -> (r: Result<Self, RegistrationError>)
        ensures
            match r {
                Ok(routes) => {
                    &&& is_segment(svc.spec_name())
                    &&& routes@ == Map::<Seq<char>, ServiceHandle<C>>::empty().insert(svc.spec_name(), svc)
                },
                Err(error) => error == RegistrationError::Malformed && !is_segment(svc.spec_name()),
            },
    {
        let mut routes = Routes { router: SimpleRouter::new() };
        match routes.add_service(svc) {
            Ok(_) => Ok(routes),
            Err(error) => Err(error),
        }
    }

    /// Registers `svc` under its name. The name must be free of `/`,
    /// `:` and `*`, and no service of that name may be registered yet;
    /// otherwise nothing changes and the error says which of the two
    /// failed. Routes take fewer services than 32 bits count.
    pub fn add_service(&mut self, svc: ServiceHandle<C>) -> (r: Result<(), RegistrationError>)
        requires
            old(self)@.len() < u32::MAX,
        ensures
            match r {
                Ok(_) => {
                    &&& is_segment(svc.spec_name())
                    &&& !old(self)@.contains_key(svc.spec_name())
                    &&& final(self)@ == old(self)@.insert(svc.spec_name(), svc)
                },
                Err(RegistrationError::Malformed) => {
                    &&& !is_segment(svc.spec_name())
                    &&& final(self)@ == old(self)@
                },
                Err(RegistrationError::Duplicate) => {
                    &&& is_segment(svc.spec_name())
                    &&& old(self)@.contains_key(svc.spec_name())
                    &&& final(self)@ == old(self)@
                },
            },
    {
        proof {
            use_type_invariant(&*self);
        }
        if !is_service_name(svc.name()) {
            return Err(RegistrationError::Malformed);
        }
        let route = service_route(svc.name());
        proof {
            reveal_strlit("rest");
            lemma_route_for(svc.spec_name(), "rest"@);
        }
        let mut taken = Routes { router: SimpleRouter::new() };
        core::mem::swap(self, &mut taken);
        let Routes { router } = taken;
        let mut router = router;
        let r = router.route_service(route.as_str(), svc);
        *self = Routes { router };
        r
    }

    /// Whether a call can be taken. It always can.
    pub fn poll_ready(&self) -> (ready: Poll<()>)
        ensures
            ready is Ready,
    {
        Poll::Ready(())
    }

    /// The handle of the service that `path` addresses.
    pub fn lookup(&self, path: &str) -> (found: Option<&ServiceHandle<C>>)
        ensures
            match found {
                Some(handle) => resolve(self@, path@) == Some(*handle) && service_of(path@) == Some(
                    handle.spec_name(),
                ),
                None => resolve(self@, path@) is None,
            },
    {
        proof {
            use_type_invariant(self);
        }
        self.router.lookup(path)
    }

    /// Takes a call to `path`: with a clone of the handle of the service
    /// that the path addresses, or with the fallback where there is no
    /// such service. The routes stay as they are.
    pub fn call(&self, path: &str) -> (future: RoutesFuture<ServiceHandle<C>>) where C: Clone
        ensures
            dispatched(self@, path@, future),
            future matches RoutesFuture::Forward(copy) ==> service_of(path@) == Some(copy.spec_name()),
    {
        match self.lookup(path) {
            Some(handle) => RoutesFuture::Forward(handle.clone()),
            None => {
                let status = Status::unimplemented();
                assert(status.spec_message() =~= Seq::empty());
                RoutesFuture::Fallback(status)
            },
        }
    }
}

impl<C: Clone> Clone for Routes<C> {
    /// Routes with the same names, each with a second handle of its
    /// service.
    fn clone(&self) -> (copy: Self)
        ensures
            copy@.dom() == self@.dom(),
            forall|name: Seq<char>| #[trigger]
                self@.contains_key(name) ==> cloned(self@[name], copy@[name]),
    {
        proof {
            use_type_invariant(self);
        }
        let router = self.router.clone();
        assert forall|name: Seq<char>| #[trigger] router@.contains_key(name) implies router@[name].spec_name()
            == name by {
            assert(self.router@.contains_key(name));
            assert(cloned(self.router@[name], router@[name]));
        }
        Routes { router }
    }
}

impl<C> Default for Routes<C> {
    /// Routes without services.
    fn default() -> (routes: Self)
        ensures
            routes@ == Map::<Seq<char>, ServiceHandle<C>>::empty(),
    {
        Routes { router: SimpleRouter::new() }
    }
}

/// Collects services one by one and hands the routes over at the end.
pub struct RoutesBuilder<C> {
    routes: Option<Routes<C>>,
}

impl<C> RoutesBuilder<C> {
    /// The table collected so far.
    pub closed spec fn view(&self) -> Map<Seq<char>, ServiceHandle<C>> {
        match self.routes {
            Some(routes) => routes@,
            None => Map::empty(),
        }
    }

    /// The number of services collected so far.
    pub fn len(&self) -> (n: usize)
        ensures
            self@.dom().finite(),
            n == self@.len(),
            n <= u32::MAX,
    {
        match &self.routes {
            Some(routes) => routes.len(),
            None => 0,
        }
    }

    /// Registers `svc` under its name, as `Routes::add_service` does.
    pub fn add_service(&mut self, svc: ServiceHandle<C>) -> (r: Result<(), RegistrationError>)
        requires
            old(self)@.len() < u32::MAX,
        ensures
            match r {
                Ok(_) => {
                    &&& is_segment(svc.spec_name())
                    &&& !old(self)@.contains_key(svc.spec_name())
                    &&& final(self)@ == old(self)@.insert(svc.spec_name(), svc)
                },
                Err(RegistrationError::Malformed) => {
                    &&& !is_segment(svc.spec_name())
                    &&& final(self)@ == old(self)@
                },
                Err(RegistrationError::Duplicate) => {
                    &&& is_segment(svc.spec_name())
                    &&& old(self)@.contains_key(svc.spec_name())
                    &&& final(self)@ == old(self)@
                },
            },
    {
        let mut routes = match self.routes.take() {
            Some(routes) => routes,
            None => Routes::default(),
        };
        let r = routes.add_service(svc);
        self.routes = Some(routes);
        r
    }

    /// The routes with the services added, or routes without services
    /// where none was added.
    pub fn routes(self) -> (routes: Routes<C>)
        ensures
            routes@ == self@,
    {
        match self.routes {
            Some(routes) => routes,
            None => Routes::default(),
        }
    }
}

impl<C: Clone> Clone for RoutesBuilder<C> {
    /// A builder that holds second handles of the same services.
    fn clone(&self) -> (copy: Self)
        ensures
            copy@.dom() == self@.dom(),
            forall|name: Seq<char>| #[trigger]
                self@.contains_key(name) ==> cloned(self@[name], copy@[name]),
    {
        match &self.routes {
            Some(routes) => RoutesBuilder { routes: Some(routes.clone()) },
            None => RoutesBuilder { routes: None },
        }
    }
}

impl<C> Default for RoutesBuilder<C> {
    /// A builder that holds no service yet.
    fn default() -> (builder: Self)
        ensures
            builder@ == Map::<Seq<char>, ServiceHandle<C>>::empty(),
    {
        RoutesBuilder { routes: None }
    }
}

/// The table that stands after `entries`, each a service name with its
/// handler, were registered one after the other.
pub open spec fn table_after<H>(entries: Seq<(Seq<char>, H)>) -> Map<Seq<char>, H>
    decreases entries.len(),
{
    if entries.len() == 0 {
        Map::empty()
    } else {
        table_after(entries.drop_last()).insert(entries.last().0, entries.last().1)
    }
}

/// No two of `entries` have the same name.
pub open spec fn distinct_entries<H>(entries: Seq<(Seq<char>, H)>) -> bool {
    forall|i: int, j: int|
        0 <= i < j < entries.len() ==> (#[trigger] entries[i]).0 != (#[trigger] entries[j]).0
}

/// The table after a registration of entries with distinct names holds
/// each name with its own handler, and no other name.
pub proof fn lemma_table_after<H>(entries: Seq<(Seq<char>, H)>)
    requires
        distinct_entries(entries),
    ensures
        forall|i: int|
            0 <= i < entries.len() ==> table_after(entries).contains_key((#[trigger] entries[i]).0)
                && table_after(entries)[entries[i].0] == entries[i].1,
        forall|name: Seq<char>| #[trigger]
            table_after(entries).contains_key(name) ==> exists|i: int|
                0 <= i < entries.len() && (#[trigger] entries[i]).0 == name,
    decreases entries.len(),
{
    if entries.len() > 0 {
        let before = entries.drop_last();
        let n = entries.len() as int - 1;
        assert(forall|i: int| 0 <= i < n ==> before[i] == entries[i]);
        lemma_table_after(before);
        assert(entries.last() == entries[n]);
        assert(table_after(entries) == table_after(before).insert(entries[n].0, entries[n].1));
        assert forall|i: int| 0 <= i < entries.len() implies table_after(entries).contains_key(
            (#[trigger] entries[i]).0,
        ) && table_after(entries)[entries[i].0] == entries[i].1 by {
            if i < n {
                assert(before[i] == entries[i]);
                assert(entries[i].0 != entries[n].0);
            }
        }
        assert forall|name: Seq<char>| #[trigger] table_after(entries).contains_key(name) implies exists|
            i: int,
        |
            0 <= i < entries.len() && (#[trigger] entries[i]).0 == name by {
            if name == entries[n].0 {
                assert(entries[n].0 == name);
            } else {
                assert(table_after(before).contains_key(name));
                let i = choose|i: int| 0 <= i < before.len() && (#[trigger] before[i]).0 == name;
                assert(entries[i].0 == name);
            }
        }
    }
}

/// A call goes to the handler registered under the name that its path
/// addresses, whatever else is registered: with distinct names, a path
/// that addresses the name of an entry resolves to the handler of that
/// entry.
pub proof fn lemma_exact_dispatch<H>(entries: Seq<(Seq<char>, H)>, i: int, path: Seq<char>)
    requires
        distinct_entries(entries),
        0 <= i < entries.len(),
        service_of(path) == Some(entries[i].0),
    ensures
        resolve(table_after(entries), path) == Some(entries[i].1),
{
    lemma_table_after(entries);
}

/// A call to a path under the mount point of a registered service goes
/// to the handler of that service, whatever else is registered.
pub proof fn lemma_dispatch_under_route<H>(entries: Seq<(Seq<char>, H)>, i: int, rest: Seq<char>)
    requires
        distinct_entries(entries),
        0 <= i < entries.len(),
        is_segment(entries[i].0),
        rest.len() > 0,
    ensures
        resolve(table_after(entries), seq!['/'] + entries[i].0 + seq!['/'] + rest) == Some(entries[i].1),
{
    lemma_service_of_mounted(entries[i].0, rest);
    lemma_exact_dispatch(entries, i, seq!['/'] + entries[i].0 + seq!['/'] + rest);
}

/// The order of registration plays no part: two registrations of the
/// same entries, with distinct names, build the same table.
pub proof fn lemma_order_is_irrelevant<H>(first: Seq<(Seq<char>, H)>, second: Seq<(Seq<char>, H)>)
    requires
        distinct_entries(first),
        distinct_entries(second),
        forall|i: int| 0 <= i < first.len() ==> second.contains(#[trigger] first[i]),
        forall|j: int| 0 <= j < second.len() ==> first.contains(#[trigger] second[j]),
    ensures
        table_after(first) == table_after(second),
{
    lemma_table_after(first);
    lemma_table_after(second);
    let a = table_after(first);
    let b = table_after(second);
    assert forall|name: Seq<char>| a.contains_key(name) implies b.contains_key(name) && a[name] == b[name] by {
        let i = choose|i: int| 0 <= i < first.len() && (#[trigger] first[i]).0 == name;
        assert(second.contains(first[i]));
        let j = second.index_of(first[i]);
        assert(second[j].0 == name);
    }
    assert forall|name: Seq<char>| b.contains_key(name) implies a.contains_key(name) by {
        let j = choose|j: int| 0 <= j < second.len() && (#[trigger] second[j]).0 == name;
        assert(first.contains(second[j]));
        let i = first.index_of(second[j]);
        assert(first[i].0 == name);
    }
    assert(a =~= b);
}

/// A call that addresses no registered service reaches no handler and is
/// answered as unimplemented: the call holds no handle, its first poll
/// gives the response whatever the handler side says, the body of the
/// response ends without a chunk, and its trailers are the status code
/// 12 under `grpc-status` and nothing else.
pub proof fn lemma_unrouted_call<H: Clone, B, D: Chunk, E>(
    table: Map<Seq<char>, H>,
    path: Seq<char>,
    future: RoutesFuture<H>,
    inner: Poll<Response<B>>,
    polled: RoutesFuture<H>,
    answer: Poll<Response<StreamingBody<B>>>,
    event: DataEvent<D, E>,
    ended: StreamingBody<B>,
    first: ChunkPoll<D, E>,
    trailer_event: TrailerEvent<E>,
    done: StreamingBody<B>,
    second: TrailersPoll<E>,
)
    requires
        resolve(table, path) is None,
        dispatched(table, path, future),
        poll_step(future, inner, polled, answer),
        answer matches Poll::Ready(response) ==> chunk_step(response.body, event, ended, first)
            && trailers_step(ended, trailer_event, done, second),
    ensures
        future is Fallback,
        polled is Done,
        answer matches Poll::Ready(response) && response.status == HTTP_OK,
        first is EndOfData,
        second matches TrailersPoll::Ready(Some(trailers)) && trailers@ == seq![("grpc-status"@, "12"@)],
{
    lemma_unimplemented_code();
    let response = answer->Ready_0;
    lemma_status_answer(response, UNIMPLEMENTED, Seq::empty(), event, ended, first, trailer_event, done, second);
}

/// What each of `paths` resolves to over `table`.
pub open spec fn resolve_each<H>(table: Map<Seq<char>, H>, paths: Seq<Seq<char>>) -> Seq<Option<H>> {
    Seq::new(paths.len(), |i: int| resolve(table, paths[i]))
}

/// The paths of calls in the order in which they are made: the call
/// made as the `k`-th is the one to `paths[order[k]]`.
pub open spec fn reordered(paths: Seq<Seq<char>>, order: Seq<int>) -> Seq<Seq<char>> {
    Seq::new(order.len(), |k: int| paths[order[k]])
}

/// Calls do not disturb each other. What a call resolves to is fixed by
/// the table and its own path, so calls made in any order each resolve
/// as they would alone.
pub proof fn lemma_calls_are_independent<H>(table: Map<Seq<char>, H>, paths: Seq<Seq<char>>, order: Seq<int>)
    requires
        order.len() == paths.len(),
        forall|k: int| 0 <= k < order.len() ==> 0 <= #[trigger] order[k] < paths.len(),
    ensures
        forall|k: int|
            0 <= k < order.len() ==> #[trigger] resolve_each(table, reordered(paths, order))[k]
                == resolve_each(table, paths)[order[k]],
{
}

} // verus!
