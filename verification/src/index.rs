//! The route index: a radix tree of the `matchit` crate that maps each
//! registered route to the slot of its handler.
//!
//! Nothing in this file is proved. Each item states what the router of
//! `matchit` does with service routes, the only routes this library hands
//! to it.

use vstd::prelude::*;
use crate::pattern::{is_service_route, route_name, service_of};

verus! {

/// `matchit::Router`, the radix tree. Nothing of its inside is known
/// here.
#[verifier::external_type_specification]
#[verifier::external_body]
#[verifier::reject_recursive_types(T)]
pub struct ExRouter<T>(matchit::Router<T>);

/// `matchit::InsertError`, why a router turned a route down.
#[verifier::external_type_specification]
#[verifier::external_body]
pub struct ExInsertError(matchit::InsertError);

/// The routes that an index holds, each with the value stored under it.
pub uninterp spec fn index_routes(index: matchit::Router<usize>) -> Map<Seq<char>, usize>;

/// The number of insertions that an index has been asked for.
pub uninterp spec fn index_inserts(index: matchit::Router<usize>) -> nat;

/// An index without routes.
pub open spec fn no_routes() -> Map<Seq<char>, usize> {
    Map::empty()
}

/// Whether every route in `routes` is a service route.
pub open spec fn only_service_routes(routes: Map<Seq<char>, usize>) -> bool {
    forall|route: Seq<char>| #[trigger] routes.contains_key(route) ==> is_service_route(route)
}

/// Whether `routes` holds a route of the service `name`.
pub open spec fn serves(routes: Map<Seq<char>, usize>, name: Seq<char>) -> bool {
    exists|route: Seq<char>| #[trigger] routes.contains_key(route) && route_name(route) == name
}

/// Whether `routes` holds `value` under a route of the service that `path`
/// addresses.
pub open spec fn serves_path(routes: Map<Seq<char>, usize>, path: Seq<char>, value: usize) -> bool {
    exists|route: Seq<char>|
        #[trigger] routes.contains_key(route) && routes[route] == value && service_of(path) == Some(
            route_name(route),
        )
}

/// `matchit::Router::new`: the new router holds no route, and nothing has
/// been inserted into it.
#[verifier::external_body]
pub(crate) fn index_new() -> (index: matchit::Router<usize>)
    ensures
        index_routes(index) == no_routes(),
        index_inserts(index) == 0,
{
    matchit::Router::new()
}

/// `matchit::Router::insert`, for a service route of a service that the
/// router holds no route of, and a router that holds service routes
/// only. Such a route has no parameter but its catch-all at the end, so
/// the router finds no fault with its form; and it conflicts with no
/// route of another service, so the router takes it. The router counts
/// the insertions that pass through each node in 32 bits, so the call is
/// made only below that limit.
#[verifier::external_body]
pub(crate) fn index_insert(index: &mut matchit::Router<usize>, route: &str, value: usize) -> (r:
    Result<(), matchit::InsertError>)
    requires
        is_service_route(route@),
        only_service_routes(index_routes(*old(index))),
        !serves(index_routes(*old(index)), route_name(route@)),
        index_inserts(*old(index)) < u32::MAX,
    ensures
        r is Ok,
        index_inserts(*final(index)) == index_inserts(*old(index)) + 1,
        index_routes(*final(index)) == index_routes(*old(index)).insert(route@, value),
{
    index.insert(route, value)
}

/// `matchit::Router::at`, for a router that holds service routes only. A
/// catch-all matches whatever follows its slash, and nothing where
/// nothing follows; what stands before it is matched byte for byte. No
/// two service routes match the same path, so the router finds the
/// value of the service that the path addresses, and fails where it
/// holds no route of that service. Every failure of the router is
/// `None` here.
#[verifier::external_body]
pub(crate) fn index_at(index: &matchit::Router<usize>, path: &str) -> (r: Option<usize>)
    requires
        only_service_routes(index_routes(*index)),
    ensures
        r matches Some(value) ==> serves_path(index_routes(*index), path@, value),
        r is None ==> forall|name: Seq<char>|
            service_of(path@) == Some(name) ==> !serves(index_routes(*index), name),
{
    match index.at(path) {
        Ok(found) => Some(*found.value),
        Err(_) => None,
    }
}

/// `Clone::clone` of `matchit::Router`: the copy holds the same routes and
/// values, and the same count of insertions.
#[verifier::external_body]
pub(crate) fn index_clone(index: &matchit::Router<usize>) -> (copy: matchit::Router<usize>)
    ensures
        index_routes(copy) == index_routes(*index),
        index_inserts(copy) == index_inserts(*index),
{
    index.clone()
}

} // verus!
