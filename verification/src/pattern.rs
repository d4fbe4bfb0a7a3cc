//! The grammar of service routes and of the paths that they serve.
//!
//! A service is mounted under `/` *name* `/`, and its route ends in a
//! catch-all: `/` *name* `/*` *param*. A path is served by the service whose
//! name stands between its first two slashes, provided something follows
//! the second one. A name holds no `/`, and neither `:` nor `*`, which
//! would make a parameter of a part of it.

use vstd::prelude::*;

verus! {

/// A character that may stand in a service name: any but `/`, `:` and `*`.
pub open spec fn is_plain(c: char) -> bool {
    c != '/' && c != ':' && c != '*'
}

/// A text made of plain characters only. The empty text is a segment.
pub open spec fn is_segment(s: Seq<char>) -> bool {
    forall|i: int| 0 <= i < s.len() ==> is_plain(#[trigger] s[i])
}

/// The index of the first `/` in `s` at or behind `from`, or the length of
/// `s` where there is none.
pub open spec fn find_slash(s: Seq<char>, from: int) -> int
    decreases s.len() - from,
{
    if from < 0 || from >= s.len() {
        s.len() as int
    } else if s[from] == '/' {
        from
    } else {
        find_slash(s, from + 1)
    }
}

/// The route under which the service `name` is registered, with `param` as
/// the name of its catch-all.
pub open spec fn route_for(name: Seq<char>, param: Seq<char>) -> Seq<char> {
    seq!['/'] + name + seq!['/', '*'] + param
}

/// Whether `route` has the form `/` *name* `/*` *param*, with both parts
/// plain and the second not empty.
pub open spec fn is_service_route(route: Seq<char>) -> bool {
    let j: int = find_slash(route, 1);
    &&& route.len() > 0
    &&& route[0] == '/'
    &&& j + 2 < route.len()
    &&& route[j + 1] == '*'
    &&& is_segment(route.subrange(1, j))
    &&& is_segment(route.subrange(j + 2, route.len() as int))
}

/// The service name in a route: what stands between its first two slashes.
pub open spec fn route_name(route: Seq<char>) -> Seq<char> {
    route.subrange(1, find_slash(route, 1))
}

/// The name of the service that a path addresses: what stands between its
/// first two slashes, where the path starts with a slash and goes on behind
/// the second. Any other path addresses no service.
pub open spec fn service_of(path: Seq<char>) -> Option<Seq<char>> {
    if path.len() > 0 && path[0] == '/' && find_slash(path, 1) + 1 < path.len() {
        Some(path.subrange(1, find_slash(path, 1)))
    } else {
        None
    }
}

/// Where `find_slash` points: no slash before it, and a slash at it unless
/// it is the end of the text.
pub proof fn lemma_find_slash(s: Seq<char>, from: int)
    requires
        0 <= from <= s.len(),
    ensures
        from <= find_slash(s, from) <= s.len(),
        forall|k: int| from <= k < find_slash(s, from) ==> s[k] != '/',
        find_slash(s, from) < s.len() ==> s[find_slash(s, from)] == '/',
    decreases s.len() - from,
{
    if from < s.len() && s[from] != '/' {
        lemma_find_slash(s, from + 1);
    }
}

/// The first slash behind `from` is at `at` when there is one at `at` and
/// none before.
pub proof fn lemma_find_slash_at(s: Seq<char>, from: int, at: int)
    requires
        0 <= from <= at < s.len(),
        s[at] == '/',
        forall|k: int| from <= k < at ==> s[k] != '/',
    ensures
        find_slash(s, from) == at,
    decreases at - from,
{
    if from < at {
        lemma_find_slash_at(s, from + 1, at);
    }
}

/// A route built from a plain name and a plain, non-empty parameter is a
/// service route, and its name is the one it was built from.
pub proof fn lemma_route_for(name: Seq<char>, param: Seq<char>)
    requires
        is_segment(name),
        is_segment(param),
        param.len() > 0,
    ensures
        is_service_route(route_for(name, param)),
        route_name(route_for(name, param)) == name,
{
    let route = route_for(name, param);
    let j: int = name.len() as int + 1;
    assert(route[j] == '/');
    assert forall|k: int| 1 <= k < j implies route[k] != '/' by {
        assert(route[k] == name[k - 1]);
        assert(is_plain(name[k - 1]));
    }
    lemma_find_slash_at(route, 1, j);
    assert(route.subrange(1, j) =~= name);
    assert(route.subrange(j + 2, route.len() as int) =~= param);
}

/// Whether `path` lies under the mount point of the service `name`: it
/// is `/`, the name, `/`, and something more.
pub open spec fn mounted_under(name: Seq<char>, path: Seq<char>) -> bool {
    &&& path.len() > name.len() + 2
    &&& path[0] == '/'
    &&& path.subrange(1, name.len() as int + 1) == name
    &&& path[name.len() as int + 1] == '/'
}

/// A path addresses the service under whose mount point it lies, and no
/// other: for a name without a slash, `service_of` gives the name exactly
/// for the paths under its mount point.
pub proof fn lemma_service_of(name: Seq<char>, path: Seq<char>)
    requires
        forall|k: int| 0 <= k < name.len() ==> name[k] != '/',
    ensures
        service_of(path) == Some(name) <==> mounted_under(name, path),
{
    let j: int = name.len() as int + 1;
    if mounted_under(name, path) {
        assert forall|k: int| 1 <= k < j implies path[k] != '/' by {
            assert(path[k] == path.subrange(1, j)[k - 1]);
        }
        lemma_find_slash_at(path, 1, j);
    }
    if service_of(path) == Some(name) {
        lemma_find_slash(path, 1);
        assert(path.subrange(1, find_slash(path, 1)).len() == name.len());
    }
}

/// A path behind the mount point of a service addresses that service.
pub proof fn lemma_service_of_mounted(name: Seq<char>, rest: Seq<char>)
    requires
        is_segment(name),
        rest.len() > 0,
    ensures
        service_of(seq!['/'] + name + seq!['/'] + rest) == Some(name),
{
    let path = seq!['/'] + name + seq!['/'] + rest;
    assert forall|k: int| 0 <= k < name.len() implies name[k] != '/' by {
        assert(is_plain(name[k]));
    }
    assert(path.subrange(1, name.len() as int + 1) =~= name);
    lemma_service_of(name, path);
}

/// What a scan of `s` knows after its first `i` characters. `phase` counts
/// the parts behind it: nothing yet, the leading slash, the second slash,
/// the star. `slash` is the index of the second slash once it was seen.
spec fn scanned(s: Seq<char>, i: int, phase: u8, slash: int, some_param: bool) -> bool {
    &&& 0 <= i <= s.len()
    &&& phase <= 3
    &&& phase == 0 ==> i == 0
    &&& phase >= 1 ==> i >= 1 && s[0] == '/'
    &&& phase == 1 ==> forall|k: int| 1 <= k < i ==> is_plain(#[trigger] s[k])
    &&& phase >= 2 ==> {
        &&& 1 <= slash < i
        &&& s[slash] == '/'
        &&& forall|k: int| 1 <= k < slash ==> is_plain(#[trigger] s[k])
    }
    &&& phase == 2 ==> i == slash + 1
    &&& phase == 3 ==> {
        &&& slash + 2 <= i
        &&& s[slash + 1] == '*'
        &&& some_param == (slash + 2 < i)
        &&& forall|k: int| slash + 2 <= k < i ==> is_plain(#[trigger] s[k])
    }
}

/// A scan that has seen all of `s` and found no fault has found a service
/// route exactly when it is behind the star with a parameter in hand.
proof fn lemma_scan_done(s: Seq<char>, phase: u8, slash: int, some_param: bool)
    requires
        scanned(s, s.len() as int, phase, slash, some_param),
    ensures
        is_service_route(s) == (phase == 3 && some_param),
{
    if phase == 1 {
        lemma_find_slash(s, 1);
        let j = find_slash(s, 1);
        if j < s.len() {
            assert(is_plain(s[j]));
        }
    } else if phase >= 2 {
        assert forall|k: int| 1 <= k < slash implies s[k] != '/' by {
            assert(is_plain(s[k]));
        }
        lemma_find_slash_at(s, 1, slash);
        if phase == 3 && some_param {
            let name = s.subrange(1, slash);
            let param = s.subrange(slash + 2, s.len() as int);
            assert forall|k: int| 0 <= k < name.len() implies is_plain(#[trigger] name[k]) by {
                assert(name[k] == s[k + 1]);
            }
            assert forall|k: int| 0 <= k < param.len() implies is_plain(#[trigger] param[k]) by {
                assert(param[k] == s[k + slash + 2]);
            }
        }
    }
}

/// A scan that meets a character which cannot stand at its place has shown
/// that `s` is no service route.
proof fn lemma_scan_fault(s: Seq<char>, i: int, phase: u8, slash: int, some_param: bool)
    requires
        scanned(s, i, phase, slash, some_param),
        i < s.len(),
        phase == 0 ==> s[i] != '/',
        phase == 1 ==> s[i] == ':' || s[i] == '*',
        phase == 2 ==> s[i] != '*',
        phase == 3 ==> !is_plain(s[i]),
    ensures
        !is_service_route(s),
{
    if phase == 1 {
        lemma_find_slash(s, 1);
        let j = find_slash(s, 1);
        if j <= i {
            assert(is_plain(s[j]));
        }
        let name = s.subrange(1, j);
        assert(name[i - 1] == s[i]);
        assert(!is_plain(name[i - 1]));
    } else if phase >= 2 {
        assert forall|k: int| 1 <= k < slash implies s[k] != '/' by {
            assert(is_plain(s[k]));
        }
        lemma_find_slash_at(s, 1, slash);
        if phase == 3 {
            let param = s.subrange(slash + 2, s.len() as int);
            assert(param[i - slash - 2] == s[i]);
            assert(!is_plain(param[i - slash - 2]));
        }
    }
}

/// Whether `route` is a service route.
pub fn is_route(route: &str) -> (ok: bool)
    ensures
        ok == is_service_route(route@),
{
    let mut phase: u8 = 0;
    let mut some_param = false;
    let ghost mut slash: int = 0;
    for c in it: route.chars()
        invariant
            it.seq() == route@,
            scanned(route@, it.index() as int, phase, slash, some_param),
    {
        let ghost i = it.index() as int;
        assert(route@[i] == c);
        if phase == 0 {
            if c != '/' {
                proof {
                    lemma_scan_fault(route@, i, phase, slash, some_param);
                }
                return false;
            }
            phase = 1;
        } else if phase == 1 {
            if c == '/' {
                proof {
                    slash = i;
                }
                phase = 2;
            } else if c == ':' || c == '*' {
                proof {
                    lemma_scan_fault(route@, i, phase, slash, some_param);
                }
                return false;
            }
        } else if phase == 2 {
            if c != '*' {
                proof {
                    lemma_scan_fault(route@, i, phase, slash, some_param);
                }
                return false;
            }
            phase = 3;
            some_param = false;
        } else {
            if c == '/' || c == ':' || c == '*' {
                proof {
                    lemma_scan_fault(route@, i, phase, slash, some_param);
                }
                return false;
            }
            some_param = true;
        }
    }
    proof {
        lemma_scan_done(route@, phase, slash, some_param);
    }
    phase == 3 && some_param
}

/// The route under which the service `name` is registered: `/`, the name,
/// and `/*rest`.
pub fn service_route(name: &str) -> (route: String)
    ensures
        route@ == route_for(name@, "rest"@),
{
    proof {
        reveal_strlit("/");
        reveal_strlit("/*");
        reveal_strlit("rest");
    }
    let mut route = String::from_str("/");
    route.append(name);
    route.append("/*");
    route.append("rest");
    assert(route@ =~= route_for(name@, "rest"@));
    route
}

/// Whether `name` can be the name of a service.
pub fn is_service_name(name: &str) -> (ok: bool)
    ensures
        ok == is_segment(name@),
{
    let mut ok = true;
    for c in it: name.chars()
        invariant
            it.seq() == name@,
            ok == is_segment(name@.take(it.index() as int)),
    {
        proof {
            let i = it.index() as int;
            let before = name@.take(i);
            let upto = name@.take(i + 1);
            assert(upto[i] == c);
            if is_segment(upto) {
                assert forall|k: int| 0 <= k < before.len() implies is_plain(#[trigger] before[k]) by {
                    assert(before[k] == upto[k]);
                }
            }
            if is_segment(before) && is_plain(c) {
                assert forall|k: int| 0 <= k < upto.len() implies is_plain(#[trigger] upto[k]) by {
                    if k < i {
                        assert(upto[k] == before[k]);
                    }
                }
            }
        }
        if c == '/' || c == ':' || c == '*' {
            ok = false;
        }
    }
    assert(name@.take(name@.len() as int) =~= name@);
    ok
}

} // verus!
