//! Route matching.
//!
//! The handler serves exactly one route: `GET /users/{user_id}`. A present,
//! non-empty user id is dispatched to feed assembly; an empty or absent id
//! (`/users/` or `/users`) is a client error; every other method or path is
//! left to the platform's default handling.

use vstd::prelude::*;

verus! {

/// What the router decides for one request.
pub ghost enum RouteModel {
    /// Assemble the feed of this user id.
    Feed(Seq<char>),
    /// The user id segment is empty or absent.
    BadRequest,
    /// No route matches; the platform answers.
    NoMatch,
}

/// The routing decision for a method and a path: `GET /users/{user_id}`
/// with a non-empty, slash-free id is a feed request; `GET /users/` and
/// `GET /users` lack the id; everything else is unmatched.
pub open spec fn route_spec(method: Seq<char>, path: Seq<char>) -> RouteModel {
    if method != "GET"@ {
        RouteModel::NoMatch
    } else if path.len() >= 7 && path.subrange(0, 7) == "/users/"@ {
        let uid = path.subrange(7, path.len() as int);
        if uid.len() == 0 {
            RouteModel::BadRequest
        } else if forall|j: int| 0 <= j < uid.len() ==> uid[j] != '/' {
            RouteModel::Feed(uid)
        } else {
            RouteModel::NoMatch
        }
    } else if path == "/users"@ {
        RouteModel::BadRequest
    } else {
        RouteModel::NoMatch
    }
}

/// Any non-empty, slash-free user id placed after `/users/` routes to its
/// own feed.
pub proof fn lemma_users_path_routes_to_feed(uid: Seq<char>)
    requires
        uid.len() > 0,
        forall|j: int| 0 <= j < uid.len() ==> uid[j] != '/',
    ensures
        route_spec("GET"@, "/users/"@ + uid) == RouteModel::Feed(uid),
{
    reveal_strlit("/users/");
    let path = "/users/"@ + uid;
    assert(path.subrange(0, 7) =~= "/users/"@);
    assert(path.subrange(7, path.len() as int) =~= uid);
}

/// An empty or absent user id segment is a client error, never a feed
/// request.
pub proof fn lemma_empty_user_is_bad_request()
    ensures
        route_spec("GET"@, "/users/"@) == RouteModel::BadRequest,
        route_spec("GET"@, "/users"@) == RouteModel::BadRequest,
{
    reveal_strlit("/users/");
    reveal_strlit("/users");
    assert("/users/"@.subrange(0, 7) =~= "/users/"@);
    assert("/users/"@.subrange(7, 7) =~= Seq::<char>::empty());
    assert("/users"@.len() == 6);
}

} // verus!
