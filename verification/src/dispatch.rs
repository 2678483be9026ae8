//! The dispatch engine's decision core: classifying inbound requests,
//! authenticating gRPC traffic by bearer token, and the per-connection
//! state machine that establishes the upstream channel lazily and reuses
//! it afterwards.  The channels, tasks and sockets themselves are I/O and
//! live with the embedding program, which performs the decided action.

use vstd::prelude::*;
use vstd::string::StrSliceExecFns;
use vstd::string::StringExecFns;

use crate::auth::parse_bearer;
use crate::auth::spec_bearer;
use crate::store::has_token;
use crate::store::SessionStore;
use crate::strutil::str_eq;

verus! {

/// The status returned on a gRPC request whose `Authorization` header is
/// missing or malformed.
pub const STATUS_BAD_REQUEST: u16 = 400;

/// The status returned on a gRPC request whose token is unknown or whose
/// session has no backend address yet.
pub const STATUS_NOT_FOUND: u16 = 404;

/// The gRPC service path prefix that routes to the upstream proxy.
pub open spec fn spec_grpc_prefix() -> Seq<char> {
    "/spark.connect.SparkConnectService"@
}

/// The path routes to the upstream proxy rather than the REST control
/// plane.
pub open spec fn spec_is_grpc_path(p: Seq<char>) -> bool {
    p.len() >= spec_grpc_prefix().len() && p.subrange(0, spec_grpc_prefix().len() as int)
        == spec_grpc_prefix()
}

/// Classifies a request path: gRPC passthrough or REST control plane.
pub fn is_grpc_path(path: &str) -> (r: bool)
    ensures
        r == spec_is_grpc_path(path@),
{
    let prefix = "/spark.connect.SparkConnectService";
    let plen = prefix.unicode_len();
    let n = path.unicode_len();
    if n < plen {
        return false;
    }
    let head = path.substring_char(0, plen);
    str_eq(head, prefix)
}

/// The dispatch state of one inbound connection: the backend address of
/// its upstream channel, once one has been established.
pub struct ConnState {
    pub upstream_addr: Option<String>,
}

impl ConnState {
    /// The state of a fresh inbound connection: no upstream yet.
    pub fn new() -> (r: Self)
        ensures
            r.upstream_addr is None,
    {
        ConnState { upstream_addr: Option::None }
    }
}

/// What the connection must do with one gRPC request.
pub enum GrpcDecision {
    /// Answer immediately with this HTTP status; the upstream slot is
    /// untouched.
    Reject(u16),
    /// Spawn a pump task bound to this backend address, then enqueue the
    /// request on it.
    Connect(String),
    /// Enqueue the request on the already-established upstream.
    Forward,
}

/// Decides one gRPC request against the connection state and the session
/// store: an established upstream is reused; otherwise the bearer token is
/// resolved to a backend address, rejecting with 400 on a missing or
/// malformed header and with 404 on an unknown token or a session whose
/// backend has not called back yet.  The slot is filled exactly when the
/// decision is to connect.
pub fn dispatch_step<S: SessionStore>(
    state: &mut ConnState,
    store: &S,
    auth_header: Option<&str>,
) -> (d: GrpcDecision)
    ensures
        old(state).upstream_addr is Some ==> d == GrpcDecision::Forward && *final(state) == *old(
            state,
        ),
        old(state).upstream_addr is None ==> match auth_header {
            Option::None => d == (GrpcDecision::Reject(STATUS_BAD_REQUEST)) && *final(state)
                == *old(state),
            Option::Some(h) => match spec_bearer(h@) {
                Option::None => d == (GrpcDecision::Reject(STATUS_BAD_REQUEST)) && *final(state)
                    == *old(state),
                Option::Some(tok) => {
                    &&& !has_token(store.rows(), tok) ==> d == (GrpcDecision::Reject(
                        STATUS_NOT_FOUND,
                    )) && *final(state) == *old(state)
                    &&& has_token(store.rows(), tok) ==> exists|i: int|
                        0 <= i < store.rows().len() && (#[trigger] store.rows()[i]).1.token == tok
                            && (forall|j: int| 0 <= j < i ==> store.rows()[j].1.token != tok) && (
                        match store.rows()[i].1.addr {
                            Option::None => d == (GrpcDecision::Reject(STATUS_NOT_FOUND))
                                && *final(state) == *old(state),
                            Option::Some(a) => (d matches GrpcDecision::Connect(c) && c@ == a) && (
                            final(state).upstream_addr matches Option::Some(u) && u@ == a),
                        })
                },
            },
        },
{
    match &state.upstream_addr {
        Option::Some(_) => {
            return GrpcDecision::Forward;
        },
        Option::None => {},
    }
    let h = match auth_header {
        Option::None => {
            return GrpcDecision::Reject(STATUS_BAD_REQUEST);
        },
        Option::Some(h) => h,
    };
    let token = match parse_bearer(h) {
        Option::None => {
            return GrpcDecision::Reject(STATUS_BAD_REQUEST);
        },
        Option::Some(t) => t,
    };
    match store.get_session_by_token(token.as_str()) {
        Option::None => GrpcDecision::Reject(STATUS_NOT_FOUND),
        Option::Some(session) => match session.addr {
            Option::None => GrpcDecision::Reject(STATUS_NOT_FOUND),
            Option::Some(a) => {
                state.upstream_addr = Option::Some(a.clone());
                GrpcDecision::Connect(a)
            },
        },
    }
}

/// The request target submitted upstream: scheme `http`, the backend
/// address as authority, and the inbound request's path and query,
/// defaulting to `/` when absent.
pub open spec fn spec_upstream_target(addr: Seq<char>, pq: Option<Seq<char>>) -> Seq<char> {
    "http://"@ + addr + (match pq {
        Option::Some(p) => p,
        Option::None => "/"@,
    })
}

/// Rewrites a request target for the backend at `addr`.
pub fn upstream_target(addr: &str, path_and_query: Option<&str>) -> (r: String)
    ensures
        r@ == spec_upstream_target(
            addr@,
            match path_and_query {
                Option::Some(p) => Option::Some(p@),
                Option::None => Option::None,
            },
        ),
{
    let mut s = String::from_str("http://");
    s.append(addr);
    match path_and_query {
        Option::Some(p) => s.append(p),
        Option::None => s.append("/"),
    }
    s
}

} // verus!
