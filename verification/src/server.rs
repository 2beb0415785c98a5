//! The decisions of the proxy: what it does with each request of a client.

use crate::codec::{ReplyHeader, Request, RequestPacket, ResponsePacket, ZkResponse};
use crate::model::{SpecRequest, SpecRequestPacket};
use vstd::prelude::*;

verus! {

/// The proxy. Its connections live outside this library.
pub struct ZkServer {}

impl ZkServer {
    pub fn new() -> (s: ZkServer)
        ensures
            s == (ZkServer {  }),
    {
        ZkServer {  }
    }
}

/// The error code with which the proxy answers a request to list the
/// children of the root.
pub open spec fn root_listing_err() -> i32 {
    -102i32
}

/// Whether a request asks for the children of the root node.
pub open spec fn lists_root(p: SpecRequestPacket) -> bool {
    p.request matches SpecRequest::GetChildren(q) && q.path == seq!['/']
}

/// What the proxy does with a request of a client: pass it on to the server,
/// or answer it itself.
#[derive(Debug)]
pub enum Route {
    Forward(RequestPacket),
    Answer(ResponsePacket),
}

/// Decides what to do with a request of a client. A request to list the
/// children of the root is answered at once with an empty reply carrying
/// the request's transaction id, zxid 0 and error `root_listing_err()`;
/// every other request is passed on unchanged.
pub fn route_request(r: RequestPacket) -> (route: Route)
    requires
        lists_root(r@) ==> r.request_header is Some,
    ensures
        lists_root(r@) ==> route == Route::Answer(
            ResponsePacket {
                response_header: Some(
                    ReplyHeader { xid: r.request_header->0.xid, zxid: 0, err: root_listing_err() },
                ),
                response: ZkResponse::Ping,
            },
        ),
        !lists_root(r@) ==> route == Route::Forward(r),
        lists_root(r@) ==> (route matches Route::Answer(p) && p.response_header matches Some(h)
            && h.err == -102i32),
{
    let xid = match &r.request_header {
        Some(h) => Some(h.xid),
        None => None,
    };
    if let Request::GetChildren(req) = &r.request {
        let root = "/".to_string();
        proof {
            broadcast use vstd::string::group_string_axioms;
            reveal_strlit("/");
            assert("/"@ =~= seq!['/']);
        }
        if req.path == root {
            let xid = match xid {
                Some(x) => x,
                None => 0,
            };
            return Route::Answer(
                ResponsePacket {
                    response_header: Some(ReplyHeader { xid, zxid: 0, err: -102 }),
                    response: ZkResponse::Ping,
                },
            );
        }
    }
    Route::Forward(r)
}

} // verus!
