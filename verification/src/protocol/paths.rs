//! Locating the server from the environment.

use vstd::prelude::*;

verus! {

/// The prefix of a server address that names a local socket.
pub open spec fn unix_prefix() -> Seq<u8> {
    seq![117u8, 110u8, 105u8, 120u8, 58u8]
}

/// The socket path that a server address names: what follows `unix:`, or
/// `None` for an address of another kind, such as a remote server.
pub fn unix_socket_path(server: &[u8]) -> (r: Option<Vec<u8>>)
    ensures
        (server@.len() >= 5 && server@.subrange(0, 5) == unix_prefix()) ==> (r matches Some(p)
            && p@ == server@.skip(5)),
        !(server@.len() >= 5 && server@.subrange(0, 5) == unix_prefix()) ==> r is None,
{
    if server.len() >= 5 && server[0] == 117 && server[1] == 110 && server[2] == 105 && server[3]
        == 120 && server[4] == 58 {
        let p = vstd::slice::slice_to_vec(vstd::slice::slice_subrange(server, 5, server.len()));
        assert(server@.subrange(0, 5) =~= unix_prefix());
        assert(p@ =~= server@.skip(5));
        Some(p)
    } else {
        proof {
            if server@.len() >= 5 && server@.subrange(0, 5) == unix_prefix() {
                assert(server@[0] == server@.subrange(0, 5)[0]);
                assert(server@[1] == server@.subrange(0, 5)[1]);
                assert(server@[2] == server@.subrange(0, 5)[2]);
                assert(server@[3] == server@.subrange(0, 5)[3]);
                assert(server@[4] == server@.subrange(0, 5)[4]);
            }
        }
        None
    }
}

} // verus!
