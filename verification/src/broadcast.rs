//! Code responsible for sending a broadcast message to all
//! clients telling where the server is.
//!
//! This will allow the server to show up in a client machine, assuming
//! they are both in the same network.
use vstd::prelude::*;

use crate::clock::{rfc2616_date_now, rfc2616_text, UtcInstant};
use crate::config::ServerConfiguration;
pub use crate::request::find_local_address;
use crate::request::{
    discover_reply, discover_request_valid, discover_response_lines, is_discover_request,
    local_address_of, NetInterface,
};
use crate::text::join;

verus! {

/// What the server tells a client that discovered it.
pub struct DiscoveryResponse {
    pub name: String,
    pub port: u16,
    pub max_clients: usize,
    pub num_clients: usize,
}

/// The answer to a discovery request, for a server configured as `c` with
/// `num_clients` clients logged in.
pub fn create_discovery_response(c: &ServerConfiguration, num_clients: usize) -> (r:
    DiscoveryResponse)
    ensures
        r.name@ == c.name@,
        r.port == c.port,
        r.max_clients == c.max_clients,
        r.num_clients == num_clients,
{
    DiscoveryResponse {
        name: c.name.clone(),
        port: c.port,
        max_clients: c.max_clients,
        num_clients,
    }
}

/// What `to_json` may give for `sres`.
pub open spec fn response_json<F: Fn(&DiscoveryResponse) -> String>(
    to_json: F,
    sres: &DiscoveryResponse,
    json: String,
) -> bool {
    to_json.ensures((sres,), json)
}

// Parse a discover message, return a response to it
/// Answers a discovery request `s`: `None` unless it is one for this kind
/// of server; else the answer, dated now, that locates the server at the
/// local address on the port of `sres` and carries what `to_json` writes of
/// `sres`.
pub fn parse_discover_message<F: Fn(&DiscoveryResponse) -> String>(
    s: String,
    sres: &DiscoveryResponse,
    to_json: F,
) -> (r: Option<String>)
    requires
        to_json.requires((sres,)),
    ensures
        r is Some <==> is_discover_request(s@),
        r matches Some(x) ==> exists|json: String, t: UtcInstant, ifaces: Seq<NetInterface>|
            response_json(to_json, sres, json) && x@ == join(
                #[trigger] discover_response_lines(
                    json@,
                    rfc2616_text(t),
                    local_address_of(ifaces),
                    sres.port as nat,
                ),
                "\r\n"@,
            ),
{
    if !discover_request_valid(s.as_str()) {
        return None;
    }
    let sinfo_str = to_json(sres);
    let date = rfc2616_date_now();
    let address = find_local_address();
    let r = discover_reply(sinfo_str.as_str(), date.as_str(), address.as_str(), sres.port);
    proof {
        let t = choose|t: UtcInstant|
            t.secs >= 0 && t.nanos < 1_000_000_000 && date@ == #[trigger] rfc2616_text(t);
        let ifaces = choose|ifaces: Seq<NetInterface>| address@ == #[trigger] local_address_of(ifaces);
        assert(response_json(to_json, sres, sinfo_str));
        assert(r@ == join(
            discover_response_lines(
                sinfo_str@,
                rfc2616_text(t),
                local_address_of(ifaces),
                sres.port as nat,
            ),
            "\r\n"@,
        ));
    }
    Some(r)
}

/// What repeated sends of one datagram came to: the first failure, in
/// the order the sends were made, or else the largest number of bytes a send
/// took.
pub open spec fn sends_outcome(results: Seq<Result<usize, i32>>) -> Result<usize, i32>
    decreases results.len(),
{
    if results.len() == 0 {
        Ok(0)
    } else {
        match results[0] {
            Err(e) => Err(e),
            Ok(n) => match sends_outcome(results.drop_first()) {
                Err(e) => Err(e),
                Ok(m) => Ok(
                    if results.len() == 1 || n >= m {
                        n
                    } else {
                        m
                    },
                ),
            },
        }
    }
}

/// Since UDP is unreliable, we might need to send the response
/// packet more than once, because it will not give an error even
/// if the packet did not reach its destination.
///
/// Sums up the results of those sends: the first error (an OS error
/// code), or the largest size sent.
pub fn send_multiple_outcome(results: &Vec<Result<usize, i32>>) -> (r: Result<usize, i32>)
    requires
        results@.len() > 0,
    ensures
        r == sends_outcome(results@),
{
    let mut i: usize = results.len();
    let mut acc: Result<usize, i32> = Ok(0);
    while i > 0
        invariant
            i <= results@.len(),
            acc == sends_outcome(results@.skip(i as int)),
        decreases i,
    {
        i = i - 1;
        proof {
            assert(results@.skip(i as int).drop_first() =~= results@.skip(i + 1));
        }
        acc = match results[i] {
            Err(e) => Err(e),
            Ok(n) => match acc {
                Err(e) => Err(e),
                Ok(m) => Ok(
                    if i + 1 == results.len() || n >= m {
                        n
                    } else {
                        m
                    },
                ),
            },
        };
    }
    assert(results@.skip(0) =~= results@);
    acc
}

} // verus!
