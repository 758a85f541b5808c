//! What a liveness probe connects to.

use vstd::prelude::*;
use crate::numeral::{decimal_text, push_decimal};

verus! {

/// The socket address of a device: its address, a colon, and its port as a
/// decimal numeral.
pub open spec fn address_text(ip: Seq<char>, port: u16) -> Seq<char> {
    ip + seq![':'] + decimal_text(port as nat)
}

/// Writes the socket address that a probe of `ip` on `port` connects to.
pub fn probe_address(ip: &str, port: u16) -> (address: String)
    ensures
        address@ == address_text(ip@, port),
{
    let mut address = ip.to_owned();
    proof {
        reveal_strlit(":");
        assert(":"@ =~= seq![':']);
    }
    address.append(":");
    push_decimal(&mut address, port as u64);
    address
}

} // verus!
