//! What the client computes before it connects.
use crate::common::ui::{all_digits, decimal, lemma_decimal_reads_back, numeral_value, push_decimal};
use vstd::prelude::*;

verus! {

/// The address `host:port` of the server's control socket.
pub open spec fn spec_server_address(host: Seq<char>, port: u16) -> Seq<char> {
    host + ":"@ + decimal(port as nat)
}

/// The address is the host, a colon, then the digits of the port: reading
/// them back gives the port itself, and they have no leading zero.
pub proof fn lemma_server_address_reads_back(host: Seq<char>, port: u16)
    ensures
        ({
            let a = spec_server_address(host, port);
            let digits = a.skip(host.len() as int + 1);
            &&& a.len() >= host.len() + 2
            &&& a.take(host.len() as int) == host
            &&& a[host.len() as int] == ':'
            &&& all_digits(digits)
            &&& numeral_value(digits) == port
            &&& port > 0 ==> digits[0] != '0'
        }),
{
    reveal_strlit(":");
    lemma_decimal_reads_back(port as nat);
    let a = spec_server_address(host, port);
    assert(a.take(host.len() as int) =~= host);
    assert(a.skip(host.len() as int + 1) =~= decimal(port as nat));
}

/// Writes the address that the client connects to: the host, a colon and
/// the port in decimal.
pub fn server_address(host: &String, port: u16) -> (a: String)
    ensures
        a@ == spec_server_address(host@, port),
{
    let mut a = host.clone();
    proof {
        reveal_strlit(":");
    }
    a.append(":");
    push_decimal(&mut a, port as u128);
    a
}

} // verus!
