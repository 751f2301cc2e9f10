//! The names under which a space appears on the network, all derived from its context id.
//!
//! The rules of the bridge bind them together, so they are never written down twice.
use crate::text::{dec, hex, hex2, hex_digit, lemma_dec_injective, u32_to_hex2, u32_to_string};
use vstd::prelude::*;

verus! {

pub open spec fn tap_name(cid: u32) -> Seq<char> {
    "tap-space-"@ + dec(cid as nat)
}

pub open spec fn mac_of(cid: u32) -> Seq<char> {
    "52:54:00:6d:59:"@ + hex2(cid as nat)
}

pub open spec fn ipv4_of(cid: u32) -> Seq<char> {
    "10.59.0."@ + dec(cid as nat)
}

pub fn space_tap(cid: u32) -> (r: String)
    ensures
        r@ == tap_name(cid),
{
    "tap-space-".to_owned().concat(u32_to_string(cid).as_str())
}

pub fn space_mac(cid: u32) -> (r: String)
    ensures
        r@ == mac_of(cid),
{
    "52:54:00:6d:59:".to_owned().concat(u32_to_hex2(cid).as_str())
}

pub fn space_ipv4(cid: u32) -> (r: String)
    ensures
        r@ == ipv4_of(cid),
{
    "10.59.0.".to_owned().concat(u32_to_string(cid).as_str())
}

proof fn lemma_hex2_octet(n: nat)
    requires
        n <= 255,
    ensures
        hex2(n) == seq![hex_digit(n / 16), hex_digit(n % 16)],
{
    reveal_with_fuel(hex, 2);
    assert(hex2(n) =~= seq![hex_digit(n / 16), hex_digit(n % 16)]);
}

/// Two spaces share neither the tap nor the address, and below the largest context id not the
/// hardware address either.
pub proof fn names_tell_spaces_apart(a: u32, b: u32)
    requires
        a != b,
    ensures
        tap_name(a) != tap_name(b),
        ipv4_of(a) != ipv4_of(b),
        a <= 255 && b <= 255 ==> mac_of(a) != mac_of(b),
{
    let tap = "tap-space-"@;
    let ip = "10.59.0."@;
    let mac = "52:54:00:6d:59:"@;
    if tap_name(a) == tap_name(b) {
        assert(dec(a as nat) =~= tap_name(a).skip(tap.len() as int));
        assert(dec(b as nat) =~= tap_name(b).skip(tap.len() as int));
        lemma_dec_injective(a as nat, b as nat);
    }
    if ipv4_of(a) == ipv4_of(b) {
        assert(dec(a as nat) =~= ipv4_of(a).skip(ip.len() as int));
        assert(dec(b as nat) =~= ipv4_of(b).skip(ip.len() as int));
        lemma_dec_injective(a as nat, b as nat);
    }
    if a <= 255 && b <= 255 && mac_of(a) == mac_of(b) {
        assert(hex2(a as nat) =~= mac_of(a).skip(mac.len() as int));
        assert(hex2(b as nat) =~= mac_of(b).skip(mac.len() as int));
        lemma_hex2_octet(a as nat);
        lemma_hex2_octet(b as nat);
        let x = hex2(a as nat);
        let y = hex2(b as nat);
        assert(x[0] == hex_digit(a as nat / 16) && y[0] == hex_digit(b as nat / 16));
        assert(x[1] == hex_digit(a as nat % 16) && y[1] == hex_digit(b as nat % 16));
    }
}

} // verus!
