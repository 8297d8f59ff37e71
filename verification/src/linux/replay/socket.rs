//! The sockets of the replay.
use vstd::prelude::*;
use vstd::string::StringExecFns;

use crate::protocol::{denied, WireError, WireErrorView};
use crate::text::{decimal_string, joined};

verus! {

/// The abstract name of the socket `name` of a user. Such a socket is gone when its last owner
/// closes it.
pub fn address(user: u32, name: &str) -> (r: String)
    ensures
        r@ == "boltsnap-replay-"@ + crate::text::decimal(user as nat) + "-"@ + name@,
{
    let mut address: String = joined("boltsnap-replay-", decimal_string(user as u128).as_str());
    address.append("-");
    address.append(name);
    address
}

/// Whether the process at the other end may be talked to: it has to belong to the same user. What
/// the kernel says of it has to be as long as it is said to be.
pub fn configure(length: u32, expected: u32, peer: u32, user: u32) -> (r: Result<(), WireError>)
    ensures
        if length == expected && peer == user {
            r is Ok
        } else {
            r matches Err(error) && error@ == WireErrorView::denied(
                "replay peer has another user ID"@,
            )
        },
{
    if length != expected || peer != user {
        Err(denied("replay peer has another user ID"))
    } else {
        Ok(())
    }
}

/// Two users, and two names of one user, have addresses of their own.
pub proof fn lemma_addresses_differ(
    user: u32,
    name: &str,
    address_of: String,
    other: u32,
    other_name: &str,
    other_address: String,
)
    requires
        call_ensures(address, (user, name), address_of),
        call_ensures(address, (other, other_name), other_address),
    ensures
        user == other && address_of@ == other_address@ ==> name@ == other_name@,
        crate::text::has_suffix(address_of@, "-"@ + name@),
        address_of@ == "boltsnap-replay-"@ + crate::text::decimal(user as nat) + "-"@ + name@,
{
    let tail = "-"@ + name@;
    assert(address_of@.skip(address_of@.len() - tail.len()) =~= tail);
    if user == other && address_of@ == other_address@ {
        let head = "boltsnap-replay-"@ + crate::text::decimal(user as nat) + "-"@;
        assert(address_of@.skip(head.len() as int) =~= name@);
        assert(other_address@.skip(head.len() as int) =~= other_name@);
    }
}

/// Only a process of the same user is served.
pub proof fn lemma_same_user(length: u32, expected: u32, peer: u32, user: u32, r: Result<(), WireError>)
    requires
        call_ensures(configure, (length, expected, peer, user), r),
    ensures
        r is Ok <==> length == expected && peer == user,
{
}

} // verus!
