//! Starting with the system, and the address of the host on its network.

use vstd::prelude::*;

verus! {

/// What is answered where the system cannot start the host.
pub const UNSUPPORTED: &'static str = "Start on boot is only supported on Windows";

/// Whether the host starts with a system that does not support it: never.
pub fn read_startup_registry() -> (b: bool)
    ensures
        !b,
{
    false
}

/// Asks a system to start the host that does not support it: refused.
pub fn set_startup_registry(_enabled: bool) -> (r: Result<(), String>)
    ensures
        r matches Err(e) && e@ == UNSUPPORTED@,
{
    Err(UNSUPPORTED.to_owned())
}

/// Whether an address is one that others can reach the host by: neither the
/// unspecified one nor one of the host with itself.
pub open spec fn is_lan(octets: [u8; 4]) -> bool {
    octets@[0] != 127 && octets@ != seq![0u8, 0, 0, 0]
}

/// The first address of the host that others can reach it by.
pub fn first_lan_ipv4(addresses: &[[u8; 4]]) -> (r: Option<[u8; 4]>)
    ensures
        match r {
            Some(a) => exists|i: int|
                0 <= i < addresses@.len() && a == #[trigger] addresses@[i] && is_lan(a) && forall|
                    k: int,
                |
                    0 <= k < i ==> !is_lan(#[trigger] addresses@[k]),
            None => forall|k: int| 0 <= k < addresses@.len() ==> !is_lan(#[trigger] addresses@[k]),
        },
{
    let mut i: usize = 0;
    while i < addresses.len()
        invariant
            i <= addresses@.len(),
            forall|k: int| 0 <= k < i ==> !is_lan(#[trigger] addresses@[k]),
        decreases addresses@.len() - i,
    {
        let a = addresses[i];
        let zero = a[0] == 0 && a[1] == 0 && a[2] == 0 && a[3] == 0;
        proof {
            let zeros = seq![0u8, 0, 0, 0];
            assert(zero ==> a@ =~= zeros);
            assert(!zero ==> a@ != zeros) by {
                if a@ == zeros {
                    assert(a@[0] == 0 && a@[1] == 0 && a@[2] == 0 && a@[3] == 0);
                }
            }
        }
        if a[0] != 127 && !zero {
            assert(addresses@[i as int] == a);
            return Some(a);
        }
        i += 1;
    }
    None
}

/// Which addresses lead to the host from outside: all but those of the block
/// that a machine keeps for itself, and the one that stands for none.
pub proof fn what_leads_to_the_host(octets: [u8; 4])
    ensures
        is_lan(octets) <==> octets@[0] != 127 && !(octets@[0] == 0 && octets@[1] == 0 && octets@[2]
            == 0 && octets@[3] == 0),
{
    let zeros = seq![0u8, 0, 0, 0];
    if octets@[0] == 0 && octets@[1] == 0 && octets@[2] == 0 && octets@[3] == 0 {
        assert(octets@ =~= zeros);
    }
    if octets@ == zeros {
        assert(octets@[0] == 0 && octets@[1] == 0 && octets@[2] == 0 && octets@[3] == 0);
    }
}

} // verus!
