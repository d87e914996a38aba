//! What holds of provisioning on every host.

use vstd::prelude::*;
use crate::host::{HostView, InstantiationError};
use crate::testing::{child_address, endowment_of, provision_error, provisioned, salt_of};

verus! {

/// Different versions give different salts.
pub proof fn law_versions_have_their_own_salt(first: u32, second: u32)
    requires
        first != second,
    ensures
        salt_of(first) != salt_of(second),
{
    assert(((first & 0xff) as u8 == (second & 0xff) as u8
        && ((first >> 8) & 0xff) as u8 == ((second >> 8) & 0xff) as u8
        && ((first >> 16) & 0xff) as u8 == ((second >> 16) & 0xff) as u8
        && ((first >> 24) & 0xff) as u8 == ((second >> 24) & 0xff) as u8) ==> first == second)
        by (bit_vector);
    if salt_of(first) == salt_of(second) {
        assert(salt_of(first)[0] == salt_of(second)[0]);
        assert(salt_of(first)[1] == salt_of(second)[1]);
        assert(salt_of(first)[2] == salt_of(second)[2]);
        assert(salt_of(first)[3] == salt_of(second)[3]);
    }
}

/// Provisioning never fails for want of balance: the endowment is a quarter
/// of what the parent owns.
pub proof fn law_endowment_is_covered(host: HostView, own: Seq<u8>, version: u32, code: Seq<u8>)
    ensures
        provision_error(host, own, version, code) != Some(InstantiationError::InsufficientBalance),
{
}

/// The salt of a version is the version written to base 256 in four
/// digits, lowest first.
pub proof fn law_salt_spells_the_version(version: u32)
    ensures
        salt_of(version).len() == 4,
        salt_of(version)[0] == version % 256,
        salt_of(version)[1] == version / 256 % 256,
        salt_of(version)[2] == version / 65536 % 256,
        salt_of(version)[3] == version / 16777216 % 256,
{
    let v = version;
    assert((v & 0xff) as u8 == v % 256) by (bit_vector);
    assert(((v >> 8) & 0xff) as u8 == (v / 256) % 256) by (bit_vector);
    assert(((v >> 16) & 0xff) as u8 == (v / 65536) % 256) by (bit_vector);
    assert(((v >> 24) & 0xff) as u8 == (v / 16777216) % 256) by (bit_vector);
}

/// Where an account lives at the address that provisioning aims at, and
/// the code is known, provisioning fails with a collision.
pub proof fn law_taken_address_collides(host: HostView, own: Seq<u8>, version: u32, code: Seq<u8>)
    requires
        host.codes.contains(code),
        host.has_account(child_address(own, version, code)),
    ensures
        provision_error(host, own, version, code) == Some(InstantiationError::AddressCollision),
{
}

/// Provisioning removes no account and forgets no code.
pub proof fn law_provisioning_only_adds(
    host: HostView,
    own: Seq<u8>,
    init_val: u32,
    version: u32,
    code: Seq<u8>,
)
    ensures
        ({
            let after = provisioned(host, own, init_val, version, code);
            &&& after.codes == host.codes
            &&& forall|who: Seq<u8>| host.has_account(who) ==> after.has_account(who)
            &&& after.has_account(child_address(own, version, code))
        }),
{
}

/// Once a parent has provisioned a child under a version, provisioning
/// again with the same parent, version and code aims at the same address
/// and fails with a collision, whatever value the new child was to hold.
pub proof fn law_same_version_collides(
    host: HostView,
    own: Seq<u8>,
    init_val: u32,
    version: u32,
    code: Seq<u8>,
)
    requires
        provision_error(host, own, version, code) is None,
    ensures
        provision_error(provisioned(host, own, init_val, version, code), own, version, code)
            == Some(InstantiationError::AddressCollision),
{
}

/// After provisioning on a parent balance `B`, the child owns `B / 4`,
/// rounded down, the parent owns `B` less that amount, and every other
/// balance is as it was.
pub proof fn law_endowment_moves(
    host: HostView,
    own: Seq<u8>,
    init_val: u32,
    version: u32,
    code: Seq<u8>,
)
    requires
        provision_error(host, own, version, code) is None,
    ensures
        ({
            let after = provisioned(host, own, init_val, version, code);
            let child = child_address(own, version, code);
            let before = host.balance_of(own);
            &&& after.balance_of(child) == before / 4
            &&& after.balance_of(own) == before - before / 4
            &&& forall|other: Seq<u8>|
                other != own && other != child ==> after.balance_of(other) == host.balance_of(
                    other,
                )
        }),
{
    let child = child_address(own, version, code);
    assert(!host.has_account(child));
    assert(endowment_of(host.balance_of(own)) <= host.balance_of(own));
}

/// Reading through the address that provisioning returned gives the value
/// the child was created with.
pub proof fn law_handle_round_trip(
    host: HostView,
    own: Seq<u8>,
    init_val: u32,
    version: u32,
    code: Seq<u8>,
)
    requires
        provision_error(host, own, version, code) is None,
    ensures
        provisioned(host, own, init_val, version, code).resolved(
            child_address(own, version, code),
        ) == Ok::<u32, crate::host::DereferenceError>(init_val),
{
}

/// Provisioning leaves every address that was in use reading as before:
/// a handle stored earlier still leads to the same unit and value.
pub proof fn law_earlier_handles_read_the_same(
    host: HostView,
    own: Seq<u8>,
    init_val: u32,
    version: u32,
    code: Seq<u8>,
    earlier: Seq<u8>,
)
    requires
        provision_error(host, own, version, code) is None,
        host.has_account(earlier),
    ensures
        provisioned(host, own, init_val, version, code).resolved(earlier) == host.resolved(
            earlier,
        ),
{
}

} // verus!
