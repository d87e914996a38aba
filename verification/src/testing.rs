//! The parent unit: it provisions child units through the host, keeps their
//! addresses in two slots, and reads the children through them.

use vstd::prelude::*;
use crate::host::{derived_address, DereferenceError, Host, HostView, InstantiationError};
use crate::ident::{AccountId, CodeHash};
use crate::laws::{law_endowment_moves, law_handle_round_trip};

verus! {

/// The value that the child created at construction starts with.
pub const CONSTRUCTOR_VALUE: u32 = 1111;

/// The value that a child created by `deploy` starts with.
pub const METHOD_VALUE: u32 = 9999;

/// The share of a balance that goes to a new child: a quarter, rounded down.
pub open spec fn endowment_of(balance: u128) -> u128 {
    balance / 4
}

/// The salt of a version: its four bytes, lowest first.
pub open spec fn salt_of(version: u32) -> Seq<u8> {
    seq![
        (version & 0xff) as u8,
        ((version >> 8) & 0xff) as u8,
        ((version >> 16) & 0xff) as u8,
        ((version >> 24) & 0xff) as u8,
    ]
}

/// The address of the child that the parent at `own` creates from `code`
/// under `version`.
pub open spec fn child_address(own: Seq<u8>, version: u32, code: Seq<u8>) -> Seq<u8> {
    derived_address(own, code, salt_of(version))
}

/// The error that provisioning ends in on `host`, if any.
pub open spec fn provision_error(
    host: HostView,
    own: Seq<u8>,
    version: u32,
    code: Seq<u8>,
) -> Option<InstantiationError> {
    host.instantiate_error(
        child_address(own, version, code),
        own,
        code,
        endowment_of(host.balance_of(own)),
    )
}

/// The host after the parent at `own` has provisioned a child on it.
pub open spec fn provisioned(
    host: HostView,
    own: Seq<u8>,
    init_val: u32,
    version: u32,
    code: Seq<u8>,
) -> HostView {
    host.instantiated(
        child_address(own, version, code),
        own,
        code,
        endowment_of(host.balance_of(own)),
        init_val,
    )
}

/// The endowment of a child created while the parent owns `total_balance`.
pub fn endowment(total_balance: u128) -> (amount: u128)
    ensures
        amount == endowment_of(total_balance),
        amount <= total_balance,
{
    total_balance / 4
}

/// The salt that a child created under `version` is addressed with.
pub fn salt(version: u32) -> (bytes: Vec<u8>)
    ensures
        bytes@ == salt_of(version),
{
    let mut bytes: Vec<u8> = Vec::new();
    bytes.push((version & 0xff) as u8);
    bytes.push(((version >> 8) & 0xff) as u8);
    bytes.push(((version >> 16) & 0xff) as u8);
    bytes.push(((version >> 24) & 0xff) as u8);
    assert(bytes@ =~= salt_of(version));
    bytes
}

/// The parent unit. Each slot holds the address of a child, or the all-zero
/// address while it is unset.
#[derive(Clone, Copy, Debug)]
pub struct Testing {
    from_constructor: AccountId,
    from_method: AccountId,
}

impl Testing {
    /// The address in the slot that construction fills.
    pub closed spec fn constructor_slot(&self) -> Seq<u8> {
        self.from_constructor@
    }

    /// The address in the slot that `deploy` fills.
    pub closed spec fn method_slot(&self) -> Seq<u8> {
        self.from_method@
    }

    /// The parent right after construction: `child` in the construction
    /// slot, the other slot unset.
    pub fn constructed(child: AccountId) -> (parent: Testing)
        ensures
            parent.constructor_slot() == child@,
            parent.method_slot() == Seq::new(32, |i: int| 0u8),
    {
        Testing { from_constructor: child, from_method: AccountId::unset() }
    }

    /// Stores `child` in the slot of `deploy`, over what was there. The
    /// construction slot is not touched.
    pub fn record_deployed(&mut self, child: AccountId)
        ensures
            final(self).constructor_slot() == old(self).constructor_slot(),
            final(self).method_slot() == child@,
    {
        self.from_method = child;
    }

    /// Provisions a child for the parent at `own`: a quarter of the parent's
    /// balance goes to a new unit that runs `code_hash` on `init_val`, at the
    /// address derived from `own`, `code_hash` and the bytes of `version`.
    /// Returns the child's address; on an error the host is unchanged.
    /// Whatever was reachable on the host before reads the same after.
    pub fn internal_deploy(
        host: &mut Host,
        own: &AccountId,
        init_val: u32,
        version: u32,
        code_hash: &CodeHash,
    ) -> (outcome: Result<AccountId, InstantiationError>)
        requires
            old(host).wf(),
        ensures
            final(host).wf(),
            match provision_error(old(host)@, own@, version, code_hash@) {
                Some(error) => outcome == Err::<AccountId, InstantiationError>(error)
                    && final(host)@ == old(host)@,
                None => outcome matches Ok(address)
                    && address@ == child_address(own@, version, code_hash@)
                    && final(host)@ == provisioned(old(host)@, own@, init_val, version, code_hash@),
            },
            outcome matches Ok(address) ==> {
                let before = old(host)@.balance_of(own@);
                &&& final(host)@.balance_of(address@) == before / 4
                &&& final(host)@.balance_of(own@) == before - before / 4
                &&& final(host)@.resolved(address@) == Ok::<u32, DereferenceError>(init_val)
            },
            forall|earlier: Seq<u8>|
                old(host)@.has_account(earlier) ==> final(host)@.resolved(earlier)
                    == old(host)@.resolved(earlier),
    {
        proof {
            if provision_error(host@, own@, version, code_hash@) is None {
                law_endowment_moves(host@, own@, init_val, version, code_hash@);
                law_handle_round_trip(host@, own@, init_val, version, code_hash@);
            }
        }
        let total_balance = host.balance(own);
        let salt = salt(version);
        host.instantiate(own, code_hash, &salt, endowment(total_balance), init_val)
    }

    /// Constructs the parent at `own`, provisioning its first child, which
    /// starts with `CONSTRUCTOR_VALUE`. The other slot is left unset.
    pub fn new(
        host: &mut Host,
        own: &AccountId,
        version: u32,
        code_hash: &CodeHash,
    ) -> (outcome: Result<Testing, InstantiationError>)
        requires
            old(host).wf(),
        ensures
            final(host).wf(),
            match provision_error(old(host)@, own@, version, code_hash@) {
                Some(error) => outcome == Err::<Testing, InstantiationError>(error)
                    && final(host)@ == old(host)@,
                None => outcome matches Ok(parent)
                    && parent.constructor_slot() == child_address(own@, version, code_hash@)
                    && parent.method_slot() == Seq::new(32, |i: int| 0u8)
                    && final(host)@ == provisioned(
                        old(host)@,
                        own@,
                        CONSTRUCTOR_VALUE,
                        version,
                        code_hash@,
                    ),
            },
    {
        match Testing::internal_deploy(host, own, CONSTRUCTOR_VALUE, version, code_hash) {
            Ok(address) => Ok(Testing::constructed(address)),
            Err(error) => Err(error),
        }
    }

    /// Provisions a further child, which starts with `METHOD_VALUE`, and
    /// stores its address in the slot that `get_from_method` reads. The other
    /// slot is never touched; on an error nothing changes.
    pub fn deploy(
        &mut self,
        host: &mut Host,
        own: &AccountId,
        version: u32,
        code_hash: &CodeHash,
    ) -> (outcome: Result<(), InstantiationError>)
        requires
            old(host).wf(),
        ensures
            final(host).wf(),
            final(self).constructor_slot() == old(self).constructor_slot(),
            old(host)@.has_account(old(self).constructor_slot())
                ==> final(host)@.resolved(final(self).constructor_slot())
                    == old(host)@.resolved(old(self).constructor_slot()),
            match provision_error(old(host)@, own@, version, code_hash@) {
                Some(error) => outcome == Err::<(), InstantiationError>(error)
                    && final(self).method_slot() == old(self).method_slot()
                    && final(host)@ == old(host)@,
                None => outcome is Ok
                    && final(self).method_slot() == child_address(own@, version, code_hash@)
                    && final(host)@ == provisioned(
                        old(host)@,
                        own@,
                        METHOD_VALUE,
                        version,
                        code_hash@,
                    ),
            },
    {
        match Testing::internal_deploy(host, own, METHOD_VALUE, version, code_hash) {
            Ok(address) => {
                self.record_deployed(address);
                Ok(())
            },
            Err(error) => Err(error),
        }
    }

    /// Reads the child whose address the construction slot holds.
    pub fn get_from_constructor(&self, host: &Host) -> (outcome: Result<u32, DereferenceError>)
        requires
            host.wf(),
        ensures
            outcome == host@.resolved(self.constructor_slot()),
    {
        match host.resolve(&self.from_constructor) {
            Ok(subcontract) => Ok(subcontract.get()),
            Err(error) => Err(error),
        }
    }

    /// Reads the child whose address the slot of `deploy` holds.
    pub fn get_from_method(&self, host: &Host) -> (outcome: Result<u32, DereferenceError>)
        requires
            host.wf(),
        ensures
            outcome == host@.resolved(self.method_slot()),
    {
        match host.resolve(&self.from_method) {
            Ok(subcontract) => Ok(subcontract.get()),
            Err(error) => Err(error),
        }
    }

    /// The address in the construction slot.
    pub fn from_constructor(&self) -> (address: AccountId)
        ensures
            address@ == self.constructor_slot(),
    {
        self.from_constructor
    }

    /// The address in the slot of `deploy`.
    pub fn from_method(&self) -> (address: AccountId)
        ensures
            address@ == self.method_slot(),
    {
        self.from_method
    }
}

} // verus!
