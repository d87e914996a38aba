//! An in-memory host: the accounts it keeps, the code it knows, and the
//! operations a parent unit reaches it through.

use vstd::prelude::*;
use crate::digest::{blake2_256, hash_blake2_256};
use crate::ident::{AccountId, CodeHash};
use crate::sub::Subcontract;

verus! {

/// Why the host refused to create a unit.
#[derive(Clone, Copy, Debug, PartialEq, Eq, Structural)]
pub enum InstantiationError {
    /// The code selector names no code the host knows.
    UnknownCode,
    /// The derived address already belongs to an account.
    AddressCollision,
    /// The endowment is more than the deployer owns.
    InsufficientBalance,
}

/// Why a stored address could not be turned back into a unit.
#[derive(Clone, Copy, Debug, PartialEq, Eq, Structural)]
pub enum DereferenceError {
    /// No account lives at the address.
    UnknownAddress,
    /// The account at the address runs no unit.
    NotAUnit,
}

/// A unit installed in an account: the code it runs and its state.
#[derive(Clone, Copy, Debug)]
struct Unit {
    code: CodeHash,
    state: Subcontract,
}

/// One account of the host.
#[derive(Clone, Copy, Debug)]
struct Account {
    address: AccountId,
    balance: u128,
    unit: Option<Unit>,
}

/// What an installed unit is: the selector of its code and its value.
pub struct UnitView {
    pub code: Seq<u8>,
    pub value: u32,
}

/// What an account is, apart from its address.
pub struct AccountView {
    pub balance: u128,
    pub unit: Option<UnitView>,
}

/// What a host is: its accounts by address, and the selectors it knows.
pub struct HostView {
    pub accounts: Map<Seq<u8>, AccountView>,
    pub codes: Set<Seq<u8>>,
}

/// The address of the unit that `deployer` creates from `code` with `salt`:
/// the digest of the three, one after the other.
pub open spec fn derived_address(deployer: Seq<u8>, code: Seq<u8>, salt: Seq<u8>) -> Seq<u8> {
    blake2_256(deployer + code + salt)
}

impl HostView {
    /// Whether an account lives at `who`.
    pub open spec fn has_account(self, who: Seq<u8>) -> bool {
        self.accounts.dom().contains(who)
    }

    /// The balance of `who`; zero where no account lives there.
    pub open spec fn balance_of(self, who: Seq<u8>) -> u128 {
        if self.has_account(who) {
            self.accounts[who].balance
        } else {
            0
        }
    }

    /// The error that creating a unit at `address` ends in, if any. Unknown
    /// code is found first, then a taken address, then a short balance.
    pub open spec fn instantiate_error(
        self,
        address: Seq<u8>,
        deployer: Seq<u8>,
        code: Seq<u8>,
        endowment: u128,
    ) -> Option<InstantiationError> {
        if !self.codes.contains(code) {
            Some(InstantiationError::UnknownCode)
        } else if self.has_account(address) {
            Some(InstantiationError::AddressCollision)
        } else if endowment > self.balance_of(deployer) {
            Some(InstantiationError::InsufficientBalance)
        } else {
            None
        }
    }

    /// The host after `amount` left the account at `who`.
    pub open spec fn debited(self, who: Seq<u8>, amount: u128) -> HostView {
        if self.has_account(who) {
            HostView {
                accounts: self.accounts.insert(
                    who,
                    AccountView {
                        balance: (self.accounts[who].balance - amount) as u128,
                        unit: self.accounts[who].unit,
                    },
                ),
                codes: self.codes,
            }
        } else {
            self
        }
    }

    /// The host after a unit was created at `address`: the endowment has
    /// moved from the deployer to the new account, which runs `code` on
    /// `init_value`.
    pub open spec fn instantiated(
        self,
        address: Seq<u8>,
        deployer: Seq<u8>,
        code: Seq<u8>,
        endowment: u128,
        init_value: u32,
    ) -> HostView {
        HostView {
            accounts: self.debited(deployer, endowment).accounts.insert(
                address,
                AccountView {
                    balance: endowment,
                    unit: Some(UnitView { code, value: init_value }),
                },
            ),
            codes: self.codes,
        }
    }

    /// The value that the unit at `address` reads, or why there is none.
    pub open spec fn resolved(self, address: Seq<u8>) -> Result<u32, DereferenceError> {
        if !self.has_account(address) {
            Err(DereferenceError::UnknownAddress)
        } else {
            match self.accounts[address].unit {
                Some(unit) => Ok(unit.value),
                None => Err(DereferenceError::NotAUnit),
            }
        }
    }
}

impl Account {
    /// The account without its address.
    spec fn view(&self) -> AccountView {
        AccountView {
            balance: self.balance,
            unit: match self.unit {
                Some(unit) => Some(UnitView { code: unit.code@, value: unit.state@ }),
                None => None,
            },
        }
    }
}

/// Whether some account of the list lives at `who`.
spec fn listed(accounts: Seq<Account>, who: Seq<u8>) -> bool {
    exists|i: int| 0 <= i < accounts.len() && accounts[i].address@ == who
}

/// A place in the list where the account at `who` stands.
spec fn place(accounts: Seq<Account>, who: Seq<u8>) -> int {
    choose|i: int| 0 <= i < accounts.len() && accounts[i].address@ == who
}

/// No address occurs twice in the list.
spec fn distinct(accounts: Seq<Account>) -> bool {
    forall|i: int, j: int|
        0 <= i < j < accounts.len() ==> accounts[i].address@ != accounts[j].address@
}

/// The list as a map from address to account.
spec fn by_address(accounts: Seq<Account>) -> Map<Seq<u8>, AccountView> {
    Map::new(|who: Seq<u8>| listed(accounts, who), |who: Seq<u8>| accounts[place(accounts, who)]@)
}

/// The selectors that the list holds.
spec fn selectors(codes: Seq<CodeHash>) -> Set<Seq<u8>> {
    Set::new(|code: Seq<u8>| exists|i: int| 0 <= i < codes.len() && codes[i]@ == code)
}

/// In a list without repeats, the map holds each account under its address.
proof fn lemma_entry(accounts: Seq<Account>, i: int)
    requires
        distinct(accounts),
        0 <= i < accounts.len(),
    ensures
        listed(accounts, accounts[i].address@),
        by_address(accounts)[accounts[i].address@] == accounts[i]@,
{
    let who = accounts[i].address@;
    assert(listed(accounts, who));
    let k = place(accounts, who);
    assert(0 <= k < accounts.len() && accounts[k].address@ == who);
    if k < i {
        assert(accounts[k].address@ != accounts[i].address@);
    } else if i < k {
        assert(accounts[i].address@ != accounts[k].address@);
    }
}

/// Appending an account at a fresh address inserts it into the map.
proof fn lemma_appended(accounts: Seq<Account>, account: Account)
    requires
        distinct(accounts),
        !listed(accounts, account.address@),
    ensures
        distinct(accounts.push(account)),
        by_address(accounts.push(account)) == by_address(accounts).insert(
            account.address@,
            account@,
        ),
{
    let longer = accounts.push(account);
    let n = accounts.len() as int;
    assert forall|i: int, j: int| 0 <= i < j < longer.len() implies longer[i].address@
        != longer[j].address@ by {
        if j < n {
            assert(accounts[i].address@ != accounts[j].address@);
        } else {
            assert(longer[i] == accounts[i]);
            if longer[i].address@ == account.address@ {
                assert(listed(accounts, account.address@));
            }
        }
    }
    let before = by_address(accounts);
    let after = by_address(longer);
    let expected = before.insert(account.address@, account@);
    assert forall|who: Seq<u8>| after.dom().contains(who) <==> expected.dom().contains(who) by {
        if listed(longer, who) {
            let i = place(longer, who);
            if i < n {
                assert(accounts[i].address@ == who);
            }
        }
        if listed(accounts, who) {
            let i = place(accounts, who);
            assert(longer[i].address@ == who);
        }
        if who == account.address@ {
            assert(longer[n].address@ == who);
        }
    }
    assert forall|who: Seq<u8>| after.dom().contains(who) implies after[who] == expected[who] by {
        if who == account.address@ {
            lemma_entry(longer, n);
        } else {
            let i = place(longer, who);
            assert(i < n);
            assert(longer[i] == accounts[i]);
            lemma_entry(longer, i);
            lemma_entry(accounts, i);
        }
    }
    assert(after =~= expected);
}

/// Replacing an account by one at the same address overwrites its map entry.
proof fn lemma_replaced(accounts: Seq<Account>, j: int, account: Account)
    requires
        distinct(accounts),
        0 <= j < accounts.len(),
        account.address@ == accounts[j].address@,
    ensures
        distinct(accounts.update(j, account)),
        forall|who: Seq<u8>| listed(accounts.update(j, account), who) == listed(accounts, who),
        by_address(accounts.update(j, account)) == by_address(accounts).insert(
            account.address@,
            account@,
        ),
{
    let changed = accounts.update(j, account);
    assert forall|i: int| 0 <= i < accounts.len() implies #[trigger] changed[i].address@
        == accounts[i].address@ by {}
    assert forall|a: int, b: int| 0 <= a < b < changed.len() implies changed[a].address@
        != changed[b].address@ by {
        assert(accounts[a].address@ != accounts[b].address@);
    }
    assert forall|who: Seq<u8>| listed(changed, who) == listed(accounts, who) by {
        if listed(changed, who) {
            let i = place(changed, who);
            assert(accounts[i].address@ == who);
        }
        if listed(accounts, who) {
            let i = place(accounts, who);
            assert(changed[i].address@ == who);
        }
    }
    let after = by_address(changed);
    let expected = by_address(accounts).insert(account.address@, account@);
    assert forall|who: Seq<u8>| after.dom().contains(who) implies after[who] == expected[who] by {
        let i = place(changed, who);
        lemma_entry(changed, i);
        if i != j {
            assert(changed[i] == accounts[i]);
            lemma_entry(accounts, i);
        }
    }
    assert(after =~= expected);
}

/// The host: a list of accounts, no two at one address, and the selectors
/// of the code that units can be created from.
pub struct Host {
    accounts: Vec<Account>,
    codes: Vec<CodeHash>,
}

impl Host {
    /// No two accounts share an address.
    pub closed spec fn wf(&self) -> bool {
        distinct(self.accounts@)
    }

    /// The accounts by address, and the known selectors.
    pub closed spec fn view(&self) -> HostView {
        HostView { accounts: by_address(self.accounts@), codes: selectors(self.codes@) }
    }

    /// A host with no account and no code.
    pub fn new() -> (host: Host)
        ensures
            host.wf(),
            host@.accounts == Map::<Seq<u8>, AccountView>::empty(),
            host@.codes == Set::<Seq<u8>>::empty(),
    {
        let host = Host { accounts: Vec::new(), codes: Vec::new() };
        assert(host@.accounts =~= Map::<Seq<u8>, AccountView>::empty());
        assert(host@.codes =~= Set::<Seq<u8>>::empty());
        host
    }

    /// Where the account at `who` stands in the list, if there is one.
    fn position(&self, who: &AccountId) -> (found: Option<usize>)
        ensures
            match found {
                Some(i) => i < self.accounts@.len() && self.accounts@[i as int].address@ == who@,
                None => !listed(self.accounts@, who@),
            },
    {
        let mut i: usize = 0;
        while i < self.accounts.len()
            invariant
                i <= self.accounts@.len(),
                forall|k: int| 0 <= k < i ==> self.accounts@[k].address@ != who@,
            decreases self.accounts@.len() - i,
        {
            if self.accounts[i].address.same(who) {
                return Some(i);
            }
            i += 1;
        }
        None
    }

    /// Whether the host knows the code that `code` names.
    pub fn knows_code(&self, code: &CodeHash) -> (known: bool)
        ensures
            known == self@.codes.contains(code@),
    {
        let mut i: usize = 0;
        while i < self.codes.len()
            invariant
                i <= self.codes@.len(),
                forall|k: int| 0 <= k < i ==> self.codes@[k]@ != code@,
            decreases self.codes@.len() - i,
        {
            if self.codes[i].same(code) {
                return true;
            }
            i += 1;
        }
        false
    }

    /// Makes the code that `code` names known to the host.
    pub fn register_code(&mut self, code: CodeHash)
        requires
            old(self).wf(),
        ensures
            final(self).wf(),
            final(self)@ == (HostView {
                accounts: old(self)@.accounts,
                codes: old(self)@.codes.insert(code@),
            }),
    {
        self.codes.push(code);
        proof {
            let before = old(self).codes@;
            let after = self.codes@;
            assert forall|c: Seq<u8>|
                selectors(after).contains(c) <==> selectors(before).insert(code@).contains(
                    c,
                ) by {
                if selectors(before).contains(c) {
                    let i = choose|i: int| 0 <= i < before.len() && before[i]@ == c;
                    assert(after[i]@ == c);
                }
                if c == code@ {
                    assert(after[before.len() as int]@ == c);
                }
            }
            assert(selectors(after) =~= selectors(before).insert(code@));
        }
    }

    /// Opens an account without a unit at `address`, holding `balance`.
    /// Returns `false`, and changes nothing, where the address is taken.
    pub fn open_account(&mut self, address: AccountId, balance: u128) -> (opened: bool)
        requires
            old(self).wf(),
        ensures
            final(self).wf(),
            opened == !old(self)@.has_account(address@),
            opened ==> final(self)@ == (HostView {
                accounts: old(self)@.accounts.insert(
                    address@,
                    AccountView { balance, unit: None },
                ),
                codes: old(self)@.codes,
            }),
            !opened ==> final(self)@ == old(self)@,
    {
        if self.position(&address).is_some() {
            return false;
        }
        let account = Account { address, balance, unit: None };
        proof {
            lemma_appended(self.accounts@, account);
        }
        self.accounts.push(account);
        true
    }

    /// The balance of `who`; zero where no account lives there.
    pub fn balance(&self, who: &AccountId) -> (balance: u128)
        requires
            self.wf(),
        ensures
            balance == self@.balance_of(who@),
    {
        match self.position(who) {
            Some(i) => {
                proof {
                    lemma_entry(self.accounts@, i as int);
                }
                self.accounts[i].balance
            },
            None => 0,
        }
    }

    /// The address at which `deployer` creates a unit from `code` with
    /// `salt`.
    pub fn derive_address(
        deployer: &AccountId,
        code: &CodeHash,
        salt: &Vec<u8>,
    ) -> (address: AccountId)
        ensures
            address@ == derived_address(deployer@, code@, salt@),
    {
        let mut input: Vec<u8> = Vec::new();
        let mut i: usize = 0;
        while i < 32
            invariant
                i <= 32,
                input@ == deployer@.subrange(0, i as int),
            decreases 32 - i,
        {
            input.push(deployer.bytes[i]);
            i += 1;
            assert(input@ =~= deployer@.subrange(0, i as int));
        }
        assert(input@ =~= deployer@);
        i = 0;
        while i < 32
            invariant
                i <= 32,
                input@ == deployer@ + code@.subrange(0, i as int),
            decreases 32 - i,
        {
            input.push(code.bytes[i]);
            i += 1;
            assert(input@ =~= deployer@ + code@.subrange(0, i as int));
        }
        assert(input@ =~= deployer@ + code@);
        i = 0;
        while i < salt.len()
            invariant
                i <= salt@.len(),
                input@ == deployer@ + code@ + salt@.subrange(0, i as int),
            decreases salt@.len() - i,
        {
            input.push(salt[i]);
            i += 1;
            assert(input@ =~= deployer@ + code@ + salt@.subrange(0, i as int));
        }
        assert(input@ =~= deployer@ + code@ + salt@);
        AccountId::from_bytes(hash_blake2_256(&input))
    }

    /// Creates a unit at `address`, running `code` on `init_value`, and moves
    /// `endowment` to it from `deployer`. On an error the host is unchanged.
    pub fn instantiate_at(
        &mut self,
        address: AccountId,
        deployer: &AccountId,
        code: &CodeHash,
        endowment: u128,
        init_value: u32,
    ) -> (outcome: Result<AccountId, InstantiationError>)
        requires
            old(self).wf(),
        ensures
            final(self).wf(),
            match old(self)@.instantiate_error(address@, deployer@, code@, endowment) {
                Some(error) => outcome == Err::<AccountId, InstantiationError>(error)
                    && final(self)@ == old(self)@,
                None => outcome == Ok::<AccountId, InstantiationError>(address)
                    && final(self)@ == old(self)@.instantiated(
                        address@,
                        deployer@,
                        code@,
                        endowment,
                        init_value,
                    ),
            },
    {
        if !self.knows_code(code) {
            return Err(InstantiationError::UnknownCode);
        }
        if self.position(&address).is_some() {
            return Err(InstantiationError::AddressCollision);
        }
        let payer = self.position(deployer);
        match payer {
            Some(j) => {
                proof {
                    lemma_entry(self.accounts@, j as int);
                }
                let account = self.accounts[j];
                if endowment > account.balance {
                    return Err(InstantiationError::InsufficientBalance);
                }
                let debited = Account {
                    address: account.address,
                    balance: account.balance - endowment,
                    unit: account.unit,
                };
                proof {
                    lemma_replaced(self.accounts@, j as int, debited);
                }
                self.accounts.set(j, debited);
            },
            None => {
                if endowment > 0 {
                    return Err(InstantiationError::InsufficientBalance);
                }
            },
        }
        let created = Account {
            address,
            balance: endowment,
            unit: Some(Unit { code: *code, state: Subcontract::new(init_value) }),
        };
        proof {
            lemma_appended(self.accounts@, created);
        }
        self.accounts.push(created);
        Ok(address)
    }

    /// Creates a unit at the address derived from `deployer`, `code` and
    /// `salt`, as `instantiate_at` does at a given address.
    pub fn instantiate(
        &mut self,
        deployer: &AccountId,
        code: &CodeHash,
        salt: &Vec<u8>,
        endowment: u128,
        init_value: u32,
    ) -> (outcome: Result<AccountId, InstantiationError>)
        requires
            old(self).wf(),
        ensures
            final(self).wf(),
            match old(self)@.instantiate_error(
                derived_address(deployer@, code@, salt@),
                deployer@,
                code@,
                endowment,
            ) {
                Some(error) => outcome == Err::<AccountId, InstantiationError>(error)
                    && final(self)@ == old(self)@,
                None => outcome matches Ok(address)
                    && address@ == derived_address(deployer@, code@, salt@)
                    && final(self)@ == old(self)@.instantiated(
                        address@,
                        deployer@,
                        code@,
                        endowment,
                        init_value,
                    ),
            },
    {
        let address = Self::derive_address(deployer, code, salt);
        self.instantiate_at(address, deployer, code, endowment, init_value)
    }

    /// The unit that lives at `address`, as it stands now.
    pub fn resolve(&self, address: &AccountId) -> (outcome: Result<Subcontract, DereferenceError>)
        requires
            self.wf(),
        ensures
            match self@.resolved(address@) {
                Ok(value) => outcome matches Ok(unit) && unit@ == value,
                Err(error) => outcome == Err::<Subcontract, DereferenceError>(error),
            },
    {
        match self.position(address) {
            Some(i) => {
                proof {
                    lemma_entry(self.accounts@, i as int);
                }
                match self.accounts[i].unit {
                    Some(unit) => Ok(unit.state),
                    None => Err(DereferenceError::NotAUnit),
                }
            },
            None => Err(DereferenceError::UnknownAddress),
        }
    }
}

} // verus!
