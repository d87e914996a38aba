use child_provision::host::{DereferenceError, Host, InstantiationError};
use child_provision::ident::{AccountId, CodeHash};
use child_provision::sub::Subcontract;
use child_provision::testing::{endowment, salt, Testing, CONSTRUCTOR_VALUE, METHOD_VALUE};

fn parent_address() -> AccountId {
    AccountId::from_bytes([7u8; 32])
}

fn child_code() -> CodeHash {
    CodeHash::from_bytes([9u8; 32])
}

fn host_with_parent(balance: u128) -> Host {
    let mut host = Host::new();
    assert!(host.open_account(parent_address(), balance));
    host.register_code(child_code());
    host
}

const CHILD_UNDER_VERSION_1: [u8; 32] = [
    90, 38, 50, 67, 17, 139, 27, 61, 19, 152, 48, 0, 161, 92, 93, 246, 157, 179, 3, 157, 228, 45,
    2, 16, 55, 203, 233, 158, 74, 23, 103, 132,
];

const CHILD_UNDER_VERSION_2: [u8; 32] = [
    15, 103, 145, 51, 68, 188, 141, 181, 14, 23, 218, 213, 171, 31, 16, 94, 248, 253, 32, 191, 98,
    73, 251, 254, 49, 2, 115, 195, 182, 58, 152, 218,
];

#[test]
fn child_reads_its_initial_value() {
    assert_eq!(Subcontract::new(0).get(), 0);
    assert_eq!(Subcontract::new(1111).get(), 1111);
    assert_eq!(Subcontract::new(u32::MAX).get(), u32::MAX);
}

#[test]
fn child_reads_repeat() {
    let child = Subcontract::new(42);
    assert_eq!(child.get(), 42);
    assert_eq!(child.get(), 42);
    assert_eq!(child.get(), child.get());
}

#[test]
fn endowment_is_a_quarter_rounded_down() {
    assert_eq!(endowment(0), 0);
    assert_eq!(endowment(3), 0);
    assert_eq!(endowment(4), 1);
    assert_eq!(endowment(1000), 250);
    assert_eq!(endowment(1003), 250);
    assert_eq!(endowment(u128::MAX), u128::MAX / 4);
}

#[test]
fn salt_is_the_version_lowest_byte_first() {
    assert_eq!(salt(0), vec![0u8, 0, 0, 0]);
    assert_eq!(salt(1), vec![1u8, 0, 0, 0]);
    assert_eq!(salt(0x0102_0304), vec![4u8, 3, 2, 1]);
    assert_eq!(salt(u32::MAX), vec![255u8, 255, 255, 255]);
}

#[test]
fn unset_address_is_all_zero() {
    assert_eq!(AccountId::unset().bytes, [0u8; 32]);
}

#[test]
fn addresses_compare_by_their_bytes() {
    let mut bytes = [3u8; 32];
    let a = AccountId::from_bytes(bytes);
    assert!(a.same(&AccountId::from_bytes([3u8; 32])));
    bytes[31] = 4;
    assert!(!a.same(&AccountId::from_bytes(bytes)));
    let c = CodeHash::from_bytes([5u8; 32]);
    assert!(c.same(&CodeHash::from_bytes([5u8; 32])));
    assert!(!c.same(&CodeHash::from_bytes([6u8; 32])));
}

#[test]
fn derived_address_is_the_digest_of_deployer_code_and_salt() {
    let address = Host::derive_address(&parent_address(), &child_code(), &vec![1u8, 0, 0, 0]);
    assert_eq!(address.bytes, CHILD_UNDER_VERSION_1);
    let without_salt = Host::derive_address(&parent_address(), &child_code(), &Vec::new());
    assert_eq!(
        without_salt.bytes,
        [
            23, 123, 103, 61, 30, 80, 250, 97, 172, 222, 9, 198, 114, 237, 244, 9, 130, 158, 46,
            94, 66, 175, 195, 181, 235, 240, 38, 88, 194, 232, 211, 214
        ]
    );
}

#[test]
fn derived_address_depends_on_each_input() {
    let base = Host::derive_address(&parent_address(), &child_code(), &salt(1));
    let other_salt = Host::derive_address(&parent_address(), &child_code(), &salt(2));
    let other_code =
        Host::derive_address(&parent_address(), &CodeHash::from_bytes([8u8; 32]), &salt(1));
    let other_deployer =
        Host::derive_address(&AccountId::from_bytes([6u8; 32]), &child_code(), &salt(1));
    assert_eq!(other_salt.bytes, CHILD_UNDER_VERSION_2);
    assert_ne!(base.bytes, other_salt.bytes);
    assert_ne!(base.bytes, other_code.bytes);
    assert_ne!(base.bytes, other_deployer.bytes);
}

#[test]
fn open_account_refuses_a_taken_address() {
    let mut host = Host::new();
    assert_eq!(host.balance(&parent_address()), 0);
    assert!(host.open_account(parent_address(), 10));
    assert!(!host.open_account(parent_address(), 99));
    assert_eq!(host.balance(&parent_address()), 10);
}

#[test]
fn code_is_known_once_registered() {
    let mut host = Host::new();
    assert!(!host.knows_code(&child_code()));
    host.register_code(child_code());
    assert!(host.knows_code(&child_code()));
    assert!(!host.knows_code(&CodeHash::from_bytes([1u8; 32])));
}

#[test]
fn instantiate_moves_the_endowment() {
    let mut host = host_with_parent(100);
    let child = host
        .instantiate(&parent_address(), &child_code(), &vec![1u8, 0, 0, 0], 100, 5)
        .unwrap();
    assert_eq!(child.bytes, CHILD_UNDER_VERSION_1);
    assert_eq!(host.balance(&child), 100);
    assert_eq!(host.balance(&parent_address()), 0);
    assert_eq!(host.resolve(&child).unwrap().get(), 5);
}

#[test]
fn instantiate_at_a_given_address() {
    let mut host = host_with_parent(100);
    let address = AccountId::from_bytes([1u8; 32]);
    let child = host.instantiate_at(address, &parent_address(), &child_code(), 30, 8).unwrap();
    assert_eq!(child.bytes, [1u8; 32]);
    assert_eq!(host.balance(&address), 30);
    assert_eq!(host.balance(&parent_address()), 70);
    assert_eq!(host.resolve(&address).unwrap().get(), 8);
}

#[test]
fn instantiate_fails_on_unknown_code() {
    let mut host = host_with_parent(100);
    let unknown = CodeHash::from_bytes([1u8; 32]);
    let outcome = host.instantiate(&parent_address(), &unknown, &salt(1), 10, 5);
    assert_eq!(outcome.unwrap_err(), InstantiationError::UnknownCode);
    assert_eq!(host.balance(&parent_address()), 100);
}

#[test]
fn instantiate_fails_on_short_balance() {
    let mut host = host_with_parent(100);
    let outcome = host.instantiate(&parent_address(), &child_code(), &salt(1), 101, 5);
    assert_eq!(outcome.unwrap_err(), InstantiationError::InsufficientBalance);
    assert_eq!(host.balance(&parent_address()), 100);
    let stranger = AccountId::from_bytes([2u8; 32]);
    let outcome = host.instantiate(&stranger, &child_code(), &salt(1), 1, 5);
    assert_eq!(outcome.unwrap_err(), InstantiationError::InsufficientBalance);
}

#[test]
fn instantiate_fails_on_a_taken_address() {
    let mut host = host_with_parent(100);
    let outcome = host.instantiate_at(parent_address(), &parent_address(), &child_code(), 10, 5);
    assert_eq!(outcome.unwrap_err(), InstantiationError::AddressCollision);
    assert_eq!(host.balance(&parent_address()), 100);
}

#[test]
fn unknown_code_is_reported_before_a_collision() {
    let mut host = host_with_parent(100);
    let unknown = CodeHash::from_bytes([1u8; 32]);
    let outcome = host.instantiate_at(parent_address(), &parent_address(), &unknown, 1000, 5);
    assert_eq!(outcome.unwrap_err(), InstantiationError::UnknownCode);
}

#[test]
fn collision_is_reported_before_a_short_balance() {
    let mut host = host_with_parent(100);
    let outcome = host.instantiate_at(parent_address(), &parent_address(), &child_code(), 1000, 5);
    assert_eq!(outcome.unwrap_err(), InstantiationError::AddressCollision);
}

#[test]
fn resolve_fails_where_no_unit_lives() {
    let host = host_with_parent(100);
    let nowhere = AccountId::from_bytes([1u8; 32]);
    assert_eq!(host.resolve(&nowhere).unwrap_err(), DereferenceError::UnknownAddress);
    assert_eq!(host.resolve(&parent_address()).unwrap_err(), DereferenceError::NotAUnit);
}

#[test]
fn parent_with_two_children() {
    let mut host = host_with_parent(1000);
    let own = parent_address();
    let mut parent = Testing::new(&mut host, &own, 1, &child_code()).unwrap();
    let child_a = parent.from_constructor();
    assert_eq!(child_a.bytes, CHILD_UNDER_VERSION_1);
    assert_eq!(host.balance(&child_a), 250);
    assert_eq!(host.balance(&own), 750);
    assert_eq!(parent.get_from_constructor(&host), Ok(1111));

    assert_eq!(parent.deploy(&mut host, &own, 2, &child_code()), Ok(()));
    let child_b = parent.from_method();
    assert_eq!(child_b.bytes, CHILD_UNDER_VERSION_2);
    assert_eq!(host.balance(&child_b), 187);
    assert_eq!(host.balance(&own), 563);
    assert_eq!(parent.get_from_method(&host), Ok(9999));
    assert_eq!(parent.get_from_constructor(&host), Ok(1111));
    assert_eq!(host.balance(&child_a), 250);
}

#[test]
fn initial_values_of_the_two_slots() {
    assert_eq!(CONSTRUCTOR_VALUE, 1111);
    assert_eq!(METHOD_VALUE, 9999);
}

#[test]
fn same_version_collides() {
    let mut host = host_with_parent(1000);
    let own = parent_address();
    let first = Testing::internal_deploy(&mut host, &own, 5, 1, &child_code()).unwrap();
    let second = Testing::internal_deploy(&mut host, &own, 6, 1, &child_code());
    assert_eq!(second.unwrap_err(), InstantiationError::AddressCollision);
    assert_eq!(host.balance(&own), 750);
    assert_eq!(host.balance(&first), 250);
    assert_eq!(host.resolve(&first).unwrap().get(), 5);
}

#[test]
fn same_inputs_derive_the_same_address_on_any_host() {
    let own = parent_address();
    let mut rich = host_with_parent(1_000_000);
    let mut poor = host_with_parent(0);
    let on_rich = Testing::internal_deploy(&mut rich, &own, 1, 7, &child_code()).unwrap();
    let on_poor = Testing::internal_deploy(&mut poor, &own, 2, 7, &child_code()).unwrap();
    assert_eq!(on_rich.bytes, on_poor.bytes);
}

#[test]
fn endowment_leaves_the_remainder_with_the_parent() {
    let own = parent_address();
    let mut host = host_with_parent(1003);
    let child = Testing::internal_deploy(&mut host, &own, 1, 1, &child_code()).unwrap();
    assert_eq!(host.balance(&child), 250);
    assert_eq!(host.balance(&own), 753);

    let mut host = host_with_parent(3);
    let child = Testing::internal_deploy(&mut host, &own, 1, 1, &child_code()).unwrap();
    assert_eq!(host.balance(&child), 0);
    assert_eq!(host.balance(&own), 3);

    let mut host = host_with_parent(u128::MAX);
    let child = Testing::internal_deploy(&mut host, &own, 1, 1, &child_code()).unwrap();
    assert_eq!(host.balance(&child), u128::MAX / 4);
    assert_eq!(host.balance(&own), u128::MAX - u128::MAX / 4);
}

#[test]
fn provisioning_leaves_other_balances_alone() {
    let own = parent_address();
    let mut host = host_with_parent(1000);
    let bystander = AccountId::from_bytes([2u8; 32]);
    assert!(host.open_account(bystander, 77));
    Testing::internal_deploy(&mut host, &own, 1, 1, &child_code()).unwrap();
    assert_eq!(host.balance(&bystander), 77);
}

#[test]
fn handle_round_trip() {
    let own = parent_address();
    let mut host = host_with_parent(1000);
    let values = [0u32, 1, 1111, 9999, u32::MAX];
    let mut version: u32 = 0;
    for value in values {
        let child = Testing::internal_deploy(&mut host, &own, value, version, &child_code());
        assert_eq!(host.resolve(&child.unwrap()).unwrap().get(), value);
        version += 1;
    }
}

#[test]
fn deploy_touches_only_its_own_slot() {
    let own = parent_address();
    let mut host = host_with_parent(1000);
    let mut parent = Testing::new(&mut host, &own, 1, &child_code()).unwrap();
    let before = parent.from_constructor();
    assert_eq!(parent.from_method().bytes, [0u8; 32]);
    parent.deploy(&mut host, &own, 2, &child_code()).unwrap();
    parent.deploy(&mut host, &own, 3, &child_code()).unwrap();
    assert_eq!(parent.from_constructor().bytes, before.bytes);
    assert_ne!(parent.from_method().bytes, before.bytes);
    assert_eq!(parent.get_from_constructor(&host), Ok(1111));
    assert_eq!(parent.get_from_method(&host), Ok(9999));
}

#[test]
fn failed_deploy_changes_nothing() {
    let own = parent_address();
    let mut host = host_with_parent(1000);
    let mut parent = Testing::new(&mut host, &own, 1, &child_code()).unwrap();
    parent.deploy(&mut host, &own, 2, &child_code()).unwrap();
    let slot = parent.from_method();
    let balance = host.balance(&own);
    assert_eq!(
        parent.deploy(&mut host, &own, 2, &child_code()),
        Err(InstantiationError::AddressCollision)
    );
    let unknown = CodeHash::from_bytes([1u8; 32]);
    assert_eq!(
        parent.deploy(&mut host, &own, 3, &unknown),
        Err(InstantiationError::UnknownCode)
    );
    assert_eq!(parent.from_method().bytes, slot.bytes);
    assert_eq!(host.balance(&own), balance);
    assert_eq!(parent.get_from_method(&host), Ok(9999));
}

#[test]
fn construction_fails_on_unknown_code() {
    let own = parent_address();
    let mut host = Host::new();
    assert!(host.open_account(own, 1000));
    let outcome = Testing::new(&mut host, &own, 1, &child_code());
    assert_eq!(outcome.unwrap_err(), InstantiationError::UnknownCode);
    assert_eq!(host.balance(&own), 1000);
}

#[test]
fn unset_slot_does_not_resolve() {
    let own = parent_address();
    let mut host = host_with_parent(1000);
    let parent = Testing::new(&mut host, &own, 1, &child_code()).unwrap();
    assert_eq!(parent.get_from_method(&host), Err(DereferenceError::UnknownAddress));
}

#[test]
fn reads_through_a_handle_repeat() {
    let own = parent_address();
    let mut host = host_with_parent(1000);
    let parent = Testing::new(&mut host, &own, 1, &child_code()).unwrap();
    let first = parent.get_from_constructor(&host);
    let second = parent.get_from_constructor(&host);
    let third = parent.get_from_constructor(&host);
    assert_eq!(first, Ok(1111));
    assert_eq!(second, first);
    assert_eq!(third, first);
    assert_eq!(host.balance(&parent.from_constructor()), 250);
}

#[test]
fn constructed_parent_holds_the_child_and_an_unset_slot() {
    let child = AccountId::from_bytes([4u8; 32]);
    let parent = Testing::constructed(child);
    assert_eq!(parent.from_constructor().bytes, [4u8; 32]);
    assert_eq!(parent.from_method().bytes, [0u8; 32]);
}

#[test]
fn recorded_child_overwrites_only_the_method_slot() {
    let mut parent = Testing::constructed(AccountId::from_bytes([4u8; 32]));
    parent.record_deployed(AccountId::from_bytes([5u8; 32]));
    assert_eq!(parent.from_method().bytes, [5u8; 32]);
    parent.record_deployed(AccountId::from_bytes([6u8; 32]));
    assert_eq!(parent.from_method().bytes, [6u8; 32]);
    assert_eq!(parent.from_constructor().bytes, [4u8; 32]);
}
