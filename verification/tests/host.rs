//! Identities on their way between a Soroban host and the ledger: the host
//! names an account or a contract by an `Address`, the ledger by the text of
//! that address.

use mass_payout::{
    get_recipients, Address, Error, MassPayoutContract, MassPayoutContractTrait, Transfer,
};
use soroban_sdk::{Bytes, Env};

const ADMIN: &str = "GAAQCAIBAEAQCAIBAEAQCAIBAEAQCAIBAEAQCAIBAEAQCAIBAEAQDZ7H";
const FIRST: &str = "GABAEAQCAIBAEAQCAIBAEAQCAIBAEAQCAIBAEAQCAIBAEAQCAIBAEJXA";
const SECOND: &str = "GABQGAYDAMBQGAYDAMBQGAYDAMBQGAYDAMBQGAYDAMBQGAYDAMBQHGPC";
const STRANGER: &str = "GAEQSCIJBEEQSCIJBEEQSCIJBEEQSCIJBEEQSCIJBEEQSCIJBEEQSH7S";
const TOKEN: &str = "CADQOBYHA4DQOBYHA4DQOBYHA4DQOBYHA4DQOBYHA4DQOBYHA4DQP5KR";
const ZERO_ACCOUNT: &str = "GAAAAAAAAAAAAAAAAAAAAAAAAAAAAAAAAAAAAAAAAAAAAAAAAAAAAWHF";
const ZERO_CONTRACT: &str = "CAAAAAAAAAAAAAAAAAAAAAAAAAAAAAAAAAAAAAAAAAAAAAAAAAAABSC4";

fn identity(address: &soroban_sdk::Address) -> Address {
    let mut strkey = [0u8; 56];
    address.to_string().copy_into_slice(&mut strkey);
    Address::new(strkey)
}

fn address(env: &Env, identity: &Address) -> soroban_sdk::Address {
    soroban_sdk::Address::from_string_bytes(&Bytes::from_array(env, &identity.strkey))
}

#[test]
fn identity_is_the_text_of_the_host_address() {
    let env = Env::default();
    let admin = soroban_sdk::Address::from_str(&env, ADMIN);
    assert_eq!(&identity(&admin).strkey, ADMIN.as_bytes());
    assert!(address(&env, &identity(&admin)) == admin);
    let token = soroban_sdk::Address::from_str(&env, TOKEN);
    assert_eq!(&identity(&token).strkey, TOKEN.as_bytes());
    assert!(address(&env, &identity(&token)) == token);
}

#[test]
fn host_addresses_are_the_same_exactly_when_their_identities_are() {
    let env = Env::default();
    let names = [ADMIN, FIRST, SECOND, STRANGER, TOKEN, ZERO_ACCOUNT, ZERO_CONTRACT];
    for left in names {
        for right in names {
            let a = soroban_sdk::Address::from_str(&env, left);
            let b = soroban_sdk::Address::from_str(&env, right);
            assert_eq!(identity(&a).same_as(&identity(&b)), a == b);
            assert_eq!(identity(&a) == identity(&b), left == right);
        }
    }
}

#[test]
fn host_addresses_come_back_from_the_ledger() {
    let env = Env::default();
    let admin = soroban_sdk::Address::from_str(&env, ADMIN);
    let token = soroban_sdk::Address::from_str(&env, TOKEN);
    let first = soroban_sdk::Address::from_str(&env, FIRST);
    let second = soroban_sdk::Address::from_str(&env, SECOND);
    let stranger = soroban_sdk::Address::from_str(&env, STRANGER);

    let mut contract = MassPayoutContract::new();
    assert_eq!(contract.initialize(identity(&admin), identity(&token)), Ok(()));
    assert_eq!(contract.set_acc(identity(&admin), identity(&first), 5000), Ok(()));
    assert_eq!(contract.set_acc(identity(&admin), identity(&second), 2450), Ok(()));
    assert_eq!(contract.set_acc(identity(&stranger), identity(&stranger), 1), Err(Error::NotAdmin));
    assert_eq!(contract.set_acc(identity(&token), identity(&first), 1), Err(Error::NotAdmin));

    let state = contract.get_state().unwrap();
    assert!(address(&env, &state.admin) == admin);
    assert!(address(&env, &state.asset_id) == token);
    assert_eq!(state.recipient_count, 2);
    assert_eq!(state.total_entitlement, 7450);

    let recipients = get_recipients(&contract).unwrap();
    assert_eq!(recipients.len(), 2);
    assert!(address(&env, &recipients[0]) == first);
    assert!(address(&env, &recipients[1]) == second);

    let transfers: Vec<Transfer> = contract.payout(identity(&admin), 7450).unwrap();
    assert_eq!(transfers.len(), 2);
    assert!(address(&env, &transfers[0].to) == first);
    assert_eq!(transfers[0].amount, 5000);
    assert!(address(&env, &transfers[1].to) == second);
    assert_eq!(transfers[1].amount, 2450);

    let asked = contract.deposit(identity(&stranger), 10).unwrap();
    assert!(address(&env, &asked.from) == stranger);
    assert_eq!(asked.amount, 10);
}
