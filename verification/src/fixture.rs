//! A ready-made starting point for examples and tests: a contract that has not
//! been initialized yet, and the identities that a first scenario needs.

use vstd::prelude::*;
use crate::address::Address;
use crate::contract::{MassPayoutContract, MassPayoutContractTrait};
use crate::ledger::Ledger;

verus! {

/// The text form in which every character is `byte`. No network knows such an
/// address: it only has to differ from the others.
pub open spec fn filled(byte: u8) -> Seq<u8> {
    Seq::new(56, |i: int| byte)
}

/// What `create_test_basic_data` hands out.
pub struct TestData {
    /// The identity that issues the asset.
    pub token_admin: Address,
    /// The asset that the escrow is to hold.
    pub usdc_id: Address,
    /// The escrow's own identity, under which the asset ledger knows it.
    pub contract_id: Address,
    /// The escrow contract, not yet initialized.
    pub contract: MassPayoutContract,
    /// The identity that is to administer the escrow.
    pub admin: Address,
}

/// A contract on which nothing has been called yet, with four identities, no
/// two of them the same: the one made of `T`s issues the asset made of `U`s,
/// the one made of `C`s is the escrow and the one made of `A`s is to
/// administer it.
pub fn create_test_basic_data() -> (data: TestData)
    ensures
        data.contract.wf(),
        data.contract@ == Ledger::empty(),
        data.token_admin.strkey@ == filled(84),
        data.usdc_id.strkey@ == filled(85),
        data.contract_id.strkey@ == filled(67),
        data.admin.strkey@ == filled(65),
        data.token_admin != data.usdc_id,
        data.token_admin != data.contract_id,
        data.token_admin != data.admin,
        data.usdc_id != data.contract_id,
        data.usdc_id != data.admin,
        data.contract_id != data.admin,
{
    let token_admin = Address::new([84u8;56]);
    let usdc_id = Address::new([85u8;56]);
    let contract_id = Address::new([67u8;56]);
    let admin = Address::new([65u8;56]);
    assert(token_admin.strkey@ =~= filled(84));
    assert(usdc_id.strkey@ =~= filled(85));
    assert(contract_id.strkey@ =~= filled(67));
    assert(admin.strkey@ =~= filled(65));
    assert(token_admin.strkey@[0] == 84 && usdc_id.strkey@[0] == 85 && contract_id.strkey@[0] == 67
        && admin.strkey@[0] == 65);
    TestData { token_admin, usdc_id, contract_id, contract: MassPayoutContract::new(), admin }
}

} // verus!
