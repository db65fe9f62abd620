use token_contracts::factory::address::null_address;
use token_contracts::factory::contract::{
    execute, execute_burn, execute_mint, execute_revoke, execute_transfer, execute_update_supply,
    instantiate, query, query_info, query_mintable, QueryResponse,
};
use token_contracts::factory::error::ContractError;
use token_contracts::factory::msg::{
    ExecuteMsg, InstantiateMsg, MintableResponse, QueryMsg, Receiver, TokenInfoResponse,
};
use token_contracts::factory::state::{SupplyLedger, TopKey};
use token_contracts::response::{Attribute, Instruction, Response};

const CONTRACT: &str = "osmo1q5gpkf3383r4yhtgwdlgn9yl426upj7ku8k0wqsdrq3juw2yfadq6vex7n";
const ADMIN: &str = "osmo19g65qj6kv9k80q5dnz36awwyeldwtu8mhayddz";
const USER0: &str = "osmo1fadx2urms6geefajhhyd8hhf7nls59fq6adez9";
const USER1: &str = "osmo1w3lc49dq4wmvrnxhutklsqcwryjz7wj9ty5ytx";

/// A stand-in for the host: it validates addresses, keeps the balances of
/// the unit and the authority over it, and carries out what a response
/// emits, all or nothing.
struct TestEnv {
    ledger: SupplyLedger,
    contract_addr: String,
    admin: String,
    users: Vec<String>,
    denom: String,
    balances: Vec<(String, u128)>,
    authority: String,
}

#[derive(Debug)]
enum Failure {
    Contract(ContractError),
    Host(&'static str),
}

fn valid_address(address: &str) -> bool {
    address.starts_with("osmo1") && null_address(address).is_some()
}

impl TestEnv {
    fn balance(&self, address: &str) -> u128 {
        self.balances.iter().find(|b| b.0 == address).map(|b| b.1).unwrap_or(0)
    }

    fn supply(&self) -> u128 {
        self.balances.iter().map(|b| b.1).sum()
    }

    fn credit(balances: &mut Vec<(String, u128)>, address: &str, amount: u128) {
        match balances.iter_mut().find(|b| b.0 == address) {
            Some(b) => b.1 += amount,
            None => balances.push((address.to_string(), amount)),
        }
    }

    fn debit(balances: &mut Vec<(String, u128)>, address: &str, amount: u128) -> Result<(), Failure> {
        match balances.iter_mut().find(|b| b.0 == address) {
            Some(b) if b.1 >= amount => {
                b.1 -= amount;
                Ok(())
            }
            _ => Err(Failure::Host("insufficient funds")),
        }
    }

    fn apply(&mut self, response: &Response) -> Result<(), Failure> {
        let mut balances = self.balances.clone();
        let mut authority = self.authority.clone();
        for m in &response.messages {
            match m {
                Instruction::CreateDenom { sender, subdenom } => {
                    assert_eq!(format!("factory/{}/{}", sender, subdenom), self.denom);
                    authority = sender.clone();
                }
                Instruction::Mint { sender, denom, amount, mint_to_address } => {
                    assert_eq!(denom, &self.denom);
                    if *sender != authority {
                        return Err(Failure::Host("unauthorized"));
                    }
                    Self::credit(&mut balances, mint_to_address, *amount);
                }
                Instruction::Burn { sender, denom, amount, burn_from_address } => {
                    assert_eq!(denom, &self.denom);
                    if *sender != authority {
                        return Err(Failure::Host("unauthorized"));
                    }
                    Self::debit(&mut balances, burn_from_address, *amount)?;
                }
                Instruction::ChangeAdmin { sender, denom, new_admin } => {
                    assert_eq!(denom, &self.denom);
                    if *sender != authority {
                        return Err(Failure::Host("unauthorized"));
                    }
                    authority = new_admin.clone();
                }
                Instruction::Send { to_address, denom, amount } => {
                    assert_eq!(denom, &self.denom);
                    Self::debit(&mut balances, &self.contract_addr, *amount)?;
                    Self::credit(&mut balances, to_address, *amount);
                }
            }
        }
        self.balances = balances;
        self.authority = authority;
        Ok(())
    }

    fn execute(&mut self, msg: ExecuteMsg, sender: &str) -> Result<Response, Failure> {
        let valid: Vec<bool> = match &msg {
            ExecuteMsg::Mint(r) | ExecuteMsg::Send(r) => {
                r.iter().map(|x| valid_address(&x.address)).collect()
            }
            _ => vec![],
        };
        let mut ledger = self.ledger.clone();
        let contract = self.contract_addr.clone();
        let response =
            execute(&mut ledger, sender, &contract, msg, &valid).map_err(Failure::Contract)?;
        self.apply(&response)?;
        self.ledger = ledger;
        Ok(response)
    }

    fn token_info(&self) -> TokenInfoResponse {
        match query(&self.ledger, &self.contract_addr, QueryMsg::TokenInfo, self.supply(), &self.authority) {
            Some(QueryResponse::TokenInfo(info)) => info,
            _ => panic!("no token info"),
        }
    }

    fn mintable(&self) -> MintableResponse {
        match query(&self.ledger, &self.contract_addr, QueryMsg::Mintable, self.supply(), &self.authority) {
            Some(QueryResponse::Mintable(m)) => m,
            _ => panic!("no mintable status"),
        }
    }
}

fn instantiate_contract(initial_supply: u128, max_supply: u128) -> TestEnv {
    let (ledger, response) = instantiate(
        ADMIN,
        CONTRACT,
        InstantiateMsg {
            symbol: "TEST".to_string(),
            initial_supply: Some(initial_supply),
            max_supply: Some(max_supply),
            admin: None,
        },
    )
    .unwrap();
    let mut test_env = TestEnv {
        ledger,
        contract_addr: CONTRACT.to_string(),
        admin: ADMIN.to_string(),
        users: vec![USER0.to_string(), USER1.to_string()],
        denom: format!("factory/{}/tfa/TEST", CONTRACT),
        balances: vec![],
        authority: String::new(),
    };
    assert_eq!(test_env.ledger.denom, test_env.denom);
    test_env.apply(&response).unwrap();
    test_env
}

fn receiver(address: &str, amount: u128) -> Receiver {
    Receiver { address: address.to_string(), amount }
}

fn attribute(key: &str, value: &str) -> Attribute {
    Attribute { key: key.to_string(), value: value.to_string() }
}

#[test]
fn test_instantiate() {
    // instantiate the contract with 100 initial supply
    let test_env = instantiate_contract(1_00u128, 1_000u128);

    let balance = test_env.balance(&test_env.contract_addr);

    assert_eq!(balance, 1_00u128);

    // instantiate the contract with 0 initial supply
    let test_env = instantiate_contract(0u128, 1_000u128);

    let balance = test_env.balance(&test_env.contract_addr);

    assert_eq!(balance, 0u128);
}

#[test]
fn mint_burn() {
    let mut test_env = instantiate_contract(1_00u128, 300u128);
    let admin = test_env.admin.clone();
    let users = test_env.users.clone();

    // mint 100 each tokens to 2 test addresses
    test_env
        .execute(
            ExecuteMsg::Mint(vec![receiver(&users[0], 100u128), receiver(&users[1], 100u128)]),
            &admin,
        )
        .unwrap();

    // check that the minted total is now 300
    let res = test_env.token_info();

    assert_eq!(res.minted, 300u128);

    // try to mint 1 more tokens, should fail
    let res = test_env.execute(ExecuteMsg::Mint(vec![receiver(&users[0], 1u128)]), &admin);

    assert!(res.is_err());
    assert!(matches!(res, Err(Failure::Contract(ContractError::SupplyCap))));

    // check mintable query

    let res = test_env.mintable();

    assert!(res.cap_reached);

    // burn 100 tokens from the initial mint
    test_env.execute(ExecuteMsg::Burn(100u128), &admin).unwrap();

    // check that the supply is now 200
    let res = test_env.token_info();

    assert_eq!(res.current_supply, 200u128);
    assert_eq!(res.minted, 300u128);
    assert_eq!(res.burned, 100u128);

    // recheck mintable query. cap should still be reached as burning does not increase the mintable amount

    let res = test_env.mintable();

    assert!(res.cap_reached);
}

#[test]
fn test_revoke() {
    let mut test_env = instantiate_contract(1_00u128, 300u128);
    let admin = test_env.admin.clone();
    let users = test_env.users.clone();

    // mint 50 each tokens to 2 test addresses

    test_env
        .execute(
            ExecuteMsg::Mint(vec![receiver(&users[0], 50u128), receiver(&users[1], 50u128)]),
            &admin,
        )
        .unwrap();

    // check that the minted total is now 200
    let res = test_env.token_info();

    assert_eq!(res.minted, 200u128);

    // revoke token admin
    test_env.execute(ExecuteMsg::Revoke, &admin).unwrap();

    // check that the mintable query shows that the admin has been revoked and the cap is not reached
    let res = test_env.mintable();

    assert!(res.revoked);
    assert!(!res.cap_reached);

    // try to mint 1 more token, should fail

    let res = test_env.execute(ExecuteMsg::Mint(vec![receiver(&users[0], 1u128)]), &admin);

    assert!(res.is_err());
    assert!(matches!(res, Err(Failure::Host(_))));
    assert_eq!(test_env.ledger.total_minted, 200);

    // try to burn 1 token, should fail
    let res = test_env.execute(ExecuteMsg::Burn(1u128), &admin);

    assert!(res.is_err());

    let new_admin = test_env.authority.clone();

    // ensure the new admin is the expected null address
    assert_eq!(new_admin, "osmo1qqqqqqqqqqqqqqqqqqqqqqqqqqqqqqqqmcn030");
}

#[test]
fn test_cap() {
    let mut test_env = instantiate_contract(1_00u128, 300u128);
    let admin = test_env.admin.clone();
    let users = test_env.users.clone();

    // mint 100 each tokens to 2 test addresses
    test_env
        .execute(
            ExecuteMsg::Mint(vec![receiver(&users[0], 100u128), receiver(&users[1], 100u128)]),
            &admin,
        )
        .unwrap();

    // check that the minted total is now 300
    let res = test_env.token_info();

    assert_eq!(res.minted, 300u128);

    // check that the cap is reached
    let res = test_env.mintable();

    assert!(res.cap_reached);

    // try to mint 1 more token, should fail
    let res = test_env.execute(ExecuteMsg::Mint(vec![receiver(&users[0], 1u128)]), &admin);

    assert!(res.is_err());

    // burn 100 tokens from the initial mint
    test_env.execute(ExecuteMsg::Burn(100u128), &admin).unwrap();

    // make sure we still can't mint
    let res = test_env.execute(ExecuteMsg::Mint(vec![receiver(&users[0], 1u128)]), &admin);

    assert!(res.is_err());

    // recheck the query
    let res = test_env.mintable();

    assert!(res.cap_reached);

    // increase the cap to 400
    test_env.execute(ExecuteMsg::UpdateSupply(400u128), &admin).unwrap();

    // try to mint 101 tokens, should fail
    let res = test_env.execute(ExecuteMsg::Mint(vec![receiver(&users[0], 101u128)]), &admin);

    assert!(res.is_err());

    // try to mint 100 tokens, should pass
    test_env.execute(ExecuteMsg::Mint(vec![receiver(&users[0], 100u128)]), &admin).unwrap();

    // check that the cap is reached again

    let res = test_env.mintable();

    assert!(res.cap_reached);

    // try to reduce the cap to 300, should fail
    let res = test_env.execute(ExecuteMsg::UpdateSupply(300u128), &admin);

    assert!(res.is_err());
    assert!(matches!(res, Err(Failure::Contract(ContractError::CurrentSupply))));

    // change cap to 0, should pass
    test_env.execute(ExecuteMsg::UpdateSupply(0u128), &admin).unwrap();

    // check that the cap is not reached
    let res = test_env.mintable();

    assert!(!res.cap_reached);

    // try to mint 100 tokens, should pass
    test_env.execute(ExecuteMsg::Mint(vec![receiver(&users[0], 100u128)]), &admin).unwrap();

    // change cap down to 500, should pass
    test_env.execute(ExecuteMsg::UpdateSupply(500u128), &admin).unwrap();

    // make sure we can't mint 1 more token
    let res = test_env.execute(ExecuteMsg::Mint(vec![receiver(&users[0], 1u128)]), &admin);

    assert!(res.is_err());
}

#[test]
fn test_invalid_messages() {
    let mut test_env = instantiate_contract(1_00u128, 300u128);
    let admin = test_env.admin.clone();
    let users = test_env.users.clone();

    // mint to invalid address
    let res =
        test_env.execute(ExecuteMsg::Mint(vec![receiver("invalid_address", 100u128)]), &admin);

    assert!(res.is_err());
    assert!(matches!(res, Err(Failure::Contract(ContractError::MintInvalid(0)))));

    // mint invalid amount
    let res = test_env.execute(ExecuteMsg::Mint(vec![receiver(&users[0], 0u128)]), &admin);

    assert!(res.is_err());
    assert!(matches!(res, Err(Failure::Contract(ContractError::MintInvalid(0)))));

    // send to invalid address
    let res =
        test_env.execute(ExecuteMsg::Send(vec![receiver("invalid_address", 100u128)]), &admin);

    assert!(res.is_err());
    assert!(matches!(res, Err(Failure::Contract(ContractError::TransferInvalid(0)))));

    // send invalid amount
    let res = test_env.execute(ExecuteMsg::Send(vec![receiver(&users[0], 0u128)]), &admin);

    assert!(res.is_err());
    assert!(matches!(res, Err(Failure::Contract(ContractError::TransferInvalid(0)))));
}

#[test]
fn only_the_admin_executes() {
    let mut test_env = instantiate_contract(100, 300);
    let before = test_env.ledger.clone();
    for msg in [
        ExecuteMsg::Mint(vec![receiver(USER0, 1)]),
        ExecuteMsg::Send(vec![receiver(USER0, 1)]),
        ExecuteMsg::Burn(1),
        ExecuteMsg::UpdateSupply(0),
        ExecuteMsg::Revoke,
    ] {
        let res = test_env.execute(msg, USER0);
        assert!(matches!(res, Err(Failure::Contract(ContractError::Unauthorized))));
    }
    assert_eq!(test_env.ledger, before);
    assert_eq!(test_env.authority, CONTRACT);
}

#[test]
fn instantiate_checks_the_cap_and_names_the_unit() {
    let msg = |initial, max, admin: Option<&str>| InstantiateMsg {
        symbol: "TEST".to_string(),
        initial_supply: initial,
        max_supply: max,
        admin: admin.map(|a| a.to_string()),
    };
    assert_eq!(instantiate(ADMIN, CONTRACT, msg(Some(301), Some(300), None)).unwrap_err(), ContractError::SupplyCap);
    // at the cap, without a cap, and with nothing given
    let (ledger, response) = instantiate(ADMIN, CONTRACT, msg(Some(300), Some(300), Some(USER1))).unwrap();
    assert_eq!(
        ledger,
        SupplyLedger {
            admin: USER1.to_string(),
            denom: format!("factory/{}/tfa/TEST", CONTRACT),
            symbol: "TEST".to_string(),
            max_supply: 300,
            total_minted: 300,
        }
    );
    assert_eq!(
        response,
        Response {
            messages: vec![
                Instruction::CreateDenom {
                    sender: CONTRACT.to_string(),
                    subdenom: "tfa/TEST".to_string()
                },
                Instruction::Mint {
                    sender: CONTRACT.to_string(),
                    denom: format!("factory/{}/tfa/TEST", CONTRACT),
                    amount: 300,
                    mint_to_address: CONTRACT.to_string(),
                },
            ],
            attributes: vec![
                attribute("action", "instantiate"),
                attribute("action", "create_denom"),
                attribute("initial_mint", "300"),
            ],
        }
    );
    let (ledger, _) = instantiate(ADMIN, CONTRACT, msg(Some(5), Some(0), None)).unwrap();
    assert_eq!((ledger.max_supply, ledger.total_minted), (0, 5));
    let (ledger, response) = instantiate(ADMIN, CONTRACT, msg(None, None, None)).unwrap();
    assert_eq!(ledger.admin, ADMIN);
    assert_eq!((ledger.max_supply, ledger.total_minted), (0, 0));
    assert_eq!(
        response,
        Response {
            messages: vec![Instruction::CreateDenom {
                sender: CONTRACT.to_string(),
                subdenom: "tfa/TEST".to_string()
            }],
            attributes: vec![attribute("action", "instantiate"), attribute("action", "create_denom")],
        }
    );
}

#[test]
fn mint_emits_one_issuance_per_receiver() {
    let mut test_env = instantiate_contract(100, 300);
    let denom = test_env.denom.clone();
    let response = execute_mint(
        &mut test_env.ledger,
        CONTRACT,
        &[receiver(USER0, 120), receiver(USER1, 80)],
        &[true, true],
    )
    .unwrap();
    assert_eq!(test_env.ledger.total_minted, 300);
    assert_eq!(
        response,
        Response {
            messages: vec![
                Instruction::Mint {
                    sender: CONTRACT.to_string(),
                    denom: denom.clone(),
                    amount: 120,
                    mint_to_address: USER0.to_string(),
                },
                Instruction::Mint {
                    sender: CONTRACT.to_string(),
                    denom: denom.clone(),
                    amount: 80,
                    mint_to_address: USER1.to_string(),
                },
            ],
            attributes: vec![
                attribute("action", "mint"),
                attribute("recipient", USER0),
                attribute("amount", "120"),
                attribute("recipient", USER1),
                attribute("amount", "80"),
                attribute("total_minted", "100"),
            ],
        }
    );
}

#[test]
fn mint_refusals() {
    let mut test_env = instantiate_contract(100, 300);
    let before = test_env.ledger.clone();
    let batch = [receiver(USER0, 10), receiver(USER1, 0), receiver("x", 500)];
    // the first unacceptable item names the refusal, before the cap is looked at
    assert_eq!(
        execute_mint(&mut test_env.ledger, CONTRACT, &batch, &[true, true, false]),
        Err(ContractError::MintInvalid(1))
    );
    assert_eq!(
        execute_mint(&mut test_env.ledger, CONTRACT, &batch, &[false, true, false]),
        Err(ContractError::MintInvalid(0))
    );
    // an address without a verdict counts as invalid
    assert_eq!(
        execute_mint(&mut test_env.ledger, CONTRACT, &[receiver(USER0, 10), receiver(USER1, 10)], &[true]),
        Err(ContractError::MintInvalid(1))
    );
    // the batch as a whole must fit
    assert_eq!(
        execute_mint(&mut test_env.ledger, CONTRACT, &[receiver(USER0, 100), receiver(USER1, 101)], &[true, true]),
        Err(ContractError::SupplyCap)
    );
    assert_eq!(test_env.ledger, before);
    // sums beyond the counter are past any cap, and past no cap too
    assert_eq!(
        execute_mint(
            &mut test_env.ledger,
            CONTRACT,
            &[receiver(USER0, u128::MAX), receiver(USER1, u128::MAX)],
            &[true, true]
        ),
        Err(ContractError::SupplyCap)
    );
    execute_update_supply(&mut test_env.ledger, 0).unwrap();
    assert_eq!(
        execute_mint(&mut test_env.ledger, CONTRACT, &[receiver(USER0, u128::MAX)], &[true]),
        Err(ContractError::SupplyCap)
    );
    assert_eq!(
        execute_mint(
            &mut test_env.ledger,
            CONTRACT,
            &[receiver(USER0, u128::MAX), receiver(USER1, 1), receiver("", 0)],
            &[true, true, true]
        ),
        Err(ContractError::MintInvalid(2))
    );
    execute_mint(&mut test_env.ledger, CONTRACT, &[receiver(USER0, u128::MAX - 100)], &[true]).unwrap();
    assert_eq!(test_env.ledger.total_minted, u128::MAX);
    // an empty batch mints nothing
    let response = execute_mint(&mut test_env.ledger, CONTRACT, &[], &[]).unwrap();
    assert!(response.messages.is_empty());
    assert_eq!(
        response.attributes,
        vec![
            attribute("action", "mint"),
            attribute("total_minted", "340282366920938463463374607431768211455")
        ]
    );
}

#[test]
fn transfer_emits_one_send_per_receiver() {
    let mut test_env = instantiate_contract(100, 300);
    let admin = test_env.admin.clone();
    let denom = test_env.denom.clone();
    let response = test_env
        .execute(ExecuteMsg::Send(vec![receiver(USER0, 30), receiver(USER1, 45)]), &admin)
        .unwrap();
    assert_eq!(
        response,
        Response {
            messages: vec![
                Instruction::Send { to_address: USER0.to_string(), denom: denom.clone(), amount: 30 },
                Instruction::Send { to_address: USER1.to_string(), denom: denom.clone(), amount: 45 },
            ],
            attributes: vec![
                attribute("action", "transfer"),
                attribute("recipient", USER0),
                attribute("amount", "30"),
                attribute("recipient", USER1),
                attribute("amount", "45"),
                attribute("total_transferred", "75"),
            ],
        }
    );
    assert_eq!(test_env.balance(CONTRACT), 25);
    assert_eq!(test_env.balance(USER0), 30);
    assert_eq!(test_env.balance(USER1), 45);
    assert_eq!(test_env.ledger.total_minted, 100);
    // more than the contract holds is the host's to refuse
    let res = test_env.execute(ExecuteMsg::Send(vec![receiver(USER0, 26)]), &admin);
    assert!(matches!(res, Err(Failure::Host(_))));
    // the item at which the total leaves the range of amounts is refused
    assert_eq!(
        execute_transfer(
            &test_env.ledger,
            &[receiver(USER0, u128::MAX), receiver(USER1, 1), receiver(USER1, 0)],
            &[true, true, true]
        ),
        Err(ContractError::TransferInvalid(1))
    );
    assert_eq!(
        execute_transfer(&test_env.ledger, &[receiver(USER0, 1), receiver(USER1, 1)], &[true, false]),
        Err(ContractError::TransferInvalid(1))
    );
    assert_eq!(
        execute_transfer(&test_env.ledger, &[receiver(USER0, 1)], &[]),
        Err(ContractError::TransferInvalid(0))
    );
}

#[test]
fn burn_and_revoke_responses() {
    let test_env = instantiate_contract(100, 300);
    assert_eq!(
        execute_burn(&test_env.ledger, CONTRACT, 40).unwrap(),
        Response {
            messages: vec![Instruction::Burn {
                sender: CONTRACT.to_string(),
                denom: test_env.denom.clone(),
                amount: 40,
                burn_from_address: CONTRACT.to_string(),
            }],
            attributes: vec![attribute("action", "burn"), attribute("amount", "40")],
        }
    );
    assert_eq!(
        execute_revoke(&test_env.ledger, CONTRACT).unwrap(),
        Response {
            messages: vec![Instruction::ChangeAdmin {
                sender: CONTRACT.to_string(),
                denom: test_env.denom.clone(),
                new_admin: "osmo1qqqqqqqqqqqqqqqqqqqqqqqqqqqqqqqqmcn030".to_string(),
            }],
            attributes: vec![attribute("action", "burn_minter")],
        }
    );
    assert_eq!(execute_revoke(&test_env.ledger, "not an address"), Err(ContractError::NullAddress));
}

#[test]
fn null_addresses() {
    assert_eq!(
        null_address(USER0),
        Some("osmo1qqqqqqqqqqqqqqqqqqqqqqqqqqqqqqqqmcn030".to_string())
    );
    assert_eq!(
        null_address(CONTRACT),
        Some("osmo1qqqqqqqqqqqqqqqqqqqqqqqqqqqqqqqqmcn030".to_string())
    );
    // the prefix of the chain is kept
    assert_eq!(
        null_address("cosmos1qqqqqqqqqqqqqqqqqqqqqqqqqqqqqqqqnrql8a"),
        Some("cosmos1qqqqqqqqqqqqqqqqqqqqqqqqqqqqqqqqnrql8a".to_string())
    );
    // a damaged checksum, no separator, nothing at all
    assert_eq!(null_address("osmo1fadx2urms6geefajhhyd8hhf7nls59fq6adez8"), None);
    assert_eq!(null_address("invalid_address"), None);
    assert_eq!(null_address(""), None);
}

#[test]
fn update_supply_rules() {
    let mut test_env = instantiate_contract(100, 300);
    assert_eq!(execute_update_supply(&mut test_env.ledger, 99), Err(ContractError::CurrentSupply));
    assert_eq!(test_env.ledger.max_supply, 300);
    let response = execute_update_supply(&mut test_env.ledger, 100).unwrap();
    assert_eq!(response.attributes, vec![attribute("action", "update_metadata")]);
    assert!(response.messages.is_empty());
    assert_eq!(test_env.ledger.max_supply, 100);
    assert!(query_mintable(&test_env.ledger, CONTRACT, CONTRACT).cap_reached);
    execute_update_supply(&mut test_env.ledger, 0).unwrap();
    assert_eq!(test_env.ledger.max_supply, 0);
    assert_eq!(test_env.ledger.total_minted, 100);
    assert_eq!(
        query_mintable(&test_env.ledger, CONTRACT, CONTRACT),
        MintableResponse { cap_reached: false, revoked: false }
    );
    assert_eq!(
        query_mintable(&test_env.ledger, CONTRACT, USER0),
        MintableResponse { cap_reached: false, revoked: true }
    );
}

#[test]
fn token_info_figures() {
    let test_env = instantiate_contract(100, 300);
    assert_eq!(
        query_info(&test_env.ledger, 60),
        Some(TokenInfoResponse {
            symbol: "TEST".to_string(),
            denom: test_env.denom.clone(),
            current_supply: 60,
            max_supply: 300,
            minted: 100,
            burned: 40,
        })
    );
    assert_eq!(query_info(&test_env.ledger, 100).unwrap().burned, 0);
    assert_eq!(query_info(&test_env.ledger, 101), None);
}

#[test]
fn factory_top_keys_are_single_letters() {
    assert_eq!(TopKey::Admin.as_str(), "a");
    assert_eq!(TopKey::Symbol.as_str(), "b");
    assert_eq!(TopKey::Denom.as_str(), "c");
    assert_eq!(TopKey::MaxSupply.as_str(), "d");
    assert_eq!(TopKey::TotalMinted.as_str(), "e");
}
