use cw20_demurrage::contract::{execute, instantiate, query, query_balance, query_minter, query_token_info};
use cw20_demurrage::clock::Timestamp;
use cw20_demurrage::error::{BasicError, ContractError};
use cw20_demurrage::ledger::Ledger;
use cw20_demurrage::msg::{
    BlockInfo, Cw20Coin, Env, ExecuteMsg, InstantiateMsg, MessageInfo, MinterResponse, QueryMsg,
    WasmExecute,
};
use cw20_demurrage::query::{BalanceResponse, QueryResponse, TokenInfoResponse};

fn mock_env() -> Env {
    Env { block: BlockInfo { height: 12_345, time: Timestamp::from_seconds(1_571_797_419) } }
}

fn mock_info(sender: &str) -> MessageInfo {
    MessageInfo { sender: sender.to_string() }
}

fn get_balance(ledger: &Ledger, address: &str) -> u128 {
    query_balance(ledger, address.to_string()).unwrap().balance
}

fn do_instantiate_with_minter(
    ledger: &mut Ledger,
    addr: &str,
    amount: u128,
    minter: &str,
    cap: Option<u128>,
) -> TokenInfoResponse {
    inner_instantiate(ledger, addr, amount, Some(MinterResponse { minter: minter.to_string(), cap }))
}

fn do_instantiate(ledger: &mut Ledger, addr: &str, amount: u128) -> TokenInfoResponse {
    inner_instantiate(ledger, addr, amount, None)
}

fn inner_instantiate(
    ledger: &mut Ledger,
    addr: &str,
    amount: u128,
    mint: Option<MinterResponse>,
) -> TokenInfoResponse {
    let instantiate_msg = InstantiateMsg {
        name: "Auto Gen".to_string(),
        symbol: "AUTO".to_string(),
        decimals: 3,
        initial_balances: vec![Cw20Coin { address: addr.to_string(), amount }],
        mint: mint.clone(),
        tax_level_minute: 50105908373373,
        period_minutes: 1,
        supply_cap: 10000000,
        sink_address: "sinkaddress".to_string(),
    };
    let info = mock_info("creator");
    let env = mock_env();
    let res = instantiate(ledger, &env, &info, instantiate_msg).unwrap();
    assert_eq!(0, res.messages.len());

    let meta = query_token_info(ledger).unwrap();
    assert_eq!(
        meta,
        TokenInfoResponse {
            name: "Auto Gen".to_string(),
            symbol: "AUTO".to_string(),
            decimals: 3,
            total_supply: amount,
        }
    );
    assert_eq!(get_balance(ledger, addr), amount);
    assert_eq!(query_minter(ledger).unwrap(), mint);
    meta
}

#[test]
fn contract_basic() {
    let mut ledger = Ledger::new();
    let amount: u128 = 11223344;
    let instantiate_msg = InstantiateMsg {
        name: "Cash Token".to_string(),
        symbol: "CASH".to_string(),
        decimals: 9,
        initial_balances: vec![Cw20Coin { address: String::from("addr0000"), amount }],
        mint: None,
        tax_level_minute: 50105908373373,
        period_minutes: 1,
        supply_cap: 10000000,
        sink_address: "sinkaddress".to_string(),
    };
    let info = mock_info("creator");
    let env = mock_env();
    let res = instantiate(&mut ledger, &env, &info, instantiate_msg).unwrap();
    assert_eq!(0, res.messages.len());

    assert_eq!(
        query_token_info(&ledger).unwrap(),
        TokenInfoResponse {
            name: "Cash Token".to_string(),
            symbol: "CASH".to_string(),
            decimals: 9,
            total_supply: amount,
        }
    );
    assert_eq!(get_balance(&ledger, "addr0000"), 11223344);
}

#[test]
fn mintable() {
    let mut ledger = Ledger::new();
    let amount: u128 = 11223344;
    let minter = String::from("asmodat");
    let limit: u128 = 511223344;
    let instantiate_msg = InstantiateMsg {
        name: "Cash Token".to_string(),
        symbol: "CASH".to_string(),
        decimals: 9,
        initial_balances: vec![Cw20Coin { address: "addr0000".into(), amount }],
        mint: Some(MinterResponse { minter: minter.clone(), cap: Some(limit) }),
        tax_level_minute: 50105908373373,
        period_minutes: 1,
        supply_cap: 10000000,
        sink_address: "sinkaddress".to_string(),
    };
    let info = mock_info("creator");
    let env = mock_env();
    let res = instantiate(&mut ledger, &env, &info, instantiate_msg).unwrap();
    assert_eq!(0, res.messages.len());

    assert_eq!(
        query_token_info(&ledger).unwrap(),
        TokenInfoResponse {
            name: "Cash Token".to_string(),
            symbol: "CASH".to_string(),
            decimals: 9,
            total_supply: amount,
        }
    );
    assert_eq!(get_balance(&ledger, "addr0000"), 11223344);
    assert_eq!(
        query_minter(&ledger).unwrap(),
        Some(MinterResponse { minter, cap: Some(limit) }),
    );
}

#[test]
fn mintable_over_cap() {
    let mut ledger = Ledger::new();
    let amount: u128 = 11223344;
    let minter = String::from("asmodat");
    let limit: u128 = 11223300;
    let instantiate_msg = InstantiateMsg {
        name: "Cash Token".to_string(),
        symbol: "CASH".to_string(),
        decimals: 9,
        initial_balances: vec![Cw20Coin { address: String::from("addr0000"), amount }],
        mint: Some(MinterResponse { minter, cap: Some(limit) }),
        tax_level_minute: 50105908373373,
        period_minutes: 1,
        supply_cap: 10000000,
        sink_address: "sinkaddress".to_string(),
    };
    let info = mock_info("creator");
    let env = mock_env();
    let err = instantiate(&mut ledger, &env, &info, instantiate_msg).unwrap_err();
    assert_eq!(
        err,
        ContractError::Std(BasicError::generic_err("Initial supply greater than cap"))
    );
    assert_eq!(ledger, Ledger::new());
}

#[test]
fn can_mint_by_minter() {
    let mut ledger = Ledger::new();

    let genesis = String::from("genesis");
    let amount: u128 = 11223344;
    let minter = String::from("asmodat");
    let limit: u128 = 511223344;
    do_instantiate_with_minter(&mut ledger, &genesis, amount, &minter, Some(limit));

    // minter can mint coins to some winner
    let winner = String::from("lucky");
    let prize: u128 = 222_222_222;
    let msg = ExecuteMsg::Mint { recipient: winner.clone(), amount: prize };

    let info = mock_info(minter.as_ref());
    let env = mock_env();
    let res = execute(&mut ledger, &env, &info, msg).unwrap();
    assert_eq!(0, res.messages.len());
    assert_eq!(get_balance(&ledger, &genesis), amount);
    assert_eq!(get_balance(&ledger, &winner), prize);

    // but cannot mint nothing
    let msg = ExecuteMsg::Mint { recipient: winner.clone(), amount: 0 };
    let info = mock_info(minter.as_ref());
    let env = mock_env();
    let err = execute(&mut ledger, &env, &info, msg).unwrap_err();
    assert_eq!(err, ContractError::InvalidZeroAmount {});

    // but if it exceeds cap (even over multiple rounds), it fails
    let msg = ExecuteMsg::Mint { recipient: winner, amount: 333_222_222 };
    let info = mock_info(minter.as_ref());
    let env = mock_env();
    let err = execute(&mut ledger, &env, &info, msg).unwrap_err();
    assert_eq!(err, ContractError::CannotExceedCap {});
}

#[test]
fn others_cannot_mint() {
    let mut ledger = Ledger::new();
    do_instantiate_with_minter(&mut ledger, "genesis", 1234, "minter", None);

    let msg = ExecuteMsg::Mint { recipient: String::from("lucky"), amount: 222 };
    let info = mock_info("anyone else");
    let env = mock_env();
    let err = execute(&mut ledger, &env, &info, msg).unwrap_err();
    assert_eq!(err, ContractError::Unauthorized {});
}

#[test]
fn minter_can_update_minter_but_not_cap() {
    let mut ledger = Ledger::new();
    let minter = String::from("minter");
    let cap: Option<u128> = Some(3000000);
    do_instantiate_with_minter(&mut ledger, "genesis", 1234, &minter, cap);

    let new_minter = "new_minter";
    let msg = ExecuteMsg::UpdateMinter { new_minter: new_minter.to_string() };

    let info = mock_info(&minter);
    let env = mock_env();
    let res = execute(&mut ledger, &env, &info, msg);
    assert!(res.is_ok());
    let query_minter_msg = QueryMsg::Minter {};
    let res = query(&ledger, &env, query_minter_msg);
    let mint: MinterResponse = match res.unwrap() {
        QueryResponse::Minter(Some(m)) => m,
        other => panic!("no minter in {:?}", other),
    };

    // Minter cannot update cap.
    assert!(mint.cap == cap);
    assert!(mint.minter == new_minter)
}

#[test]
fn others_cannot_update_minter() {
    let mut ledger = Ledger::new();
    let minter = String::from("minter");
    do_instantiate_with_minter(&mut ledger, "genesis", 1234, &minter, None);

    let msg = ExecuteMsg::UpdateMinter { new_minter: String::from("new_minter") };

    let info = mock_info("not the minter");
    let env = mock_env();
    let err = execute(&mut ledger, &env, &info, msg).unwrap_err();
    assert_eq!(err, ContractError::Unauthorized {});
}

#[test]
fn no_one_mints_if_minter_unset() {
    let mut ledger = Ledger::new();
    do_instantiate(&mut ledger, "genesis", 1234);

    let msg = ExecuteMsg::Mint { recipient: String::from("lucky"), amount: 222 };
    let info = mock_info("genesis");
    let env = mock_env();
    let err = execute(&mut ledger, &env, &info, msg).unwrap_err();
    assert_eq!(err, ContractError::Unauthorized {});
}

#[test]
fn instantiate_multiple_accounts() {
    let mut ledger = Ledger::new();
    let amount1: u128 = 11223344;
    let addr1 = String::from("addr0001");
    let amount2: u128 = 7890987;
    let addr2 = String::from("addr0002");
    let info = mock_info("creator");
    let env = mock_env();

    // Fails with duplicate addresses
    let instantiate_msg = InstantiateMsg {
        name: "Bash Shell".to_string(),
        symbol: "BASH".to_string(),
        decimals: 6,
        initial_balances: vec![
            Cw20Coin { address: addr1.clone(), amount: amount1 },
            Cw20Coin { address: addr1.clone(), amount: amount2 },
        ],
        mint: None,
        tax_level_minute: 50105908373373,
        period_minutes: 1,
        supply_cap: 10000000,
        sink_address: "sinkaddress".to_string(),
    };
    let err = instantiate(&mut ledger, &env, &info, instantiate_msg).unwrap_err();
    assert_eq!(err, ContractError::DuplicateInitialBalanceAddresses {});

    // Works with unique addresses
    let instantiate_msg = InstantiateMsg {
        name: "Bash Shell".to_string(),
        symbol: "BASH".to_string(),
        decimals: 6,
        initial_balances: vec![
            Cw20Coin { address: addr1.clone(), amount: amount1 },
            Cw20Coin { address: addr2.clone(), amount: amount2 },
        ],
        mint: None,
        tax_level_minute: 50105908373373,
        period_minutes: 1,
        supply_cap: 10000000,
        sink_address: "sinkaddress".to_string(),
    };
    let res = instantiate(&mut ledger, &env, &info, instantiate_msg).unwrap();
    assert_eq!(0, res.messages.len());
    assert_eq!(
        query_token_info(&ledger).unwrap(),
        TokenInfoResponse {
            name: "Bash Shell".to_string(),
            symbol: "BASH".to_string(),
            decimals: 6,
            total_supply: amount1 + amount2,
        }
    );
    assert_eq!(get_balance(&ledger, &addr1), amount1);
    assert_eq!(get_balance(&ledger, &addr2), amount2);
}

#[test]
fn queries_work() {
    let mut ledger = Ledger::new();
    let addr1 = String::from("addr0001");
    let amount1: u128 = 12340000;

    let expected = do_instantiate(&mut ledger, &addr1, amount1);

    // check meta query
    let loaded = query_token_info(&ledger).unwrap();
    assert_eq!(expected, loaded);

    let _info = mock_info("test");
    let env = mock_env();
    // check balance query (full)
    let data = query(&ledger, &env, QueryMsg::Balance { address: addr1 }).unwrap();
    assert_eq!(data, QueryResponse::Balance(BalanceResponse { balance: amount1 }));

    // check balance query (empty)
    let data =
        query(&ledger, &env, QueryMsg::Balance { address: String::from("addr0002") }).unwrap();
    assert_eq!(data, QueryResponse::Balance(BalanceResponse { balance: 0 }));
}

#[test]
fn transfer() {
    let mut ledger = Ledger::new();
    let addr1 = String::from("addr0001");
    let addr2 = String::from("addr0002");
    let amount1: u128 = 12340000;
    let transfer: u128 = 76543;
    let too_much: u128 = 12340321;

    do_instantiate(&mut ledger, &addr1, amount1);

    // cannot transfer nothing
    let info = mock_info(addr1.as_ref());
    let mut env = mock_env();
    env.block.time = Timestamp::from_seconds(1571797479);

    let msg = ExecuteMsg::Transfer { recipient: addr2.clone(), amount: 0 };
    let err = execute(&mut ledger, &env, &info, msg).unwrap_err();
    assert_eq!(err, ContractError::InvalidZeroAmount {});

    // cannot send more than we have
    let info = mock_info(addr1.as_ref());
    let mut env = mock_env();
    env.block.time = Timestamp::from_seconds(1571797539);

    let msg = ExecuteMsg::Transfer { recipient: addr2.clone(), amount: too_much };
    let err = execute(&mut ledger, &env, &info, msg).unwrap_err();
    assert!(matches!(err, ContractError::Std(BasicError::Overflow { .. })));

    // cannot send from empty account
    let info = mock_info(addr2.as_ref());
    let mut env = mock_env();

    env.block.time = Timestamp::from_seconds(1571797659);
    let msg = ExecuteMsg::Transfer { recipient: addr1.clone(), amount: transfer };
    let err = execute(&mut ledger, &env, &info, msg).unwrap_err();
    assert!(matches!(err, ContractError::Std(BasicError::Overflow { .. })));

    // valid transfer
    let info = mock_info(addr1.as_ref());
    let mut env = mock_env();

    env.block.time = Timestamp::from_seconds(1571797719);
    let msg = ExecuteMsg::Transfer { recipient: addr2.clone(), amount: transfer };
    let res = execute(&mut ledger, &env, &info, msg).unwrap();
    assert_eq!(res.messages.len(), 0);

    let remainder = amount1.checked_sub(transfer).unwrap();
    assert_eq!(get_balance(&ledger, &addr1), remainder);
    // Five minutes have passed since the schedule was last brought up to
    // date: five periods of decay and five of growth leave the factor a
    // little above one unit, and the recipient is credited through it.
    assert_eq!(get_balance(&ledger, &addr2), transfer - 1);
    assert_eq!(query_token_info(&ledger).unwrap().total_supply, amount1);
}

#[test]
fn burn() {
    let mut ledger = Ledger::new();
    let addr1 = String::from("addr0001");
    let amount1: u128 = 12340000;
    let burn: u128 = 76543;
    let too_much: u128 = 12340321;

    do_instantiate(&mut ledger, &addr1, amount1);

    // cannot burn nothing
    let info = mock_info(addr1.as_ref());
    let env = mock_env();
    let msg = ExecuteMsg::Burn { amount: 0 };
    let err = execute(&mut ledger, &env, &info, msg).unwrap_err();
    assert_eq!(err, ContractError::InvalidZeroAmount {});
    assert_eq!(query_token_info(&ledger).unwrap().total_supply, amount1);

    // cannot burn more than we have
    let info = mock_info(addr1.as_ref());
    let env = mock_env();
    let msg = ExecuteMsg::Burn { amount: too_much };
    let err = execute(&mut ledger, &env, &info, msg).unwrap_err();
    assert!(matches!(err, ContractError::Std(BasicError::Overflow { .. })));
    assert_eq!(query_token_info(&ledger).unwrap().total_supply, amount1);

    // valid burn reduces total supply
    let info = mock_info(addr1.as_ref());
    let env = mock_env();
    let msg = ExecuteMsg::Burn { amount: burn };
    let res = execute(&mut ledger, &env, &info, msg).unwrap();
    assert_eq!(res.messages.len(), 0);

    let remainder = amount1.checked_sub(burn).unwrap();
    assert_eq!(get_balance(&ledger, &addr1), remainder);
    assert_eq!(query_token_info(&ledger).unwrap().total_supply, remainder);
}

#[test]
fn send() {
    let mut ledger = Ledger::new();
    let addr1 = String::from("addr0001");
    let contract = String::from("addr0002");
    let amount1: u128 = 12340000;
    let transfer: u128 = 76543;
    let too_much: u128 = 12340321;
    let send_msg: Vec<u8> = r#"{"some":123}"#.as_bytes().to_vec();

    do_instantiate(&mut ledger, &addr1, amount1);

    // cannot send nothing
    let info = mock_info(addr1.as_ref());
    let env = mock_env();
    let msg = ExecuteMsg::Send { contract: contract.clone(), amount: 0, msg: send_msg.clone() };
    let err = execute(&mut ledger, &env, &info, msg).unwrap_err();
    assert_eq!(err, ContractError::InvalidZeroAmount {});

    // cannot send more than we have
    let info = mock_info(addr1.as_ref());
    let env = mock_env();
    let msg =
        ExecuteMsg::Send { contract: contract.clone(), amount: too_much, msg: send_msg.clone() };
    let err = execute(&mut ledger, &env, &info, msg).unwrap_err();
    assert!(matches!(err, ContractError::Std(BasicError::Overflow { .. })));

    // valid transfer
    let info = mock_info(addr1.as_ref());
    let env = mock_env();
    let msg =
        ExecuteMsg::Send { contract: contract.clone(), amount: transfer, msg: send_msg.clone() };
    let res = execute(&mut ledger, &env, &info, msg).unwrap();
    assert_eq!(res.messages.len(), 1);

    // ensure proper send message sent
    // this is the message we want delivered to the other side
    let binary_msg = cw20::Cw20ReceiveMsg {
        sender: addr1.clone(),
        amount: cosmwasm_std::Uint128::new(transfer),
        msg: cosmwasm_std::Binary::from(send_msg.as_slice()),
    }
    .into_binary()
    .unwrap();
    assert_ne!(binary_msg.to_vec(), send_msg);
    // and this is how it must be wrapped to be processed
    assert_eq!(
        res.messages[0],
        WasmExecute { contract_addr: contract.clone(), msg: binary_msg.to_vec() }
    );

    // ensure balance is properly transferred
    let remainder = amount1.checked_sub(transfer).unwrap();
    assert_eq!(get_balance(&ledger, &addr1), remainder);
    assert_eq!(get_balance(&ledger, &contract), transfer);
    assert_eq!(query_token_info(&ledger).unwrap().total_supply, amount1);
}
