use token_vesting::contract::{execute, instantiate, query};
use token_vesting::error::ErrorKind;
use token_vesting::msg::{
    Attribute, Coin, DepositInfo, ExecuteMsg, InstantiateMsg, InvestorResponse, QueryAnswer,
    QueryMsg, Response, TransferMsg, UserUpdateData,
};

/// Seconds of the fixed block time the scenarios start from.
const START: u64 = 1_571_797_419;
/// Lock and vesting windows chosen so that a claim 26 784 000 seconds in is
/// one day past the unlock, a third of the way through vesting.
const LOCK: u64 = 26_697_600;
const VESTING: u64 = 259_200;

fn init_msg() -> InstantiateMsg {
    InstantiateMsg {
        token_addr: "SAYVE_TOKEN".to_string(),
        stable_denom: "uusd".to_string(),
        admin: Some("ADMIN1".to_string()),
        team_wallet: Some("TEAM_WALLET".to_string()),
        start_time: START,
        lock_time: LOCK,
        vesting_time: VESTING,
    }
}

fn attr(key: &str, value: &str) -> Attribute {
    Attribute { key: key.to_string(), value: value.to_string() }
}

fn coin(amount: u128, denom: &str) -> Coin {
    Coin { denom: denom.to_string(), amount }
}

#[test]
fn test_instantiate() {
    let owner = "creator".to_string();
    let (_state, res) = instantiate(init_msg(), &owner);
    assert_eq!(
        res,
        Response { messages: vec![], attributes: vec![attr("action", "instantiate")] }
    )
}

#[test]
fn test_deposit() {
    let owner = "creator".to_string();
    let (mut state, _res) = instantiate(init_msg(), &owner);

    let deposit_msg = ExecuteMsg::Deposit {};
    let user = "USER1".to_string();
    let funds = vec![coin(1000, "uusd")];
    let res = execute(&mut state, START, &user, &funds, deposit_msg.clone()).unwrap_err();
    assert_eq!(res.kind, ErrorKind::Precondition);
    assert_eq!(res.message, "User is not able to deposit");

    let admin = "ADMIN1".to_string();
    let no_funds: Vec<Coin> = vec![];
    execute(&mut state, START, &admin, &no_funds, ExecuteMsg::CanDeposit(true)).unwrap();

    let res = execute(&mut state, START, &user, &no_funds, deposit_msg.clone()).unwrap_err();
    assert_eq!(res.kind, ErrorKind::Validation);
    assert_eq!(res.message, "No uusd assets are provided to deposit");

    let funds = vec![coin(10000u128, "uusd")];
    let res = execute(&mut state, START, &user, &funds, deposit_msg.clone()).unwrap();
    assert_eq!(
        res,
        Response {
            messages: vec![],
            attributes: vec![attr("action", "deposit"), attr("amount", "10000")],
        }
    );
}

#[test]
fn test_claim() {
    let owner = "creator".to_string();
    let (mut state, _res) = instantiate(init_msg(), &owner);

    let admin = "ADMIN1".to_string();
    let user = "USER1".to_string();
    let no_funds: Vec<Coin> = vec![];
    execute(&mut state, START, &admin, &no_funds, ExecuteMsg::CanDeposit(true)).unwrap();
    execute(&mut state, START, &admin, &no_funds, ExecuteMsg::CanDeposit(true)).unwrap();

    let funds = vec![coin(10000, "uusd")];
    execute(&mut state, START, &user, &funds, ExecuteMsg::Deposit {}).unwrap();

    let update_msg = ExecuteMsg::Update(vec![UserUpdateData {
        user_addr: "USER1".to_string(),
        allocation: 10000u128,
        refunded: 1000u128,
    }]);
    let res = execute(&mut state, START, &admin, &no_funds, update_msg).unwrap();
    assert_eq!(
        res,
        Response {
            messages: vec![TransferMsg::Bank {
                to_address: "TEAM_WALLET".to_string(),
                denom: "uusd".to_string(),
                amount: 9000,
            }],
            attributes: vec![attr("action", "update"), attr("transfer_amount", "9000")],
        }
    );

    execute(&mut state, START, &admin, &no_funds, ExecuteMsg::EnableWithdraw {}).unwrap();

    // 26 784 000 seconds after the start: one day into the vesting window.
    let time_stamp = START + 26_784_000;
    let res = execute(&mut state, time_stamp, &user, &no_funds, ExecuteMsg::Claim {}).unwrap();
    assert_eq!(
        res,
        Response {
            messages: vec![
                TransferMsg::Bank {
                    to_address: "USER1".to_string(),
                    denom: "uusd".to_string(),
                    amount: 1000u128,
                },
                TransferMsg::Token {
                    contract_addr: "SAYVE_TOKEN".to_string(),
                    recipient: "USER1".to_string(),
                    amount: 3333u128,
                },
            ],
            attributes: vec![
                attr("action", "claim"),
                attr("claim_amount", "3333"),
                attr("returned_refunded_amount", "1000"),
            ],
        }
    );

    // One day later the newly vested share is claimable, and the refund is
    // not paid again.
    let time_stamp = time_stamp + 86_400;
    let res = execute(&mut state, time_stamp, &user, &no_funds, ExecuteMsg::Claim {}).unwrap();
    assert_eq!(
        res,
        Response {
            messages: vec![TransferMsg::Token {
                contract_addr: "SAYVE_TOKEN".to_string(),
                recipient: "USER1".to_string(),
                amount: 3333u128,
            }],
            attributes: vec![
                attr("action", "claim"),
                attr("claim_amount", "3333"),
                attr("returned_refunded_amount", "0"),
            ],
        }
    );

    // check query_investor
    let msg = QueryMsg::Investor { wallet: "USER1".to_string() };
    let res = query(&state, START, msg);
    assert_eq!(
        res,
        QueryAnswer::Investor(InvestorResponse {
            total_deposited: 10000u128,
            allocation: 10000u128,
            refunded: 1000u128,
            is_refunded: true,
            deposit_history: vec![DepositInfo { date: START, amount: 10000u128 }],
        })
    )
}
