use token_vesting::contract::{execute, instantiate, query};
use token_vesting::error::ErrorKind;
use token_vesting::msg::{
    Attribute, ClaimableAmountResponse, Coin, ExecuteMsg, InstantiateMsg, InvestorResponse,
    QueryAnswer, QueryMsg, Response, TransferMsg, UserUpdateData, WalletInfo,
};
use token_vesting::numeral::u128_to_string;

const START: u64 = 1_000_000;
const LOCK: u64 = 1_000;
const VESTING: u64 = 3_000;

fn init_msg() -> InstantiateMsg {
    InstantiateMsg {
        token_addr: "TOKEN".to_string(),
        stable_denom: "uusd".to_string(),
        admin: Some("ADMIN".to_string()),
        team_wallet: Some("TREASURY".to_string()),
        start_time: START,
        lock_time: LOCK,
        vesting_time: VESTING,
    }
}

fn attr(key: &str, value: &str) -> Attribute {
    Attribute { key: key.to_string(), value: value.to_string() }
}

fn coin(amount: u128, denom: &str) -> Coin {
    Coin { denom: denom.to_string(), amount }
}

fn admin() -> String {
    "ADMIN".to_string()
}

fn no_funds() -> Vec<Coin> {
    vec![]
}

#[test]
fn deposit_rejects_wrong_denomination() {
    let (mut state, _) = instantiate(init_msg(), &"creator".to_string());
    execute(&mut state, START, &admin(), &no_funds(), ExecuteMsg::CanDeposit(true)).unwrap();
    let user = "USER".to_string();

    let funds = vec![coin(500, "ukrw")];
    let err = execute(&mut state, START, &user, &funds, ExecuteMsg::Deposit {}).unwrap_err();
    assert_eq!(err.kind, ErrorKind::Validation);
    assert_eq!(err.message, "No uusd assets are provided to deposit");

    let funds = vec![coin(0, "uusd")];
    let err = execute(&mut state, START, &user, &funds, ExecuteMsg::Deposit {}).unwrap_err();
    assert_eq!(err.kind, ErrorKind::Validation);
    assert_eq!(err.message, "No uusd assets are provided to deposit");

    let funds = vec![coin(500, "uusd"), coin(500, "ukrw")];
    let err = execute(&mut state, START, &user, &funds, ExecuteMsg::Deposit {}).unwrap_err();
    assert_eq!(err.kind, ErrorKind::Validation);
    assert_eq!(
        err.message,
        "More than one coin is sent; only one asset is supported"
    );
}

#[test]
fn deposit_accumulates_history() {
    let (mut state, _) = instantiate(init_msg(), &"creator".to_string());
    execute(&mut state, START, &admin(), &no_funds(), ExecuteMsg::CanDeposit(true)).unwrap();
    let user = "USER".to_string();
    execute(&mut state, START, &user, &vec![coin(100, "uusd")], ExecuteMsg::Deposit {}).unwrap();
    execute(&mut state, START + 5, &user, &vec![coin(250, "uusd")], ExecuteMsg::Deposit {})
        .unwrap();

    let res = query(&state, START, QueryMsg::Investor { wallet: "USER".to_string() });
    match res {
        QueryAnswer::Investor(inv) => {
            assert_eq!(inv.total_deposited, 350);
            assert_eq!(
                inv.deposit_history,
                vec![
                    token_vesting::msg::DepositInfo { date: START, amount: 100 },
                    token_vesting::msg::DepositInfo { date: START + 5, amount: 250 },
                ]
            );
        }
        _ => panic!("unexpected answer"),
    }
}

#[test]
fn update_requires_admin() {
    let (mut state, _) = instantiate(init_msg(), &"creator".to_string());
    let user = "USER".to_string();
    let msg = ExecuteMsg::Update(vec![UserUpdateData {
        user_addr: "USER".to_string(),
        allocation: 10,
        refunded: 0,
    }]);
    let err = execute(&mut state, START, &user, &no_funds(), msg).unwrap_err();
    assert_eq!(err.kind, ErrorKind::Authorization);
    assert_eq!(err.message, "Unauthorized");
}

#[test]
fn update_sweeps_nothing_when_refund_covers_deposit() {
    let (mut state, _) = instantiate(init_msg(), &"creator".to_string());
    execute(&mut state, START, &admin(), &no_funds(), ExecuteMsg::CanDeposit(true)).unwrap();
    let user = "USER".to_string();
    execute(&mut state, START, &user, &vec![coin(10000, "uusd")], ExecuteMsg::Deposit {})
        .unwrap();

    let msg = ExecuteMsg::Update(vec![UserUpdateData {
        user_addr: "USER".to_string(),
        allocation: 10000,
        refunded: 10000,
    }]);
    let res = execute(&mut state, START, &admin(), &no_funds(), msg).unwrap();
    assert_eq!(
        res,
        Response {
            messages: vec![],
            attributes: vec![attr("action", "update"), attr("transfer_amount", "0")],
        }
    );
}

#[test]
fn claim_requires_withdraw_enabled() {
    let (mut state, _) = instantiate(init_msg(), &"creator".to_string());
    let user = "USER".to_string();
    let err = execute(&mut state, START + LOCK + VESTING, &user, &no_funds(), ExecuteMsg::Claim {})
        .unwrap_err();
    assert_eq!(err.kind, ErrorKind::Precondition);
    assert_eq!(err.message, "do not allow to claim");
}

#[test]
fn claim_while_locked_without_refund_fails() {
    let (mut state, _) = instantiate(init_msg(), &"creator".to_string());
    execute(&mut state, START, &admin(), &no_funds(), ExecuteMsg::EnableWithdraw {}).unwrap();
    let user = "USER".to_string();
    let err = execute(&mut state, START, &user, &no_funds(), ExecuteMsg::Claim {}).unwrap_err();
    assert_eq!(err.kind, ErrorKind::Precondition);
    assert_eq!(err.message, "locking funds");
}

#[test]
fn claim_while_locked_pays_pending_refund_only() {
    let (mut state, _) = instantiate(init_msg(), &"creator".to_string());
    let msg = ExecuteMsg::Update(vec![UserUpdateData {
        user_addr: "USER".to_string(),
        allocation: 9000,
        refunded: 500,
    }]);
    execute(&mut state, START, &admin(), &no_funds(), msg).unwrap();
    execute(&mut state, START, &admin(), &no_funds(), ExecuteMsg::EnableWithdraw {}).unwrap();

    let user = "USER".to_string();
    let res = execute(&mut state, START, &user, &no_funds(), ExecuteMsg::Claim {}).unwrap();
    assert_eq!(
        res,
        Response {
            messages: vec![TransferMsg::Bank {
                to_address: "USER".to_string(),
                denom: "uusd".to_string(),
                amount: 500,
            }],
            attributes: vec![attr("action", "claim"), attr("refunded_amount", "500")],
        }
    );

    // The refund leg is idempotent: still locked, nothing is left to pay.
    let err = execute(&mut state, START, &user, &no_funds(), ExecuteMsg::Claim {}).unwrap_err();
    assert_eq!(err.kind, ErrorKind::Precondition);
    assert_eq!(err.message, "locking funds");
}

#[test]
fn claim_converges_to_full_allocation() {
    let (mut state, _) = instantiate(init_msg(), &"creator".to_string());
    let msg = ExecuteMsg::Update(vec![UserUpdateData {
        user_addr: "USER".to_string(),
        allocation: 10000,
        refunded: 0,
    }]);
    execute(&mut state, START, &admin(), &no_funds(), msg).unwrap();
    execute(&mut state, START, &admin(), &no_funds(), ExecuteMsg::EnableWithdraw {}).unwrap();
    let user = "USER".to_string();

    // A third of the way through the vesting window.
    let t1 = START + LOCK + VESTING / 3;
    let res = execute(&mut state, t1, &user, &no_funds(), ExecuteMsg::Claim {}).unwrap();
    assert_eq!(
        res,
        Response {
            messages: vec![TransferMsg::Token {
                contract_addr: "TOKEN".to_string(),
                recipient: "USER".to_string(),
                amount: 3333,
            }],
            attributes: vec![
                attr("action", "claim"),
                attr("claim_amount", "3333"),
                attr("returned_refunded_amount", "0"),
            ],
        }
    );

    // Past the end of the window the remaining balance comes in one shot,
    // with no residue from the earlier rounding down.
    let t2 = START + LOCK + VESTING;
    let res = execute(&mut state, t2, &user, &no_funds(), ExecuteMsg::Claim {}).unwrap();
    assert_eq!(
        res,
        Response {
            messages: vec![TransferMsg::Token {
                contract_addr: "TOKEN".to_string(),
                recipient: "USER".to_string(),
                amount: 6667,
            }],
            attributes: vec![
                attr("action", "claim"),
                attr("claim_amount", "6667"),
                attr("returned_refunded_amount", "0"),
            ],
        }
    );
}

#[test]
fn query_and_claim_report_the_same_amount() {
    let (mut state, _) = instantiate(init_msg(), &"creator".to_string());
    let msg = ExecuteMsg::Update(vec![UserUpdateData {
        user_addr: "USER".to_string(),
        allocation: 7777,
        refunded: 0,
    }]);
    execute(&mut state, START, &admin(), &no_funds(), msg).unwrap();
    execute(&mut state, START, &admin(), &no_funds(), ExecuteMsg::EnableWithdraw {}).unwrap();

    let t = START + LOCK + 1234;
    let answer = query(&state, t, QueryMsg::ClaimableAmount { wallet: "USER".to_string() });
    let projected = match answer {
        QueryAnswer::ClaimableAmount(q) => q.token_avaiable_to_claim,
        _ => panic!("unexpected answer"),
    };

    let user = "USER".to_string();
    let res = execute(&mut state, t, &user, &no_funds(), ExecuteMsg::Claim {}).unwrap();
    assert_eq!(res.attributes[1].key, "claim_amount");
    assert_eq!(res.attributes[1].value, projected);
    assert_eq!(projected, "3198"); // floor(7777 * 1234 / 3000)
}

#[test]
fn claimable_query_phases() {
    let (mut state, _) = instantiate(init_msg(), &"creator".to_string());
    let msg = ExecuteMsg::Update(vec![UserUpdateData {
        user_addr: "USER".to_string(),
        allocation: 6000,
        refunded: 400,
    }]);
    execute(&mut state, START, &admin(), &no_funds(), msg).unwrap();

    // Before withdrawals are enabled everything reads as zero claimable.
    let answer = query(&state, START, QueryMsg::ClaimableAmount { wallet: "USER".to_string() });
    assert_eq!(
        answer,
        QueryAnswer::ClaimableAmount(ClaimableAmountResponse {
            lock_time_left: 0,
            tokens_allocated: "6000".to_string(),
            token_avaiable_to_claim: "0".to_string(),
            returned_ust: "0".to_string(),
        })
    );

    execute(&mut state, START, &admin(), &no_funds(), ExecuteMsg::EnableWithdraw {}).unwrap();

    // While locked the remaining lock time is reported.
    let answer =
        query(&state, START + 100, QueryMsg::ClaimableAmount { wallet: "USER".to_string() });
    assert_eq!(
        answer,
        QueryAnswer::ClaimableAmount(ClaimableAmountResponse {
            lock_time_left: LOCK - 100,
            tokens_allocated: "6000".to_string(),
            token_avaiable_to_claim: "0".to_string(),
            returned_ust: "0".to_string(),
        })
    );

    // Vested amounts grow with time.
    let a1 = query(&state, START + LOCK + 300, QueryMsg::ClaimableAmount {
        wallet: "USER".to_string(),
    });
    let a2 = query(&state, START + LOCK + 600, QueryMsg::ClaimableAmount {
        wallet: "USER".to_string(),
    });
    match (a1, a2) {
        (QueryAnswer::ClaimableAmount(q1), QueryAnswer::ClaimableAmount(q2)) => {
            assert_eq!(q1.token_avaiable_to_claim, "600"); // floor(6000 * 300 / 3000)
            assert_eq!(q2.token_avaiable_to_claim, "1200"); // floor(6000 * 600 / 3000)
        }
        _ => panic!("unexpected answer"),
    }
}

#[test]
fn list_is_ascending_with_totals() {
    let (mut state, _) = instantiate(init_msg(), &"creator".to_string());
    execute(&mut state, START, &admin(), &no_funds(), ExecuteMsg::CanDeposit(true)).unwrap();
    for (who, amount) in [("carol", 30u128), ("alice", 20u128), ("bob", 10u128)] {
        let sender = who.to_string();
        execute(&mut state, START, &sender, &vec![coin(amount, "uusd")], ExecuteMsg::Deposit {})
            .unwrap();
    }

    let answer = query(&state, START, QueryMsg::List {});
    assert_eq!(
        answer,
        QueryAnswer::List(token_vesting::msg::ListResponse {
            investors: vec![
                WalletInfo { wallet: "alice".to_string(), total: 20 },
                WalletInfo { wallet: "bob".to_string(), total: 10 },
                WalletInfo { wallet: "carol".to_string(), total: 30 },
            ],
        })
    );
}

#[test]
fn absent_investor_reads_as_zero() {
    let (state, _) = instantiate(init_msg(), &"creator".to_string());
    let answer = query(&state, START, QueryMsg::Investor { wallet: "nobody".to_string() });
    assert_eq!(
        answer,
        QueryAnswer::Investor(InvestorResponse {
            total_deposited: 0,
            allocation: 0,
            refunded: 0,
            is_refunded: false,
            deposit_history: vec![],
        })
    );
}

#[test]
fn enable_withdraw_is_monotonic() {
    let (mut state, _) = instantiate(init_msg(), &"creator".to_string());
    let res = execute(&mut state, START, &admin(), &no_funds(), ExecuteMsg::EnableWithdraw {})
        .unwrap();
    assert_eq!(
        res.attributes,
        vec![attr("action", "enable_withdraw"), attr("can_withdraw", "true")]
    );
    // Re-enabling is a successful no-op, not an error.
    let res = execute(&mut state, START, &admin(), &no_funds(), ExecuteMsg::EnableWithdraw {})
        .unwrap();
    assert_eq!(
        res.attributes,
        vec![attr("action", "enable_withdraw"), attr("can_withdraw", "true")]
    );

    let user = "USER".to_string();
    let err = execute(&mut state, START, &user, &no_funds(), ExecuteMsg::EnableWithdraw {})
        .unwrap_err();
    assert_eq!(err.kind, ErrorKind::Authorization);
}

#[test]
fn update_token_changes_reference() {
    let (mut state, _) = instantiate(init_msg(), &"creator".to_string());
    let res = execute(
        &mut state,
        START,
        &admin(),
        &no_funds(),
        ExecuteMsg::UpdateToken("TOKEN2".to_string()),
    )
    .unwrap();
    assert_eq!(
        res.attributes,
        vec![attr("atcion", " update_token"), attr("token_addr", "TOKEN2")]
    );

    let answer = query(&state, START, QueryMsg::Config {});
    match answer {
        QueryAnswer::Config(c) => {
            assert_eq!(c.token_addr, "TOKEN2");
            assert_eq!(c.admin, "ADMIN");
            assert_eq!(c.team_wallet, "TREASURY");
            assert_eq!(c.stable_denom, "uusd");
            assert_eq!(c.start_time, START);
            assert_eq!(c.lock_time, LOCK);
            assert_eq!(c.vesting_time, VESTING);
        }
        _ => panic!("unexpected answer"),
    }
}

#[test]
fn instantiate_defaults_to_sender() {
    let sender = "creator".to_string();
    let msg = InstantiateMsg {
        token_addr: "TOKEN".to_string(),
        stable_denom: "uusd".to_string(),
        admin: None,
        team_wallet: None,
        start_time: START,
        lock_time: LOCK,
        vesting_time: VESTING,
    };
    let (state, _) = instantiate(msg, &sender);
    let answer = query(&state, START, QueryMsg::Config {});
    match answer {
        QueryAnswer::Config(c) => {
            assert_eq!(c.admin, "creator");
            assert_eq!(c.team_wallet, "creator");
        }
        _ => panic!("unexpected answer"),
    }
}

#[test]
fn decimal_rendering_is_exact() {
    assert_eq!(u128_to_string(0), "0");
    assert_eq!(u128_to_string(7), "7");
    assert_eq!(u128_to_string(10), "10");
    assert_eq!(u128_to_string(90071), "90071");
    assert_eq!(
        u128_to_string(u128::MAX),
        "340282366920938463463374607431768211455"
    );
}
