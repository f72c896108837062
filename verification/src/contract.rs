//! The six state-transition operations and the four read-only queries, each
//! specified against the ledger model in `state` and the vesting formula in
//! `vesting`.

use vstd::prelude::*;

use crate::error::{ContractError, ErrorKind};
use crate::msg::{
    Attribute, ClaimableAmountResponse, Coin, ConfigResponse, DepositInfo, ExecuteMsg,
    InstantiateMsg, InvestorResponse, ListResponse, QueryAnswer, QueryMsg, Response, TransferMsg,
    UserUpdateData, WalletInfo,
};
use crate::numeral::{bool_to_string, dec_str, u128_to_string};
use crate::state::{Config, Status, VestingState};

verus! {

/// One event tag with the given key and value.
pub open spec fn is_attr(a: Attribute, key: Seq<char>, value: Seq<char>) -> bool {
    a.key@ == key && a.value@ == value
}

/// A native-asset transfer of `amount` in `denom` to `to`.
pub open spec fn is_bank_send(m: TransferMsg, to: Seq<char>, denom: Seq<char>, amount: u128) -> bool {
    match m {
        TransferMsg::Bank { to_address, denom: d, amount: a } => {
            &&& to_address@ == to
            &&& d@ == denom
            &&& a == amount
        },
        _ => false,
    }
}

/// A token transfer of `amount` to `recipient` through the token contract.
pub open spec fn is_token_transfer(
    m: TransferMsg,
    contract: Seq<char>,
    recipient: Seq<char>,
    amount: u128,
) -> bool {
    match m {
        TransferMsg::Token { contract_addr, recipient: r, amount: a } => {
            &&& contract_addr@ == contract
            &&& r@ == recipient
            &&& a == amount
        },
        _ => false,
    }
}

/// A failure of the given kind carrying the given message.
pub open spec fn is_err_with(
    r: Result<Response, ContractError>,
    kind: ErrorKind,
    message: Seq<char>,
) -> bool {
    match r {
        Err(e) => e.kind == kind && e.message@ == message,
        Ok(_) => false,
    }
}

/// An authorization failure, exactly as every admin-gated operation reports
/// it.
pub open spec fn is_unauthorized_err(r: Result<Response, ContractError>) -> bool {
    is_err_with(r, ErrorKind::Authorization, "Unauthorized"@)
}

/// Sets up a fresh ledger: the given schedule and identities, both feature
/// flags off, no investor records, and no outbound instructions.
pub fn instantiate(msg: InstantiateMsg, sender: &String) -> (r: (VestingState, Response))
    requires
        msg.start_time + msg.lock_time + msg.vesting_time <= u64::MAX,
    ensures
        r.0.wf(),
        r.0.config.token_addr@ == msg.token_addr@,
        r.0.config.stable_denom@ == msg.stable_denom@,
        r.0.config.start_time == msg.start_time,
        r.0.config.lock_time == msg.lock_time,
        r.0.config.vesting_time == msg.vesting_time,
        r.0.config.admin@ == (match msg.admin {
            Some(a) => a@,
            None => sender@,
        }),
        r.0.config.team_wallet@ == (match msg.team_wallet {
            Some(w) => w@,
            None => sender@,
        }),
        r.0.status == (Status { can_deposit: false, can_withdraw: false }),
        r.0.entries@.len() == 0,
        forall|k: Seq<char>| r.0.entry_of(k) is None,
        r.1.messages@.len() == 0,
        r.1.attributes@.len() == 1,
        is_attr(r.1.attributes@[0], "action"@, "instantiate"@),
{
    let InstantiateMsg {
        token_addr,
        stable_denom,
        admin,
        team_wallet,
        start_time,
        lock_time,
        vesting_time,
    } = msg;
    let admin = match admin {
        Some(a) => a,
        None => sender.clone(),
    };
    let team_wallet = match team_wallet {
        Some(w) => w,
        None => sender.clone(),
    };
    let config = Config {
        admin,
        team_wallet,
        token_addr,
        stable_denom,
        start_time,
        lock_time,
        vesting_time,
    };
    let state = VestingState {
        config,
        status: Status { can_deposit: false, can_withdraw: false },
        entries: Vec::new(),
    };
    let mut attributes: Vec<Attribute> = Vec::new();
    attributes.push(
        Attribute { key: String::from_str("action"), value: String::from_str("instantiate") },
    );
    (state, Response { messages: Vec::new(), attributes })
}

/// What toggling the deposit flag does: admin-only; on success only
/// `can_deposit` changes, and the response carries the new value.
pub open spec fn enable_deposit_behavior(
    s0: VestingState,
    s1: VestingState,
    caller: Seq<char>,
    can_deposit: bool,
    r: Result<Response, ContractError>,
) -> bool {
    &&& (r is Err ==> s1 == s0)
    &&& (r is Err) == (caller != s0.config.admin@)
    &&& (r is Err ==> is_unauthorized_err(r))
    &&& (r matches Ok(resp) ==> {
        &&& s1.config == s0.config
        &&& s1.entries@ == s0.entries@
        &&& s1.status == (Status { can_deposit, can_withdraw: s0.status.can_withdraw })
        &&& resp.messages@.len() == 0
        &&& resp.attributes@.len() == 2
        &&& is_attr(resp.attributes@[0], "action"@, "enable_deposit"@)
        &&& is_attr(
            resp.attributes@[1],
            "can_deposit"@,
            if can_deposit {
                "true"@
            } else {
                "false"@
            },
        )
    })
}

/// Turns deposits on or off, in either direction, at the admin's will.
pub fn enable_deposit(state: &mut VestingState, sender: &String, can_deposit: bool) -> (r: Result<
    Response,
    ContractError,
>)
    requires
        old(state).wf(),
    ensures
        final(state).wf(),
        enable_deposit_behavior(*old(state), *final(state), sender@, can_deposit, r),
{
    if !sender.eq(&state.config.admin) {
        return Err(ContractError::unauthorized());
    }
    state.status.can_deposit = can_deposit;
    let mut attributes: Vec<Attribute> = Vec::new();
    attributes.push(
        Attribute { key: String::from_str("action"), value: String::from_str("enable_deposit") },
    );
    attributes.push(
        Attribute { key: String::from_str("can_deposit"), value: bool_to_string(can_deposit) },
    );
    Ok(Response { messages: Vec::new(), attributes })
}

/// What enabling withdrawals does: admin-only; monotonic — on success the
/// flag is true and stays true, and re-enabling is a successful no-op.
pub open spec fn enable_withdraw_behavior(
    s0: VestingState,
    s1: VestingState,
    caller: Seq<char>,
    r: Result<Response, ContractError>,
) -> bool {
    &&& (r is Err ==> s1 == s0)
    &&& (r is Err) == (caller != s0.config.admin@)
    &&& (r is Err ==> is_unauthorized_err(r))
    &&& (r matches Ok(resp) ==> {
        &&& s1.config == s0.config
        &&& s1.entries@ == s0.entries@
        &&& s1.status == (Status { can_deposit: s0.status.can_deposit, can_withdraw: true })
        &&& resp.messages@.len() == 0
        &&& resp.attributes@.len() == 2
        &&& is_attr(resp.attributes@[0], "action"@, "enable_withdraw"@)
        &&& is_attr(resp.attributes@[1], "can_withdraw"@, "true"@)
    })
}

/// Enables withdrawals, once and for all.
pub fn enable_withdraw(state: &mut VestingState, sender: &String) -> (r: Result<
    Response,
    ContractError,
>)
    requires
        old(state).wf(),
    ensures
        final(state).wf(),
        enable_withdraw_behavior(*old(state), *final(state), sender@, r),
{
    if !sender.eq(&state.config.admin) {
        return Err(ContractError::unauthorized());
    }
    if !state.status.can_withdraw {
        state.status.can_withdraw = true;
    }
    let mut attributes: Vec<Attribute> = Vec::new();
    attributes.push(
        Attribute { key: String::from_str("action"), value: String::from_str("enable_withdraw") },
    );
    attributes.push(
        Attribute { key: String::from_str("can_withdraw"), value: bool_to_string(true) },
    );
    Ok(Response { messages: Vec::new(), attributes })
}

/// What replacing the token contract reference does: admin-only; on success
/// only that reference changes.
pub open spec fn update_token_behavior(
    s0: VestingState,
    s1: VestingState,
    caller: Seq<char>,
    token_addr: Seq<char>,
    r: Result<Response, ContractError>,
) -> bool {
    &&& (r is Err ==> s1 == s0)
    &&& (r is Err) == (caller != s0.config.admin@)
    &&& (r is Err ==> is_unauthorized_err(r))
    &&& (r matches Ok(resp) ==> {
        &&& s1.config.token_addr@ == token_addr
        &&& s1.config.admin == s0.config.admin
        &&& s1.config.team_wallet == s0.config.team_wallet
        &&& s1.config.stable_denom == s0.config.stable_denom
        &&& s1.config.start_time == s0.config.start_time
        &&& s1.config.lock_time == s0.config.lock_time
        &&& s1.config.vesting_time == s0.config.vesting_time
        &&& s1.status == s0.status
        &&& s1.entries@ == s0.entries@
        &&& resp.messages@.len() == 0
        &&& resp.attributes@.len() == 2
        &&& is_attr(resp.attributes@[0], "atcion"@, " update_token"@)
        &&& is_attr(resp.attributes@[1], "token_addr"@, token_addr)
    })
}

/// Overwrites the token contract reference.
pub fn update_token(state: &mut VestingState, sender: &String, token_addr: String) -> (r: Result<
    Response,
    ContractError,
>)
    requires
        old(state).wf(),
    ensures
        final(state).wf(),
        update_token_behavior(*old(state), *final(state), sender@, token_addr@, r),
{
    if !sender.eq(&state.config.admin) {
        return Err(ContractError::unauthorized());
    }
    let attr_value = token_addr.clone();
    state.config.token_addr = token_addr;
    let mut attributes: Vec<Attribute> = Vec::new();
    attributes.push(
        Attribute { key: String::from_str("atcion"), value: String::from_str(" update_token") },
    );
    attributes.push(Attribute { key: String::from_str("token_addr"), value: attr_value });
    Ok(Response { messages: Vec::new(), attributes })
}

/// The accepted payment among the attached assets: the amount of the first
/// one in the accepted denomination with a strictly positive amount.
pub open spec fn spec_find_payment(funds: Seq<Coin>, denom: Seq<char>) -> Option<u128>
    decreases funds.len(),
{
    if funds.len() == 0 {
        None
    } else if funds[0].denom@ == denom && funds[0].amount > 0 {
        Some(funds[0].amount)
    } else {
        spec_find_payment(funds.drop_first(), denom)
    }
}

/// The machine limit on a deposit: the investor's running total must not
/// overflow.
pub open spec fn deposit_req(s: VestingState, sender: Seq<char>, funds: Seq<Coin>) -> bool {
    match spec_find_payment(funds, s.config.stable_denom@) {
        Some(amount) => s.total_deposited_of(sender) + amount <= u128::MAX,
        None => true,
    }
}

/// What a deposit does: rejected outright while deposits are disabled, with
/// more than one attached asset, or with no positive payment in the accepted
/// denomination; otherwise the payment is appended to the caller's record and
/// nothing else changes.
pub open spec fn deposit_behavior(
    s0: VestingState,
    s1: VestingState,
    now: u64,
    sender: Seq<char>,
    funds: Seq<Coin>,
    r: Result<Response, ContractError>,
) -> bool {
    &&& (r is Err ==> s1 == s0)
    &&& (!s0.status.can_deposit ==> is_err_with(
        r,
        ErrorKind::Precondition,
        "User is not able to deposit"@,
    ))
    &&& (s0.status.can_deposit && funds.len() > 1 ==> is_err_with(
        r,
        ErrorKind::Validation,
        "More than one coin is sent; only one asset is supported"@,
    ))
    &&& (s0.status.can_deposit && funds.len() <= 1 ==> match spec_find_payment(
        funds,
        s0.config.stable_denom@,
    ) {
        None => is_err_with(
            r,
            ErrorKind::Validation,
            "No "@ + s0.config.stable_denom@ + " assets are provided to deposit"@,
        ),
        Some(amount) => {
            &&& r is Ok
            &&& s1.config == s0.config
            &&& s1.status == s0.status
            &&& s1.total_deposited_of(sender) == s0.total_deposited_of(sender) + amount
            &&& s1.history_of(sender) == s0.history_of(sender).push(
                DepositInfo { date: now, amount },
            )
            &&& s1.has_deposit(sender)
            &&& s1.allocation_of(sender) == s0.allocation_of(sender)
            &&& s1.refunded_of(sender) == s0.refunded_of(sender)
            &&& s1.released_of(sender) == s0.released_of(sender)
            &&& s1.refund_marker_of(sender) == s0.refund_marker_of(sender)
            &&& (forall|k: Seq<char>| k != sender ==> s1.entry_of(k) == s0.entry_of(k))
            &&& (r matches Ok(resp) ==> {
                &&& resp.messages@.len() == 0
                &&& resp.attributes@.len() == 2
                &&& is_attr(resp.attributes@[0], "action"@, "deposit"@)
                &&& is_attr(resp.attributes@[1], "amount"@, dec_str(amount as int))
            })
        },
    })
}

/// Executable search for the accepted payment, exact against
/// `spec_find_payment`.
fn find_payment(funds: &Vec<Coin>, denom: &String) -> (r: Option<u128>)
    ensures
        r == spec_find_payment(funds@, denom@),
{
    let n = funds.len();
    let mut i: usize = 0;
    proof {
        assert(funds@.skip(0) =~= funds@);
    }
    while i < n
        invariant
            i <= n,
            n == funds@.len(),
            spec_find_payment(funds@, denom@) == spec_find_payment(funds@.skip(i as int), denom@),
        decreases n - i,
    {
        proof {
            assert(funds@.skip(i as int)[0] == funds@[i as int]);
        }
        let coin = &funds[i];
        if coin.denom.eq(denom) && coin.amount > 0 {
            return Some(coin.amount);
        }
        proof {
            assert(funds@.skip(i as int).drop_first() =~= funds@.skip(i as int + 1));
        }
        i = i + 1;
    }
    proof {
        assert(funds@.skip(n as int).len() == 0);
    }
    None
}

/// Records one accepted deposit by the caller.
pub fn deposit(state: &mut VestingState, now: u64, sender: &String, funds: &Vec<Coin>) -> (r:
    Result<Response, ContractError>)
    requires
        old(state).wf(),
        deposit_req(*old(state), sender@, funds@),
    ensures
        final(state).wf(),
        deposit_behavior(*old(state), *final(state), now, sender@, funds@, r),
{
    if !state.status.can_deposit {
        return Err(ContractError::deposit_disabled());
    }
    if funds.len() > 1 {
        return Err(ContractError::multiple_coins());
    }
    let payment = find_payment(funds, &state.config.stable_denom);
    match payment {
        None => Err(ContractError::no_assets(&state.config.stable_denom)),
        Some(amount) => {
            state.record_deposit(sender, now, amount);
            let mut attributes: Vec<Attribute> = Vec::new();
            attributes.push(
                Attribute { key: String::from_str("action"), value: String::from_str("deposit") },
            );
            attributes.push(
                Attribute { key: String::from_str("amount"), value: u128_to_string(amount) },
            );
            Ok(Response { messages: Vec::new(), attributes })
        },
    }
}

/// What one assignment contributes to the treasury sweep: the part of the
/// investor's deposit beyond the refund being set, and nothing when there is
/// no deposit record or nothing beyond the refund.
pub open spec fn sweep_term(s0: VestingState, u: UserUpdateData) -> int {
    if s0.has_deposit(u.user_addr@) && s0.total_deposited_of(u.user_addr@) > u.refunded {
        s0.total_deposited_of(u.user_addr@) - u.refunded
    } else {
        0
    }
}

/// The whole treasury sweep of an assignment list, summed entry by entry
/// against the deposits standing before the operation.
pub open spec fn spec_sweep(s0: VestingState, list: Seq<UserUpdateData>) -> int
    decreases list.len(),
{
    if list.len() == 0 {
        0
    } else {
        spec_sweep(s0, list.drop_last()) + sweep_term(s0, list.last())
    }
}

/// The assignment that ends up stored for `k`: the last list entry naming it.
pub open spec fn last_update_for(list: Seq<UserUpdateData>, k: Seq<char>) -> Option<UserUpdateData>
    decreases list.len(),
{
    if list.len() == 0 {
        None
    } else if list.last().user_addr@ == k {
        Some(list.last())
    } else {
        last_update_for(list.drop_last(), k)
    }
}

/// The machine limit on an update: the treasury sweep must not overflow.
pub open spec fn update_req(s: VestingState, caller: Seq<char>, list: Seq<UserUpdateData>) -> bool {
    caller == s.config.admin@ ==> spec_sweep(s, list) <= u128::MAX
}

/// The sweep grows by one term per entry taken.
proof fn lemma_sweep_take_step(s0: VestingState, list: Seq<UserUpdateData>, i: int)
    requires
        0 <= i < list.len(),
    ensures
        spec_sweep(s0, list.take(i + 1)) == spec_sweep(s0, list.take(i)) + sweep_term(s0, list[i]),
{
    assert(list.take(i + 1).drop_last() =~= list.take(i));
    assert(list.take(i + 1).last() == list[i]);
}

/// Every term is non-negative, so every prefix sweep is bounded by the whole.
proof fn lemma_sweep_prefix_le(s0: VestingState, list: Seq<UserUpdateData>, i: int)
    requires
        0 <= i <= list.len(),
    ensures
        spec_sweep(s0, list.take(i)) <= spec_sweep(s0, list),
        spec_sweep(s0, list.take(i)) >= 0,
    decreases list.len() - i,
{
    if i == list.len() {
        assert(list.take(i) =~= list);
        lemma_sweep_nonneg(s0, list);
    } else {
        lemma_sweep_take_step(s0, list, i);
        lemma_sweep_prefix_le(s0, list, i + 1);
        lemma_sweep_nonneg(s0, list.take(i));
    }
}

/// The sweep is a sum of non-negative terms.
proof fn lemma_sweep_nonneg(s0: VestingState, list: Seq<UserUpdateData>)
    ensures
        spec_sweep(s0, list) >= 0,
    decreases list.len(),
{
    if list.len() > 0 {
        lemma_sweep_nonneg(s0, list.drop_last());
    }
}

/// What the admin's assignment operation does: admin-only; on success each
/// named investor's allocation record is overwritten by the last entry naming
/// it, every other record is untouched, and the excess of deposits over the
/// refunds being set is swept to the treasury in one transfer.
pub open spec fn update_behavior(
    s0: VestingState,
    s1: VestingState,
    caller: Seq<char>,
    list: Seq<UserUpdateData>,
    r: Result<Response, ContractError>,
) -> bool {
    &&& (r is Err ==> s1 == s0)
    &&& (r is Err) == (caller != s0.config.admin@)
    &&& (r is Err ==> is_unauthorized_err(r))
    &&& (r is Ok ==> {
        &&& s1.config == s0.config
        &&& s1.status == s0.status
        &&& forall|k: Seq<char>|
            match #[trigger] last_update_for(list, k) {
                Some(u) => {
                    &&& s1.allocation_of(k) == u.allocation
                    &&& s1.refunded_of(k) == u.refunded
                    &&& s1.deposit_of(k) == s0.deposit_of(k)
                    &&& s1.released_of(k) == s0.released_of(k)
                    &&& s1.refund_marker_of(k) == s0.refund_marker_of(k)
                },
                None => s1.entry_of(k) == s0.entry_of(k),
            }
    })
    &&& (r matches Ok(resp) ==> {
        let sweep = spec_sweep(s0, list);
        &&& (sweep > 0 ==> resp.messages@.len() == 1 && is_bank_send(
            resp.messages@[0],
            s0.config.team_wallet@,
            s0.config.stable_denom@,
            sweep as u128,
        ))
        &&& (sweep == 0 ==> resp.messages@.len() == 0)
        &&& resp.attributes@.len() == 2
        &&& is_attr(resp.attributes@[0], "action"@, "update"@)
        &&& is_attr(resp.attributes@[1], "transfer_amount"@, dec_str(sweep))
    })
}

/// Overwrites the named investors' allocation records and sweeps the excess
/// deposits to the treasury.
pub fn update(state: &mut VestingState, sender: &String, list: &Vec<UserUpdateData>) -> (r: Result<
    Response,
    ContractError,
>)
    requires
        old(state).wf(),
        update_req(*old(state), sender@, list@),
    ensures
        final(state).wf(),
        update_behavior(*old(state), *final(state), sender@, list@, r),
{
    if !sender.eq(&state.config.admin) {
        return Err(ContractError::unauthorized());
    }
    let ghost s0 = *state;
    let n = list.len();
    let mut transfer_amount: u128 = 0;
    let mut i: usize = 0;
    proof {
        assert(list@.take(0) =~= Seq::<UserUpdateData>::empty());
    }
    while i < n
        invariant
            i <= n,
            n == list@.len(),
            state.wf(),
            state.config == s0.config,
            state.status == s0.status,
            spec_sweep(s0, list@) <= u128::MAX,
            transfer_amount as int == spec_sweep(s0, list@.take(i as int)),
            forall|k: Seq<char>| #[trigger] state.deposit_of(k) == s0.deposit_of(k),
            forall|k: Seq<char>|
                match #[trigger] last_update_for(list@.take(i as int), k) {
                    Some(u) => {
                        &&& state.allocation_of(k) == u.allocation
                        &&& state.refunded_of(k) == u.refunded
                        &&& state.released_of(k) == s0.released_of(k)
                        &&& state.refund_marker_of(k) == s0.refund_marker_of(k)
                    },
                    None => state.entry_of(k) == s0.entry_of(k),
                },
        decreases n - i,
    {
        let ghost pre = *state;
        let u = &list[i];
        state.set_user_data(&u.user_addr, u.allocation, u.refunded);
        let total = state.get_total_deposited(&u.user_addr);
        let has = state.has_deposit_record(&u.user_addr);
        proof {
            lemma_sweep_take_step(s0, list@, i as int);
            lemma_sweep_prefix_le(s0, list@, i as int + 1);
            lemma_sweep_nonneg(s0, list@.take(i as int));
        }
        if has && total > u.refunded {
            transfer_amount = transfer_amount + (total - u.refunded);
        }
        proof {
            let taken = list@.take(i as int);
            let taken1 = list@.take(i as int + 1);
            assert(taken1.drop_last() =~= taken);
            assert(taken1.last() == list@[i as int]);
            assert forall|k: Seq<char>| #[trigger] state.deposit_of(k) == s0.deposit_of(k) by {
                if k != list@[i as int].user_addr@ {
                    assert(state.entry_of(k) == pre.entry_of(k));
                }
                assert(pre.deposit_of(k) == s0.deposit_of(k));
            }
            assert forall|k: Seq<char>|
                match #[trigger] last_update_for(taken1, k) {
                    Some(w) => {
                        &&& state.allocation_of(k) == w.allocation
                        &&& state.refunded_of(k) == w.refunded
                        &&& state.released_of(k) == s0.released_of(k)
                        &&& state.refund_marker_of(k) == s0.refund_marker_of(k)
                    },
                    None => state.entry_of(k) == s0.entry_of(k),
                } by {
                if k == list@[i as int].user_addr@ {
                    assert(last_update_for(taken1, k) == Some(list@[i as int]));
                } else {
                    assert(last_update_for(taken1, k) == last_update_for(taken, k));
                    assert(state.entry_of(k) == pre.entry_of(k));
                }
            }
        }
        i = i + 1;
    }
    proof {
        assert(list@.take(n as int) =~= list@);
    }
    let mut messages: Vec<TransferMsg> = Vec::new();
    if transfer_amount > 0 {
        messages.push(
            TransferMsg::Bank {
                to_address: state.config.team_wallet.clone(),
                denom: state.config.stable_denom.clone(),
                amount: transfer_amount,
            },
        );
    }
    let mut attributes: Vec<Attribute> = Vec::new();
    attributes.push(
        Attribute { key: String::from_str("action"), value: String::from_str("update") },
    );
    attributes.push(
        Attribute {
            key: String::from_str("transfer_amount"),
            value: u128_to_string(transfer_amount),
        },
    );
    Ok(Response { messages, attributes })
}

/// The refund a claim pays out now: the assigned refund when it is positive
/// and has not been paid yet, and nothing otherwise.
pub open spec fn spec_refund_payout(s: VestingState, k: Seq<char>) -> u128 {
    if s.refunded_of(k) > 0 && !s.refund_paid(k) {
        s.refunded_of(k)
    } else {
        0
    }
}

/// The amount of `k`'s allocation vested at `now`, once vesting has begun.
pub open spec fn spec_vested(s: VestingState, k: Seq<char>, now: u64) -> int
    recommends
        now >= s.config.unlock_time(),
{
    crate::vesting::vested_amount(
        s.allocation_of(k),
        (now - s.config.unlock_time()) as u64,
        s.config.vesting_time,
    )
}

/// What a claim at `now` hands `k` in tokens: the vested amount beyond what
/// earlier claims already released.
pub open spec fn spec_claimable(s: VestingState, k: Seq<char>, now: u64) -> int
    recommends
        now >= s.config.unlock_time(),
{
    spec_vested(s, k, now) - s.released_of(k)
}

/// The machine limit on a claim: what was already released must not exceed
/// what is vested now. It can, only when the admin lowered an allocation
/// after a claim; there the original accounting has no answer.
pub open spec fn claim_req(s: VestingState, k: Seq<char>, now: u64) -> bool {
    (s.status.can_withdraw && now >= s.config.unlock_time()) ==> s.released_of(k) <= spec_vested(
        s,
        k,
        now,
    )
}

/// What a claim does. Rejected while withdrawals are disabled. During the
/// lock phase it pays a pending refund, alone, and fails when none is
/// pending. Once unlocked it pays any pending refund, releases the newly
/// vested tokens, and records the vested amount as released.
pub open spec fn claim_behavior(
    s0: VestingState,
    s1: VestingState,
    k: Seq<char>,
    now: u64,
    r: Result<Response, ContractError>,
) -> bool {
    let refund = spec_refund_payout(s0, k);
    let locked = now < s0.config.unlock_time();
    &&& (r is Err ==> s1 == s0)
    &&& (!s0.status.can_withdraw ==> is_err_with(
        r,
        ErrorKind::Precondition,
        "do not allow to claim"@,
    ))
    &&& (s0.status.can_withdraw && locked && refund == 0 ==> is_err_with(
        r,
        ErrorKind::Precondition,
        "locking funds"@,
    ))
    &&& (s0.status.can_withdraw && locked && refund > 0 ==> match r {
        Err(_) => false,
        Ok(resp) => {
        &&& s1.config == s0.config
        &&& s1.status == s0.status
        &&& s1.refund_marker_of(k) == Some(s0.refunded_of(k))
        &&& s1.deposit_of(k) == s0.deposit_of(k)
        &&& s1.allocation_of(k) == s0.allocation_of(k)
        &&& s1.refunded_of(k) == s0.refunded_of(k)
        &&& s1.released_of(k) == s0.released_of(k)
        &&& (forall|k2: Seq<char>| k2 != k ==> s1.entry_of(k2) == s0.entry_of(k2))
        &&& resp.messages@.len() == 1
        &&& is_bank_send(resp.messages@[0], k, s0.config.stable_denom@, refund)
        &&& resp.attributes@.len() == 2
        &&& is_attr(resp.attributes@[0], "action"@, "claim"@)
        &&& is_attr(resp.attributes@[1], "refunded_amount"@, dec_str(refund as int))
        },
    })
    &&& (s0.status.can_withdraw && !locked ==> match r {
        Err(_) => false,
        Ok(resp) => {
        let vested = spec_vested(s0, k, now);
        let claimable = spec_claimable(s0, k, now);
        &&& s1.config == s0.config
        &&& s1.status == s0.status
        &&& s1.released_of(k) == vested
        &&& s1.refund_marker_of(k) == (if refund > 0 {
            Some(s0.refunded_of(k))
        } else {
            s0.refund_marker_of(k)
        })
        &&& s1.deposit_of(k) == s0.deposit_of(k)
        &&& s1.allocation_of(k) == s0.allocation_of(k)
        &&& s1.refunded_of(k) == s0.refunded_of(k)
        &&& (forall|k2: Seq<char>| k2 != k ==> s1.entry_of(k2) == s0.entry_of(k2))
        &&& (refund > 0 && claimable > 0 ==> resp.messages@.len() == 2 && is_bank_send(
            resp.messages@[0],
            k,
            s0.config.stable_denom@,
            refund,
        ) && is_token_transfer(resp.messages@[1], s0.config.token_addr@, k, claimable as u128))
        &&& (refund > 0 && claimable == 0 ==> resp.messages@.len() == 1 && is_bank_send(
            resp.messages@[0],
            k,
            s0.config.stable_denom@,
            refund,
        ))
        &&& (refund == 0 && claimable > 0 ==> resp.messages@.len() == 1 && is_token_transfer(
            resp.messages@[0],
            s0.config.token_addr@,
            k,
            claimable as u128,
        ))
        &&& (refund == 0 && claimable == 0 ==> resp.messages@.len() == 0)
        &&& resp.attributes@.len() == 3
        &&& is_attr(resp.attributes@[0], "action"@, "claim"@)
        &&& is_attr(resp.attributes@[1], "claim_amount"@, dec_str(claimable))
        &&& is_attr(resp.attributes@[2], "returned_refunded_amount"@, dec_str(refund as int))
        },
    })
}

/// Pays the caller's pending refund and newly vested tokens.
pub fn claim(state: &mut VestingState, now: u64, sender: &String) -> (r: Result<
    Response,
    ContractError,
>)
    requires
        old(state).wf(),
        claim_req(*old(state), sender@, now),
    ensures
        final(state).wf(),
        claim_behavior(*old(state), *final(state), sender@, now, r),
{
    if !state.status.can_withdraw {
        return Err(ContractError::claim_disabled());
    }
    let user_data = state.get_user_data(sender);
    let marker = state.get_refund_marker(sender);
    let refund_pending = user_data.refunded > 0 && marker.is_none();
    let unlock = state.config.start_time + state.config.lock_time;
    if now < unlock {
        if refund_pending {
            state.set_refund_marker(sender, user_data.refunded);
            let mut messages: Vec<TransferMsg> = Vec::new();
            messages.push(
                TransferMsg::Bank {
                    to_address: sender.clone(),
                    denom: state.config.stable_denom.clone(),
                    amount: user_data.refunded,
                },
            );
            let mut attributes: Vec<Attribute> = Vec::new();
            attributes.push(
                Attribute { key: String::from_str("action"), value: String::from_str("claim") },
            );
            attributes.push(
                Attribute {
                    key: String::from_str("refunded_amount"),
                    value: u128_to_string(user_data.refunded),
                },
            );
            return Ok(Response { messages, attributes });
        }
        return Err(ContractError::locked());
    }
    let passed = now - unlock;
    let vested = crate::vesting::vested_tokens(
        user_data.allocation,
        passed,
        state.config.vesting_time,
    );
    let released = state.get_released(sender);
    let mut refund_amount: u128 = 0;
    let mut messages: Vec<TransferMsg> = Vec::new();
    if refund_pending {
        messages.push(
            TransferMsg::Bank {
                to_address: sender.clone(),
                denom: state.config.stable_denom.clone(),
                amount: user_data.refunded,
            },
        );
        state.set_refund_marker(sender, user_data.refunded);
        refund_amount = user_data.refunded;
    }
    state.set_released(sender, vested);
    let claimable = vested - released;
    if claimable > 0 {
        messages.push(
            TransferMsg::Token {
                contract_addr: state.config.token_addr.clone(),
                recipient: sender.clone(),
                amount: claimable,
            },
        );
    }
    let mut attributes: Vec<Attribute> = Vec::new();
    attributes.push(
        Attribute { key: String::from_str("action"), value: String::from_str("claim") },
    );
    attributes.push(
        Attribute { key: String::from_str("claim_amount"), value: u128_to_string(claimable) },
    );
    attributes.push(
        Attribute {
            key: String::from_str("returned_refunded_amount"),
            value: u128_to_string(refund_amount),
        },
    );
    Ok(Response { messages, attributes })
}

/// The refund already returned to `k`, as the claim projection reports it.
pub open spec fn spec_refund_returned(s: VestingState, k: Seq<char>) -> u128 {
    match s.refund_marker_of(k) {
        Some(v) => v,
        None => 0,
    }
}

/// What the configuration projection reports.
pub open spec fn config_query_behavior(s: VestingState, c: ConfigResponse) -> bool {
    &&& c.admin@ == s.config.admin@
    &&& c.token_addr@ == s.config.token_addr@
    &&& c.team_wallet@ == s.config.team_wallet@
    &&& c.stable_denom@ == s.config.stable_denom@
    &&& c.start_time == s.config.start_time
    &&& c.lock_time == s.config.lock_time
    &&& c.vesting_time == s.config.vesting_time
}

/// Returns the configuration in display form.
pub fn query_config(state: &VestingState) -> (c: ConfigResponse)
    ensures
        config_query_behavior(*state, c),
{
    ConfigResponse {
        admin: state.config.admin.clone(),
        token_addr: state.config.token_addr.clone(),
        team_wallet: state.config.team_wallet.clone(),
        stable_denom: state.config.stable_denom.clone(),
        start_time: state.config.start_time,
        lock_time: state.config.lock_time,
        vesting_time: state.config.vesting_time,
    }
}

/// What the per-investor projection reports: every record of the wallet,
/// with absent records read as zeros, never as an error.
pub open spec fn investor_query_behavior(
    s: VestingState,
    k: Seq<char>,
    inv: InvestorResponse,
) -> bool {
    &&& inv.total_deposited == s.total_deposited_of(k)
    &&& inv.allocation == s.allocation_of(k)
    &&& inv.refunded == s.refunded_of(k)
    &&& inv.is_refunded == s.refund_paid(k)
    &&& inv.deposit_history@ == s.history_of(k)
}

/// Returns everything recorded about one wallet.
pub fn query_investor(state: &VestingState, wallet: &String) -> (inv: InvestorResponse)
    requires
        state.wf(),
    ensures
        investor_query_behavior(*state, wallet@, inv),
{
    let user_data = state.get_user_data(wallet);
    InvestorResponse {
        total_deposited: state.get_total_deposited(wallet),
        allocation: user_data.allocation,
        refunded: user_data.refunded,
        is_refunded: state.get_refund_marker(wallet).is_some(),
        deposit_history: state.get_history(wallet),
    }
}

/// What the claim projection reports at `now`: zero claimable before
/// withdrawals are enabled, the remaining lock time while locked, and
/// otherwise exactly what a claim would transfer, without mutating anything.
pub open spec fn claimable_query_behavior(
    s: VestingState,
    k: Seq<char>,
    now: u64,
    q: ClaimableAmountResponse,
) -> bool {
    let locked = now < s.config.unlock_time();
    &&& (!s.status.can_withdraw ==> {
        &&& q.lock_time_left == 0
        &&& q.tokens_allocated@ == dec_str(s.allocation_of(k) as int)
        &&& q.token_avaiable_to_claim@ == dec_str(0)
        &&& q.returned_ust@ == dec_str(0)
    })
    &&& (s.status.can_withdraw && locked ==> {
        &&& q.lock_time_left == s.config.unlock_time() - now
        &&& q.tokens_allocated@ == dec_str(s.allocation_of(k) as int)
        &&& q.token_avaiable_to_claim@ == dec_str(0)
        &&& q.returned_ust@ == dec_str(spec_refund_returned(s, k) as int)
    })
    &&& (s.status.can_withdraw && !locked ==> {
        &&& q.lock_time_left == 0
        &&& q.tokens_allocated@ == dec_str(s.allocation_of(k) as int)
        &&& q.token_avaiable_to_claim@ == dec_str(spec_claimable(s, k, now))
        &&& q.returned_ust@ == dec_str(spec_refund_returned(s, k) as int)
    })
}

/// Mirrors the claim engine read-only: phase, allocation, what is claimable
/// now, and what refund has been returned.
pub fn query_claimable_amount(state: &VestingState, now: u64, wallet: &String) -> (q:
    ClaimableAmountResponse)
    requires
        state.wf(),
        claim_req(*state, wallet@, now),
    ensures
        claimable_query_behavior(*state, wallet@, now, q),
{
    let user_data = state.get_user_data(wallet);
    if !state.status.can_withdraw {
        return ClaimableAmountResponse {
            lock_time_left: 0,
            tokens_allocated: u128_to_string(user_data.allocation),
            token_avaiable_to_claim: u128_to_string(0),
            returned_ust: u128_to_string(0),
        };
    }
    let returned = match state.get_refund_marker(wallet) {
        Some(v) => v,
        None => 0,
    };
    let unlock = state.config.start_time + state.config.lock_time;
    if now < unlock {
        return ClaimableAmountResponse {
            lock_time_left: unlock - now,
            tokens_allocated: u128_to_string(user_data.allocation),
            token_avaiable_to_claim: u128_to_string(0),
            returned_ust: u128_to_string(returned),
        };
    }
    let passed = now - unlock;
    let vested = crate::vesting::vested_tokens(
        user_data.allocation,
        passed,
        state.config.vesting_time,
    );
    let released = state.get_released(wallet);
    let claimable = vested - released;
    ClaimableAmountResponse {
        lock_time_left: 0,
        tokens_allocated: u128_to_string(user_data.allocation),
        token_avaiable_to_claim: u128_to_string(claimable),
        returned_ust: u128_to_string(returned),
    }
}

/// The listing a range scan produces: one row per investor with a deposit
/// record, in ledger order, as (identity, total deposited) pairs.
pub open spec fn spec_list(s: Seq<crate::state::InvestorEntry>) -> Seq<(Seq<char>, u128)>
    decreases s.len(),
{
    if s.len() == 0 {
        Seq::empty()
    } else {
        spec_list(s.drop_last()) + (match s.last().deposit {
            Some(d) => seq![(s.last().addr@, d.total_deposited)],
            None => Seq::empty(),
        })
    }
}

/// The rows of a listing as (identity, total) pairs.
pub open spec fn wallet_views(ws: Seq<WalletInfo>) -> Seq<(Seq<char>, u128)> {
    ws.map_values(|w: WalletInfo| (w.wallet@, w.total))
}

/// Lists every investor with a recorded deposit and their total, in
/// ascending key order.
pub fn query_list(state: &VestingState) -> (r: ListResponse)
    requires
        state.wf(),
    ensures
        wallet_views(r.investors@) == spec_list(state.entries@),
{
    let n = state.entries.len();
    let mut investors: Vec<WalletInfo> = Vec::new();
    let mut i: usize = 0;
    proof {
        assert(state.entries@.take(0) =~= Seq::<crate::state::InvestorEntry>::empty());
        assert(wallet_views(investors@) =~= spec_list(state.entries@.take(0)));
    }
    while i < n
        invariant
            i <= n,
            n == state.entries@.len(),
            wallet_views(investors@) == spec_list(state.entries@.take(i as int)),
        decreases n - i,
    {
        let ghost prev = investors@;
        let entry = &state.entries[i];
        match &entry.deposit {
            Some(d) => {
                investors.push(WalletInfo { wallet: entry.addr.clone(), total: d.total_deposited });
            },
            None => {},
        }
        proof {
            let taken1 = state.entries@.take(i as int + 1);
            assert(taken1.drop_last() =~= state.entries@.take(i as int));
            assert(taken1.last() == state.entries@[i as int]);
            assert(wallet_views(investors@) =~= spec_list(taken1));
        }
        i = i + 1;
    }
    proof {
        assert(state.entries@.take(n as int) =~= state.entries@);
    }
    ListResponse { investors }
}

/// Routes one state-transition call to its operation.
pub fn execute(
    state: &mut VestingState,
    now: u64,
    sender: &String,
    funds: &Vec<Coin>,
    msg: ExecuteMsg,
) -> (r: Result<Response, ContractError>)
    requires
        old(state).wf(),
        match msg {
            ExecuteMsg::Deposit {} => deposit_req(*old(state), sender@, funds@),
            ExecuteMsg::Update(list) => update_req(*old(state), sender@, list@),
            ExecuteMsg::Claim {} => claim_req(*old(state), sender@, now),
            _ => true,
        },
    ensures
        final(state).wf(),
        match msg {
            ExecuteMsg::Deposit {} => deposit_behavior(
                *old(state),
                *final(state),
                now,
                sender@,
                funds@,
                r,
            ),
            ExecuteMsg::CanDeposit(b) => enable_deposit_behavior(
                *old(state),
                *final(state),
                sender@,
                b,
                r,
            ),
            ExecuteMsg::Update(list) => update_behavior(
                *old(state),
                *final(state),
                sender@,
                list@,
                r,
            ),
            ExecuteMsg::UpdateToken(addr) => update_token_behavior(
                *old(state),
                *final(state),
                sender@,
                addr@,
                r,
            ),
            ExecuteMsg::EnableWithdraw {} => enable_withdraw_behavior(
                *old(state),
                *final(state),
                sender@,
                r,
            ),
            ExecuteMsg::Claim {} => claim_behavior(*old(state), *final(state), sender@, now, r),
        },
{
    match msg {
        ExecuteMsg::Deposit {} => deposit(state, now, sender, funds),
        ExecuteMsg::CanDeposit(b) => enable_deposit(state, sender, b),
        ExecuteMsg::Update(list) => update(state, sender, &list),
        ExecuteMsg::UpdateToken(addr) => update_token(state, sender, addr),
        ExecuteMsg::EnableWithdraw {} => enable_withdraw(state, sender),
        ExecuteMsg::Claim {} => claim(state, now, sender),
    }
}

/// Routes one read-only query to its projection.
pub fn query(state: &VestingState, now: u64, msg: QueryMsg) -> (r: QueryAnswer)
    requires
        state.wf(),
        match msg {
            QueryMsg::ClaimableAmount { wallet } => claim_req(*state, wallet@, now),
            _ => true,
        },
    ensures
        match msg {
            QueryMsg::Config {} => match r {
                QueryAnswer::Config(c) => config_query_behavior(*state, c),
                _ => false,
            },
            QueryMsg::List {} => match r {
                QueryAnswer::List(l) => wallet_views(l.investors@) == spec_list(state.entries@),
                _ => false,
            },
            QueryMsg::ClaimableAmount { wallet } => match r {
                QueryAnswer::ClaimableAmount(q) => claimable_query_behavior(
                    *state,
                    wallet@,
                    now,
                    q,
                ),
                _ => false,
            },
            QueryMsg::Investor { wallet } => match r {
                QueryAnswer::Investor(inv) => investor_query_behavior(*state, wallet@, inv),
                _ => false,
            },
        },
{
    match msg {
        QueryMsg::Config {} => QueryAnswer::Config(query_config(state)),
        QueryMsg::List {} => QueryAnswer::List(query_list(state)),
        QueryMsg::ClaimableAmount { wallet } => QueryAnswer::ClaimableAmount(
            query_claimable_amount(state, now, &wallet),
        ),
        QueryMsg::Investor { wallet } => QueryAnswer::Investor(query_investor(state, &wallet)),
    }
}

} // verus!
