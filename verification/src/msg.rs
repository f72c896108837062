//! The shapes of the state-transition and query interface: inbound messages,
//! attached payments, and the outbound instructions and read-only projections
//! an operation returns. Wire encoding belongs to the host runtime; these
//! types carry the field names and plain values it serializes.

use vstd::prelude::*;

verus! {

/// Parameters of the one-time initialization.
#[derive(Debug, Clone, PartialEq, Eq)]
pub struct InstantiateMsg {
    pub token_addr: String,
    pub stable_denom: String,
    /// Defaults to the initializing caller when absent.
    pub admin: Option<String>,
    /// Defaults to the initializing caller when absent.
    pub team_wallet: Option<String>,
    /// Unix seconds at which the schedule is anchored.
    pub start_time: u64,
    /// Seconds after `start_time` during which nothing vests.
    pub lock_time: u64,
    /// Seconds over which the allocation then vests linearly.
    pub vesting_time: u64,
}

/// One investor's allocation and refund assignment.
#[derive(Debug, Clone, PartialEq, Eq)]
pub struct UserUpdateData {
    pub user_addr: String,
    pub allocation: u128,
    pub refunded: u128,
}

/// The state-transition operations.
#[derive(Debug, Clone, PartialEq, Eq)]
pub enum ExecuteMsg {
    Deposit {},
    CanDeposit(bool),
    Update(Vec<UserUpdateData>),
    UpdateToken(String),
    EnableWithdraw {},
    Claim {},
}

/// The read-only queries.
#[derive(Debug, Clone, PartialEq, Eq)]
pub enum QueryMsg {
    Config {},
    List {},
    ClaimableAmount { wallet: String },
    Investor { wallet: String },
}

/// Hook message shape reserved for token-contract callbacks; no operation
/// here consumes it.
#[derive(Debug, Clone, PartialEq, Eq)]
pub enum Cw20HookMsg {
    StakeVotingTokens {},
}

/// One attached native-asset payment.
#[derive(Debug, Clone, PartialEq, Eq)]
pub struct Coin {
    pub denom: String,
    pub amount: u128,
}

/// An outbound asset-transfer instruction for the host to perform.
#[derive(Debug, Clone, PartialEq, Eq)]
pub enum TransferMsg {
    /// Send native assets from the contract balance.
    Bank { to_address: String, denom: String, amount: u128 },
    /// Ask the token contract to transfer vested tokens.
    Token { contract_addr: String, recipient: String, amount: u128 },
}

/// One structured event tag.
#[derive(Debug, Clone, PartialEq, Eq)]
pub struct Attribute {
    pub key: String,
    pub value: String,
}

/// What a successful state transition hands back to the host.
#[derive(Debug, Clone, PartialEq, Eq)]
pub struct Response {
    pub messages: Vec<TransferMsg>,
    pub attributes: Vec<Attribute>,
}

/// Projection of the configuration.
#[derive(Debug, Clone, PartialEq, Eq)]
pub struct ConfigResponse {
    pub admin: String,
    pub token_addr: String,
    pub team_wallet: String,
    pub stable_denom: String,
    pub start_time: u64,
    pub lock_time: u64,
    pub vesting_time: u64,
}

/// Projection of one investor's records; absent records read as zeros.
#[derive(Debug, Clone, PartialEq, Eq)]
pub struct InvestorResponse {
    pub total_deposited: u128,
    pub allocation: u128,
    pub refunded: u128,
    pub is_refunded: bool,
    pub deposit_history: Vec<DepositInfo>,
}

/// One accepted deposit: when and how much.
#[derive(Debug, Clone, Copy, PartialEq, Eq, Structural)]
pub struct DepositInfo {
    pub date: u64,
    pub amount: u128,
}

/// Projection of the claim engine at a given instant.
#[derive(Debug, Clone, PartialEq, Eq)]
pub struct ClaimableAmountResponse {
    /// Seconds until vesting begins; zero once unlocked.
    pub lock_time_left: u64,
    pub tokens_allocated: String,
    pub token_avaiable_to_claim: String,
    pub returned_ust: String,
}

/// One row of the deposit listing.
#[derive(Debug, Clone, PartialEq, Eq)]
pub struct WalletInfo {
    pub wallet: String,
    pub total: u128,
}

/// Every investor with a recorded deposit, in ascending key order.
#[derive(Debug, Clone, PartialEq, Eq)]
pub struct ListResponse {
    pub investors: Vec<WalletInfo>,
}

/// The typed result of a query, one variant per `QueryMsg` variant.
#[derive(Debug, Clone, PartialEq, Eq)]
pub enum QueryAnswer {
    Config(ConfigResponse),
    List(ListResponse),
    ClaimableAmount(ClaimableAmountResponse),
    Investor(InvestorResponse),
}

} // verus!
