//! Requests, stored configuration and the outbound dispatch message.
use vstd::prelude::*;
use crate::abi::Word;

verus! {

/// Configuration given when the relay is set up.
#[derive(Clone, Debug, PartialEq, Eq)]
pub struct InstantiateMsg {
    /// Seconds that must pass, strictly, before a key is admitted again.
    pub retry_delay: u64,
    pub job_id: String,
    pub creator: String,
    pub signers: Vec<String>,
}

/// One swap route: 11 route addresses, a 5 by 5 matrix of parameters, an
/// amount, an expected output and 5 pool addresses. Lengths are checked, not
/// assumed.
#[derive(Clone, Debug, PartialEq, Eq)]
pub struct SwapInfo {
    pub route: Vec<String>,
    pub swap_params: Vec<Vec<Word>>,
    pub amount: Word,
    pub expected: Word,
    pub pools: Vec<String>,
}

/// One repay item. A bot carries a list of swap routes: the destination takes
/// an array of route tuples per bot, so a single route is a list of one.
#[derive(Clone, Debug, PartialEq, Eq)]
pub struct BotInfo {
    pub bot: String,
    pub callbacker: String,
    pub callback_args: Vec<Word>,
    pub swap_infos: Vec<SwapInfo>,
}

/// The operations of the relay.
#[derive(Clone, Debug, PartialEq, Eq)]
pub enum ExecuteMsg {
    CreateNextBot {
        bot_id: Word,
        callbacker: String,
        callback_args: Vec<Word>,
        remaining_count: Word,
    },
    RepayBot { bot_info: Vec<BotInfo> },
    SetPaloma,
    UpdateCompass { new_compass: String },
    UpdateBlueprint { new_blueprint: String },
    UpdateRefundWallet { new_refund_wallet: String },
    UpdateGasFee { new_gas_fee: Word },
    UpdateServiceFeeCollector { new_service_fee_collector: String },
    UpdateServiceFee { new_service_fee: Word },
}

/// Who created the job and who signs for it; forwarded with every dispatch.
#[derive(Clone, Debug, PartialEq, Eq)]
pub struct Metadata {
    pub creator: String,
    pub signers: Vec<String>,
}

/// The dispatch message handed to the relay.
#[derive(Clone, Debug, PartialEq, Eq)]
pub struct PalomaMsg {
    /// The scheduled job that carries the call.
    pub job_id: String,
    /// The call data for the destination contract.
    pub payload: Vec<u8>,
    pub metadata: Metadata,
}

/// The read-only requests.
#[derive(Clone, Debug, PartialEq, Eq)]
pub enum QueryMsg {
    GetJobId,
}

#[derive(Clone, Debug, PartialEq, Eq)]
pub struct GetJobIdResponse {
    pub job_id: String,
}

/// The stored configuration.
#[derive(Clone, Debug, PartialEq, Eq)]
pub struct State {
    pub retry_delay: u64,
    pub job_id: String,
    pub owner: String,
    pub metadata: Metadata,
}

/// Why a request produced no dispatch.
#[derive(Clone, Copy, Debug, PartialEq, Eq, Structural)]
pub enum ContractError {
    /// The caller is not the owner.
    Unauthorized,
    /// The retry check admitted nothing.
    AllPending,
    /// A repay request with no items.
    EmptyBotInfo,
    /// A text that is not a 20-byte hex address.
    InvalidAddress,
    /// A swap route whose fixed-length fields have the wrong length.
    InvalidSwapInfo,
}

} // verus!
