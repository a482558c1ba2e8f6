//! A relay for bot automation: it holds back repeated requests per key for a
//! retry window and encodes admitted requests as call data for a contract on
//! an EVM chain, wrapped in a dispatch message.
pub mod abi;
pub mod batch;
pub mod msg;
pub mod relay;
pub mod retry;
