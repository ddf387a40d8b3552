//! Packet encoding and transaction-submission decisions for a cross-chain
//! token-transfer relayer.

pub mod packet;
pub mod submission;
