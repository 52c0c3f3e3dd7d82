pub mod errors;
pub mod math_common;
pub mod settlement_math;
pub mod settlement_laws;
pub mod precision_laws;
pub mod common;
pub mod config;
pub mod config_state;
pub mod config_entry;
pub mod admin;
pub mod round;
pub mod access_control;
pub mod betting;
pub mod insurance;
pub mod commitment;
pub mod governance;
pub mod oracle_committee;
pub mod collateral;
pub mod oracle;
pub mod attestation;
pub mod xdr;
pub mod settlement;
pub mod contract;
pub mod archive;
pub mod solvency_laws;
