//! A verified model of the CarbonChain carbon-credit contracts: a credit
//! registry, a marketplace for listing credits, an MRV (measurement,
//! reporting and verification) oracle, and a retirement ledger.
pub mod ids;
pub mod table;
pub mod host;
pub mod registry;
pub mod marketplace;
pub mod oracle;
pub mod retirement;
