pub mod errors;
pub mod invariants;
pub mod rates;
pub mod types;
pub mod ledger;
pub mod config;
pub mod rewards;
pub mod accounts;
pub mod goals;
pub mod locks;
pub mod groups;
pub mod autosave;
pub mod ranking;
pub mod redemption;
pub mod upgrade;
pub mod lemmas;
