pub mod address;
pub mod constants;
pub mod identity;
pub mod wall;
pub mod ledger;
