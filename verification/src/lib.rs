//! Group treasuries: groups of members pool funds in fund rounds and pay
//! them out through release proposals approved by the group.

pub mod address;
pub mod errors;
pub mod table;
pub mod totals;
pub mod group;
pub mod types;
pub mod model;
pub mod treasury;
pub mod release;
pub mod fund_round;
pub mod queries;
pub mod laws;
pub mod history;
pub mod guarantees;
