//! A campus lending service: an inventory of campus assets and the loans
//! of their units to students and staff.
pub mod consistency;
pub mod laws;
pub mod lending;
pub mod model;
pub mod types;

pub use crate::lending::CampusLending;
pub use crate::model::{MAX_EXTENSION_DAYS, MAX_LOAN_DAYS, SECONDS_PER_DAY};
pub use crate::types::{
    Abort, Address, Item, ItemCategory, ItemStatus, Loan, LoanStatus, Reply, Statistics,
};
