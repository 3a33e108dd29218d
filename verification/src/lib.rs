pub mod error;
pub mod fetch;
pub mod human;
pub mod policy;
pub mod progress;
pub mod report;
pub mod transfer;
