//! Azure storage account keys and Entra credentials.

pub mod arm;
pub mod claims;
pub mod credentials;
pub mod enterprise;
pub mod graph;
pub mod pages;
pub mod permissions;
pub mod storage;
