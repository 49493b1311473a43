//! One hop of an interledger node: validated hierarchical addresses, the
//! incoming request pipeline with its address-provisioning stage, and the
//! retry decisions of the client that tells settlement engines of new accounts.

pub mod address;
pub mod settlement;
pub mod packet;
pub mod service;
pub mod ildcp;
pub mod test_helpers;
pub mod cli;
