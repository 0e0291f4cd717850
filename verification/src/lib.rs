use vstd::prelude::*;

pub mod abi;
pub mod bus;
pub mod cli;
pub mod controller;
pub mod device;
pub mod error;
pub mod gateway;
pub mod hightorque;
pub mod ht_commands;
pub mod modes;
pub mod pcan;
pub mod socketcan;
pub mod text;
pub mod vendor_controller;

verus! {

} // verus!
