//! Addresses and networks.

pub mod network;
