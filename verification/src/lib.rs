//! Verified core of the DSponsor sponsorship protocol: the state and the
//! decision rules of the sponsorship NFT, its marketplace, the admin gateway
//! that manages sponsoring offers, and the deployment factory.
//!
//! Each contract is modelled as a plain Rust value (`DSponsorNFT`,
//! `DSponsorMarket`, `DSponsorAdmin`, `DSponsorFactory`). A call on the
//! contract is a method that either rejects the request with an error, leaving
//! the state unchanged, or moves the state forward and reports the token
//! movements and cross-contract calls that the host has to carry out.

pub mod keymap;
pub mod text;
pub mod calls;
pub mod nft;
pub mod market;
pub mod factory;
pub mod admin;
pub mod laws;
pub mod rules;
