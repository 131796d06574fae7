//! Header relay core: carries consensus state of a proof-of-stake source chain
//! to a light client that lives on a destination contract chain.
//!
//! The crate holds the decisions of the relay and leaves every effect to its
//! caller: canonical data and its conversion from source-chain structures, the
//! binary envelope handed to the destination, the trust state kept between
//! cycles, the bounded polling for the next block, and the driver that ties
//! them together as a state machine from events to actions.

pub mod address;
pub mod bytes;
pub mod canonical;
pub mod decode;
pub mod header_source;
pub mod hexcode;
pub mod key;
pub mod lookup;
pub mod parse;
pub mod proto;
pub mod relay;
pub mod run;
pub mod source;
pub mod trust;
pub mod types;
pub mod wire;
