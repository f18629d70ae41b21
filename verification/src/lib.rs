//! The decisions of a proof-of-work node's service: which inherents it provides, in which order it
//! starts its parts, what it tells its miners and what it takes from them.
pub mod author;
pub mod hexadecimal;
pub mod inherents;
pub mod mine;
pub mod mine_params;
pub mod raw_seal;
pub mod service;
pub mod web_server;
