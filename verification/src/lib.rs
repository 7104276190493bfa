use vstd::prelude::*;

pub mod text;
pub mod classification;
pub mod numbers;
pub mod store;
pub mod bill_merge;
pub mod error;
pub mod crypto;
pub mod models;
pub mod sync;
pub mod config;
pub mod net;
pub mod stats;
pub mod services;
pub mod reclassify;
pub mod query;
pub mod captcha;
pub mod ocr;
pub mod remote;
pub mod backup;
pub mod webdav;
pub mod export;
pub mod p2p;
pub mod frontend;
pub mod accounts;

verus! {

} // verus!
