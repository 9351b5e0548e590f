//! The off-chain half of a verifiable-randomness oracle: parsing transaction logs into program
//! events, reading randomness requests, computing the randomness and its proof, completing the
//! stored callback, and the retry and subscription decisions around submitting it.
use vstd::prelude::*;

pub mod callback;
pub mod codec;
pub mod log_line;
pub mod parse_logs;
pub mod process;
pub mod randomness;
pub mod request;
pub mod submit;
pub mod supervise;
pub mod wire;

verus! {

} // verus!
