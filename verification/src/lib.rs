//! A price oracle: an on-chain ring buffer of recently submitted prices and
//! their average, the rules that decide which unsigned price transactions are
//! accepted, and the parsing of a price out of a JSON price feed.

pub mod pow10;
pub mod json;
pub mod pallet;
pub mod price;
pub mod http;
pub mod validation;
pub mod worker;
pub mod laws;
