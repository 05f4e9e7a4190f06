//! The background price poller's decisions: the fixed symbol set it watches
//! and how each fetch outcome changes the shared cache.
//!
//! The loop itself (sleep, fetch, publish) runs outside the library; every
//! iteration hands its outcome to `apply_poll_result`, which decides what
//! the cache becomes and whether the snapshot list is published.

use vstd::prelude::*;
use vstd::string::*;
use crate::prices::PriceData;

verus! {

/// The fixed set of exchange symbols the background poller watches.
pub fn poll_symbols() -> (r: Vec<String>)
    ensures
        r@.len() == 6,
        r@[0]@ == "BTCUSDT"@,
        r@[1]@ == "ETHUSDT"@,
        r@[2]@ == "SOLUSDT"@,
        r@[3]@ == "BNBUSDT"@,
        r@[4]@ == "XRPUSDT"@,
        r@[5]@ == "ADAUSDT"@,
{
    let mut r: Vec<String> = Vec::new();
    r.push(String::from_str("BTCUSDT"));
    r.push(String::from_str("ETHUSDT"));
    r.push(String::from_str("SOLUSDT"));
    r.push(String::from_str("BNBUSDT"));
    r.push(String::from_str("XRPUSDT"));
    r.push(String::from_str("ADAUSDT"));
    r
}

/// Applies one fetch outcome to the cache: a successful fetch replaces the
/// cache in full and is published to subscribers; a failure leaves the
/// cache untouched and publishes nothing, and the loop goes on.
pub fn apply_poll_result(cache: Vec<PriceData>, fetched: Result<Vec<PriceData>, usize>) -> (r: (
    Vec<PriceData>,
    bool,
))
    ensures
        fetched matches Ok(list) ==> (r.0 == list && r.1 == true),
        fetched is Err ==> (r.0 == cache && r.1 == false),
{
    match fetched {
        Ok(list) => (list, true),
        Err(_) => (cache, false),
    }
}

} // verus!
