//! Crawl-to-index pipeline: payload classification, deduplicated two-table
//! persistence, crawl session control and search snippet extraction.
pub mod address;
pub mod classify;
pub mod ingest;
pub mod search;
pub mod session;
pub mod sites;
pub mod snippet;
pub mod store;

use vstd::prelude::*;
use vstd::string::StringExecFns;

verus! {

/// The greeting for `name`.
pub open spec fn greeting(name: Seq<char>) -> Seq<char> {
    "Hello, "@ + name + "! You've been greeted from Rust!"@
}

/// Greets `name`.
pub fn greet(name: &str) -> (r: String)
    ensures
        r@ == greeting(name@),
{
    let mut r = String::from_str("Hello, ");
    r.append(name);
    r.append("! You've been greeted from Rust!");
    r
}

} // verus!
