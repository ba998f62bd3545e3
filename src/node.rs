use vstd::prelude::*;

verus! {

/// The message of a node that cannot be reached at `url`.
pub open spec fn connect_failure(url: Seq<char>) -> Seq<char> {
    "Failed to connect to Ethereum node at "@ + url
}

/// The error that a connection attempt to the node at `url` reports.
pub fn connect_error_message(url: &str) -> (r: String)
    ensures
        r@ == connect_failure(url@),
{
    let msg = String::from_str("Failed to connect to Ethereum node at ");
    msg.concat(url)
}

} // verus!
