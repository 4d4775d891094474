//! Relay settings.

use vstd::prelude::*;

verus! {

/// Relay settings.
pub struct Config {
    /// Address the UDP transport listens on.
    pub udp_bind_address: String,
    /// Address the signaling HTTP endpoint listens on.
    pub http_bind_address: String,
    /// Client versions that may authenticate.
    pub allowed_versions: Vec<String>,
    /// Application tokens that may authenticate; empty admits every token.
    pub whitelist: Vec<String>,
    /// Endpoint that decides on application tokens; empty means none.
    pub remote_whitelist_endpoint: String,
    /// Token the relay presents to that endpoint; empty means none.
    pub remote_whitelist_token: String,
}

/// The characters of each string, in order.
pub open spec fn string_views(v: Seq<String>) -> Seq<Seq<char>> {
    v.map_values(|s: String| s@)
}

/// Whether `x` equals one of the strings.
pub fn contains_string(v: &Vec<String>, x: &str) -> (res: bool)
    ensures
        res == string_views(v@).contains(x@),
{
    let wanted = x.to_owned();
    let mut i: usize = 0;
    while i < v.len()
        invariant
            i <= v@.len(),
            wanted@ == x@,
            forall|j: int| 0 <= j < i ==> v@[j]@ != x@,
        decreases v@.len() - i,
    {
        if v[i] == wanted {
            assert(string_views(v@)[i as int] == x@);
            return true;
        }
        i = i + 1;
    }
    proof {
        if string_views(v@).contains(x@) {
            let j = choose|j: int| 0 <= j < string_views(v@).len() && string_views(v@)[j] == x@;
            assert(v@[j]@ == x@);
        }
    }
    false
}

} // verus!
