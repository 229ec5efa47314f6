//! Cache keys: a category prefix plus the first ten characters of the
//! opaque auth token. Distinct tokens sharing a ten-character prefix
//! collide; that is accepted, known behaviour.

use vstd::prelude::*;

verus! {

/// The first ten characters of a token (all of it when shorter).
pub open spec fn token_prefix(t: Seq<char>) -> Seq<char> {
    if t.len() <= 10 {
        t
    } else {
        t.take(10)
    }
}

/// The key a category prefix and a token derive.
pub open spec fn cache_key_of(prefix: Seq<char>, t: Seq<char>) -> Seq<char> {
    prefix + token_prefix(t)
}

/// Builds the cache key for one data category and one token.
pub fn make_cache_key(prefix: &str, token: &str) -> (r: String)
    ensures
        r@ == cache_key_of(prefix@, token@),
{
    let n = token.unicode_len();
    let m: usize = if n < 10 {
        n
    } else {
        10
    };
    let p = token.substring_char(0, m);
    let r = String::from_str(prefix).concat(p);
    proof {
        assert(token@.subrange(0, m as int) =~= token_prefix(token@));
    }
    r
}

} // verus!
