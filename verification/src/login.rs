//! The login form body sent upstream: the two credentials,
//! percent-encoded and joined as `application/x-www-form-urlencoded`.

use vstd::prelude::*;

verus! {

/// The percent-encoding of `s`: every byte except ASCII alphanumerics
/// and `-`, `_`, `.`, `~` becomes `%XX`.
pub uninterp spec fn form_encoded(s: Seq<char>) -> Seq<char>;

/// Relies on `urlencoding::encode`: the encoding depends on the input
/// characters alone.
#[verifier::external_body]
fn encode_component(s: &str) -> (r: String)
    ensures
        r@ == form_encoded(s@),
{
    urlencoding::encode(s).into_owned()
}

/// What the login form body reads as.
pub open spec fn login_form_of(username: Seq<char>, password: Seq<char>) -> Seq<char> {
    "username="@ + form_encoded(username) + "&password="@ + form_encoded(password)
}

/// Builds the login form body for one pair of credentials.
pub fn build_login_form(username: &str, password: &str) -> (r: String)
    ensures
        r@ == login_form_of(username@, password@),
{
    let mut r = String::from_str("username=");
    let eu = encode_component(username);
    r.append(eu.as_str());
    r.append("&password=");
    let ep = encode_component(password);
    r.append(ep.as_str());
    proof {
        assert(r@ =~= login_form_of(username@, password@));
    }
    r
}

} // verus!
