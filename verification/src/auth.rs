use vstd::prelude::*;

use subtle::ConstantTimeEq;

verus! {

/// Relies on subtle's `ConstantTimeEq` for byte slices and
/// `Choice::unwrap_u8`: the comparison yields 1 exactly when the two
/// slices are equal, element by element, in time independent of their
/// contents; equal UTF-8 encodings mean equal strings.
#[verifier::external_body]
fn ct_str_eq(a: &str, b: &str) -> (r: bool)
    ensures
        r == (a@ == b@),
{
    a.as_bytes().ct_eq(b.as_bytes()).unwrap_u8() == 1
}

/// The header value a caller must present for the configured token.
pub open spec fn spec_bearer(token: Seq<char>) -> Seq<char> {
    "Bearer "@ + token
}

/// Decide whether a presented `Authorization` header value matches the
/// configured secret, comparing in constant time with respect to the
/// secret's content so that timing reveals nothing about it. Accepts
/// exactly the value `Bearer ` followed by the token.
pub fn check_bearer(auth_header: &str, token: &str) -> (r: bool)
    ensures
        r == (auth_header@ == spec_bearer(token@)),
{
    let mut expected = "Bearer ".to_owned();
    expected.append(token);
    ct_str_eq(auth_header, expected.as_str())
}

} // verus!
