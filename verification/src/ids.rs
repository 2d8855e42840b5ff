//! Random identifiers for jobs and imported engines.
use vstd::prelude::*;

verus! {

/// A lowercase hexadecimal digit.
pub open spec fn lower_hex_digit(c: char) -> bool {
    ('0' <= c && c <= '9') || ('a' <= c && c <= 'f')
}

/// The hyphenated text of a random (version 4, RFC 4122 variant) UUID: 36 characters,
/// hyphens at 8, 13, 18 and 23, lowercase hexadecimal digits elsewhere, the version
/// digit `4` at 14 and one of `8`, `9`, `a`, `b` at 19.
pub open spec fn uuid_v4_text(s: Seq<char>) -> bool {
    &&& s.len() == 36
    &&& forall|k: int|
        0 <= k < 36 ==> if k == 8 || k == 13 || k == 18 || k == 23 {
            #[trigger] s[k] == '-'
        } else {
            lower_hex_digit(s[k])
        }
    &&& s[14] == '4'
    &&& s[19] == '8' || s[19] == '9' || s[19] == 'a' || s[19] == 'b'
}

/// uuid's `Uuid::new_v4`, written out by its `Display` impl: random bits with the
/// version and variant bits set, in the lowercase hyphenated form. Which random value
/// comes out is not stated: two calls may give any two such texts.
#[verifier::external_body]
pub fn fresh_id() -> (r: String)
    ensures
        uuid_v4_text(r@),
{
    uuid::Uuid::new_v4().to_string()
}

} // verus!
