//! Random identifiers that keep names of sockets, repositories and output
//! markers apart from each other.

use vstd::prelude::*;

verus! {

/// A lowercase hexadecimal digit.
pub open spec fn is_lower_hex(c: char) -> bool {
    ('0' <= c && c <= '9') || ('a' <= c && c <= 'f')
}

/// The text of a random (version 4) UUID in its 36-character hyphenated form,
/// such as `67e55044-10b1-426f-9247-bb680e5fe0c8`.
pub open spec fn is_hyphenated_v4_uuid(s: Seq<char>) -> bool {
    &&& s.len() == 36
    &&& forall|i: int|
        0 <= i < 36 ==> if i == 8 || i == 13 || i == 18 || i == 23 {
            s[i] == '-'
        } else {
            is_lower_hex(#[trigger] s[i])
        }
    &&& s[14] == '4'
    &&& (s[19] == '8' || s[19] == '9' || s[19] == 'a' || s[19] == 'b')
}

/// The text of a random (version 4) UUID in its 32-digit simple form.
pub open spec fn is_simple_v4_uuid(s: Seq<char>) -> bool {
    &&& s.len() == 32
    &&& forall|i: int| 0 <= i < 32 ==> is_lower_hex(#[trigger] s[i])
    &&& s[12] == '4'
    &&& (s[16] == '8' || s[16] == '9' || s[16] == 'a' || s[16] == 'b')
}

/// A fresh random UUID, hyphenated (`Uuid::new_v4().to_string()`).
///
/// The value is random; what is promised is only its shape: 36 lowercase
/// hexadecimal digits and hyphens, version digit 4 and an RFC 4122 variant.
#[verifier::external_body]
pub fn new_uuid_hyphenated() -> (s: String)
    ensures
        is_hyphenated_v4_uuid(s@),
{
    uuid::Uuid::new_v4().to_string()
}

/// A fresh random UUID in simple form (`Uuid::new_v4().simple().to_string()`).
///
/// The value is random; what is promised is only its shape: 32 lowercase
/// hexadecimal digits, version digit 4 and an RFC 4122 variant.
#[verifier::external_body]
pub fn new_uuid_simple() -> (s: String)
    ensures
        is_simple_v4_uuid(s@),
{
    uuid::Uuid::new_v4().simple().to_string()
}

} // verus!
