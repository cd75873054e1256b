//! Identifiers that are drawn rather than given.
use vstd::prelude::*;

verus! {

/// A hexadecimal digit, in lower case.
pub open spec fn is_hex(c: char) -> bool {
    ('0' <= c && c <= '9') || ('a' <= c && c <= 'f')
}

/// A random identifier as text: thirty-two hexadecimal digits in groups of 8,
/// 4, 4, 4 and 12 with hyphens between, the third group led by the digit 4 and
/// the fourth by 8, 9, a or b.
pub open spec fn is_uuid(id: Seq<char>) -> bool {
    &&& id.len() == 36
    &&& id[14] == '4'
    &&& id[19] == '8' || id[19] == '9' || id[19] == 'a' || id[19] == 'b'
    &&& forall|i: int|
        0 <= i < 36 ==> if i == 8 || i == 13 || i == 18 || i == 23 {
            #[trigger] id[i] == '-'
        } else {
            is_hex(id[i])
        }
}

/// `Uuid::new_v4`, written by its `Display`. It is drawn at random; what holds
/// of every one is its form. On a machine that has no source of randomness the
/// call does not return.
#[verifier::external_body]
pub(crate) fn new_uuid() -> (res: String)
    ensures
        is_uuid(res@),
{
    uuid::Uuid::new_v4().to_string()
}

} // verus!
