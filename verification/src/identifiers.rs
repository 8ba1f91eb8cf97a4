//! Names that no other thing has: random identifiers.
use vstd::prelude::*;

use crate::text;

verus! {

/// Whether a character is a lower-case hexadecimal digit.
pub open spec fn is_lower_hex(c: char) -> bool {
    text::is_ascii_digit(c) || 'a' <= c <= 'f'
}

/// Whether a text can be a random identifier without dashes: thirty-two
/// hexadecimal digits, one of which tells that the others are random.
pub open spec fn is_plain_identifier(t: Seq<char>) -> bool {
    &&& t.len() == 32
    &&& forall|i: int| 0 <= i < 32 ==> is_lower_hex(#[trigger] t[i])
    &&& t[12] == '4'
    &&& t[16] == '8' || t[16] == '9' || t[16] == 'a' || t[16] == 'b'
}

/// Where the dashes of a random identifier stand.
pub open spec fn is_dash_place(i: int) -> bool {
    i == 8 || i == 13 || i == 18 || i == 23
}

/// Whether a text can be a random identifier with dashes.
pub open spec fn is_dashed_identifier(t: Seq<char>) -> bool {
    &&& t.len() == 36
    &&& forall|i: int|
        0 <= i < 36 ==> if is_dash_place(i) {
            #[trigger] t[i] == '-'
        } else {
            is_lower_hex(t[i])
        }
    &&& t[14] == '4'
    &&& t[19] == '8' || t[19] == '9' || t[19] == 'a' || t[19] == 'b'
}

/// `uuid::Uuid::new_v4` and `Uuid::simple`: a random identifier as lower-case
/// hexadecimal digits, in which the digits for the version and the variant are
/// set. Nothing is said of the other digits, and two calls can give the same.
#[verifier::external_body]
fn random_plain() -> (res: String)
    ensures
        is_plain_identifier(res@),
{
    uuid::Uuid::new_v4().simple().to_string()
}

/// `uuid::Uuid::new_v4` and its `Display`: the same digits, with dashes behind
/// the first eight and the next three groups of four.
#[verifier::external_body]
fn random_dashed() -> (res: String)
    ensures
        is_dashed_identifier(res@),
{
    uuid::Uuid::new_v4().to_string()
}

/// A new identifier without dashes, for the end of a name.
pub fn new_suffix() -> (res: String)
    ensures
        is_plain_identifier(res@),
{
    random_plain()
}

/// A new identifier with dashes, for a request that waits for its answer.
pub fn new_request_id() -> (res: String)
    ensures
        is_dashed_identifier(res@),
{
    random_dashed()
}

} // verus!
