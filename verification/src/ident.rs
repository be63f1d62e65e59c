//! Connection ids: opaque, random, and safe to put in a path.

use vstd::prelude::*;

verus! {

/// A digit or a lower-case letter from `a` to `f`.
pub open spec fn is_lower_hex(c: char) -> bool {
    ('0' <= c && c <= '9') || ('a' <= c && c <= 'f')
}

/// The shape of every id the relay hands out: 32 lower-case hex digits, the
/// thirteenth of which is `4` and the seventeenth one of `8`, `9`, `a`, `b`.
pub open spec fn is_connection_id(id: Seq<char>) -> bool {
    &&& id.len() == 32
    &&& forall|i: int| 0 <= i < 32 ==> is_lower_hex(#[trigger] id[i])
    &&& id[12] == '4'
    &&& (id[16] == '8' || id[16] == '9' || id[16] == 'a' || id[16] == 'b')
}

/// Draws a random id with `uuid::Uuid::new_v4` and writes it in the crate's
/// simple form (`Uuid::simple`, then `to_string`).
///
/// Trusted: the result is 32 lower-case hex digits with no hyphens, carrying
/// the version nibble 4 and the variant bits `10` that `new_v4` sets. Nothing
/// is claimed of the other digits: they are random, and two calls may agree.
#[verifier::external_body]
pub(crate) fn fresh_id() -> (id: String)
    ensures
        is_connection_id(id@),
{
    uuid::Uuid::new_v4().simple().to_string()
}

} // verus!
