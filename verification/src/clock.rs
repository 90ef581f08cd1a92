//! The current time and fresh identifiers.
use vstd::prelude::*;
use crate::hashing::is_lower_hex;

verus! {

/// The current UTC time as nanoseconds since the Unix epoch
/// (`time::OffsetDateTime::now_utc().unix_timestamp_nanos()`). It depends on
/// the clock, so nothing is stated of its value.
#[verifier::external_body]
pub(crate) fn now_unix_nanos() -> i128 {
    time::OffsetDateTime::now_utc().unix_timestamp_nanos()
}

/// Whether `id` has the shape of a random (version 4) UUID in its
/// lower-case hyphenated form: 36 characters, hyphens at 8, 13, 18 and 23,
/// lower-case hex digits elsewhere, the version digit `4` at 14 and the
/// variant digit (`8`, `9`, `a` or `b`) at 19.
pub open spec fn is_v4_uuid_text(id: Seq<char>) -> bool {
    &&& id.len() == 36
    &&& forall|i: int| 0 <= i < 36 ==> if i == 8 || i == 13 || i == 18 || i == 23 {
        #[trigger] id[i] == '-'
    } else {
        is_lower_hex(id[i])
    }
    &&& id[14] == '4'
    &&& (id[19] == '8' || id[19] == '9' || id[19] == 'a' || id[19] == 'b')
}

/// A fresh random identifier (`uuid::Uuid::new_v4()`, shown through its
/// `Display`, which writes the lower-case hyphenated form). Its random bits
/// are not stated; its shape is: `new_v4` masks in the version and variant
/// bits, and the hyphenated form puts hyphens at fixed places.
#[verifier::external_body]
pub(crate) fn new_id() -> (id: String)
    ensures
        is_v4_uuid_text(id@),
{
    uuid::Uuid::new_v4().to_string()
}

} // verus!
