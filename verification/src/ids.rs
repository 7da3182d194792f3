//! Random identifiers: version-4 UUIDs and the short IDs derived from them.
use vstd::prelude::*;
use crate::text::{extend_chars, slice_chars, str_chars, string_from_chars};

verus! {

/// A lowercase hexadecimal digit.
pub open spec fn is_lower_hex(c: char) -> bool {
    ('0' <= c <= '9') || ('a' <= c <= 'f')
}

/// The hyphenated lowercase text form of a UUID:
/// `xxxxxxxx-xxxx-xxxx-xxxx-xxxxxxxxxxxx`.
pub open spec fn is_uuid_text(s: Seq<char>) -> bool {
    &&& s.len() == 36
    &&& forall|i: int|
        0 <= i < 36 ==> if i == 8 || i == 13 || i == 18 || i == 23 {
            s[i] == '-'
        } else {
            is_lower_hex(#[trigger] s[i])
        }
}

/// Calls `uuid::Uuid::new_v4().to_string()`: a random version-4 UUID,
/// rendered in the hyphenated lowercase form, so its version digit (the
/// fifteenth character) is `4`. Which UUID comes out is random and not
/// stated.
#[verifier::external_body]
pub(crate) fn new_uuid_v4() -> (r: String)
    ensures
        is_uuid_text(r@),
        r@[14] == '4',
{
    uuid::Uuid::new_v4().to_string()
}

/// A fresh random identifier in the hyphenated lowercase UUID form, as
/// snapshots, backups, imports and VM documents are named.
pub fn new_uuid() -> (r: String)
    ensures
        is_uuid_text(r@),
        r@[14] == '4',
{
    new_uuid_v4()
}

/// `prefix` followed by the first eight characters of `uuid`.
pub open spec fn short_id(prefix: Seq<char>, uuid: Seq<char>) -> Seq<char> {
    prefix + uuid.subrange(0, 8)
}

/// `prefix` followed by the first eight characters of `uuid` (the first
/// group of a hyphenated UUID).
pub fn short_id_from(prefix: &str, uuid: &str) -> (r: String)
    requires
        uuid@.len() >= 8,
    ensures
        r@ == short_id(prefix@, uuid@),
{
    let mut v = str_chars(prefix);
    let u = str_chars(uuid);
    let head = slice_chars(u.as_slice(), 0, 8);
    extend_chars(&mut v, head.as_slice());
    string_from_chars(v.as_slice())
}

/// A fresh ID `prefix` + eight random lowercase hex digits.
pub fn new_short_id(prefix: &str) -> (r: String)
    ensures
        r@.len() == prefix@.len() + 8,
        r@.subrange(0, prefix@.len() as int) == prefix@,
        forall|i: int| prefix@.len() <= i < r@.len() ==> is_lower_hex(#[trigger] r@[i]),
{
    let u = new_uuid_v4();
    let r = short_id_from(prefix, u.as_str());
    proof {
        assert(r@.subrange(0, prefix@.len() as int) =~= prefix@);
        assert forall|i: int| prefix@.len() <= i < r@.len() implies is_lower_hex(#[trigger] r@[i]) by {
            assert(r@[i] == u@[i - prefix@.len()]);
        }
    }
    r
}

} // verus!
