use vstd::prelude::*;

verus! {

/// `nostr::Timestamp::now`: the current time in seconds since the Unix epoch.
/// It reads the clock, so nothing is stated of its result.
#[verifier::external_body]
pub(crate) fn now_seconds() -> u64 {
    nostr::Timestamp::now().as_secs()
}

/// What `TagKind::from(key).to_string()` gives: nostr maps the well-known tag
/// names to kinds and writes each kind back as its name.
pub uninterp spec fn nostr_tag_kind_name(key: Seq<char>) -> Seq<char>;

/// `nostr::TagKind::from(&str)` followed by its `Display`, the name under
/// which `Tag::kind()` reports a tag whose first string is `key`. The result
/// is named; it depends on `key` alone.
#[verifier::external_body]
pub(crate) fn tag_kind_name(key: &str) -> (r: String)
    ensures
        r@ == nostr_tag_kind_name(key@),
{
    nostr::TagKind::from(key).to_string()
}

/// A hexadecimal digit, either case.
pub open spec fn is_hex_digit(c: char) -> bool {
    let n = c as u32;
    (48 <= n <= 57) || (65 <= n <= 70) || (97 <= n <= 102)
}

/// Text that `PublicKey::from_hex` accepts: exactly 64 hexadecimal digits.
pub open spec fn is_public_key_hex(s: Seq<char>) -> bool {
    s.len() == 64 && forall|i: int| 0 <= i < s.len() ==> is_hex_digit(#[trigger] s[i])
}

/// `nostr::PublicKey::from_hex(s).is_ok()`: nostr decodes the text as hex into
/// the 32 bytes of the key, failing on any other length or on a character
/// that is not a hex digit; the bytes are not checked further.
#[verifier::external_body]
pub(crate) fn public_key_hex_is_valid(s: &str) -> (r: bool)
    ensures
        r == is_public_key_hex(s@),
{
    nostr::PublicKey::from_hex(s).is_ok()
}

} // verus!
