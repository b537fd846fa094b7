use vstd::prelude::*;

use crate::hexstr::is_hex_digit;
use crate::text::spec_trim;
use crate::text::trim_ascii;

verus! {

/// The User-Agent product token sent with every request; it mirrors the
/// official launcher's so CDNs treat the traffic alike.
pub fn user_agent_value() -> (r: String)
    ensures
        r@ == "SS14.Launcher/59"@,
{
    "SS14.Launcher/59".to_owned()
}

/// Whether a trimmed string has the shape of a canonical UUID: 36
/// characters, dashes at positions 8, 13, 18 and 23, hex digits elsewhere.
pub open spec fn spec_uuid_like(s: Seq<char>) -> bool {
    let t = spec_trim(s);
    t.len() == 36 && forall|i: int|
        0 <= i < 36 ==> if i == 8 || i == 13 || i == 18 || i == 23 {
            #[trigger] t[i] == '-'
        } else {
            is_hex_digit(t[i])
        }
}

/// Accepts canonical UUID strings; a corrupted fingerprint file is answered
/// with a fresh identifier rather than an error, so this only shapes-checks.
pub fn is_uuid_like(s: &str) -> (r: bool)
    ensures
        r == spec_uuid_like(s@),
{
    let t = trim_ascii(s);
    let n = t.unicode_len();
    if n != 36 {
        return false;
    }
    let mut i: usize = 0;
    while i < 36
        invariant
            0 <= i <= 36,
            t@ == spec_trim(s@),
            t@.len() == 36,
            forall|k: int|
                0 <= k < i ==> if k == 8 || k == 13 || k == 18 || k == 23 {
                    #[trigger] t@[k] == '-'
                } else {
                    is_hex_digit(t@[k])
                },
        decreases 36 - i,
    {
        let c = t.as_str().get_char(i);
        if i == 8 || i == 13 || i == 18 || i == 23 {
            if c != '-' {
                return false;
            }
        } else {
            let ok = ('0' <= c && c <= '9') || ('a' <= c && c <= 'f') || ('A' <= c && c
                <= 'F');
            if !ok {
                return false;
            }
        }
        i += 1;
    }
    true
}

} // verus!
