//! The two points where the engine touches the outside world besides the
//! transport: fresh correlation tokens and the current time.

use vstd::prelude::*;
use crate::codec::no_quote;

verus! {

pub open spec fn is_id_char(c: char) -> bool {
    c == '-' || ('0' <= c && c <= '9') || ('a' <= c && c <= 'f')
}

/// Shape of every token this engine generates: the 36-character hyphenated
/// lowercase hexadecimal rendering of a 128-bit id.
pub open spec fn wf_id(s: Seq<char>) -> bool {
    s.len() == 36 && (forall|i: int| 0 <= i < s.len() ==> is_id_char(s[i]))
}

pub proof fn lemma_wf_id_no_quote(s: Seq<char>)
    requires
        wf_id(s),
    ensures
        no_quote(s),
{
}

/// Relies on uuid::Uuid::new_v4 and the uuid Display impl: a fresh random
/// version-4 id, rendered in the 36-character hyphenated lowercase
/// hexadecimal form.  Nothing is assumed about which token comes back, only
/// its shape.
#[verifier::external_body]
pub fn fresh_id() -> (r: String)
    ensures
        wf_id(r@),
{
    uuid::Uuid::new_v4().to_string()
}

/// Relies on chrono::Utc::now: the Unix timestamp of the current instant,
/// in seconds.  Nothing is assumed of the value.
#[verifier::external_body]
pub fn unix_time_now() -> (r: u64) {
    chrono::Utc::now().timestamp() as u64
}

} // verus!
