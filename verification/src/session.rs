//! The session token and the cookie header that presents it.
//!
//! The token is a credential and is not taken apart. The one thing decided
//! here is whether it can travel in a header at all.

use vstd::prelude::*;

verus! {

/// The address of the course page, which also serves to try a session.
pub const COURSE_URL: &'static str =
    "https://elearning.studenti.math.unipd.it/labs/course/view.php?id=25";

/// Whether a character may stand in a header value: a tab, or anything from
/// the space upwards except the delete character.
pub open spec fn header_char(c: char) -> bool {
    c == '\t' || (c as u32 >= 32 && c as u32 != 127)
}

/// Whether a text may be sent as a header value.
pub open spec fn header_text(s: Seq<char>) -> bool {
    forall|i: int| 0 <= i < s.len() ==> header_char(#[trigger] s[i])
}

/// The cookie header value for a session token: `MoodleSession=<token>`.
pub open spec fn cookie_of(session: Seq<char>) -> Seq<char> {
    "MoodleSession="@ + session
}

/// Asks `HeaderValue::from_str` of the `http` crate, which `reqwest`
/// re-exports, whether it accepts `value`. It checks the text byte by byte and
/// refuses control bytes other than the tab, and the delete byte; every byte
/// of a character beyond ASCII is above those, so the contract states the same
/// test character by character.
#[verifier::external_body]
fn header_value_accepts(value: &str) -> (accepted: bool)
    ensures
        accepted == header_text(value@),
{
    reqwest::header::HeaderValue::from_str(value).is_ok()
}

/// Builds the cookie header value for a session token.
///
/// Returns `None` exactly where the token holds a character that a header
/// value cannot carry, such as a line break.
pub fn session_cookie(session: &str) -> (cookie: Option<String>)
    ensures
        cookie is Some <==> header_text(session@),
        cookie matches Some(value) ==> value@ == cookie_of(session@),
{
    let value = String::from_str("MoodleSession=").concat(session);
    proof {
        reveal_strlit("MoodleSession=");
        let prefix = "MoodleSession="@;
        assert(header_text(prefix));
        if header_text(session@) {
            assert forall|i: int| 0 <= i < value@.len() implies header_char(#[trigger] value@[i]) by {
                if i >= prefix.len() {
                    assert(value@[i] == session@[i - prefix.len()]);
                }
            }
        }
        if header_text(value@) {
            assert forall|i: int| 0 <= i < session@.len() implies header_char(
                #[trigger] session@[i],
            ) by {
                assert(session@[i] == value@[i + prefix.len()]);
            }
        }
    }
    if header_value_accepts(value.as_str()) {
        Some(value)
    } else {
        None
    }
}

} // verus!
