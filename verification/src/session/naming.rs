//! What counts as a session name, and the name a fresh session gets.
use vstd::prelude::*;

use crate::text::dec_rep;

verus! {

/// Characters a session name may hold.
pub open spec fn allowed_name_char(c: char) -> bool {
    ||| ('a' <= c && c <= 'z')
    ||| ('A' <= c && c <= 'Z')
    ||| ('0' <= c && c <= '9')
    ||| c == '-'
    ||| c == '_'
    ||| c == '.'
}

/// A valid session name is non-empty and uses only letters, digits,
/// dashes, underscores and dots.
pub open spec fn valid_session_name(s: Seq<char>) -> bool {
    s.len() > 0 && forall|i: int| 0 <= i < s.len() ==> allowed_name_char(#[trigger] s[i])
}

pub open spec fn empty_name_msg() -> Seq<char> {
    "session name cannot be empty"@
}

pub open spec fn invalid_name_msg(name: Seq<char>) -> Seq<char> {
    "invalid session name '"@ + name + "' (allowed: a-z A-Z 0-9 - _ .)"@
}

/// Accept exactly the valid session names, naming the offence
/// otherwise.
pub fn validate_session_name(session_name: &str) -> (r: Result<(), String>)
    ensures
        r is Ok <==> valid_session_name(session_name@),
        session_name@.len() == 0 ==> (r matches Err(e) && e@ == empty_name_msg()),
        session_name@.len() > 0 && !valid_session_name(session_name@) ==> (r matches Err(e)
            && e@ == invalid_name_msg(session_name@)),
{
    let n = session_name.unicode_len();
    if n == 0 {
        return Err(String::from_str("session name cannot be empty"));
    }
    let mut i: usize = 0;
    while i < n
        invariant
            0 <= i <= n,
            n == session_name@.len(),
            forall|t: int| 0 <= t < i ==> allowed_name_char(#[trigger] session_name@[t]),
        decreases n - i,
    {
        let c = session_name.get_char(i);
        let ok = ('a' <= c && c <= 'z') || ('A' <= c && c <= 'Z') || ('0' <= c && c <= '9') || c
            == '-' || c == '_' || c == '.';
        if !ok {
            let mut msg = String::from_str("invalid session name '");
            msg.append(session_name);
            msg.append("' (allowed: a-z A-Z 0-9 - _ .)");
            proof {
                assert(!allowed_name_char(session_name@[i as int]));
                assert(msg@ =~= invalid_name_msg(session_name@));
            }
            return Err(msg);
        }
        i += 1;
    }
    Ok(())
}

/// The name a fresh session gets from the clock: the epoch seconds
/// under a fixed prefix.
pub open spec fn session_name_of(epoch_seconds: u64) -> Seq<char> {
    "session-"@ + dec_rep(epoch_seconds as nat)
}

/// Name a fresh session after the given time, in seconds since the
/// epoch.
pub fn create_session_name(epoch_seconds: u64) -> (r: String)
    ensures
        r@ == session_name_of(epoch_seconds),
{
    let mut r = String::from_str("session-");
    let num = crate::text::u64_string(epoch_seconds);
    r.append(num.as_str());
    r
}

} // verus!
