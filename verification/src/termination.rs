//! The four-character termination-state code: each position is decoded
//! independently through its own character table, and characters outside a
//! table fall back to a descriptive placeholder while the character itself is
//! kept verbatim.

use vstd::prelude::*;
use crate::DecodeError;

verus! {

/// What the termination-reason character means.
pub open spec fn spec_reason_desc(c: char) -> Seq<char> {
    if c == 'C' {
        "the TCP session was unexpectedly aborted by the client."@
    } else if c == 'S' {
        "the TCP session was unexpectedly aborted by the server, or the server explicitly refused it."@
    } else if c == 'P' {
        "the session was prematurely aborted by the proxy, because of a connection limit enforcement, because a DENY filter was matched, because of a security check which detected and blocked a dangerous error in server response which might have caused information leak (e.g. cacheable cookie)."@
    } else if c == 'L' {
        "the session was locally processed by HAProxy and was not passed to a server. This is what happens for stats and redirects."@
    } else if c == 'R' {
        "a resource on the proxy has been exhausted (memory, sockets, source ports, ...). Usually, this appears during the connection phase, and system logs should contain a copy of the precise error. If this happens, it must be considered as a very serious anomaly which should be fixed as soon as possible by any means."@
    } else if c == 'I' {
        "an internal error was identified by the proxy during a self-check. This should NEVER happen, and you are encouraged to report any log containing this, because this would almost certainly be a bug. It would be wise to preventively restart the process after such an event too, in case it would be caused by memory corruption."@
    } else if c == 'D' {
        "the session was killed by HAProxy because the server was detected as down and was configured to kill all connections when going down."@
    } else if c == 'U' {
        "the session was killed by HAProxy on this backup server because an active server was detected as up and was configured to kill all backup connections when going up."@
    } else if c == 'K' {
        "the session was actively killed by an admin operating on HAProxy."@
    } else if c == 'c' {
        "the client-side timeout expired while waiting for the client to send or receive data."@
    } else if c == 's' {
        "the server-side timeout expired while waiting for the server to send or receive data."@
    } else if c == '-' {
        "normal session completion, both the client and the server closed with nothing left in the buffers."@
    } else {
        "Unknown termination state"@
    }
}

/// What the session-state character means.
pub open spec fn spec_state_desc(c: char) -> Seq<char> {
    if c == 'R' {
        "the proxy was waiting for a complete, valid REQUEST from the client (HTTP mode only). Nothing was sent to any server."@
    } else if c == 'Q' {
        "the proxy was waiting in the QUEUE for a connection slot. This can only happen when servers have a 'maxconn' parameter set. It can also happen in the global queue after a redispatch consecutive to a failed attempt to connect to a dying server. If no redispatch is reported, then no connection attempt was made to any server."@
    } else if c == 'C' {
        "the proxy was waiting for the CONNECTION to establish on the server. The server might at most have noticed a connection attempt."@
    } else if c == 'H' {
        "the proxy was waiting for complete, valid response HEADERS from the server (HTTP only)."@
    } else if c == 'D' {
        "the session was in the DATA phase."@
    } else if c == 'L' {
        "the proxy was still transmitting LAST data to the client while the server had already finished. This one is very rare as it can only happen when the client dies while receiving the last packets."@
    } else if c == 'T' {
        "the request was tarpitted. It has been held open with the client during the whole 'timeout tarpit' duration or until the client closed, both of which will be reported in the 'Tw' timer."@
    } else if c == '-' {
        "normal session completion after end of data transfer."@
    } else {
        "Unknown session state"@
    }
}

/// What the persistence-cookie character means.
pub open spec fn spec_cookie_desc(c: char) -> Seq<char> {
    if c == 'N' {
        "the client provided NO cookie. This is usually the case for new visitors, so counting the number of occurrences of this flag in the logs generally indicate a valid trend for the site frequentation."@
    } else if c == 'I' {
        "the client provided an INVALID cookie matching no known server. This might be caused by a recent configuration change, mixed cookies between HTTP/HTTPS sites, persistence conditionally ignored, or an attack."@
    } else if c == 'D' {
        "the client provided a cookie designating a server which was DOWN, so either 'option persist' was used and the client was sent to this server, or it was not set and the client was redispatched to another server."@
    } else if c == 'V' {
        "the client provided a VALID cookie, and was sent to the associated server."@
    } else if c == 'E' {
        "the client provided a valid cookie, but with a last date which was older than what is allowed by the 'maxidle' cookie parameter, so the cookie is consider EXPIRED and is ignored. The request will be redispatched just as if there was no cookie."@
    } else if c == 'O' {
        "the client provided a valid cookie, but with a first date which was older than what is allowed by the 'maxlife' cookie parameter, so the cookie is consider too OLD and is ignored. The request will be redispatched just as if there was no cookie."@
    } else if c == 'U' {
        "a cookie was present but was not used to select the server because some other server selection mechanism was used instead (typically a 'use-server' rule)."@
    } else if c == '-' {
        "does not apply (no cookie set in configuration)."@
    } else {
        "Unknown cookie operation"@
    }
}

/// What the persistence-operations character means.
pub open spec fn spec_operations_desc(c: char) -> Seq<char> {
    if c == 'N' {
        "NO cookie was provided by the server, and none was inserted either."@
    } else if c == 'I' {
        "no cookie was provided by the server, and the proxy INSERTED one. Note that in 'cookie insert' mode, if the server provides a cookie, it will still be overwritten and reported as 'I' here."@
    } else if c == 'U' {
        "the proxy UPDATED the last date in the cookie that was presented by the client. This can only happen in insert mode with 'maxidle'. It happens every time there is activity at a different date than the date indicated in the cookie. If any other change happens, such as a redispatch, then the cookie will be marked as inserted instead."@
    } else if c == 'P' {
        "a cookie was PROVIDED by the server and transmitted as-is."@
    } else if c == 'R' {
        "the cookie provided by the server was REWRITTEN by the proxy, which happens in 'cookie rewrite' or 'cookie prefix' modes."@
    } else if c == 'D' {
        "the cookie provided by the server was DELETED by the proxy."@
    } else if c == '-' {
        "does not apply (no cookie set in configuration)."@
    } else {
        "Unknown cookie operation"@
    }
}

/// One decoded position of the termination-state code: the character itself,
/// kept verbatim, and its meaning.
#[derive(Debug)]
pub struct HaproxyTerminationStateEntry {
    pub shorthand: char,
    pub description: String,
}

impl HaproxyTerminationStateEntry {
    /// Decodes a termination-reason character.  Total: an unknown character
    /// keeps its shorthand and gets the fallback description.
    pub fn reason(shorthand: char) -> (r: HaproxyTerminationStateEntry)
        ensures
            r.shorthand == shorthand,
            r.description@ == spec_reason_desc(shorthand),
    {
        let description = if shorthand == 'C' {
            "the TCP session was unexpectedly aborted by the client."
        } else if shorthand == 'S' {
            "the TCP session was unexpectedly aborted by the server, or the server explicitly refused it."
        } else if shorthand == 'P' {
            "the session was prematurely aborted by the proxy, because of a connection limit enforcement, because a DENY filter was matched, because of a security check which detected and blocked a dangerous error in server response which might have caused information leak (e.g. cacheable cookie)."
        } else if shorthand == 'L' {
            "the session was locally processed by HAProxy and was not passed to a server. This is what happens for stats and redirects."
        } else if shorthand == 'R' {
            "a resource on the proxy has been exhausted (memory, sockets, source ports, ...). Usually, this appears during the connection phase, and system logs should contain a copy of the precise error. If this happens, it must be considered as a very serious anomaly which should be fixed as soon as possible by any means."
        } else if shorthand == 'I' {
            "an internal error was identified by the proxy during a self-check. This should NEVER happen, and you are encouraged to report any log containing this, because this would almost certainly be a bug. It would be wise to preventively restart the process after such an event too, in case it would be caused by memory corruption."
        } else if shorthand == 'D' {
            "the session was killed by HAProxy because the server was detected as down and was configured to kill all connections when going down."
        } else if shorthand == 'U' {
            "the session was killed by HAProxy on this backup server because an active server was detected as up and was configured to kill all backup connections when going up."
        } else if shorthand == 'K' {
            "the session was actively killed by an admin operating on HAProxy."
        } else if shorthand == 'c' {
            "the client-side timeout expired while waiting for the client to send or receive data."
        } else if shorthand == 's' {
            "the server-side timeout expired while waiting for the server to send or receive data."
        } else if shorthand == '-' {
            "normal session completion, both the client and the server closed with nothing left in the buffers."
        } else {
            "Unknown termination state"
        };
        HaproxyTerminationStateEntry { shorthand, description: description.to_owned() }
    }

    /// Decodes a session-state character.  Total, with a fallback.
    pub fn state(shorthand: char) -> (r: HaproxyTerminationStateEntry)
        ensures
            r.shorthand == shorthand,
            r.description@ == spec_state_desc(shorthand),
    {
        let description = if shorthand == 'R' {
            "the proxy was waiting for a complete, valid REQUEST from the client (HTTP mode only). Nothing was sent to any server."
        } else if shorthand == 'Q' {
            "the proxy was waiting in the QUEUE for a connection slot. This can only happen when servers have a 'maxconn' parameter set. It can also happen in the global queue after a redispatch consecutive to a failed attempt to connect to a dying server. If no redispatch is reported, then no connection attempt was made to any server."
        } else if shorthand == 'C' {
            "the proxy was waiting for the CONNECTION to establish on the server. The server might at most have noticed a connection attempt."
        } else if shorthand == 'H' {
            "the proxy was waiting for complete, valid response HEADERS from the server (HTTP only)."
        } else if shorthand == 'D' {
            "the session was in the DATA phase."
        } else if shorthand == 'L' {
            "the proxy was still transmitting LAST data to the client while the server had already finished. This one is very rare as it can only happen when the client dies while receiving the last packets."
        } else if shorthand == 'T' {
            "the request was tarpitted. It has been held open with the client during the whole 'timeout tarpit' duration or until the client closed, both of which will be reported in the 'Tw' timer."
        } else if shorthand == '-' {
            "normal session completion after end of data transfer."
        } else {
            "Unknown session state"
        };
        HaproxyTerminationStateEntry { shorthand, description: description.to_owned() }
    }

    /// Decodes a persistence-cookie character.  Total, with a fallback.
    pub fn cookie(shorthand: char) -> (r: HaproxyTerminationStateEntry)
        ensures
            r.shorthand == shorthand,
            r.description@ == spec_cookie_desc(shorthand),
    {
        let description = if shorthand == 'N' {
            "the client provided NO cookie. This is usually the case for new visitors, so counting the number of occurrences of this flag in the logs generally indicate a valid trend for the site frequentation."
        } else if shorthand == 'I' {
            "the client provided an INVALID cookie matching no known server. This might be caused by a recent configuration change, mixed cookies between HTTP/HTTPS sites, persistence conditionally ignored, or an attack."
        } else if shorthand == 'D' {
            "the client provided a cookie designating a server which was DOWN, so either 'option persist' was used and the client was sent to this server, or it was not set and the client was redispatched to another server."
        } else if shorthand == 'V' {
            "the client provided a VALID cookie, and was sent to the associated server."
        } else if shorthand == 'E' {
            "the client provided a valid cookie, but with a last date which was older than what is allowed by the 'maxidle' cookie parameter, so the cookie is consider EXPIRED and is ignored. The request will be redispatched just as if there was no cookie."
        } else if shorthand == 'O' {
            "the client provided a valid cookie, but with a first date which was older than what is allowed by the 'maxlife' cookie parameter, so the cookie is consider too OLD and is ignored. The request will be redispatched just as if there was no cookie."
        } else if shorthand == 'U' {
            "a cookie was present but was not used to select the server because some other server selection mechanism was used instead (typically a 'use-server' rule)."
        } else if shorthand == '-' {
            "does not apply (no cookie set in configuration)."
        } else {
            "Unknown cookie operation"
        };
        HaproxyTerminationStateEntry { shorthand, description: description.to_owned() }
    }

    /// Decodes a persistence-operations character.  Total, with a fallback.
    pub fn operations(shorthand: char) -> (r: HaproxyTerminationStateEntry)
        ensures
            r.shorthand == shorthand,
            r.description@ == spec_operations_desc(shorthand),
    {
        let description = if shorthand == 'N' {
            "NO cookie was provided by the server, and none was inserted either."
        } else if shorthand == 'I' {
            "no cookie was provided by the server, and the proxy INSERTED one. Note that in 'cookie insert' mode, if the server provides a cookie, it will still be overwritten and reported as 'I' here."
        } else if shorthand == 'U' {
            "the proxy UPDATED the last date in the cookie that was presented by the client. This can only happen in insert mode with 'maxidle'. It happens every time there is activity at a different date than the date indicated in the cookie. If any other change happens, such as a redispatch, then the cookie will be marked as inserted instead."
        } else if shorthand == 'P' {
            "a cookie was PROVIDED by the server and transmitted as-is."
        } else if shorthand == 'R' {
            "the cookie provided by the server was REWRITTEN by the proxy, which happens in 'cookie rewrite' or 'cookie prefix' modes."
        } else if shorthand == 'D' {
            "the cookie provided by the server was DELETED by the proxy."
        } else if shorthand == '-' {
            "does not apply (no cookie set in configuration)."
        } else {
            "Unknown cookie operation"
        };
        HaproxyTerminationStateEntry { shorthand, description: description.to_owned() }
    }
}

/// The decoded four-character termination-state code, in HAProxy's fixed
/// position order: reason, session state, cookie, operations.
#[derive(Debug)]
pub struct HaproxyTerminationState {
    pub raw: String,
    pub termination_reason: HaproxyTerminationStateEntry,
    pub session_state: HaproxyTerminationStateEntry,
    pub persistence_cookie: HaproxyTerminationStateEntry,
    pub persistence_operations: HaproxyTerminationStateEntry,
}

impl HaproxyTerminationState {
    /// `raw` is exactly the four shorthand characters in order, and each
    /// entry carries its table's description.
    pub open spec fn wf(self) -> bool {
        &&& self.raw@.len() == 4
        &&& self.termination_reason.shorthand == self.raw@[0]
        &&& self.session_state.shorthand == self.raw@[1]
        &&& self.persistence_cookie.shorthand == self.raw@[2]
        &&& self.persistence_operations.shorthand == self.raw@[3]
        &&& self.termination_reason.description@ == spec_reason_desc(self.raw@[0])
        &&& self.session_state.description@ == spec_state_desc(self.raw@[1])
        &&& self.persistence_cookie.description@ == spec_cookie_desc(self.raw@[2])
        &&& self.persistence_operations.description@ == spec_operations_desc(self.raw@[3])
    }

    /// The normal-completion code: all four positions are `-`.
    pub open spec fn spec_is_error(self) -> bool {
        !(self.termination_reason.shorthand == '-' && self.session_state.shorthand == '-'
            && self.persistence_cookie.shorthand == '-'
            && self.persistence_operations.shorthand == '-')
    }

    /// Decodes a four-character code.  Succeeds exactly on four characters;
    /// every character decodes (unknown ones keep their shorthand with a
    /// fallback description).
    pub fn parse(s: &str) -> (r: Result<HaproxyTerminationState, DecodeError>)
        ensures
            r is Ok <==> s@.len() == 4,
            r is Ok ==> r->Ok_0.wf() && r->Ok_0.raw@ == s@,
            r is Err ==> r->Err_0 == DecodeError::GrammarMismatch,
    {
        let n = s.unicode_len();
        if n != 4 {
            return Err(DecodeError::GrammarMismatch);
        }
        let termination_reason = HaproxyTerminationStateEntry::reason(s.get_char(0));
        let session_state = HaproxyTerminationStateEntry::state(s.get_char(1));
        let persistence_cookie = HaproxyTerminationStateEntry::cookie(s.get_char(2));
        let persistence_operations = HaproxyTerminationStateEntry::operations(s.get_char(3));
        Ok(HaproxyTerminationState {
            raw: s.to_owned(),
            termination_reason,
            session_state,
            persistence_cookie,
            persistence_operations,
        })
    }

    /// True unless the code is exactly `----`, the normal-completion code.
    pub fn is_error(&self) -> (r: bool)
        ensures
            r == self.spec_is_error(),
            self.wf() ==> (r <==> self.raw@ != "----"@),
    {
        let r = !(self.termination_reason.shorthand == '-' && self.session_state.shorthand == '-'
            && self.persistence_cookie.shorthand == '-'
            && self.persistence_operations.shorthand == '-');
        proof {
            reveal_strlit("----");
            if self.wf() {
                if !r {
                    assert(self.raw@ =~= "----"@);
                }
                if self.raw@ == "----"@ {
                    assert(self.raw@[0] == '-');
                    assert(self.raw@[1] == '-');
                    assert(self.raw@[2] == '-');
                    assert(self.raw@[3] == '-');
                }
            }
        }
        r
    }

    /// The four-character rendering of the code: exactly the decoded
    /// substring.
    pub fn render(&self) -> (r: String)
        ensures
            r@ == self.raw@,
    {
        self.raw.clone()
    }
}

} // verus!
