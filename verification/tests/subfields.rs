use haplog::digits::{parse_u16, parse_u64};
use haplog::subfields::{HaproxyConnectionCounts, HaproxyQueueStats, HaproxyTimers};
use haplog::termination::{HaproxyTerminationState, HaproxyTerminationStateEntry};
use haplog::DecodeError;

#[test]
fn timers_round_trip() {
    let t = HaproxyTimers::parse("0/0/9/17/26").unwrap();
    assert_eq!(t.raw, "0/0/9/17/26");
    let rejoined = format!(
        "{}/{}/{}/{}/{}",
        t.client_request, t.queue_wait, t.establish, t.server_response, t.total
    );
    assert_eq!(rejoined, "0/0/9/17/26");
}

#[test]
fn conn_counts_round_trip() {
    let c = HaproxyConnectionCounts::parse("823/541/29/2/0").unwrap();
    let rejoined = format!(
        "{}/{}/{}/{}/{}",
        c.current, c.limit, c.max, c.total, c.rejected
    );
    assert_eq!(rejoined, "823/541/29/2/0");
    assert_eq!(c.render(), "823/541/29/2/0");
}

#[test]
fn queue_stats_round_trip() {
    let q = HaproxyQueueStats::parse("3/14").unwrap();
    assert_eq!(q.server, 3);
    assert_eq!(q.backend, 14);
    assert_eq!(format!("{}/{}", q.server, q.backend), "3/14");
    assert_eq!(q.render(), "3/14");
}

#[test]
fn timers_wrong_arity_fails() {
    assert!(matches!(
        HaproxyTimers::parse("1/2/3/4"),
        Err(DecodeError::SubfieldArity)
    ));
    assert!(matches!(
        HaproxyTimers::parse("1/2/3/4/5/6"),
        Err(DecodeError::SubfieldArity)
    ));
    assert!(matches!(HaproxyTimers::parse(""), Err(DecodeError::SubfieldArity)));
}

#[test]
fn timers_bad_segment_fails() {
    assert!(matches!(
        HaproxyTimers::parse("1/2/3/4/12a"),
        Err(DecodeError::SubfieldInteger)
    ));
    assert!(matches!(
        HaproxyTimers::parse("1/2//4/5"),
        Err(DecodeError::SubfieldInteger)
    ));
    assert!(matches!(
        HaproxyTimers::parse("1/2/-3/4/5"),
        Err(DecodeError::SubfieldInteger)
    ));
}

#[test]
fn queue_stats_wrong_arity_fails() {
    assert!(matches!(
        HaproxyQueueStats::parse("1/2/3"),
        Err(DecodeError::SubfieldArity)
    ));
    assert!(matches!(HaproxyQueueStats::parse("1"), Err(DecodeError::SubfieldArity)));
}

#[test]
fn termination_state_decodes_any_four_chars() {
    let ts = HaproxyTerminationState::parse("xyz9").unwrap();
    assert_eq!(ts.raw, "xyz9");
    assert_eq!(ts.termination_reason.shorthand, 'x');
    assert_eq!(ts.termination_reason.description, "Unknown termination state");
    assert_eq!(ts.session_state.description, "Unknown session state");
    assert_eq!(ts.persistence_cookie.description, "Unknown cookie operation");
    assert_eq!(ts.persistence_operations.description, "Unknown cookie operation");
    assert!(ts.is_error());
    assert_eq!(ts.render(), "xyz9");
}

#[test]
fn termination_state_wrong_length_fails() {
    assert!(HaproxyTerminationState::parse("").is_err());
    assert!(HaproxyTerminationState::parse("---").is_err());
    assert!(HaproxyTerminationState::parse("-----").is_err());
}

#[test]
fn termination_normal_completion_is_not_error() {
    let ts = HaproxyTerminationState::parse("----").unwrap();
    assert!(!ts.is_error());
    assert_eq!(
        ts.termination_reason.description,
        "normal session completion, both the client and the server closed with nothing left in the buffers."
    );
    assert_eq!(
        ts.session_state.description,
        "normal session completion after end of data transfer."
    );
}

#[test]
fn termination_single_dash_positions() {
    assert!(HaproxyTerminationState::parse("C---").unwrap().is_error());
    assert!(HaproxyTerminationState::parse("-D--").unwrap().is_error());
    assert!(HaproxyTerminationState::parse("--V-").unwrap().is_error());
    assert!(HaproxyTerminationState::parse("---I").unwrap().is_error());
}

#[test]
fn reason_table_entries() {
    let e = HaproxyTerminationStateEntry::reason('C');
    assert_eq!(e.shorthand, 'C');
    assert_eq!(
        e.description,
        "the TCP session was unexpectedly aborted by the client."
    );
    assert_eq!(
        HaproxyTerminationStateEntry::reason('K').description,
        "the session was actively killed by an admin operating on HAProxy."
    );
    assert_eq!(
        HaproxyTerminationStateEntry::reason('c').description,
        "the client-side timeout expired while waiting for the client to send or receive data."
    );
}

#[test]
fn state_cookie_operations_table_entries() {
    assert_eq!(
        HaproxyTerminationStateEntry::state('D').description,
        "the session was in the DATA phase."
    );
    assert_eq!(
        HaproxyTerminationStateEntry::cookie('V').description,
        "the client provided a VALID cookie, and was sent to the associated server."
    );
    assert_eq!(
        HaproxyTerminationStateEntry::operations('P').description,
        "a cookie was PROVIDED by the server and transmitted as-is."
    );
    assert_eq!(
        HaproxyTerminationStateEntry::operations('-').description,
        "does not apply (no cookie set in configuration)."
    );
}

#[test]
fn parse_u64_rules() {
    assert_eq!(parse_u64("0"), Some(0));
    assert_eq!(parse_u64("007"), Some(7));
    assert_eq!(parse_u64("18446744073709551615"), Some(u64::MAX));
    assert_eq!(parse_u64("18446744073709551616"), None);
    assert_eq!(parse_u64(""), None);
    assert_eq!(parse_u64("+1"), None);
    assert_eq!(parse_u64("-1"), None);
    assert_eq!(parse_u64("1 "), None);
}

#[test]
fn parse_u16_rules() {
    assert_eq!(parse_u16("65535"), Some(65535));
    assert_eq!(parse_u16("65536"), None);
    assert_eq!(parse_u16("200"), Some(200));
    assert_eq!(parse_u16(""), None);
}
