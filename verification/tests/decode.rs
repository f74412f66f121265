use haplog::entry::HaproxyLogEntry;
use haplog::DecodeError;

const LINE: &str = "May  8 00:08:30 applb05 haproxy[3091252]: 127.0.0.1:6102 [08/May/2024:00:08:30.660] mclbfe silo-mclb-silo-backend/kube-prod2-node16 0/0/9/17/26 200 1005 - - ---- 823/541/29/2/0 0/0 \"GET /silo/collections/1b629de5_1aaf_47d7_8b6d_5cfdcc8337e3 HTTP/1.1\"";

#[test]
fn end_to_end_example() {
    let entry = HaproxyLogEntry::parse(LINE).unwrap();
    assert_eq!(entry.month, "May");
    assert_eq!(entry.day, "8");
    assert_eq!(entry.time, "00:08:30");
    assert_eq!(entry.host, "applb05");
    assert_eq!(entry.process_id, "haproxy[3091252]");
    assert_eq!(entry.source_ip_port, "127.0.0.1:6102");
    assert_eq!(entry.time_stamp_accepted, "08/May/2024:00:08:30.660");
    assert_eq!(entry.frontend_name, "mclbfe");
    assert_eq!(entry.backend_name, "silo-mclb-silo-backend");
    assert_eq!(entry.server_name, "kube-prod2-node16");
    assert_eq!(entry.timers.raw, "0/0/9/17/26");
    assert_eq!(entry.timers.client_request, 0);
    assert_eq!(entry.timers.queue_wait, 0);
    assert_eq!(entry.timers.establish, 9);
    assert_eq!(entry.timers.server_response, 17);
    assert_eq!(entry.timers.total, 26);
    assert_eq!(entry.response_code, "200");
    assert_eq!(entry.bytes_read, "1005");
    assert_eq!(entry.termination_state.raw, "----");
    assert!(!entry.termination_state.is_error());
    assert_eq!(entry.conn_counts.raw, "823/541/29/2/0");
    assert_eq!(entry.conn_counts.current, 823);
    assert_eq!(entry.conn_counts.limit, 541);
    assert_eq!(entry.conn_counts.max, 29);
    assert_eq!(entry.conn_counts.total, 2);
    assert_eq!(entry.conn_counts.rejected, 0);
    assert_eq!(entry.queue.raw, "0/0");
    assert_eq!(entry.queue.server, 0);
    assert_eq!(entry.queue.backend, 0);
    assert_eq!(
        entry.request,
        "GET /silo/collections/1b629de5_1aaf_47d7_8b6d_5cfdcc8337e3 HTTP/1.1"
    );
    assert!(!entry.is_error());
}

#[test]
fn end_to_end_error_flip() {
    let line = LINE.replace(" 200 1005 ", " 503 1005 ");
    let entry = HaproxyLogEntry::parse(&line).unwrap();
    assert_eq!(entry.response_code, "503");
    assert!(entry.is_error());
}

#[test]
fn colorless_rendering_is_normalized_line() {
    let entry = HaproxyLogEntry::parse(LINE).unwrap();
    assert_eq!(
        entry.colorless(),
        "May 8 00:08:30 applb05 haproxy[3091252] 127.0.0.1:6102 08/May/2024:00:08:30.660 \
         mclbfe silo-mclb-silo-backend kube-prod2-node16 0/0/9/17/26 200 1005 ---- \
         823/541/29/2/0 0/0 GET /silo/collections/1b629de5_1aaf_47d7_8b6d_5cfdcc8337e3 HTTP/1.1"
    );
}

#[test]
fn whitespace_runs_do_not_matter() {
    let spread = LINE.replace(" mclbfe ", "   mclbfe \t ");
    let a = HaproxyLogEntry::parse(LINE).unwrap();
    let b = HaproxyLogEntry::parse(&spread).unwrap();
    assert_eq!(a.colorless(), b.colorless());
}

#[test]
fn colorize_contains_every_field() {
    let entry = HaproxyLogEntry::parse(LINE).unwrap();
    let painted = entry.colorize();
    assert!(painted.contains("mclbfe"));
    assert!(painted.contains("silo-mclb-silo-backend"));
    assert!(painted.contains("0/0/9/17/26"));
    assert!(painted.contains("----"));
    assert!(painted.contains("HTTP/1.1"));
}

#[test]
fn garbage_line_is_grammar_mismatch() {
    assert!(matches!(
        HaproxyLogEntry::parse("not a log line"),
        Err(DecodeError::GrammarMismatch)
    ));
    assert!(matches!(HaproxyLogEntry::parse(""), Err(DecodeError::GrammarMismatch)));
}

#[test]
fn missing_request_quotes_fails() {
    let line = LINE.replace('"', "");
    assert!(matches!(
        HaproxyLogEntry::parse(&line),
        Err(DecodeError::GrammarMismatch)
    ));
}

#[test]
fn four_segment_conn_counts_fails() {
    let line = LINE.replace(" 823/541/29/2/0 ", " 823/541/29/2 ");
    assert!(HaproxyLogEntry::parse(&line).is_err());
}

#[test]
fn six_segment_conn_counts_fails() {
    let line = LINE.replace(" 823/541/29/2/0 ", " 823/541/29/2/0/7 ");
    assert!(HaproxyLogEntry::parse(&line).is_err());
}

#[test]
fn four_segment_timers_fails() {
    let line = LINE.replace(" 0/0/9/17/26 ", " 0/0/9/17 ");
    assert!(HaproxyLogEntry::parse(&line).is_err());
}

#[test]
fn non_numeric_segment_fails() {
    let line = LINE.replace(" 0/0/9/17/26 ", " 0/0/9/17/12a ");
    assert!(HaproxyLogEntry::parse(&line).is_err());
}

#[test]
fn empty_termination_state_fails() {
    let line = LINE.replace(" - - ---- ", " - -  ");
    assert!(matches!(
        HaproxyLogEntry::parse(&line),
        Err(DecodeError::GrammarMismatch)
    ));
}

#[test]
fn three_char_termination_state_fails() {
    let line = LINE.replace(" ---- ", " --- ");
    assert!(matches!(
        HaproxyLogEntry::parse(&line),
        Err(DecodeError::GrammarMismatch)
    ));
}

#[test]
fn oversized_timer_segment_is_integer_error() {
    let line = LINE.replace(" 0/0/9/17/26 ", " 0/0/9/17/18446744073709551616 ");
    assert!(matches!(
        HaproxyLogEntry::parse(&line),
        Err(DecodeError::SubfieldInteger)
    ));
}

#[test]
fn largest_timer_segment_decodes() {
    let line = LINE.replace(" 0/0/9/17/26 ", " 0/0/9/17/18446744073709551615 ");
    let entry = HaproxyLogEntry::parse(&line).unwrap();
    assert_eq!(entry.timers.total, u64::MAX);
}

#[test]
fn leading_zeros_are_kept_verbatim() {
    let line = LINE.replace(" 0/0/9/17/26 ", " 007/0/9/17/26 ");
    let entry = HaproxyLogEntry::parse(&line).unwrap();
    assert_eq!(entry.timers.client_request, 7);
    assert_eq!(entry.timers.raw, "007/0/9/17/26");
    assert_eq!(entry.timers.render(), "007/0/9/17/26");
    assert!(entry.colorless().contains(" 007/0/9/17/26 "));
}

#[test]
fn unparseable_response_code_is_error() {
    let line = LINE.replace(" 200 1005 ", " 99999 1005 ");
    let entry = HaproxyLogEntry::parse(&line).unwrap();
    assert_eq!(entry.response_code, "99999");
    assert!(entry.is_error());
}

#[test]
fn redirect_code_with_normal_termination_is_not_error() {
    let line = LINE.replace(" 200 1005 ", " 399 1005 ");
    let entry = HaproxyLogEntry::parse(&line).unwrap();
    assert!(!entry.is_error());
}

#[test]
fn boundary_code_400_is_error() {
    let line = LINE.replace(" 200 1005 ", " 400 1005 ");
    let entry = HaproxyLogEntry::parse(&line).unwrap();
    assert!(entry.is_error());
}

#[test]
fn abnormal_termination_with_success_code_is_error() {
    let line = LINE.replace(" - - ---- ", " - - CD-- ");
    let entry = HaproxyLogEntry::parse(&line).unwrap();
    assert_eq!(entry.termination_state.raw, "CD--");
    assert!(entry.termination_state.is_error());
    assert!(entry.is_error());
}

#[test]
fn output_table_lists_every_decoded_field() {
    let entry = HaproxyLogEntry::parse(LINE).unwrap();
    let table = haplog::table::output_table(&entry);
    assert!(table.contains("Month"));
    assert!(table.contains("applb05"));
    assert!(table.contains("Establish"));
    assert!(table.contains("9"));
    assert!(table.contains("Termination Reason"));
    assert!(table.contains("normal session completion"));
    assert!(table.contains("823/541/29/2/0"));
    assert!(table.contains("Request"));
    assert_eq!(table.lines().count(), 33);
}

#[test]
fn decimal_rendering_is_canonical() {
    assert_eq!(haplog::digits::decimal_string(0), "0");
    assert_eq!(haplog::digits::decimal_string(26), "26");
    assert_eq!(haplog::digits::decimal_string(1005), "1005");
    assert_eq!(haplog::digits::decimal_string(u64::MAX), "18446744073709551615");
}

#[test]
fn request_may_contain_quotes() {
    let line = LINE.replace("HTTP/1.1\"", "HT\"TP/1.1\"");
    let entry = HaproxyLogEntry::parse(&line).unwrap();
    assert!(entry.request.contains("HT\"TP/1.1"));
}
