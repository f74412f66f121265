//! The tabular rendering of one entry: every field and every decoded
//! sub-field on its own labeled line, painted for a terminal.  Like the
//! color rendering, this is presentation: the record's content is specified
//! by the decoder's contracts, not by the table's escape codes.

use vstd::prelude::*;
use crate::digits::decimal_string;
use crate::entry::HaproxyLogEntry;
use crate::paint::{paint_blue, paint_bold, paint_green, paint_purple, paint_red, paint_white,
    paint_yellow};

verus! {

/// Appends one `label: value` row.
fn push_row(out: &mut String, label: String, value: String)
    ensures
        final(out)@ == old(out)@ + label@ + ": "@ + value@ + "\n"@,
{
    out.append(label.as_str());
    out.append(": ");
    out.append(value.as_str());
    out.append("\n");
}

/// Appends one indented `label: value` row for a decoded sub-field.
fn push_sub_row(out: &mut String, label: String, value: String)
    ensures
        final(out)@ == old(out)@ + "∟ "@ + label@ + ": "@ + value@ + "\n"@,
{
    out.append("∟ ");
    out.append(label.as_str());
    out.append(": ");
    out.append(value.as_str());
    out.append("\n");
}

/// Renders the whole entry as a labeled table, one row per field, with an
/// indented row for every decoded value of the timers, termination state,
/// connection counters and queue positions.
pub fn output_table(entry: &HaproxyLogEntry) -> String {
    let mut result = String::new();
    push_row(&mut result, paint_bold("Month"), paint_white(entry.month.as_str()));
    push_row(&mut result, paint_bold("Day"), paint_white(entry.day.as_str()));
    push_row(&mut result, paint_bold("Time"), paint_white(entry.time.as_str()));
    push_row(&mut result, paint_bold("Host"), paint_white(entry.host.as_str()));
    push_row(&mut result, paint_bold("Process ID"), paint_white(entry.process_id.as_str()));
    push_row(
        &mut result,
        paint_bold("Source IP Port"),
        paint_white(entry.source_ip_port.as_str()),
    );
    push_row(
        &mut result,
        paint_bold("Time Stamp Accepted"),
        paint_white(entry.time_stamp_accepted.as_str()),
    );
    push_row(
        &mut result,
        paint_bold("Frontend Name"),
        paint_purple(entry.frontend_name.as_str()),
    );
    push_row(&mut result, paint_bold("Backend Name"), paint_yellow(entry.backend_name.as_str()));
    push_row(&mut result, paint_bold("Server Name"), paint_blue(entry.server_name.as_str()));
    push_row(&mut result, paint_bold("Timers"), paint_white(entry.timers.raw.as_str()));
    push_sub_row(
        &mut result,
        paint_bold("Client Request"),
        paint_white(decimal_string(entry.timers.client_request).as_str()),
    );
    push_sub_row(
        &mut result,
        paint_bold("Queue Wait"),
        paint_white(decimal_string(entry.timers.queue_wait).as_str()),
    );
    push_sub_row(
        &mut result,
        paint_bold("Establish"),
        paint_white(decimal_string(entry.timers.establish).as_str()),
    );
    push_sub_row(
        &mut result,
        paint_bold("Server Response"),
        paint_white(decimal_string(entry.timers.server_response).as_str()),
    );
    push_sub_row(
        &mut result,
        paint_bold("Total"),
        paint_white(decimal_string(entry.timers.total).as_str()),
    );
    let code_painted = match crate::digits::parse_u16(entry.response_code.as_str()) {
        Some(code) => {
            if 200 <= code && code < 300 {
                paint_green(entry.response_code.as_str())
            } else if 300 <= code && code < 400 {
                paint_yellow(entry.response_code.as_str())
            } else if code >= 400 {
                paint_red(entry.response_code.as_str())
            } else {
                paint_white(entry.response_code.as_str())
            }
        },
        None => paint_white(entry.response_code.as_str()),
    };
    push_row(&mut result, paint_bold("Response Code"), code_painted);
    push_row(&mut result, paint_bold("Bytes Read"), paint_white(entry.bytes_read.as_str()));
    let term_painted = if entry.termination_state.is_error() {
        paint_red(entry.termination_state.raw.as_str())
    } else {
        paint_green(entry.termination_state.raw.as_str())
    };
    push_row(&mut result, paint_bold("Termination State"), term_painted);
    push_sub_row(
        &mut result,
        paint_bold("Termination Reason"),
        paint_white(entry.termination_state.termination_reason.description.as_str()),
    );
    push_sub_row(
        &mut result,
        paint_bold("Session State"),
        paint_white(entry.termination_state.session_state.description.as_str()),
    );
    push_sub_row(
        &mut result,
        paint_bold("Persistence Cookie"),
        paint_white(entry.termination_state.persistence_cookie.description.as_str()),
    );
    push_sub_row(
        &mut result,
        paint_bold("Persistence Operations"),
        paint_white(entry.termination_state.persistence_operations.description.as_str()),
    );
    push_row(
        &mut result,
        paint_bold("Connection Counts"),
        paint_white(entry.conn_counts.raw.as_str()),
    );
    push_sub_row(
        &mut result,
        paint_bold("Current"),
        paint_white(decimal_string(entry.conn_counts.current).as_str()),
    );
    push_sub_row(
        &mut result,
        paint_bold("Limit"),
        paint_white(decimal_string(entry.conn_counts.limit).as_str()),
    );
    push_sub_row(
        &mut result,
        paint_bold("Max"),
        paint_white(decimal_string(entry.conn_counts.max).as_str()),
    );
    push_sub_row(
        &mut result,
        paint_bold("Total"),
        paint_white(decimal_string(entry.conn_counts.total).as_str()),
    );
    push_sub_row(
        &mut result,
        paint_bold("Rejected"),
        paint_white(decimal_string(entry.conn_counts.rejected).as_str()),
    );
    push_row(&mut result, paint_bold("Queue"), paint_white(entry.queue.raw.as_str()));
    push_sub_row(
        &mut result,
        paint_bold("Server"),
        paint_white(decimal_string(entry.queue.server).as_str()),
    );
    push_sub_row(
        &mut result,
        paint_bold("Backend"),
        paint_white(decimal_string(entry.queue.backend).as_str()),
    );
    push_row(&mut result, paint_bold("Request"), paint_white(entry.request.as_str()));
    result
}

} // verus!
