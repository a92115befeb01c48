//! The executable line classifier and record builder: one complete line in,
//! one typed [`Output`] out, exactly as [`crate::grammar::classify_line`]
//! describes.

use vstd::prelude::*;
use crate::ast::AsyncClass;
use crate::ast::AsyncRecord;
use crate::ast::AsyncRecordKind;
use crate::ast::ErrorRecord;
use crate::ast::OobRecord;
use crate::ast::Output;
use crate::ast::OutputVariant;
use crate::ast::Position;
use crate::ast::ResultClass;
use crate::ast::ResultRecord;
use crate::ast::StreamRecord;
use crate::grammar::async_class_of;
use crate::grammar::classify_async;
use crate::grammar::classify_line;
use crate::grammar::classify_result;
use crate::grammar::classify_stream;
use crate::grammar::output_of_line;
use crate::grammar::prompt_line;
use crate::grammar::result_class_of;
use crate::parse::parse_record_results_exec;
use crate::scan::chars_to_string;
use crate::scan::parse_cstring_exec;
use crate::scan::scan_comma_exec;
use crate::scan::scan_digits_exec;
use crate::scan::string_eq;
use crate::scan::Step;

verus! {

/// The character content of an optional string.
pub open spec fn opt_model(o: Option<String>) -> Option<Seq<char>> {
    match o {
        Option::Some(s) => Option::Some(s@),
        Option::None => Option::None,
    }
}

/// Maps a result-record class word to its class, as [`result_class_of`].
fn result_class_exec(s: &String) -> (r: ResultClass)
    ensures
        r == result_class_of(s@),
{
    if string_eq(s, "done") {
        ResultClass::Done
    } else if string_eq(s, "running") {
        ResultClass::Running
    } else if string_eq(s, "connected") {
        ResultClass::Connected
    } else if string_eq(s, "error") {
        ResultClass::Error
    } else if string_eq(s, "exit") {
        ResultClass::Exit
    } else {
        ResultClass::Unsupported
    }
}

/// Maps an async class word to its class, as [`async_class_of`].
fn async_class_exec(s: &String) -> (r: AsyncClass)
    ensures
        r == async_class_of(s@),
{
    if string_eq(s, "download") {
        AsyncClass::Download
    } else if string_eq(s, "stopped") {
        AsyncClass::Stopped
    } else if string_eq(s, "running") {
        AsyncClass::Running
    } else if string_eq(s, "thread-group-added") {
        AsyncClass::ThreadGroupAdded
    } else if string_eq(s, "thread-group-removed") {
        AsyncClass::ThreadGroupRemoved
    } else if string_eq(s, "thread-group-started") {
        AsyncClass::ThreadGroupStarted
    } else if string_eq(s, "thread-group-exited") {
        AsyncClass::ThreadGroupExited
    } else if string_eq(s, "thread-created") {
        AsyncClass::ThreadCreated
    } else if string_eq(s, "thread-exited") {
        AsyncClass::ThreadExited
    } else if string_eq(s, "thread-selected") {
        AsyncClass::ThreadSelected
    } else if string_eq(s, "library-loaded") {
        AsyncClass::LibraryLoaded
    } else if string_eq(s, "library-unloaded") {
        AsyncClass::LibraryUnloaded
    } else if string_eq(s, "traceframe-changed") {
        AsyncClass::TraceFrameChanged
    } else if string_eq(s, "tsv-created") {
        AsyncClass::TsvCreated
    } else if string_eq(s, "tsv-modified") {
        AsyncClass::TsvModified
    } else if string_eq(s, "tsv-deleted") {
        AsyncClass::TsvDeleted
    } else if string_eq(s, "breakpoint-created") {
        AsyncClass::BreakpointCreated
    } else if string_eq(s, "breakpoint-modified") {
        AsyncClass::BreakpointModified
    } else if string_eq(s, "breakpoint-deleted") {
        AsyncClass::BreakpointDeleted
    } else if string_eq(s, "record-started") {
        AsyncClass::RecordStarted
    } else if string_eq(s, "record-stopped") {
        AsyncClass::RecordStopped
    } else if string_eq(s, "cmd-param-changed") {
        AsyncClass::CmdParamChanged
    } else if string_eq(s, "memory-changed") {
        AsyncClass::MemoryChanged
    } else {
        AsyncClass::Unsupported
    }
}

/// Builds the record of an async line whose prefix stands at `t`.
fn classify_async_exec(line: &Vec<char>, t: usize, token: Option<String>) -> (out: OutputVariant)
    requires
        t < line@.len(),
    ensures
        out@ == classify_async(line@, t as int, opt_model(token)),
{
    // materialize the length so `t + 1` provably fits in `usize`
    let _n = line.len();
    let j = scan_comma_exec(line, t + 1);
    let cls = chars_to_string(line, t + 1, j);
    let class = async_class_exec(&cls);
    let c = line[t];
    let kind = if c == '*' {
        AsyncRecordKind::Exec
    } else if c == '+' {
        AsyncRecordKind::Status
    } else {
        AsyncRecordKind::Notify
    };
    match parse_record_results_exec(line, j) {
        Step::Good(rs, _k) => OutputVariant::Oob(
            OobRecord::Async(AsyncRecord { kind, class, results: rs }),
        ),
        Step::Bad(cc) => OutputVariant::Error(
            ErrorRecord { token, position: Position { start_column: cc, end_column: cc } },
        ),
    }
}

/// Builds the record of a result line whose `'^'` stands at `t`.
fn classify_result_exec(line: &Vec<char>, t: usize, token: Option<String>) -> (out: OutputVariant)
    requires
        t < line@.len(),
    ensures
        out@ == classify_result(line@, t as int, opt_model(token)),
{
    // materialize the length so `t + 1` provably fits in `usize`
    let _n = line.len();
    let j = scan_comma_exec(line, t + 1);
    let cls = chars_to_string(line, t + 1, j);
    let class = result_class_exec(&cls);
    match parse_record_results_exec(line, j) {
        Step::Good(rs, _k) => OutputVariant::Result(ResultRecord { token, class, results: rs }),
        Step::Bad(cc) => OutputVariant::Error(
            ErrorRecord { token, position: Position { start_column: cc, end_column: cc } },
        ),
    }
}

/// Builds the record of a stream line (`~`, `@` or `&` at column 0).
fn classify_stream_exec(line: &Vec<char>) -> (out: OutputVariant)
    requires
        line@.len() > 0,
    ensures
        out@ == classify_stream(line@),
{
    match parse_cstring_exec(line, 1) {
        Step::Good(txt, j) => {
            if j == line.len() {
                let c = line[0];
                let sr = if c == '~' {
                    StreamRecord::Console(txt)
                } else if c == '@' {
                    StreamRecord::Target(txt)
                } else {
                    StreamRecord::Log(txt)
                };
                OutputVariant::Oob(OobRecord::Stream(sr))
            } else {
                OutputVariant::Error(
                    ErrorRecord {
                        token: Option::None,
                        position: Position { start_column: j, end_column: j },
                    },
                )
            }
        },
        Step::Bad(cc) => OutputVariant::Error(
            ErrorRecord {
                token: Option::None,
                position: Position { start_column: cc, end_column: cc },
            },
        ),
    }
}

/// Classifies one complete line, as [`classify_line`] describes.
fn classify_exec(line: &Vec<char>) -> (out: OutputVariant)
    ensures
        out@ == classify_line(line@),
{
    let is_prompt = line.len() == 5 && line[0] == '(' && line[1] == 'g' && line[2] == 'd'
        && line[3] == 'b' && line[4] == ')';
    proof {
        assert(prompt_line().len() == 5 && prompt_line()[0] == '(' && prompt_line()[1] == 'g'
            && prompt_line()[2] == 'd' && prompt_line()[3] == 'b' && prompt_line()[4] == ')');
        if is_prompt {
            assert(line@ =~= prompt_line());
        }
    }
    if is_prompt {
        return OutputVariant::Prompt;
    }
    let t = scan_digits_exec(line, 0);
    let token: Option<String> = if t > 0 {
        Option::Some(chars_to_string(line, 0, t))
    } else {
        Option::None
    };
    if t < line.len() {
        let c = line[t];
        if c == '*' || c == '+' || c == '=' {
            return classify_async_exec(line, t, token);
        }
        if c == '^' {
            return classify_result_exec(line, t, token);
        }
    }
    if t == 0 && line.len() > 0 {
        let c0 = line[0];
        if c0 == '~' || c0 == '@' || c0 == '&' {
            return classify_stream_exec(line);
        }
    }
    // a line matching no production carries no token, even when digits
    // led it
    OutputVariant::Error(
        ErrorRecord { token: Option::None, position: Position { start_column: t, end_column: t } },
    )
}

/// Parses one complete logical line (without its newline) into the record
/// it denotes. Every line yields exactly one record; malformed lines yield
/// an [`OutputVariant::Error`] record rather than failing.
pub fn parse_output_line(line: &Vec<char>) -> (out: Output)
    ensures
        out@ == output_of_line(line@),
{
    let raw = chars_to_string(line, 0, line.len());
    proof {
        assert(line@.subrange(0, line@.len() as int) =~= line@);
    }
    let variant = classify_exec(line);
    Output { line: raw, variant }
}

} // verus!
