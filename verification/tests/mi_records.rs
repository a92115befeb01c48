//! One line in, one record out: classification, the result grammar,
//! escapes, class vocabularies, and error positions.

use gdbwire::parse_output_line;
use gdbwire::AsyncClass;
use gdbwire::AsyncRecordKind;
use gdbwire::OobRecord;
use gdbwire::Output;
use gdbwire::OutputVariant;
use gdbwire::ResultClass;
use gdbwire::ResultType;
use gdbwire::StreamRecord;

fn parse_line(text: &str) -> Output {
    let chars: Vec<char> = text.chars().collect();
    parse_output_line(&chars)
}

#[test]
fn done_without_results() {
    let out = parse_line("^done");
    assert_eq!(out.line, "^done");
    match out.variant {
        OutputVariant::Result(rr) => {
            assert_eq!(rr.token, None);
            assert_eq!(rr.class, ResultClass::Done);
            assert!(rr.results.is_empty());
        }
        other => panic!("expected a result record, got {:?}", other),
    }
}

#[test]
fn result_classes() {
    let cases = [
        ("^done", ResultClass::Done),
        ("^running", ResultClass::Running),
        ("^connected", ResultClass::Connected),
        ("^error", ResultClass::Error),
        ("^exit", ResultClass::Exit),
        ("^whatever", ResultClass::Unsupported),
        ("^", ResultClass::Unsupported),
    ];
    for (text, class) in cases {
        match parse_line(text).variant {
            OutputVariant::Result(rr) => assert_eq!(rr.class, class),
            other => panic!("{}: expected a result record, got {:?}", text, other),
        }
    }
}

#[test]
fn result_record_token_kept_verbatim() {
    let out = parse_line("99999999999999999999999999^done");
    match out.variant {
        OutputVariant::Result(rr) => {
            assert_eq!(rr.token.as_deref(), Some("99999999999999999999999999"));
            assert_eq!(rr.class, ResultClass::Done);
        }
        other => panic!("expected a result record, got {:?}", other),
    }
}

#[test]
fn notify_with_one_string_result() {
    let out = parse_line("=thread-group-added,id=\"i1\"");
    match out.variant {
        OutputVariant::Oob(OobRecord::Async(ar)) => {
            assert_eq!(ar.kind, AsyncRecordKind::Notify);
            assert_eq!(ar.class, AsyncClass::ThreadGroupAdded);
            assert_eq!(ar.results.len(), 1);
            assert_eq!(ar.results[0].key.as_deref(), Some("id"));
            match ar.results[0].value.as_ref().expect("value") {
                ResultType::String(s) => assert_eq!(s, "i1"),
                other => panic!("expected a string value, got {:?}", other),
            }
        }
        other => panic!("expected an async record, got {:?}", other),
    }
}

#[test]
fn async_kinds_by_prefix() {
    for (text, kind) in [
        ("*running", AsyncRecordKind::Exec),
        ("+download", AsyncRecordKind::Status),
        ("=running", AsyncRecordKind::Notify),
    ] {
        match parse_line(text).variant {
            OutputVariant::Oob(OobRecord::Async(ar)) => assert_eq!(ar.kind, kind),
            other => panic!("{}: expected an async record, got {:?}", text, other),
        }
    }
}

#[test]
fn async_class_vocabulary() {
    let cases = [
        ("download", AsyncClass::Download),
        ("stopped", AsyncClass::Stopped),
        ("running", AsyncClass::Running),
        ("thread-group-added", AsyncClass::ThreadGroupAdded),
        ("thread-group-removed", AsyncClass::ThreadGroupRemoved),
        ("thread-group-started", AsyncClass::ThreadGroupStarted),
        ("thread-group-exited", AsyncClass::ThreadGroupExited),
        ("thread-created", AsyncClass::ThreadCreated),
        ("thread-exited", AsyncClass::ThreadExited),
        ("thread-selected", AsyncClass::ThreadSelected),
        ("library-loaded", AsyncClass::LibraryLoaded),
        ("library-unloaded", AsyncClass::LibraryUnloaded),
        ("traceframe-changed", AsyncClass::TraceFrameChanged),
        ("tsv-created", AsyncClass::TsvCreated),
        ("tsv-modified", AsyncClass::TsvModified),
        ("tsv-deleted", AsyncClass::TsvDeleted),
        ("breakpoint-created", AsyncClass::BreakpointCreated),
        ("breakpoint-modified", AsyncClass::BreakpointModified),
        ("breakpoint-deleted", AsyncClass::BreakpointDeleted),
        ("record-started", AsyncClass::RecordStarted),
        ("record-stopped", AsyncClass::RecordStopped),
        ("cmd-param-changed", AsyncClass::CmdParamChanged),
        ("memory-changed", AsyncClass::MemoryChanged),
        ("brand-new-event", AsyncClass::Unsupported),
    ];
    for (word, class) in cases {
        let text = format!("={}", word);
        match parse_line(&text).variant {
            OutputVariant::Oob(OobRecord::Async(ar)) => assert_eq!(ar.class, class, "{}", word),
            other => panic!("{}: expected an async record, got {:?}", word, other),
        }
    }
}

#[test]
fn async_record_accepts_and_discards_a_token() {
    let out = parse_line("12*stopped");
    match out.variant {
        OutputVariant::Oob(OobRecord::Async(ar)) => {
            assert_eq!(ar.kind, AsyncRecordKind::Exec);
            assert_eq!(ar.class, AsyncClass::Stopped);
            assert!(ar.results.is_empty());
        }
        other => panic!("expected an async record, got {:?}", other),
    }
}

#[test]
fn console_stream_with_escapes() {
    let out = parse_line("~\"hello\\n\"");
    match out.variant {
        OutputVariant::Oob(OobRecord::Stream(StreamRecord::Console(text))) => {
            assert_eq!(text, "hello\n");
        }
        other => panic!("expected a console stream record, got {:?}", other),
    }
}

#[test]
fn stream_kinds_by_prefix() {
    match parse_line("@\"to target\"").variant {
        OutputVariant::Oob(OobRecord::Stream(StreamRecord::Target(text))) => {
            assert_eq!(text, "to target");
        }
        other => panic!("expected a target stream record, got {:?}", other),
    }
    match parse_line("&\"log line\\t!\"").variant {
        OutputVariant::Oob(OobRecord::Stream(StreamRecord::Log(text))) => {
            assert_eq!(text, "log line\t!");
        }
        other => panic!("expected a log stream record, got {:?}", other),
    }
}

#[test]
fn escape_decoding_rules() {
    // \n and \t decode, \\ and \" stand for themselves, and an unknown
    // escape passes the escaped character through literally.
    match parse_line("~\"a\\n b\\t c\\\\ d\\\" e\\q\"").variant {
        OutputVariant::Oob(OobRecord::Stream(StreamRecord::Console(text))) => {
            assert_eq!(text, "a\n b\t c\\ d\" eq");
        }
        other => panic!("expected a console stream record, got {:?}", other),
    }
}

#[test]
fn nested_tuple_results() {
    let out = parse_line("*stopped,frame={level=\"0\",func=\"main\"}");
    match out.variant {
        OutputVariant::Oob(OobRecord::Async(ar)) => {
            assert_eq!(ar.kind, AsyncRecordKind::Exec);
            assert_eq!(ar.class, AsyncClass::Stopped);
            assert_eq!(ar.results.len(), 1);
            let frame = &ar.results[0];
            assert_eq!(frame.key.as_deref(), Some("frame"));
            match frame.value.as_ref().expect("value") {
                ResultType::Result(fields) => {
                    assert_eq!(fields.len(), 2);
                    assert_eq!(fields[0].key.as_deref(), Some("level"));
                    match fields[0].value.as_ref().expect("value") {
                        ResultType::String(s) => assert_eq!(s, "0"),
                        other => panic!("expected a string, got {:?}", other),
                    }
                    assert_eq!(fields[1].key.as_deref(), Some("func"));
                    match fields[1].value.as_ref().expect("value") {
                        ResultType::String(s) => assert_eq!(s, "main"),
                        other => panic!("expected a string, got {:?}", other),
                    }
                }
                other => panic!("expected a tuple, got {:?}", other),
            }
        }
        other => panic!("expected an async record, got {:?}", other),
    }
}

#[test]
fn empty_tuple_and_empty_list() {
    match parse_line("^done,a={},b=[]").variant {
        OutputVariant::Result(rr) => {
            assert_eq!(rr.results.len(), 2);
            match rr.results[0].value.as_ref().expect("value") {
                ResultType::Result(rs) => assert!(rs.is_empty()),
                other => panic!("expected a tuple, got {:?}", other),
            }
            match rr.results[1].value.as_ref().expect("value") {
                ResultType::List(rs) => assert!(rs.is_empty()),
                other => panic!("expected a list, got {:?}", other),
            }
        }
        other => panic!("expected a result record, got {:?}", other),
    }
}

#[test]
fn list_of_bare_values_and_list_of_results() {
    match parse_line("^done,xs=[\"a\",\"b\"],ys=[k=\"1\",k=\"2\"]").variant {
        OutputVariant::Result(rr) => {
            match rr.results[0].value.as_ref().expect("value") {
                ResultType::List(rs) => {
                    assert_eq!(rs.len(), 2);
                    assert!(rs[0].key.is_none());
                    match rs[1].value.as_ref().expect("value") {
                        ResultType::String(s) => assert_eq!(s, "b"),
                        other => panic!("expected a string, got {:?}", other),
                    }
                }
                other => panic!("expected a list, got {:?}", other),
            }
            match rr.results[1].value.as_ref().expect("value") {
                ResultType::List(rs) => {
                    assert_eq!(rs.len(), 2);
                    assert_eq!(rs[0].key.as_deref(), Some("k"));
                    assert_eq!(rs[1].key.as_deref(), Some("k"));
                }
                other => panic!("expected a list, got {:?}", other),
            }
        }
        other => panic!("expected a result record, got {:?}", other),
    }
}

#[test]
fn records_clone_deeply_and_compare_equal() {
    let a = parse_line("*stopped,frame={level=\"0\",func=\"main\"},xs=[\"a\",[]]");
    let b = a.clone();
    assert_eq!(a, b);
    let c = parse_line("^done");
    assert!(a != c);
}

#[test]
fn prompt_line_exactly() {
    assert!(matches!(parse_line("(gdb)").variant, OutputVariant::Prompt));
    // almost, but not quite
    assert!(matches!(
        parse_line("(gdb) ").variant,
        OutputVariant::Error(_)
    ));
}

#[test]
fn unrecognized_line_is_an_error_at_column_zero() {
    let out = parse_line("not-mi-syntax");
    assert_eq!(out.line, "not-mi-syntax");
    match out.variant {
        OutputVariant::Error(er) => {
            assert_eq!(er.token, None);
            assert_eq!(er.position.start_column, 0);
            assert_eq!(er.position.end_column, 0);
        }
        other => panic!("expected an error record, got {:?}", other),
    }
}

#[test]
fn unmatched_line_after_digits_has_no_token() {
    // after the digit token, neither a record prefix nor a stream follows:
    // the line matches no production, so the error carries no token
    let out = parse_line("42!oops");
    match out.variant {
        OutputVariant::Error(er) => {
            assert_eq!(er.token, None);
            assert_eq!(er.position.start_column, 2);
        }
        other => panic!("expected an error record, got {:?}", other),
    }
}

#[test]
fn payload_error_of_a_recognized_record_keeps_the_token() {
    // the line is a result record with a token; only its payload fails
    let out = parse_line("42^done,x=");
    match out.variant {
        OutputVariant::Error(er) => {
            assert_eq!(er.token.as_deref(), Some("42"));
            assert_eq!(er.position.start_column, 10);
        }
        other => panic!("expected an error record, got {:?}", other),
    }
}

#[test]
fn unterminated_string_is_an_error_at_line_end() {
    let out = parse_line("~\"no closing quote");
    match out.variant {
        OutputVariant::Error(er) => {
            assert_eq!(er.position.start_column, 18);
        }
        other => panic!("expected an error record, got {:?}", other),
    }
}

#[test]
fn malformed_payload_is_an_error() {
    for text in [
        "^done,",
        "^done,novalue",
        "^done,x=",
        "^done,x=\"1\"trailing",
        "*stopped,frame={level=\"0\"",
        "^done,xs=[\"a\",k=\"1\"]",
    ] {
        match parse_line(text).variant {
            OutputVariant::Error(_) => {}
            other => panic!("{}: expected an error record, got {:?}", text, other),
        }
    }
}

#[test]
fn token_before_stream_prefix_is_an_error() {
    // stream records take no token, so the line matches no production and
    // the error carries none either
    match parse_line("12~\"text\"").variant {
        OutputVariant::Error(er) => {
            assert_eq!(er.token, None);
            assert_eq!(er.position.start_column, 2);
        }
        other => panic!("expected an error record, got {:?}", other),
    }
}
