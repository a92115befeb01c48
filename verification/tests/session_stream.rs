//! The incremental session: buffering across pushes, batch boundaries,
//! chunk-split invariance, error isolation, recreation, and deep nesting.

use std::cell::RefCell;
use std::rc::Rc;

use gdbwire::parse_chunk;
use gdbwire::AsyncClass;
use gdbwire::GdbwireResult;
use gdbwire::OobRecord;
use gdbwire::Output;
use gdbwire::OutputVariant;
use gdbwire::Parser;
use gdbwire::ResultClass;
use gdbwire::ResultType;
use gdbwire::StreamRecord;

fn run_chunks(chunks: &[&str]) -> Vec<Output> {
    let sink: Rc<RefCell<Vec<Output>>> = Rc::new(RefCell::new(Vec::new()));
    let tap = Rc::clone(&sink);
    let mut parser = Parser::new(move |batch: Vec<Output>| {
        assert!(!batch.is_empty(), "a delivered batch is never empty");
        tap.borrow_mut().extend(batch);
    });
    for chunk in chunks {
        assert_eq!(parser.push(chunk), GdbwireResult::Okay);
    }
    drop(parser);
    Rc::try_unwrap(sink).expect("sink").into_inner()
}

fn summary(outputs: &[Output]) -> String {
    let mut s = String::new();
    for out in outputs {
        s.push_str(&format!("{:?};", out));
    }
    s
}

#[test]
fn single_push_single_record() {
    let outs = run_chunks(&["^done\n"]);
    assert_eq!(outs.len(), 1);
    assert_eq!(outs[0].line, "^done");
    match &outs[0].variant {
        OutputVariant::Result(rr) => {
            assert_eq!(rr.token, None);
            assert_eq!(rr.class, ResultClass::Done);
            assert!(rr.results.is_empty());
        }
        other => panic!("expected a result record, got {:?}", other),
    }
}

#[test]
fn chunk_boundaries_do_not_matter() {
    let whole = "=thread-group-added,id=\"i1\"\n~\"hello\\n\"\n*stopped,frame={level=\"0\",func=\"main\"}\n(gdb)\n";
    let reference = run_chunks(&[whole]);
    assert_eq!(reference.len(), 4);
    // split at every single position, including mid-token and mid-escape
    for cut in 0..=whole.len() {
        if !whole.is_char_boundary(cut) {
            continue;
        }
        let (a, b) = whole.split_at(cut);
        let split = run_chunks(&[a, b]);
        assert_eq!(summary(&reference), summary(&split), "cut at {}", cut);
    }
    // byte-at-a-time
    let tiny: Vec<String> = whole.chars().map(|c| c.to_string()).collect();
    let tiny_refs: Vec<&str> = tiny.iter().map(|s| s.as_str()).collect();
    assert_eq!(summary(&reference), summary(&run_chunks(&tiny_refs)));
}

#[test]
fn partial_line_is_buffered_across_pushes() {
    let sink: Rc<RefCell<Vec<Output>>> = Rc::new(RefCell::new(Vec::new()));
    let tap = Rc::clone(&sink);
    let mut parser = Parser::new(move |batch: Vec<Output>| {
        tap.borrow_mut().extend(batch);
    });
    parser.push("^do");
    assert!(sink.borrow().is_empty(), "no complete line, no batch");
    parser.push("ne\n(g");
    assert_eq!(sink.borrow().len(), 1);
    parser.push("db)\n");
    assert_eq!(sink.borrow().len(), 2);
    assert!(matches!(sink.borrow()[1].variant, OutputVariant::Prompt));
}

#[test]
fn unterminated_trailing_line_is_discarded_on_drop() {
    let outs = run_chunks(&["^done\n^runni"]);
    assert_eq!(outs.len(), 1, "the trailing fragment never became a record");
}

#[test]
fn error_is_isolated_within_a_batch() {
    let outs = run_chunks(&["not-mi-syntax\n^done\n"]);
    assert_eq!(outs.len(), 2);
    assert!(matches!(outs[0].variant, OutputVariant::Error(_)));
    match &outs[1].variant {
        OutputVariant::Result(rr) => assert_eq!(rr.class, ResultClass::Done),
        other => panic!("expected a result record, got {:?}", other),
    }
}

#[test]
fn recreated_parser_reproduces_the_stream() {
    let first = run_chunks(&["^done\n=thread-created,id=\"1\"\n"]);
    let second = run_chunks(&["^done\n=thread-created,id=\"1\"\n"]);
    assert_eq!(summary(&first), summary(&second));
    // and recreating mid-stream on the remaining input matches feeding the
    // remaining input to a parser that was never destroyed
    let once = run_chunks(&["^done\n", "(gdb)\n"]);
    let mut apart = run_chunks(&["^done\n"]);
    apart.extend(run_chunks(&["(gdb)\n"]));
    assert_eq!(summary(&once), summary(&apart));
}

#[test]
fn deep_list_nesting_stays_bounded() {
    // 10,000 opening brackets: the parser must neither crash nor recurse
    // unboundedly; it reports one error record for the line.
    let mut line = String::from("^done,deep=");
    for _ in 0..10_000 {
        line.push('[');
    }
    line.push('\n');
    let outs = run_chunks(&[line.as_str()]);
    assert_eq!(outs.len(), 1);
    assert!(matches!(outs[0].variant, OutputVariant::Error(_)));
}

#[test]
fn moderate_nesting_parses_correctly() {
    // 50 levels of tuples under the depth bound parse to the full tree
    let mut line = String::from("^done,t=");
    for _ in 0..50 {
        line.push_str("{k=");
    }
    line.push_str("\"x\"");
    for _ in 0..50 {
        line.push('}');
    }
    line.push('\n');
    let outs = run_chunks(&[line.as_str()]);
    assert_eq!(outs.len(), 1);
    match &outs[0].variant {
        OutputVariant::Result(rr) => {
            assert_eq!(rr.class, ResultClass::Done);
            let mut value = rr.results[0].value.as_ref().expect("value");
            let mut depth = 0;
            while let ResultType::Result(inner) = value {
                assert_eq!(inner.len(), 1);
                depth += 1;
                value = inner[0].value.as_ref().expect("value");
            }
            assert_eq!(depth, 50);
            match value {
                ResultType::String(s) => assert_eq!(s, "x"),
                other => panic!("expected a string at the core, got {:?}", other),
            }
        }
        other => panic!("expected a result record, got {:?}", other),
    }
}

#[test]
fn parse_chunk_reports_rest_and_batch() {
    let mut pending: Vec<char> = Vec::new();
    let batch = parse_chunk(&mut pending, "*running,thread-id=\"all\"\n^run");
    assert_eq!(batch.len(), 1);
    match &batch[0].variant {
        OutputVariant::Oob(OobRecord::Async(ar)) => {
            assert_eq!(ar.class, AsyncClass::Running);
            assert_eq!(ar.results[0].key.as_deref(), Some("thread-id"));
        }
        other => panic!("expected an async record, got {:?}", other),
    }
    assert_eq!(pending.iter().collect::<String>(), "^run");
    let batch2 = parse_chunk(&mut pending, "ning\n");
    assert_eq!(batch2.len(), 1);
    match &batch2[0].variant {
        OutputVariant::Result(rr) => assert_eq!(rr.class, ResultClass::Running),
        other => panic!("expected a result record, got {:?}", other),
    }
    assert!(pending.is_empty());
}

#[test]
fn empty_push_delivers_nothing() {
    let outs = run_chunks(&["", "", ""]);
    assert!(outs.is_empty());
}

#[test]
fn empty_line_is_an_error_record() {
    let outs = run_chunks(&["\n"]);
    assert_eq!(outs.len(), 1);
    assert_eq!(outs[0].line, "");
    match &outs[0].variant {
        OutputVariant::Error(er) => {
            assert_eq!(er.token, None);
            assert_eq!(er.position.start_column, 0);
        }
        other => panic!("expected an error record, got {:?}", other),
    }
}

#[test]
fn token_only_line_is_an_error_after_the_token() {
    let outs = run_chunks(&["123\n"]);
    assert_eq!(outs.len(), 1);
    match &outs[0].variant {
        OutputVariant::Error(er) => {
            assert_eq!(er.token, None, "a line matching no production carries no token");
            assert_eq!(er.position.start_column, 3);
        }
        other => panic!("expected an error record, got {:?}", other),
    }
}

#[test]
fn batch_order_mirrors_line_order() {
    let outs = run_chunks(&["^done\n(gdb)\n~\"a\"\n^exit\n"]);
    assert_eq!(outs.len(), 4);
    assert!(matches!(&outs[0].variant, OutputVariant::Result(_)));
    assert!(matches!(&outs[1].variant, OutputVariant::Prompt));
    assert!(matches!(&outs[2].variant, OutputVariant::Oob(_)));
    match &outs[3].variant {
        OutputVariant::Result(rr) => assert_eq!(rr.class, ResultClass::Exit),
        other => panic!("expected a result record, got {:?}", other),
    }
}

#[test]
fn console_payload_round_trip_through_session() {
    let outs = run_chunks(&["~\"hel", "lo\\", "n\"\n"]);
    assert_eq!(outs.len(), 1);
    match &outs[0].variant {
        OutputVariant::Oob(OobRecord::Stream(StreamRecord::Console(text))) => {
            assert_eq!(text, "hello\n");
        }
        other => panic!("expected a console stream record, got {:?}", other),
    }
}
