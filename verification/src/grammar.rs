//! The MI line grammar as a mathematical model: classification of one
//! complete line and the recursive `variable=value` result grammar.
//!
//! Every function here is a spec function over `Seq<char>`; the executable
//! parser is proved to return exactly these values.

use vstd::prelude::*;
use crate::ast::AsyncClass;
use crate::ast::AsyncModel;
use crate::ast::AsyncRecordKind;
use crate::ast::ErrorModel;
use crate::ast::OobModel;
use crate::ast::OutputModel;
use crate::ast::Position;
use crate::ast::ResultClass;
use crate::ast::ResultModel;
use crate::ast::ResultRecordModel;
use crate::ast::StreamModel;
use crate::ast::ValueModel;
use crate::ast::VariantModel;

verus! {

/// How deep tuples and lists may nest before the parser reports the line as
/// malformed instead of recursing further.
pub const MAX_DEPTH: usize = 1000;

/// Outcome of scanning a quoted C string: its de-escaped content and the
/// index after the closing quote, or the column of the violation.
pub ghost enum StrParse {
    Good(Seq<char>, int),
    Bad(int),
}

/// Outcome of parsing one MI value.
pub ghost enum ValParse {
    Good(ValueModel, int),
    Bad(int),
}

/// Outcome of parsing one `variable=value` entry.
pub ghost enum ResParse {
    Good(ResultModel, int),
    Bad(int),
}

/// Outcome of parsing a comma-separated sequence of entries.
pub ghost enum SeqParse {
    Good(Seq<ResultModel>, int),
    Bad(int),
}

/// ASCII decimal digit.
pub open spec fn is_digit(c: char) -> bool {
    ('0' as u32) <= (c as u32) && (c as u32) <= ('9' as u32)
}

/// A character that may stand in a variable name: anything but the
/// punctuation the grammar claims for itself.
pub open spec fn is_var_char(c: char) -> bool {
    c != '=' && c != ',' && c != '{' && c != '}' && c != '[' && c != ']' && c != '"'
}

/// Index of the first non-digit at or after `i`, or `s.len()`.
pub open spec fn scan_digits(s: Seq<char>, i: int) -> int
    decreases s.len() - i,
{
    if i < 0 || i >= s.len() {
        s.len() as int
    } else if is_digit(s[i]) {
        scan_digits(s, i + 1)
    } else {
        i
    }
}

/// Index of the first non-variable character at or after `i`, or `s.len()`.
pub open spec fn scan_var(s: Seq<char>, i: int) -> int
    decreases s.len() - i,
{
    if i < 0 || i >= s.len() {
        s.len() as int
    } else if is_var_char(s[i]) {
        scan_var(s, i + 1)
    } else {
        i
    }
}

/// Index of the first `','` at or after `i`, or `s.len()`.
pub open spec fn scan_comma(s: Seq<char>, i: int) -> int
    decreases s.len() - i,
{
    if i < 0 || i >= s.len() {
        s.len() as int
    } else if s[i] == ',' {
        i
    } else {
        scan_comma(s, i + 1)
    }
}

/// What an escape sequence `\c` denotes: the common C escapes are decoded,
/// any other escaped character passes through literally.
pub open spec fn unescape(c: char) -> char {
    if c == 'n' {
        '\n'
    } else if c == 't' {
        '\t'
    } else {
        c
    }
}

/// Scans the body of a quoted string from `i` (just after the opening
/// quote) to its closing quote, de-escaping as it goes. Reaching the end of
/// the line first is a violation at `s.len()` (unterminated string).
pub open spec fn scan_string_body(s: Seq<char>, i: int) -> StrParse
    decreases s.len() - i,
{
    if i < 0 || i >= s.len() {
        StrParse::Bad(s.len() as int)
    } else if s[i] == '"' {
        StrParse::Good(Seq::empty(), i + 1)
    } else if s[i] == '\\' {
        if i + 1 >= s.len() {
            StrParse::Bad(s.len() as int)
        } else {
            match scan_string_body(s, i + 2) {
                StrParse::Good(t, j) => StrParse::Good(seq![unescape(s[i + 1])] + t, j),
                StrParse::Bad(c) => StrParse::Bad(c),
            }
        }
    } else {
        match scan_string_body(s, i + 1) {
            StrParse::Good(t, j) => StrParse::Good(seq![s[i]] + t, j),
            StrParse::Bad(c) => StrParse::Bad(c),
        }
    }
}

/// Parses a whole quoted string whose opening quote is expected at `i`.
pub open spec fn parse_cstring(s: Seq<char>, i: int) -> StrParse {
    if 0 <= i < s.len() && s[i] == '"' {
        scan_string_body(s, i + 1)
    } else {
        StrParse::Bad(i)
    }
}

/// Does the text at `i` begin a `variable=` prefix? Decides whether a list
/// holds entries or bare values.
pub open spec fn looks_like_result(s: Seq<char>, i: int) -> bool {
    let j = scan_var(s, i);
    j > i && j < s.len() && s[j] == '='
}

/// Parses one value (`cstring | tuple | list`) at `i`. `depth` bounds the
/// nesting of tuples and lists; at zero any value is a violation.
pub open spec fn parse_value(s: Seq<char>, i: int, depth: nat) -> ValParse
    decreases s.len() - i, 1nat,
{
    if depth == 0 {
        ValParse::Bad(i)
    } else if !(0 <= i < s.len()) {
        ValParse::Bad(i)
    } else if s[i] == '"' {
        match scan_string_body(s, i + 1) {
            StrParse::Good(t, j) => ValParse::Good(ValueModel::Str(t), j),
            StrParse::Bad(c) => ValParse::Bad(c),
        }
    } else if s[i] == '{' {
        if i + 1 < s.len() && s[i + 1] == '}' {
            ValParse::Good(ValueModel::Tuple(Seq::empty()), i + 2)
        } else {
            match parse_results_seq(s, i + 1, '}', (depth - 1) as nat) {
                SeqParse::Good(rs, j) => ValParse::Good(ValueModel::Tuple(rs), j),
                SeqParse::Bad(c) => ValParse::Bad(c),
            }
        }
    } else if s[i] == '[' {
        if i + 1 < s.len() && s[i + 1] == ']' {
            ValParse::Good(ValueModel::List(Seq::empty()), i + 2)
        } else if looks_like_result(s, i + 1) {
            match parse_results_seq(s, i + 1, ']', (depth - 1) as nat) {
                SeqParse::Good(rs, j) => ValParse::Good(ValueModel::List(rs), j),
                SeqParse::Bad(c) => ValParse::Bad(c),
            }
        } else {
            match parse_values_seq(s, i + 1, ']', (depth - 1) as nat) {
                SeqParse::Good(rs, j) => ValParse::Good(ValueModel::List(rs), j),
                SeqParse::Bad(c) => ValParse::Bad(c),
            }
        }
    } else {
        ValParse::Bad(i)
    }
}

/// Parses one `variable=value` entry at `i`.
pub open spec fn parse_result(s: Seq<char>, i: int, depth: nat) -> ResParse
    decreases s.len() - i, 2nat,
{
    let j = scan_var(s, i);
    if j <= i {
        ResParse::Bad(i)  // empty variable name
    } else if !(j < s.len() && s[j] == '=') {
        ResParse::Bad(j)
    } else {
        match parse_value(s, j + 1, depth) {
            ValParse::Good(v, k) => ResParse::Good(
                ResultModel { key: Option::Some(s.subrange(i, j)), value: Option::Some(v) },
                k,
            ),
            ValParse::Bad(c) => ResParse::Bad(c),
        }
    }
}

/// Parses `result ("," result)*` followed by the closing character
/// `close`. A sub-parse that does not advance is treated as a violation;
/// the parser always advances, so that branch is unreachable.
pub open spec fn parse_results_seq(s: Seq<char>, i: int, close: char, depth: nat) -> SeqParse
    decreases s.len() - i, 3nat,
{
    match parse_result(s, i, depth) {
        ResParse::Good(r, j) => {
            if j <= i {
                SeqParse::Bad(i)
            } else if j < s.len() && s[j] == close {
                SeqParse::Good(seq![r], j + 1)
            } else if j < s.len() && s[j] == ',' {
                match parse_results_seq(s, j + 1, close, depth) {
                    SeqParse::Good(rs, k) => SeqParse::Good(seq![r] + rs, k),
                    SeqParse::Bad(c) => SeqParse::Bad(c),
                }
            } else {
                SeqParse::Bad(j)
            }
        },
        ResParse::Bad(c) => SeqParse::Bad(c),
    }
}

/// Parses `value ("," value)*` followed by `close`; the bare values become
/// keyless entries.
pub open spec fn parse_values_seq(s: Seq<char>, i: int, close: char, depth: nat) -> SeqParse
    decreases s.len() - i, 2nat,
{
    match parse_value(s, i, depth) {
        ValParse::Good(v, j) => {
            if j <= i {
                SeqParse::Bad(i)
            } else if j < s.len() && s[j] == close {
                SeqParse::Good(seq![ResultModel { key: Option::None, value: Option::Some(v) }], j + 1)
            } else if j < s.len() && s[j] == ',' {
                match parse_values_seq(s, j + 1, close, depth) {
                    SeqParse::Good(rs, k) => SeqParse::Good(
                        seq![ResultModel { key: Option::None, value: Option::Some(v) }] + rs,
                        k,
                    ),
                    SeqParse::Bad(c) => SeqParse::Bad(c),
                }
            } else {
                SeqParse::Bad(j)
            }
        },
        ValParse::Bad(c) => SeqParse::Bad(c),
    }
}

/// Parses `result ("," result)*` up to the end of the line.
pub open spec fn parse_results_to_end(s: Seq<char>, i: int, depth: nat) -> SeqParse
    decreases s.len() - i, 3nat,
{
    match parse_result(s, i, depth) {
        ResParse::Good(r, j) => {
            if j <= i {
                SeqParse::Bad(i)
            } else if j == s.len() {
                SeqParse::Good(seq![r], j)
            } else if j < s.len() && s[j] == ',' {
                match parse_results_to_end(s, j + 1, depth) {
                    SeqParse::Good(rs, k) => SeqParse::Good(seq![r] + rs, k),
                    SeqParse::Bad(c) => SeqParse::Bad(c),
                }
            } else {
                SeqParse::Bad(j)
            }
        },
        ResParse::Bad(c) => SeqParse::Bad(c),
    }
}

/// Parses the payload of an async or result record after its class word:
/// nothing at all, or a comma and entries to the end of the line.
pub open spec fn parse_record_results(s: Seq<char>, i: int) -> SeqParse {
    if i >= s.len() {
        SeqParse::Good(Seq::empty(), s.len() as int)
    } else if s[i] == ',' {
        parse_results_to_end(s, i + 1, MAX_DEPTH as nat)
    } else {
        SeqParse::Bad(i)
    }
}

// ---------------------------------------------------------------------------
// Progress: every parse lands inside the line and advances.
// ---------------------------------------------------------------------------

/// `scan_digits` stays within `[i, s.len()]`.
pub proof fn lemma_scan_digits_bounds(s: Seq<char>, i: int)
    requires
        0 <= i <= s.len(),
    ensures
        i <= scan_digits(s, i) <= s.len(),
    decreases s.len() - i,
{
    if i < s.len() && is_digit(s[i]) {
        lemma_scan_digits_bounds(s, i + 1);
    }
}

/// `scan_var` stays within `[i, s.len()]`.
pub proof fn lemma_scan_var_bounds(s: Seq<char>, i: int)
    requires
        0 <= i <= s.len(),
    ensures
        i <= scan_var(s, i) <= s.len(),
    decreases s.len() - i,
{
    if i < s.len() && is_var_char(s[i]) {
        lemma_scan_var_bounds(s, i + 1);
    }
}

/// `scan_comma` stays within `[i, s.len()]`.
pub proof fn lemma_scan_comma_bounds(s: Seq<char>, i: int)
    requires
        0 <= i <= s.len(),
    ensures
        i <= scan_comma(s, i) <= s.len(),
    decreases s.len() - i,
{
    if i < s.len() && s[i] != ',' {
        lemma_scan_comma_bounds(s, i + 1);
    }
}

/// A successful string scan advances past at least the closing quote and
/// never past the line; a failed one reports a column inside the line or
/// the end of it.
pub proof fn lemma_string_body_bounds(s: Seq<char>, i: int)
    requires
        0 <= i <= s.len(),
    ensures
        match scan_string_body(s, i) {
            StrParse::Good(_t, j) => i < j <= s.len(),
            StrParse::Bad(c) => 0 <= c <= s.len(),
        },
    decreases s.len() - i,
{
    if i < s.len() && s[i] != '"' {
        if s[i] == '\\' {
            if i + 1 < s.len() {
                lemma_string_body_bounds(s, i + 2);
            }
        } else {
            lemma_string_body_bounds(s, i + 1);
        }
    }
}

/// Bounds for one value parse.
pub proof fn lemma_value_bounds(s: Seq<char>, i: int, depth: nat)
    requires
        0 <= i <= s.len(),
    ensures
        match parse_value(s, i, depth) {
            ValParse::Good(_v, j) => i < j <= s.len(),
            ValParse::Bad(c) => 0 <= c <= s.len(),
        },
    decreases s.len() - i, 1nat,
{
    if depth > 0 && 0 <= i < s.len() {
        if s[i] == '"' {
            lemma_string_body_bounds(s, i + 1);
        } else if s[i] == '{' {
            if !(i + 1 < s.len() && s[i + 1] == '}') {
                lemma_results_seq_bounds(s, i + 1, '}', (depth - 1) as nat);
            }
        } else if s[i] == '[' {
            if i + 1 < s.len() && s[i + 1] == ']' {
            } else if looks_like_result(s, i + 1) {
                lemma_results_seq_bounds(s, i + 1, ']', (depth - 1) as nat);
            } else {
                lemma_values_seq_bounds(s, i + 1, ']', (depth - 1) as nat);
            }
        }
    }
}

/// Bounds for one `variable=value` parse.
pub proof fn lemma_result_bounds(s: Seq<char>, i: int, depth: nat)
    requires
        0 <= i <= s.len(),
    ensures
        match parse_result(s, i, depth) {
            ResParse::Good(_r, j) => i < j <= s.len(),
            ResParse::Bad(c) => 0 <= c <= s.len(),
        },
    decreases s.len() - i, 2nat,
{
    lemma_scan_var_bounds(s, i);
    let j = scan_var(s, i);
    if j > i && j < s.len() && s[j] == '=' {
        lemma_value_bounds(s, j + 1, depth);
    }
}

/// Bounds for an entry sequence parse.
pub proof fn lemma_results_seq_bounds(s: Seq<char>, i: int, close: char, depth: nat)
    requires
        0 <= i <= s.len(),
    ensures
        match parse_results_seq(s, i, close, depth) {
            SeqParse::Good(_rs, j) => i < j <= s.len(),
            SeqParse::Bad(c) => 0 <= c <= s.len(),
        },
    decreases s.len() - i, 3nat,
{
    lemma_result_bounds(s, i, depth);
    match parse_result(s, i, depth) {
        ResParse::Good(_r, j) => {
            if j > i && !(j < s.len() && s[j] == close) && j < s.len() && s[j] == ',' {
                lemma_results_seq_bounds(s, j + 1, close, depth);
            }
        },
        ResParse::Bad(_c) => {},
    }
}

/// Bounds for a bare-value sequence parse.
pub proof fn lemma_values_seq_bounds(s: Seq<char>, i: int, close: char, depth: nat)
    requires
        0 <= i <= s.len(),
    ensures
        match parse_values_seq(s, i, close, depth) {
            SeqParse::Good(_rs, j) => i < j <= s.len(),
            SeqParse::Bad(c) => 0 <= c <= s.len(),
        },
    decreases s.len() - i, 2nat,
{
    lemma_value_bounds(s, i, depth);
    match parse_value(s, i, depth) {
        ValParse::Good(_v, j) => {
            if j > i && !(j < s.len() && s[j] == close) && j < s.len() && s[j] == ',' {
                lemma_values_seq_bounds(s, j + 1, close, depth);
            }
        },
        ValParse::Bad(_c) => {},
    }
}

/// Bounds for the to-end-of-line entry sequence parse.
pub proof fn lemma_results_to_end_bounds(s: Seq<char>, i: int, depth: nat)
    requires
        0 <= i <= s.len(),
    ensures
        match parse_results_to_end(s, i, depth) {
            SeqParse::Good(_rs, j) => i < j <= s.len(),
            SeqParse::Bad(c) => 0 <= c <= s.len(),
        },
    decreases s.len() - i, 3nat,
{
    lemma_result_bounds(s, i, depth);
    match parse_result(s, i, depth) {
        ResParse::Good(_r, j) => {
            if j > i && j < s.len() && s[j] == ',' {
                lemma_results_to_end_bounds(s, j + 1, depth);
            }
        },
        ResParse::Bad(_c) => {},
    }
}

// ---------------------------------------------------------------------------
// Line classification.
// ---------------------------------------------------------------------------

/// The exact prompt line.
pub open spec fn prompt_line() -> Seq<char> {
    seq!['(', 'g', 'd', 'b', ')']
}

/// The closed result-class vocabulary; unknown words are `Unsupported`.
pub open spec fn result_class_of(s: Seq<char>) -> ResultClass {
    if s == "done"@ {
        ResultClass::Done
    } else if s == "running"@ {
        ResultClass::Running
    } else if s == "connected"@ {
        ResultClass::Connected
    } else if s == "error"@ {
        ResultClass::Error
    } else if s == "exit"@ {
        ResultClass::Exit
    } else {
        ResultClass::Unsupported
    }
}

/// The closed async-class vocabulary; unknown words are `Unsupported`.
pub open spec fn async_class_of(s: Seq<char>) -> AsyncClass {
    if s == "download"@ {
        AsyncClass::Download
    } else if s == "stopped"@ {
        AsyncClass::Stopped
    } else if s == "running"@ {
        AsyncClass::Running
    } else if s == "thread-group-added"@ {
        AsyncClass::ThreadGroupAdded
    } else if s == "thread-group-removed"@ {
        AsyncClass::ThreadGroupRemoved
    } else if s == "thread-group-started"@ {
        AsyncClass::ThreadGroupStarted
    } else if s == "thread-group-exited"@ {
        AsyncClass::ThreadGroupExited
    } else if s == "thread-created"@ {
        AsyncClass::ThreadCreated
    } else if s == "thread-exited"@ {
        AsyncClass::ThreadExited
    } else if s == "thread-selected"@ {
        AsyncClass::ThreadSelected
    } else if s == "library-loaded"@ {
        AsyncClass::LibraryLoaded
    } else if s == "library-unloaded"@ {
        AsyncClass::LibraryUnloaded
    } else if s == "traceframe-changed"@ {
        AsyncClass::TraceFrameChanged
    } else if s == "tsv-created"@ {
        AsyncClass::TsvCreated
    } else if s == "tsv-modified"@ {
        AsyncClass::TsvModified
    } else if s == "tsv-deleted"@ {
        AsyncClass::TsvDeleted
    } else if s == "breakpoint-created"@ {
        AsyncClass::BreakpointCreated
    } else if s == "breakpoint-modified"@ {
        AsyncClass::BreakpointModified
    } else if s == "breakpoint-deleted"@ {
        AsyncClass::BreakpointDeleted
    } else if s == "record-started"@ {
        AsyncClass::RecordStarted
    } else if s == "record-stopped"@ {
        AsyncClass::RecordStopped
    } else if s == "cmd-param-changed"@ {
        AsyncClass::CmdParamChanged
    } else if s == "memory-changed"@ {
        AsyncClass::MemoryChanged
    } else {
        AsyncClass::Unsupported
    }
}

/// A diagnostic position naming the single column `c`.
pub open spec fn pos_at(c: int) -> Position {
    Position { start_column: c as usize, end_column: c as usize }
}

/// Which async kind a prefix character introduces.
pub open spec fn async_kind_of(c: char) -> AsyncRecordKind {
    if c == '*' {
        AsyncRecordKind::Exec
    } else if c == '+' {
        AsyncRecordKind::Status
    } else {
        AsyncRecordKind::Notify
    }
}

/// Classifies an async line: `l[t]` is the prefix character, `token` the
/// digit token before it (async records do not retain it).
pub open spec fn classify_async(l: Seq<char>, t: int, token: Option<Seq<char>>) -> VariantModel {
    let j = scan_comma(l, t + 1);
    let class = async_class_of(l.subrange(t + 1, j));
    match parse_record_results(l, j) {
        SeqParse::Good(rs, _k) => VariantModel::Oob(
            OobModel::Async(AsyncModel { kind: async_kind_of(l[t]), class, results: rs }),
        ),
        SeqParse::Bad(c) => VariantModel::Error(ErrorModel { token, position: pos_at(c) }),
    }
}

/// Classifies a result-record line: `l[t]` is `'^'`.
pub open spec fn classify_result(l: Seq<char>, t: int, token: Option<Seq<char>>) -> VariantModel {
    let j = scan_comma(l, t + 1);
    let class = result_class_of(l.subrange(t + 1, j));
    match parse_record_results(l, j) {
        SeqParse::Good(rs, _k) => VariantModel::Result(
            ResultRecordModel { token, class, results: rs },
        ),
        SeqParse::Bad(c) => VariantModel::Error(ErrorModel { token, position: pos_at(c) }),
    }
}

/// Classifies a stream line: `l[0]` is `'~'`, `'@'` or `'&'` and the rest
/// of the line must be one quoted string.
pub open spec fn classify_stream(l: Seq<char>) -> VariantModel {
    match parse_cstring(l, 1) {
        StrParse::Good(txt, j) => {
            if j == l.len() {
                VariantModel::Oob(
                    OobModel::Stream(
                        if l[0] == '~' {
                            StreamModel::Console(txt)
                        } else if l[0] == '@' {
                            StreamModel::Target(txt)
                        } else {
                            StreamModel::Log(txt)
                        },
                    ),
                )
            } else {
                VariantModel::Error(ErrorModel { token: Option::None, position: pos_at(j) })
            }
        },
        StrParse::Bad(c) => VariantModel::Error(ErrorModel { token: Option::None, position: pos_at(c) }),
    }
}

/// Classifies one complete line (without its newline) into its record
/// category: the heart of the MI grammar.
pub open spec fn classify_line(l: Seq<char>) -> VariantModel {
    if l == prompt_line() {
        VariantModel::Prompt
    } else {
        let t = scan_digits(l, 0);
        let token = if t > 0 {
            Option::Some(l.subrange(0, t))
        } else {
            Option::<Seq<char>>::None
        };
        if t < l.len() && (l[t] == '*' || l[t] == '+' || l[t] == '=') {
            classify_async(l, t, token)
        } else if t < l.len() && l[t] == '^' {
            classify_result(l, t, token)
        } else if t == 0 && l.len() > 0 && (l[0] == '~' || l[0] == '@' || l[0] == '&') {
            classify_stream(l)
        } else {
            // a line matching no production carries no token, even when
            // digits led it
            VariantModel::Error(ErrorModel { token: Option::None, position: pos_at(t) })
        }
    }
}

/// The full record one line becomes: the raw line and its classification.
pub open spec fn output_of_line(l: Seq<char>) -> OutputModel {
    OutputModel { line: l, variant: classify_line(l) }
}

/// The records of a sequence of lines, in order.
pub open spec fn outputs_of_lines(ls: Seq<Seq<char>>) -> Seq<OutputModel> {
    ls.map_values(|l: Seq<char>| output_of_line(l))
}

} // verus!
