//! The executable result-value grammar parser, proved to return exactly
//! what the models in [`crate::grammar`] describe. Comma-separated
//! sequences are parsed iteratively; recursion is spent only on nesting,
//! which [`MAX_DEPTH`] bounds.

use vstd::prelude::*;
use crate::ast::lemma_results_model_push;
use crate::ast::results_model;
use crate::ast::ResultModel;
use crate::ast::ResultType;
use crate::grammar::lemma_result_bounds;
use crate::grammar::lemma_value_bounds;
use crate::grammar::looks_like_result;
use crate::grammar::parse_record_results;
use crate::grammar::parse_result;
use crate::grammar::parse_results_seq;
use crate::grammar::parse_results_to_end;
use crate::grammar::parse_value;
use crate::grammar::parse_values_seq;
use crate::grammar::ResParse;
use crate::grammar::SeqParse;
use crate::grammar::ValParse;
use crate::grammar::MAX_DEPTH;
use crate::scan::chars_to_string;
use crate::scan::parse_cstring_exec;
use crate::scan::scan_var_exec;
use crate::scan::Step;

verus! {

/// Prefixes already-parsed entries onto the outcome of the remaining
/// sequence parse.
pub(crate) open spec fn seq_prepend(pre: Seq<ResultModel>, o: SeqParse) -> SeqParse {
    match o {
        SeqParse::Good(rs, j) => SeqParse::Good(pre + rs, j),
        SeqParse::Bad(c) => SeqParse::Bad(c),
    }
}

proof fn lemma_prepend_empty(o: SeqParse)
    ensures
        seq_prepend(Seq::empty(), o) == o,
{
    match o {
        SeqParse::Good(rs, _j) => {
            assert(Seq::empty() + rs =~= rs);
        },
        SeqParse::Bad(_c) => {},
    }
}

proof fn lemma_prepend_prepend(a: Seq<ResultModel>, b: Seq<ResultModel>, o: SeqParse)
    ensures
        seq_prepend(a, seq_prepend(b, o)) == seq_prepend(a + b, o),
{
    match o {
        SeqParse::Good(rs, _j) => {
            assert(a + (b + rs) =~= (a + b) + rs);
        },
        SeqParse::Bad(_c) => {},
    }
}

/// Does the text at `i` begin a `variable=` prefix?
fn looks_like_result_exec(v: &Vec<char>, i: usize) -> (r: bool)
    requires
        i <= v@.len(),
    ensures
        r == looks_like_result(v@, i as int),
{
    let j = scan_var_exec(v, i);
    j > i && j < v.len() && v[j] == '='
}

/// Parses one value (`cstring | tuple | list`) at `i`, as
/// [`parse_value`] describes.
pub(crate) fn parse_value_exec(v: &Vec<char>, i: usize, depth: usize) -> (r: Step<ResultType>)
    requires
        i <= v@.len(),
    ensures
        match parse_value(v@, i as int, depth as nat) {
            ValParse::Good(m, j) => r matches Step::Good(rt, jj) && rt@ == m && jj == j,
            ValParse::Bad(c) => r matches Step::Bad(cc) && cc == c,
        },
    decreases v@.len() - i, 1int,
{
    if depth == 0 {
        return Step::Bad(i);
    }
    if i >= v.len() {
        return Step::Bad(i);
    }
    let c = v[i];
    if c == '"' {
        match parse_cstring_exec(v, i) {
            Step::Good(s, j) => Step::Good(ResultType::String(s), j),
            Step::Bad(cc) => Step::Bad(cc),
        }
    } else if c == '{' {
        if i + 1 < v.len() && v[i + 1] == '}' {
            Step::Good(ResultType::Result(Vec::new()), i + 2)
        } else {
            match parse_results_seq_exec(v, i + 1, '}', depth - 1) {
                Step::Good(rs, j) => Step::Good(ResultType::Result(rs), j),
                Step::Bad(cc) => Step::Bad(cc),
            }
        }
    } else if c == '[' {
        if i + 1 < v.len() && v[i + 1] == ']' {
            Step::Good(ResultType::List(Vec::new()), i + 2)
        } else if looks_like_result_exec(v, i + 1) {
            match parse_results_seq_exec(v, i + 1, ']', depth - 1) {
                Step::Good(rs, j) => Step::Good(ResultType::List(rs), j),
                Step::Bad(cc) => Step::Bad(cc),
            }
        } else {
            match parse_values_seq_exec(v, i + 1, ']', depth - 1) {
                Step::Good(rs, j) => Step::Good(ResultType::List(rs), j),
                Step::Bad(cc) => Step::Bad(cc),
            }
        }
    } else {
        Step::Bad(i)
    }
}

/// Parses one `variable=value` entry at `i`, as [`parse_result`]
/// describes.
pub(crate) fn parse_result_exec(v: &Vec<char>, i: usize, depth: usize) -> (r: Step<
    crate::ast::Result,
>)
    requires
        i <= v@.len(),
    ensures
        match parse_result(v@, i as int, depth as nat) {
            ResParse::Good(m, j) => r matches Step::Good(res, jj) && res@ == m && jj == j,
            ResParse::Bad(c) => r matches Step::Bad(cc) && cc == c,
        },
    decreases v@.len() - i, 2int,
{
    let j = scan_var_exec(v, i);
    if j <= i {
        return Step::Bad(i);
    }
    if !(j < v.len() && v[j] == '=') {
        return Step::Bad(j);
    }
    match parse_value_exec(v, j + 1, depth) {
        Step::Good(val, k) => {
            let key = chars_to_string(v, i, j);
            Step::Good(
                crate::ast::Result { key: Option::Some(key), value: Option::Some(val) },
                k,
            )
        },
        Step::Bad(cc) => Step::Bad(cc),
    }
}

/// Parses `result ("," result)* close` starting at `i`, iteratively, as
/// [`parse_results_seq`] describes.
pub(crate) fn parse_results_seq_exec(v: &Vec<char>, i: usize, close: char, depth: usize) -> (r:
    Step<Vec<crate::ast::Result>>)
    requires
        i <= v@.len(),
    ensures
        match parse_results_seq(v@, i as int, close, depth as nat) {
            SeqParse::Good(ms, j) => r matches Step::Good(rs, jj) && results_model(rs@) == ms
                && jj == j,
            SeqParse::Bad(c) => r matches Step::Bad(cc) && cc == c,
        },
    decreases v@.len() - i, 3int,
{
    let ghost whole = parse_results_seq(v@, i as int, close, depth as nat);
    let mut acc: Vec<crate::ast::Result> = Vec::new();
    let mut cur = i;
    proof {
        lemma_prepend_empty(whole);
    }
    loop
        invariant
            i <= cur <= v@.len(),
            whole == parse_results_seq(v@, i as int, close, depth as nat),
            whole == seq_prepend(
                results_model(acc@),
                parse_results_seq(v@, cur as int, close, depth as nat),
            ),
        decreases v@.len() - cur,
    {
        let ghost here = parse_results_seq(v@, cur as int, close, depth as nat);
        match parse_result_exec(v, cur, depth) {
            Step::Bad(c) => {
                return Step::Bad(c);
            },
            Step::Good(res, j) => {
                proof {
                    lemma_result_bounds(v@, cur as int, depth as nat);
                }
                let ghost m = res@;
                let ghost pre = results_model(acc@);
                let ghost before = acc@;
                if j < v.len() && v[j] == close {
                    acc.push(res);
                    proof {
                        lemma_results_model_push(before, res);
                        assert(results_model(acc@) == pre + seq![m]);
                        assert(here == SeqParse::Good(seq![m], j + 1));
                        assert(whole == SeqParse::Good(pre + seq![m], j + 1));
                    }
                    return Step::Good(acc, j + 1);
                } else if j < v.len() && v[j] == ',' {
                    acc.push(res);
                    cur = j + 1;
                    proof {
                        lemma_results_model_push(before, res);
                        assert(results_model(acc@) == pre + seq![m]);
                        assert(here == seq_prepend(
                            seq![m],
                            parse_results_seq(v@, cur as int, close, depth as nat),
                        ));
                        lemma_prepend_prepend(
                            pre,
                            seq![m],
                            parse_results_seq(v@, cur as int, close, depth as nat),
                        );
                    }
                } else {
                    return Step::Bad(j);
                }
            },
        }
    }
}

/// Parses `value ("," value)* close` starting at `i`, iteratively, as
/// [`parse_values_seq`] describes; bare values become keyless entries.
pub(crate) fn parse_values_seq_exec(v: &Vec<char>, i: usize, close: char, depth: usize) -> (r:
    Step<Vec<crate::ast::Result>>)
    requires
        i <= v@.len(),
    ensures
        match parse_values_seq(v@, i as int, close, depth as nat) {
            SeqParse::Good(ms, j) => r matches Step::Good(rs, jj) && results_model(rs@) == ms
                && jj == j,
            SeqParse::Bad(c) => r matches Step::Bad(cc) && cc == c,
        },
    decreases v@.len() - i, 2int,
{
    let ghost whole = parse_values_seq(v@, i as int, close, depth as nat);
    let mut acc: Vec<crate::ast::Result> = Vec::new();
    let mut cur = i;
    proof {
        lemma_prepend_empty(whole);
    }
    loop
        invariant
            i <= cur <= v@.len(),
            whole == parse_values_seq(v@, i as int, close, depth as nat),
            whole == seq_prepend(
                results_model(acc@),
                parse_values_seq(v@, cur as int, close, depth as nat),
            ),
        decreases v@.len() - cur,
    {
        let ghost here = parse_values_seq(v@, cur as int, close, depth as nat);
        match parse_value_exec(v, cur, depth) {
            Step::Bad(c) => {
                return Step::Bad(c);
            },
            Step::Good(val, j) => {
                proof {
                    lemma_value_bounds(v@, cur as int, depth as nat);
                }
                let res = crate::ast::Result { key: Option::None, value: Option::Some(val) };
                let ghost m = res@;
                let ghost pre = results_model(acc@);
                let ghost before = acc@;
                if j < v.len() && v[j] == close {
                    acc.push(res);
                    proof {
                        lemma_results_model_push(before, res);
                        assert(results_model(acc@) == pre + seq![m]);
                        assert(here == SeqParse::Good(seq![m], j + 1));
                        assert(whole == SeqParse::Good(pre + seq![m], j + 1));
                    }
                    return Step::Good(acc, j + 1);
                } else if j < v.len() && v[j] == ',' {
                    acc.push(res);
                    cur = j + 1;
                    proof {
                        lemma_results_model_push(before, res);
                        assert(results_model(acc@) == pre + seq![m]);
                        assert(here == seq_prepend(
                            seq![m],
                            parse_values_seq(v@, cur as int, close, depth as nat),
                        ));
                        lemma_prepend_prepend(
                            pre,
                            seq![m],
                            parse_values_seq(v@, cur as int, close, depth as nat),
                        );
                    }
                } else {
                    return Step::Bad(j);
                }
            },
        }
    }
}

/// Parses `result ("," result)*` to the end of the line, iteratively, as
/// [`parse_results_to_end`] describes.
pub(crate) fn parse_results_to_end_exec(v: &Vec<char>, i: usize, depth: usize) -> (r: Step<
    Vec<crate::ast::Result>,
>)
    requires
        i <= v@.len(),
    ensures
        match parse_results_to_end(v@, i as int, depth as nat) {
            SeqParse::Good(ms, j) => r matches Step::Good(rs, jj) && results_model(rs@) == ms
                && jj == j,
            SeqParse::Bad(c) => r matches Step::Bad(cc) && cc == c,
        },
{
    let ghost whole = parse_results_to_end(v@, i as int, depth as nat);
    let mut acc: Vec<crate::ast::Result> = Vec::new();
    let mut cur = i;
    proof {
        lemma_prepend_empty(whole);
    }
    loop
        invariant
            i <= cur <= v@.len(),
            whole == parse_results_to_end(v@, i as int, depth as nat),
            whole == seq_prepend(
                results_model(acc@),
                parse_results_to_end(v@, cur as int, depth as nat),
            ),
        decreases v@.len() - cur,
    {
        let ghost here = parse_results_to_end(v@, cur as int, depth as nat);
        match parse_result_exec(v, cur, depth) {
            Step::Bad(c) => {
                return Step::Bad(c);
            },
            Step::Good(res, j) => {
                proof {
                    lemma_result_bounds(v@, cur as int, depth as nat);
                }
                let ghost m = res@;
                let ghost pre = results_model(acc@);
                let ghost before = acc@;
                if j == v.len() {
                    acc.push(res);
                    proof {
                        lemma_results_model_push(before, res);
                        assert(results_model(acc@) == pre + seq![m]);
                        assert(here == SeqParse::Good(seq![m], j as int));
                        assert(whole == SeqParse::Good(pre + seq![m], j as int));
                    }
                    return Step::Good(acc, j);
                } else if v[j] == ',' {
                    acc.push(res);
                    cur = j + 1;
                    proof {
                        lemma_results_model_push(before, res);
                        assert(results_model(acc@) == pre + seq![m]);
                        assert(here == seq_prepend(
                            seq![m],
                            parse_results_to_end(v@, cur as int, depth as nat),
                        ));
                        lemma_prepend_prepend(
                            pre,
                            seq![m],
                            parse_results_to_end(v@, cur as int, depth as nat),
                        );
                    }
                } else {
                    return Step::Bad(j);
                }
            },
        }
    }
}

/// Parses the payload of an async or result record after its class word,
/// as [`parse_record_results`] describes.
pub(crate) fn parse_record_results_exec(v: &Vec<char>, i: usize) -> (r: Step<
    Vec<crate::ast::Result>,
>)
    requires
        i <= v@.len(),
    ensures
        match parse_record_results(v@, i as int) {
            SeqParse::Good(ms, j) => r matches Step::Good(rs, jj) && results_model(rs@) == ms
                && jj == j,
            SeqParse::Bad(c) => r matches Step::Bad(cc) && cc == c,
        },
{
    if i >= v.len() {
        return Step::Good(Vec::new(), v.len());
    }
    if v[i] == ',' {
        parse_results_to_end_exec(v, i + 1, MAX_DEPTH)
    } else {
        Step::Bad(i)
    }
}

} // verus!
