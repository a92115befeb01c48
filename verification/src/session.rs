//! The session layer: buffering of partial lines across calls, batch
//! assembly, and the [`Parser`] handle that delivers each batch to its
//! registered callback.

use vstd::prelude::*;
use crate::ast::outputs_model;
use crate::ast::GdbwireResult;
use crate::ast::Output;
use crate::ast::OutputModel;
use crate::classify::parse_output_line;
use crate::grammar::output_of_line;
use crate::grammar::outputs_of_lines;
use crate::lines::complete_lines;
use crate::lines::find_nl;
use crate::lines::lemma_find_nl;
use crate::lines::lemma_find_nl_shift;
use crate::lines::lemma_no_nl;
use crate::lines::line_rest;
use crate::scan::copy_chars;
use crate::scan::find_nl_exec;
use crate::scan::str_to_chars;

verus! {

/// The records produced when `data` arrives while `buf` is buffered: one
/// per line that the arrival completes, in input order.
pub open spec fn chunk_outputs(buf: Seq<char>, data: Seq<char>) -> Seq<OutputModel> {
    outputs_of_lines(complete_lines(buf + data))
}

/// The unterminated fragment left buffered after `data` arrives while
/// `buf` is buffered.
pub open spec fn chunk_rest(buf: Seq<char>, data: Seq<char>) -> Seq<char> {
    line_rest(buf + data)
}

/// Feeds one chunk into the buffered fragment: every line the chunk
/// completes becomes one record of the returned batch, in order, and the
/// buffer keeps exactly the trailing unterminated fragment.
pub fn parse_chunk(pending: &mut Vec<char>, data: &str) -> (batch: Vec<Output>)
    ensures
        final(pending)@ == chunk_rest(old(pending)@, data@),
        outputs_model(batch@) == chunk_outputs(old(pending)@, data@),
{
    let mut tail = str_to_chars(data);
    pending.append(&mut tail);
    let ghost total = pending@;
    proof {
        assert(total == old(pending)@ + data@);
    }
    let mut batch: Vec<Output> = Vec::new();
    let mut start: usize = 0;
    let ghost mut done: Seq<Seq<char>> = Seq::empty();
    proof {
        assert(total.subrange(0, total.len() as int) =~= total);
        assert(complete_lines(total) =~= done + complete_lines(
            total.subrange(0, total.len() as int),
        ));
        assert(outputs_model(batch@) =~= outputs_of_lines(done));
    }
    loop
        invariant
            total == old(pending)@ + data@,
            start <= pending@.len(),
            pending@ == total,
            complete_lines(total) == done + complete_lines(
                total.subrange(start as int, total.len() as int),
            ),
            line_rest(total) == line_rest(total.subrange(start as int, total.len() as int)),
            outputs_model(batch@) == outputs_of_lines(done),
        decreases pending@.len() - start,
    {
        let ghost suffix = total.subrange(start as int, total.len() as int);
        let n = pending.len();
        let nl = find_nl_exec(pending, start);
        if nl == n {
            proof {
                lemma_find_nl_shift(total, start as int);
                lemma_find_nl(suffix, 0);
                lemma_no_nl(suffix);
                assert(done + complete_lines(suffix) =~= done);
            }
            let rest = copy_chars(pending, start, n);
            *pending = rest;
            return batch;
        }
        let line = copy_chars(pending, start, nl);
        let out = parse_output_line(&line);
        let ghost pre_batch = batch@;
        batch.push(out);
        proof {
            lemma_find_nl_shift(total, start as int);
            // the suffix opens with the line just parsed
            assert(find_nl(suffix, 0) == nl - start);
            assert(suffix.subrange(0, nl - start as int) =~= line@);
            let next = total.subrange(nl + 1 as int, total.len() as int);
            assert(suffix.subrange(nl - start + 1 as int, suffix.len() as int) =~= next);
            assert(complete_lines(suffix) == seq![line@] + complete_lines(next));
            assert(line_rest(suffix) == line_rest(next));
            // book-keeping: fold the line into `done`
            assert(outputs_model(batch@) =~= outputs_model(pre_batch) + seq![out@]);
            done = done + seq![line@];
            assert(outputs_of_lines(done) =~= outputs_of_lines(done.drop_last()) + seq![
                output_of_line(line@),
            ]);
            assert(complete_lines(total) =~= done + complete_lines(next));
        }
        start = nl + 1;
    }
}

/// An incremental MI session parser.
///
/// A parser owns the line-reassembly buffer and the callback registered at
/// construction. Each [`Parser::push`] processes every line the chunk
/// completes and hands the resulting non-empty batch to the callback
/// before returning; a trailing unterminated fragment is kept for the next
/// call. Dropping the parser discards any buffered fragment without
/// producing a record. A parser must not be fed again from inside its own
/// callback; Rust's borrow rules already make that impossible here.
pub struct Parser<F> where F: Fn(Vec<Output>) {
    pending: Vec<char>,
    callback: F,
}

impl<F> View for Parser<F> where F: Fn(Vec<Output>) {
    type V = Seq<char>;

    /// A parser is modelled by its buffered fragment.
    closed spec fn view(&self) -> Seq<char> {
        self.pending@
    }
}

impl<F> Parser<F> where F: Fn(Vec<Output>) {
    /// The registered callback accepts every non-empty batch (it is never
    /// invoked with an empty one).
    pub closed spec fn wf(&self) -> bool {
        forall|batch: Vec<Output>| batch@.len() > 0 ==> #[trigger] self.callback.requires(
            (batch,),
        )
    }

    /// The batch `batch` is an accepted call of the registered callback:
    /// it was handed over and the callback completed on it.
    pub closed spec fn delivered(&self, batch: Vec<Output>) -> bool {
        self.callback.ensures((batch,), ())
    }

    /// Creates a parser with an empty buffer that will deliver batches to
    /// `callback`.
    pub fn new(callback: F) -> (p: Parser<F>)
        requires
            forall|batch: Vec<Output>| batch@.len() > 0 ==> #[trigger] callback.requires(
                (batch,),
            ),
        ensures
            p.wf(),
            p@ == Seq::<char>::empty(),
            forall|batch: Vec<Output>| #[trigger] p.delivered(batch) == callback.ensures(
                (batch,),
                (),
            ),
    {
        Parser { pending: Vec::new(), callback }
    }

    /// Feeds one chunk. Every line the chunk completes is parsed, and the
    /// records are handed to the callback as one ordered batch, before
    /// `push` returns; no batch is delivered when no line was completed.
    /// The contract says so: whenever the chunk completes at least one
    /// line, some batch holding exactly
    /// [`chunk_outputs`]`(old(self)@, data@)` was accepted by the
    /// registered callback. The trailing unterminated fragment stays
    /// buffered, and processing always succeeds: malformed lines become
    /// error records, not failures.
    pub fn push(&mut self, data: &str) -> (r: GdbwireResult)
        requires
            old(self).wf(),
        ensures
            final(self).wf(),
            final(self)@ == chunk_rest(old(self)@, data@),
            r == GdbwireResult::Okay,
            chunk_outputs(old(self)@, data@).len() > 0 ==> exists|batch: Vec<Output>|
                #[trigger] old(self).delivered(batch) && outputs_model(batch@) == chunk_outputs(
                    old(self)@,
                    data@,
                ),
            forall|batch: Vec<Output>| #[trigger] final(self).delivered(batch) == old(
                self,
            ).delivered(batch),
    {
        let batch = parse_chunk(&mut self.pending, data);
        let ghost gb = batch;
        proof {
            assert(outputs_model(batch@).len() == batch@.len());
        }
        if batch.len() > 0 {
            (self.callback)(batch);
            proof {
                assert(old(self).delivered(gb));
                assert(outputs_model(gb@) == chunk_outputs(old(self)@, data@));
            }
        }
        GdbwireResult::Okay
    }
}

} // verus!
