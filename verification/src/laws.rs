//! Session-level laws: how batches relate across chunk boundaries and
//! across parser lifetimes.

use vstd::prelude::*;
use crate::ast::OutputModel;
use crate::grammar::output_of_line;
use crate::grammar::outputs_of_lines;
use crate::lines::complete_lines;
use crate::lines::lemma_lines_append;
use crate::lines::line_rest;
use crate::session::chunk_outputs;
use crate::session::chunk_rest;

verus! {

/// Per-line locality: each record is a function of its own line alone, in
/// place. A malformed line becomes an error record without disturbing the
/// records of the lines around it.
pub proof fn lemma_line_locality(ls: Seq<Seq<char>>, i: int)
    requires
        0 <= i < ls.len(),
    ensures
        outputs_of_lines(ls).len() == ls.len(),
        outputs_of_lines(ls)[i] == output_of_line(ls[i]),
{
}

proof fn lemma_outputs_of_lines_append(x: Seq<Seq<char>>, y: Seq<Seq<char>>)
    ensures
        outputs_of_lines(x + y) == outputs_of_lines(x) + outputs_of_lines(y),
{
    assert(outputs_of_lines(x + y) =~= outputs_of_lines(x) + outputs_of_lines(y));
}

/// Chunk-boundary invariance: cutting a chunk in two at any point — mid
/// token, mid escape, anywhere — changes neither the records produced nor
/// the fragment left buffered. Feeding `a + b` at once is the same as
/// feeding `a`, then `b`.
pub proof fn lemma_chunk_boundary_invariance(buf: Seq<char>, a: Seq<char>, b: Seq<char>)
    ensures
        chunk_outputs(buf, a + b) == chunk_outputs(buf, a) + chunk_outputs(
            chunk_rest(buf, a),
            b,
        ),
        chunk_rest(buf, a + b) == chunk_rest(chunk_rest(buf, a), b),
{
    assert(buf + (a + b) =~= (buf + a) + b);
    lemma_lines_append(buf + a, b);
    lemma_outputs_of_lines_append(
        complete_lines(buf + a),
        complete_lines(line_rest(buf + a) + b),
    );
}

/// The fragment a session still buffers after the given chunks, starting
/// from the buffered fragment `buf`.
pub open spec fn run_rest(buf: Seq<char>, chunks: Seq<Seq<char>>) -> Seq<char>
    decreases chunks.len(),
{
    if chunks.len() == 0 {
        buf
    } else {
        run_rest(chunk_rest(buf, chunks[0]), chunks.drop_first())
    }
}

/// Every record a session delivers over the given chunks, in order,
/// starting from the buffered fragment `buf`.
pub open spec fn run_outputs(buf: Seq<char>, chunks: Seq<Seq<char>>) -> Seq<OutputModel>
    decreases chunks.len(),
{
    if chunks.len() == 0 {
        Seq::empty()
    } else {
        chunk_outputs(buf, chunks[0]) + run_outputs(
            chunk_rest(buf, chunks[0]),
            chunks.drop_first(),
        )
    }
}

/// The given chunks joined back into one stream.
pub open spec fn concat_chunks(chunks: Seq<Seq<char>>) -> Seq<char>
    decreases chunks.len(),
{
    if chunks.len() == 0 {
        Seq::empty()
    } else {
        chunks[0] + concat_chunks(chunks.drop_first())
    }
}

proof fn lemma_run_flattens(buf: Seq<char>, chunks: Seq<Seq<char>>)
    requires
        forall|k: int| 0 <= k < buf.len() ==> buf[k] != '\n',
    ensures
        run_outputs(buf, chunks) == chunk_outputs(buf, concat_chunks(chunks)),
        run_rest(buf, chunks) == chunk_rest(buf, concat_chunks(chunks)),
    decreases chunks.len(),
{
    if chunks.len() == 0 {
        assert(buf + Seq::<char>::empty() =~= buf);
        crate::lines::lemma_no_nl(buf);
        assert(outputs_of_lines(Seq::<Seq<char>>::empty()) =~= Seq::<OutputModel>::empty());
    } else {
        let c0 = chunks[0];
        let rest = chunks.drop_first();
        crate::lines::lemma_line_rest_no_nl(buf + c0);
        lemma_run_flattens(chunk_rest(buf, c0), rest);
        lemma_chunk_boundary_invariance(buf, c0, concat_chunks(rest));
    }
}

/// A session owns no state but its buffered fragment, and a new session
/// starts with none: a parser destroyed and recreated on the same
/// subsequent input delivers the same records as the stream fed whole.
/// Nothing carries over between instances.
pub proof fn lemma_recreated_session_agrees(chunks: Seq<Seq<char>>)
    ensures
        run_outputs(Seq::empty(), chunks) == chunk_outputs(Seq::empty(), concat_chunks(chunks)),
        run_rest(Seq::empty(), chunks) == chunk_rest(Seq::empty(), concat_chunks(chunks)),
{
    lemma_run_flattens(Seq::empty(), chunks);
}

} // verus!
