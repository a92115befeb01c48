//! The typed document tree that one parsed MI line becomes, together with
//! the ghost model (`Seq<char>`-based) that all contracts are stated over.

use vstd::prelude::*;

verus! {

/// Outcome of feeding data to the parser.
///
/// `Okay` means every complete line of the chunk was processed (lines that
/// were themselves malformed MI are reported as [`OutputVariant::Error`]
/// records, not through this code). `Assert` and `Logic` are reserved for
/// internal invariant violations and lifecycle misuse; the verified parser
/// never produces them, but the vocabulary is kept for callers that treat
/// the three outcomes differently.
#[derive(Copy, Clone, Debug, PartialEq, Eq, Structural)]
pub enum GdbwireResult {
    Okay,
    Assert,
    Logic,
}

/// One parsed record: the raw source line and what it was recognized as.
#[derive(Clone, Debug, PartialEq)]
pub struct Output {
    pub line: String,
    pub variant: OutputVariant,
}

/// The four categories a complete MI line can fall into.
#[derive(Clone, Debug, PartialEq)]
pub enum OutputVariant {
    Oob(OobRecord),
    Result(ResultRecord),
    Error(ErrorRecord),
    Prompt,
}

/// An out-of-band record: an asynchronous event or stream text.
#[derive(Clone, Debug, PartialEq)]
pub enum OobRecord {
    Async(AsyncRecord),
    Stream(StreamRecord),
}

/// The completion record of a previously issued command.
#[derive(Clone, Debug, PartialEq)]
pub struct ResultRecord {
    /// The caller-chosen digit string before `^`, kept verbatim (it may
    /// exceed any native integer range), or `None` when the line had none.
    pub token: Option<String>,
    pub class: ResultClass,
    pub results: Vec<Result>,
}

/// The closed vocabulary of result-record classes.
#[derive(Copy, Clone, Debug, PartialEq, Eq, Structural)]
pub enum ResultClass {
    Done,
    Running,
    Connected,
    Error,
    Exit,
    Unsupported,
}

/// A recoverable per-line grammar violation: the line did not match any MI
/// production. Parsing resumes at the next line.
#[derive(Clone, Debug, PartialEq)]
pub struct ErrorRecord {
    /// The leading digit token, kept only when the line was recognized as
    /// a token-bearing record (`^`, `*`, `+` or `=`) whose payload then
    /// failed. A line matching no production carries no token.
    pub token: Option<String>,
    pub position: Position,
}

/// The column span of the first detected grammar violation, for diagnostics.
/// Columns are 0-based character indices into the line; both bounds name the
/// first offending character.
#[derive(Copy, Clone, Debug, PartialEq, Eq, Structural)]
pub struct Position {
    pub start_column: usize,
    pub end_column: usize,
}

/// An asynchronous event record (`*`, `+` or `=` line).
#[derive(Clone, Debug, PartialEq)]
pub struct AsyncRecord {
    pub kind: AsyncRecordKind,
    pub class: AsyncClass,
    pub results: Vec<Result>,
}

/// Which prefix character introduced an async record.
#[derive(Copy, Clone, Debug, PartialEq, Eq, Structural)]
pub enum AsyncRecordKind {
    /// `+`: on-going status of a slow operation.
    Status,
    /// `*`: execution state change.
    Exec,
    /// `=`: supplementary notification.
    Notify,
}

/// Stream text: the de-escaped payload of a `~`, `@` or `&` line.
#[derive(Clone, Debug, PartialEq)]
pub enum StreamRecord {
    Console(String),
    Target(String),
    Log(String),
}

/// The closed vocabulary of async event classes. Unknown class strings map
/// to `Unsupported`, never to an error, so newer debuggers stay readable.
#[derive(Copy, Clone, Debug, PartialEq, Eq, Structural)]
pub enum AsyncClass {
    Download,
    Stopped,
    Running,
    ThreadGroupAdded,
    ThreadGroupRemoved,
    ThreadGroupStarted,
    ThreadGroupExited,
    ThreadCreated,
    ThreadExited,
    ThreadSelected,
    LibraryLoaded,
    LibraryUnloaded,
    TraceFrameChanged,
    TsvCreated,
    TsvModified,
    TsvDeleted,
    BreakpointCreated,
    BreakpointModified,
    BreakpointDeleted,
    RecordStarted,
    RecordStopped,
    CmdParamChanged,
    MemoryChanged,
    Unsupported,
}

/// One named-or-positional entry of the `variable=value` grammar.
#[derive(Debug, PartialEq)]
pub struct Result {
    /// The variable name, or `None` for a bare value inside a list.
    pub key: Option<String>,
    pub value: Option<ResultType>,
}

/// A structured MI value: a de-escaped string, a tuple `{ ... }` of named
/// entries, or a list `[ ... ]` of entries. Depth is unbounded in the
/// grammar; the parser bounds it explicitly instead of trusting the native
/// stack.
#[derive(Debug, PartialEq)]
pub enum ResultType {
    String(String),
    Result(Vec<Result>),
    List(Vec<Result>),
}

// ---------------------------------------------------------------------------
// Ghost model: the mathematical shape of the same tree, over `Seq<char>`.
// ---------------------------------------------------------------------------

/// Ghost counterpart of [`Result`].
pub ghost struct ResultModel {
    pub key: Option<Seq<char>>,
    pub value: Option<ValueModel>,
}

/// Ghost counterpart of [`ResultType`].
pub ghost enum ValueModel {
    Str(Seq<char>),
    Tuple(Seq<ResultModel>),
    List(Seq<ResultModel>),
}

/// Ghost counterpart of [`AsyncRecord`].
pub ghost struct AsyncModel {
    pub kind: AsyncRecordKind,
    pub class: AsyncClass,
    pub results: Seq<ResultModel>,
}

/// Ghost counterpart of [`StreamRecord`].
pub ghost enum StreamModel {
    Console(Seq<char>),
    Target(Seq<char>),
    Log(Seq<char>),
}

/// Ghost counterpart of [`OobRecord`].
pub ghost enum OobModel {
    Async(AsyncModel),
    Stream(StreamModel),
}

/// Ghost counterpart of [`ResultRecord`].
pub ghost struct ResultRecordModel {
    pub token: Option<Seq<char>>,
    pub class: ResultClass,
    pub results: Seq<ResultModel>,
}

/// Ghost counterpart of [`ErrorRecord`].
pub ghost struct ErrorModel {
    pub token: Option<Seq<char>>,
    pub position: Position,
}

/// Ghost counterpart of [`OutputVariant`].
pub ghost enum VariantModel {
    Oob(OobModel),
    Result(ResultRecordModel),
    Error(ErrorModel),
    Prompt,
}

/// Ghost counterpart of [`Output`].
pub ghost struct OutputModel {
    pub line: Seq<char>,
    pub variant: VariantModel,
}

// ---------------------------------------------------------------------------
// Views from the executable tree into the ghost model.
// ---------------------------------------------------------------------------

/// Ghost model of one executable [`Result`].
pub open spec fn result_model(r: Result) -> ResultModel
    decreases r,
{
    ResultModel {
        key: match r.key {
            Option::Some(k) => Option::Some(k@),
            Option::None => Option::None,
        },
        value: match r.value {
            Option::Some(v) => Option::Some(value_model(v)),
            Option::None => Option::None,
        },
    }
}

/// Ghost model of one executable [`ResultType`].
pub open spec fn value_model(v: ResultType) -> ValueModel
    decreases v,
{
    match v {
        ResultType::String(s) => ValueModel::Str(s@),
        ResultType::Result(rs) => ValueModel::Tuple(results_model(rs@)),
        ResultType::List(rs) => ValueModel::List(results_model(rs@)),
    }
}

/// Ghost model of a sequence of executable [`Result`]s, element-wise.
pub open spec fn results_model(rs: Seq<Result>) -> Seq<ResultModel>
    decreases rs,
{
    if rs.len() == 0 {
        Seq::empty()
    } else {
        seq![result_model(rs[0])] + results_model(rs.drop_first())
    }
}

/// `results_model` is the element-wise image of `result_model`.
pub proof fn lemma_results_model_index(rs: Seq<Result>)
    ensures
        results_model(rs).len() == rs.len(),
        forall|i: int|
            0 <= i < rs.len() ==> #[trigger] results_model(rs)[i] == result_model(rs[i]),
    decreases rs.len(),
{
    if rs.len() > 0 {
        lemma_results_model_index(rs.drop_first());
    }
}

/// Appending one entry appends its model.
pub proof fn lemma_results_model_push(rs: Seq<Result>, r: Result)
    ensures
        results_model(rs.push(r)) == results_model(rs) + seq![result_model(r)],
    decreases rs.len(),
{
    if rs.len() == 0 {
        assert(rs.push(r).drop_first() =~= Seq::<Result>::empty());
        assert(rs.push(r)[0] == r);
        assert(results_model(rs.push(r)) == seq![result_model(r)] + results_model(
            rs.push(r).drop_first(),
        ));
        assert(results_model(rs.push(r)) =~= results_model(rs) + seq![result_model(r)]);
    } else {
        assert(rs.push(r).drop_first() =~= rs.drop_first().push(r));
        lemma_results_model_push(rs.drop_first(), r);
        assert(rs.push(r)[0] == rs[0]);
        assert(results_model(rs.push(r)) == seq![result_model(rs[0])] + results_model(
            rs.drop_first().push(r),
        ));
        assert(seq![result_model(rs[0])] + (results_model(rs.drop_first()) + seq![result_model(r)])
            =~= (seq![result_model(rs[0])] + results_model(rs.drop_first())) + seq![
            result_model(r),
        ]);
        assert(results_model(rs.push(r)) =~= results_model(rs) + seq![result_model(r)]);
    }
}

impl View for Result {
    type V = ResultModel;

    open spec fn view(&self) -> ResultModel {
        result_model(*self)
    }
}

// `derive(Clone)` on this mutually recursive pair is refused by the
// verifier (a cycle through the generated impls), so the deep copy is
// written out, with the model preserved.
impl Clone for Result {
    /// A deep copy with the same model.
    fn clone(&self) -> (r: Self)
        ensures
            r@ == self@,
        decreases *self,
    {
        let key = match &self.key {
            Option::Some(k) => Option::Some(k.clone()),
            Option::None => Option::None,
        };
        let value = match &self.value {
            Option::Some(v) => Option::Some(v.clone()),
            Option::None => Option::None,
        };
        Result { key, value }
    }
}

impl Clone for ResultType {
    /// A deep copy with the same model.
    fn clone(&self) -> (r: Self)
        ensures
            r@ == self@,
        decreases *self,
    {
        match self {
            ResultType::String(s) => ResultType::String(s.clone()),
            ResultType::Result(rs) => ResultType::Result(clone_results(rs)),
            ResultType::List(rs) => ResultType::List(clone_results(rs)),
        }
    }
}

/// Deep-copies a sequence of entries, preserving its model.
fn clone_results(rs: &Vec<Result>) -> (out: Vec<Result>)
    ensures
        results_model(out@) == results_model(rs@),
    decreases *rs,
{
    let mut out: Vec<Result> = Vec::new();
    let mut idx: usize = 0;
    while idx < rs.len()
        invariant
            idx <= rs@.len(),
            results_model(out@) == results_model(rs@.subrange(0, idx as int)),
        decreases rs@.len() - idx,
    {
        let ghost out_pre = out@;
        out.push(rs[idx].clone());
        idx = idx + 1;
        proof {
            lemma_results_model_push(out_pre, out@.last());
            lemma_results_model_push(rs@.subrange(0, idx - 1), rs@[idx - 1]);
            assert(rs@.subrange(0, idx - 1).push(rs@[idx - 1]) =~= rs@.subrange(0, idx as int));
            assert(results_model(out@) =~= results_model(rs@.subrange(0, idx as int)));
        }
    }
    proof {
        assert(rs@.subrange(0, rs@.len() as int) =~= rs@);
    }
    out
}

impl View for ResultType {
    type V = ValueModel;

    open spec fn view(&self) -> ValueModel {
        value_model(*self)
    }
}

impl View for AsyncRecord {
    type V = AsyncModel;

    open spec fn view(&self) -> AsyncModel {
        AsyncModel {
            kind: self.kind,
            class: self.class,
            results: results_model(self.results@),
        }
    }
}

impl View for StreamRecord {
    type V = StreamModel;

    open spec fn view(&self) -> StreamModel {
        match *self {
            StreamRecord::Console(s) => StreamModel::Console(s@),
            StreamRecord::Target(s) => StreamModel::Target(s@),
            StreamRecord::Log(s) => StreamModel::Log(s@),
        }
    }
}

impl View for OobRecord {
    type V = OobModel;

    open spec fn view(&self) -> OobModel {
        match *self {
            OobRecord::Async(a) => OobModel::Async(a@),
            OobRecord::Stream(s) => OobModel::Stream(s@),
        }
    }
}

impl View for ResultRecord {
    type V = ResultRecordModel;

    open spec fn view(&self) -> ResultRecordModel {
        ResultRecordModel {
            token: match self.token {
                Option::Some(t) => Option::Some(t@),
                Option::None => Option::None,
            },
            class: self.class,
            results: results_model(self.results@),
        }
    }
}

impl View for ErrorRecord {
    type V = ErrorModel;

    open spec fn view(&self) -> ErrorModel {
        ErrorModel {
            token: match self.token {
                Option::Some(t) => Option::Some(t@),
                Option::None => Option::None,
            },
            position: self.position,
        }
    }
}

impl View for OutputVariant {
    type V = VariantModel;

    open spec fn view(&self) -> VariantModel {
        match *self {
            OutputVariant::Oob(r) => VariantModel::Oob(r@),
            OutputVariant::Result(r) => VariantModel::Result(r@),
            OutputVariant::Error(r) => VariantModel::Error(r@),
            OutputVariant::Prompt => VariantModel::Prompt,
        }
    }
}

impl View for Output {
    type V = OutputModel;

    open spec fn view(&self) -> OutputModel {
        OutputModel { line: self.line@, variant: self.variant@ }
    }
}

/// Ghost model of a batch of outputs, element-wise.
pub open spec fn outputs_model(os: Seq<Output>) -> Seq<OutputModel> {
    os.map_values(|o: Output| o@)
}

} // verus!
