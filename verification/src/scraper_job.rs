//! Scraping jobs and their declarative parameter spaces.
//!
//! A parameter spec generates a finite, ordered, restartable sequence of
//! string values, each applied to a request either as a named query pair
//! or as a literal path suffix. The sequence is a pure function of the
//! spec, and its length is known before iteration begins.

use vstd::prelude::*;
use vstd::arithmetic::div_mod::{lemma_basic_div, lemma_div_plus_one};
use crate::auth::AuthJob;
use crate::decimal::spec_decimal;
use crate::decimal::u16_to_string;
use crate::errors::ProcessorError;
use crate::parser::{
    FinishedProcessingResult, NextProcessingStep, ProcessingResult, ProcessingResultUnit,
    ProcessingStep, ResultUnitView, check_pattern, check_selector, pattern_ok, selector_ok,
    spec_next_steps, step_outcome,
};
use crate::response_adaptor::Resp;
use crate::storage::Storage;
use crate::response_adaptor::RespAdaptMarker;
use crate::url_parts::{UrlParts, UrlView};

verus! {

#[derive(Debug, Clone, Copy, PartialEq, Eq, Structural)]
pub enum HTTPMethod {
    GET,
    POST,
}

/// How a dynamic value is applied to a request: as a named query pair, or
/// concatenated onto the path after a literal suffix.
#[derive(Debug, Clone)]
pub enum HTTPParameterType {
    Name(String),
    Suffix(String),
}

/// The shape of a parameter target: `true` for a path suffix, `false` for
/// a named query pair, beside the name or suffix literal.
pub open spec fn spec_target(t: HTTPParameterType) -> (bool, Seq<char>) {
    match t {
        HTTPParameterType::Name(s) => (false, s@),
        HTTPParameterType::Suffix(s) => (true, s@),
    }
}

impl HTTPParameterType {
    /// An exact copy.
    pub fn duplicate(&self) -> (r: HTTPParameterType)
        ensures
            spec_target(r) == spec_target(*self),
    {
        match self {
            HTTPParameterType::Name(s) => HTTPParameterType::Name(s.clone()),
            HTTPParameterType::Suffix(s) => HTTPParameterType::Suffix(s.clone()),
        }
    }
}

/// A declarative generator of a finite ordered value sequence: an
/// inclusive arithmetic range rendered in decimal, or a literal word list.
#[derive(Debug, Clone)]
pub enum DynamicParameters {
    IntRange { name: HTTPParameterType, start: u16, end: u16, step: u16 },
    KeyWords { name: HTTPParameterType, words: Vec<String> },
}

/// The decimal renderings of `cur, cur + step, ...` while the value stays
/// at most `end`. Empty for a step below one.
pub open spec fn range_values_from(cur: int, end: int, step: int) -> Seq<Seq<char>>
    decreases (if cur <= end { end + 1 - cur } else { 0 }),
{
    if step < 1 || cur < 0 || cur > end {
        Seq::empty()
    } else {
        seq![spec_decimal(cur as nat)] + range_values_from(cur + step, end, step)
    }
}

/// The full ordered value sequence a parameter spec generates. An integer
/// range with step zero generates nothing: it is rejected as a
/// configuration error before iteration.
pub open spec fn spec_values(d: DynamicParameters) -> Seq<Seq<char>> {
    match d {
        DynamicParameters::IntRange { start, end, step, .. } => range_values_from(
            start as int,
            end as int,
            step as int,
        ),
        DynamicParameters::KeyWords { words, .. } => words.deep_view(),
    }
}

/// The target a parameter spec applies its values to.
pub open spec fn spec_values_target(d: DynamicParameters) -> (bool, Seq<char>) {
    match d {
        DynamicParameters::IntRange { name, .. } => spec_target(name),
        DynamicParameters::KeyWords { name, .. } => spec_target(name),
    }
}

/// The value sequence of an integer range with a positive step is exactly
/// the decimal rendering of the arithmetic sequence `start, start + step,
/// ...` of every value at most `end`, and its length is
/// `(end - start) / step + 1` (zero for an empty range).
pub proof fn lemma_int_range_values(start: int, end: int, step: int)
    requires
        1 <= step,
        0 <= start,
    ensures
        start > end ==> range_values_from(start, end, step).len() == 0,
        start <= end ==> range_values_from(start, end, step).len() == (end - start) / step + 1,
        forall|i: int| 0 <= i < range_values_from(start, end, step).len() ==> {
            &&& #[trigger] range_values_from(start, end, step)[i] == spec_decimal(
                (start + i * step) as nat,
            )
            &&& start + i * step <= end
        },
    decreases (if start <= end { end + 1 - start } else { 0 }),
{
    if start <= end {
        lemma_int_range_values(start + step, end, step);
        let whole = range_values_from(start, end, step);
        let rest = range_values_from(start + step, end, step);
        if start + step <= end {
            lemma_div_plus_one(end - start - step, step);
            assert((end - start) / step + 1 == rest.len() + 1);
        } else {
            lemma_basic_div(end - start, step);
        }
        assert forall|i: int| 0 <= i < whole.len() implies {
            &&& #[trigger] whole[i] == spec_decimal((start + i * step) as nat)
            &&& start + i * step <= end
        } by {
            if i > 0 {
                assert(rest[i - 1] == spec_decimal((start + step + (i - 1) * step) as nat));
                assert(start + step + (i - 1) * step == start + i * step) by (nonlinear_arith);
            } else {
                assert(start + 0 * step == start) by (nonlinear_arith);
            }
        }
    }
}

/// Two independent materializations of one parameter spec agree: the
/// generated sequence is a pure function of the spec.
pub proof fn lemma_params_idempotent(d: DynamicParameters, s1: Seq<Seq<char>>, s2: Seq<Seq<char>>)
    requires
        s1 == spec_values(d),
        s2 == spec_values(d),
    ensures
        s1 == s2,
{
}

enum IterState {
    Range { cur: u32, end: u16, step: u16 },
    Words { words: Vec<String>, position: usize },
}

/// A lazy cursor over the value sequence of one parameter spec. Its view
/// is the sequence of values not yet yielded.
pub struct DynParamsIterator {
    name: HTTPParameterType,
    state: IterState,
}

impl View for DynParamsIterator {
    type V = Seq<Seq<char>>;

    closed spec fn view(&self) -> Seq<Seq<char>> {
        match self.state {
            IterState::Range { cur, end, step } => range_values_from(
                cur as int,
                end as int,
                step as int,
            ),
            IterState::Words { words, position } => if position <= words.len() {
                words.deep_view().skip(position as int)
            } else {
                Seq::empty()
            },
        }
    }
}

impl DynParamsIterator {
    /// The cursor's internal consistency, established by `new` and kept by
    /// every method.
    pub closed spec fn wf(&self) -> bool {
        match self.state {
            IterState::Range { step, .. } => 1 <= step,
            IterState::Words { words, position } => position <= words.len(),
        }
    }

    /// The target the values are applied to.
    pub closed spec fn target_view(&self) -> (bool, Seq<char>) {
        spec_target(self.name)
    }

    /// Builds the cursor for a parameter spec, positioned on the first
    /// value; rejects an integer range whose step is zero, which could
    /// generate no finite sequence.
    pub fn new(dyn_params: &DynamicParameters) -> (r: Result<DynParamsIterator, ProcessorError>)
        ensures
            r matches Ok(it) ==> {
                &&& it.wf()
                &&& it@ == spec_values(*dyn_params)
                &&& it.target_view() == spec_values_target(*dyn_params)
            },
            r is Err <==> *dyn_params matches DynamicParameters::IntRange { step: 0, .. },
            r matches Err(e) ==> e matches ProcessorError::ConfigError(_),
    {
        match dyn_params {
            DynamicParameters::IntRange { name, start, end, step } => {
                if *step == 0 {
                    Err(ProcessorError::ConfigError("integer range with step zero".to_owned()))
                } else {
                    Ok(DynParamsIterator {
                        name: name.duplicate(),
                        state: IterState::Range { cur: *start as u32, end: *end, step: *step },
                    })
                }
            },
            DynamicParameters::KeyWords { name, words } => {
                let mut copied: Vec<String> = Vec::new();
                let mut i: usize = 0;
                while i < words.len()
                    invariant
                        i <= words.len(),
                        copied.deep_view() =~~= words.deep_view().subrange(0, i as int),
                    decreases words.len() - i,
                {
                    copied.push(words[i].clone());
                    i += 1;
                    proof {
                        assert(copied.deep_view() =~~= words.deep_view().subrange(0, i as int));
                    }
                }
                let it = DynParamsIterator {
                    name: name.duplicate(),
                    state: IterState::Words { words: copied, position: 0 },
                };
                proof {
                    assert(it@ =~~= spec_values(*dyn_params));
                }
                Ok(it)
            },
        }
    }

    /// How many values remain, known without iterating.
    pub fn len(&self) -> (r: usize)
        requires
            self.wf(),
        ensures
            r == self@.len(),
    {
        match &self.state {
            IterState::Range { cur, end, step } => {
                proof {
                    lemma_int_range_values(*cur as int, *end as int, *step as int);
                }
                if *cur > *end as u32 {
                    0
                } else {
                    let diff: u32 = *end as u32 - *cur;
                    ((diff / (*step as u32)) + 1) as usize
                }
            },
            IterState::Words { words, position } => words.len() - *position,
        }
    }

    /// Whether nothing remains.
    pub fn is_empty(&self) -> (r: bool)
        requires
            self.wf(),
        ensures
            r == (self@.len() == 0),
    {
        self.len() == 0
    }

    /// Yields the next value, or nothing once the sequence is exhausted.
    pub fn next(&mut self) -> (r: Option<String>)
        requires
            old(self).wf(),
        ensures
            final(self).wf(),
            final(self).target_view() == old(self).target_view(),
            old(self)@.len() == 0 ==> r is None && final(self)@ == old(self)@,
            old(self)@.len() > 0 ==> {
                &&& r matches Some(v) && v@ == old(self)@[0]
                &&& final(self)@ == old(self)@.drop_first()
            },
    {
        match &mut self.state {
            IterState::Range { cur, end, step } => {
                if *cur <= *end as u32 {
                    let value = u16_to_string(*cur as u16);
                    *cur = *cur + *step as u32;
                    proof {
                        assert(self@ =~~= old(self)@.drop_first());
                    }
                    Some(value)
                } else {
                    None
                }
            },
            IterState::Words { words, position } => {
                if *position < words.len() {
                    let w = words[*position].clone();
                    *position = *position + 1;
                    proof {
                        assert(self@ =~~= old(self)@.drop_first());
                    }
                    Some(w)
                } else {
                    None
                }
            },
        }
    }

    /// The target the values are applied to.
    pub fn target(&self) -> (r: &HTTPParameterType)
        ensures
            spec_target(*r) == self.target_view(),
    {
        &self.name
    }
}


/// A configured scraping unit: default query parameters, an optional
/// parameter space, the headers its transport is built with, and what is
/// done with each materialization of a response. The first target is the
/// primary: the one materialization actually fetched; every further
/// target is derived in process from the primary's bytes.
///
/// `default_parameters` is an ordered key-value list. The configuration
/// document's map shape keeps its keys unique, so duplicates cannot
/// arise from loading; the engine appends the pairs exactly as held,
/// in order.
#[derive(Debug)]
pub struct ScraperJob {
    pub default_parameters: Vec<(String, String)>,
    pub dynamic_parameters: Option<DynamicParameters>,
    pub headers: Vec<(String, String)>,
    pub targets: Vec<(RespAdaptMarker, Vec<NextProcessingStep>)>,
}

/// A job as configuration declares it, before its authentication chain
/// has run.
#[derive(Debug)]
pub struct PlainScraperJob {
    pub default_parameters: Vec<(String, String)>,
    pub dynamic_parameters: Option<DynamicParameters>,
    pub authentication: Option<AuthJob>,
    pub headers: Vec<(String, String)>,
    pub targets: Vec<(RespAdaptMarker, Vec<NextProcessingStep>)>,
}

impl ScraperJob {
    /// Splits a declared job into the job proper and its authentication
    /// chain, which must have run before the job is scheduled; everything
    /// else is carried over unchanged.
    pub fn from_plain(plain: PlainScraperJob) -> (r: (ScraperJob, Option<AuthJob>))
        ensures
            r.0.default_parameters == plain.default_parameters,
            r.0.dynamic_parameters == plain.dynamic_parameters,
            r.0.headers == plain.headers,
            r.0.targets == plain.targets,
            r.1 == plain.authentication,
    {
        let job = ScraperJob {
            default_parameters: plain.default_parameters,
            dynamic_parameters: plain.dynamic_parameters,
            headers: plain.headers,
            targets: plain.targets,
        };
        (job, plain.authentication)
    }

    /// The base URL with every default parameter appended as a query
    /// pair, exactly as held and in order (the configuration's map shape
    /// keeps the keys unique); nothing else changes.
    pub fn new_url_with_defaults(&self, url: &UrlParts) -> (r: UrlParts)
        ensures
            r@.0 == url@.0,
            r@.1 == url@.1,
            r@.2 == url@.2 + self.default_parameters.deep_view(),
    {
        let mut new_url = url.duplicate();
        new_url.append_query_pairs(&self.default_parameters);
        new_url
    }
}


// ---------------------------------------------------------------------
// Dispatching responses and extracted values
// ---------------------------------------------------------------------

/// One new unit of work a dispatched value asks for: fetch this URL as a
/// fresh instance of this job, sharing the originating job's transport
/// handle.
pub struct SpawnRequest<'a> {
    pub job: &'a ScraperJob,
    pub url: UrlParts,
}

/// What routing one extracted value produced: the units to spawn, and the
/// branch-local failures swallowed so sibling branches proceed.
pub struct UnitDispatch<'a> {
    pub spawns: Vec<SpawnRequest<'a>>,
    pub errors: Vec<ProcessorError>,
}

/// What handling one materialized response produced: the sinks to hand
/// the bytes to, the units to spawn, and the branch-local failures.
pub struct ResponseDispatch<'a> {
    pub stores: Vec<&'a Storage>,
    pub spawns: Vec<SpawnRequest<'a>>,
    pub errors: Vec<ProcessorError>,
}

/// Every job a fetch-further continuation anywhere in this tree would
/// spawn.
pub open spec fn spec_scrape_jobs(step: NextProcessingStep) -> Seq<ScraperJob>
    decreases step,
{
    match step {
        NextProcessingStep::Scrape(job) => seq![job],
        NextProcessingStep::Store(_) => Seq::empty(),
        NextProcessingStep::Process(proc) => match proc {
            ProcessingStep::Html { next_steps, .. } => spec_scrape_jobs_list(next_steps@),
            ProcessingStep::Regex { next_steps, .. } => spec_scrape_jobs_list(next_steps@),
            ProcessingStep::JSON { next_steps, .. } => spec_scrape_jobs_list(next_steps@),
        },
    }
}

/// Every job any continuation in this list would spawn.
pub open spec fn spec_scrape_jobs_list(steps: Seq<NextProcessingStep>) -> Seq<ScraperJob>
    decreases steps,
{
    if steps.len() == 0 {
        Seq::empty()
    } else {
        spec_scrape_jobs(steps[0]) + spec_scrape_jobs_list(steps.drop_first())
    }
}

/// Membership in one list entry's tree lifts to the whole list.
proof fn lemma_list_contains(steps: Seq<NextProcessingStep>, k: int, x: ScraperJob)
    requires
        0 <= k < steps.len(),
        spec_scrape_jobs(steps[k]).contains(x),
    ensures
        spec_scrape_jobs_list(steps).contains(x),
    decreases steps.len(),
{
    if k == 0 {
        let i = choose|i: int| 0 <= i < spec_scrape_jobs(steps[0]).len()
            && spec_scrape_jobs(steps[0])[i] == x;
        assert(spec_scrape_jobs_list(steps)[i] == x);
    } else {
        lemma_list_contains(steps.drop_first(), k - 1, x);
        let i = choose|i: int| 0 <= i < spec_scrape_jobs_list(steps.drop_first()).len()
            && spec_scrape_jobs_list(steps.drop_first())[i] == x;
        assert(spec_scrape_jobs_list(steps)[spec_scrape_jobs(steps[0]).len() + i] == x);
    }
}

/// Every spawn in the list asks for a job some fetch-further continuation
/// of this tree names.
pub open spec fn spawns_from<'a>(spawns: Seq<SpawnRequest<'a>>, step: NextProcessingStep) -> bool {
    forall|i: int| #![trigger spawns[i]] 0 <= i < spawns.len() ==> spec_scrape_jobs(
        step,
    ).contains(*spawns[i].job)
}

// ---------------------------------------------------------------------
// The dispatch relation
// ---------------------------------------------------------------------

/// The spawns and recorded branch failures one routing yields, or the
/// fatal pairing error that aborts it: each spawn as the job spawned and
/// the URL it is aimed at.
pub type UnitOutcome = Result<(Seq<(ScraperJob, UrlView)>, Seq<ProcessorError>), ProcessorError>;

/// The stores, spawns and recorded branch failures handling one response
/// yields, or the fatal pairing error that aborts it.
pub type ResponseOutcome = Result<
    (Seq<Storage>, Seq<(ScraperJob, UrlView)>, Seq<ProcessorError>),
    ProcessorError,
>;

/// The spawn requests as plain values.
pub open spec fn spawn_views<'a>(spawns: Seq<SpawnRequest<'a>>) -> Seq<(ScraperJob, UrlView)> {
    Seq::new(spawns.len(), |i: int| (*spawns[i].job, spawns[i].url@))
}

/// The store references as plain values.
pub open spec fn store_views<'a>(stores: Seq<&'a Storage>) -> Seq<Storage> {
    Seq::new(stores.len(), |i: int| *stores[i])
}

/// A unit-dispatch result as plain values.
pub open spec fn unit_outcome_of<'a>(r: Result<UnitDispatch<'a>, ProcessorError>) -> UnitOutcome {
    match r {
        Ok(o) => Ok((spawn_views(o.spawns@), o.errors@)),
        Err(e) => Err(e),
    }
}

/// A response-dispatch result as plain values.
pub open spec fn response_outcome_of<'a>(
    r: Result<ResponseDispatch<'a>, ProcessorError>,
) -> ResponseOutcome {
    match r {
        Ok(o) => Ok((store_views(o.stores@), spawn_views(o.spawns@), o.errors@)),
        Err(e) => Err(e),
    }
}

/// `rest` with spawns and errors prefixed; a fatal error swallows them.
pub open spec fn route_combine(
    s: Seq<(ScraperJob, UrlView)>,
    e: Seq<ProcessorError>,
    rest: UnitOutcome,
) -> UnitOutcome {
    match rest {
        Err(x) => Err(x),
        Ok((s2, e2)) => Ok((s + s2, e + e2)),
    }
}

/// `rest` after `first`: a fatal first outcome aborts, otherwise its
/// spawns and errors come first.
pub open spec fn unit_then(first: UnitOutcome, rest: UnitOutcome) -> UnitOutcome {
    match first {
        Err(x) => Err(x),
        Ok((s1, e1)) => route_combine(s1, e1, rest),
    }
}

/// `rest` with stores, spawns and errors prefixed.
pub open spec fn response_combine(
    st: Seq<Storage>,
    s: Seq<(ScraperJob, UrlView)>,
    e: Seq<ProcessorError>,
    rest: ResponseOutcome,
) -> ResponseOutcome {
    match rest {
        Err(x) => Err(x),
        Ok((st2, s2, e2)) => Ok((st + st2, s + s2, e + e2)),
    }
}

/// `rest` after `first`, at the response level.
pub open spec fn response_then(first: ResponseOutcome, rest: ResponseOutcome) -> ResponseOutcome {
    match first {
        Err(x) => Err(x),
        Ok((st1, s1, e1)) => response_combine(st1, s1, e1, rest),
    }
}

/// Whether `res` is an outcome routing one extracted value into one
/// continuation owes. A URL paired with a fetch-further continuation
/// spawns exactly that job at that URL. A string paired with an
/// extract-again continuation runs the inner strategy: an extraction
/// failure is recorded and the branch skipped; otherwise every emitted
/// value is routed into every inner continuation, in value order. Any
/// other pairing is fatal.
pub open spec fn unit_route_rel(
    u: ResultUnitView,
    step: NextProcessingStep,
    res: UnitOutcome,
) -> bool
    decreases step, 2int, 0int,
{
    match step {
        NextProcessingStep::Scrape(job) => match u {
            ResultUnitView::URL(uv) => res == Ok::<_, ProcessorError>(
                (seq![(job, uv)], Seq::<ProcessorError>::empty()),
            ),
            _ => res matches Err(e) && e matches ProcessorError::PairingError(_),
        },
        NextProcessingStep::Process(proc) => match u {
            ResultUnitView::Str(t) => exists|pr: ProcessingResult| {
                &&& #[trigger] step_outcome(pr, proc, t)
                &&& match pr {
                    Err(e) => res == Ok::<_, ProcessorError>(
                        (Seq::<(ScraperJob, UrlView)>::empty(), seq![e]),
                    ),
                    Ok(FinishedProcessingResult::NothingRequired) => res == Ok::<
                        _,
                        ProcessorError,
                    >((Seq::<(ScraperJob, UrlView)>::empty(), Seq::<ProcessorError>::empty())),
                    Ok(FinishedProcessingResult::VectorResult(v)) => match proc {
                        ProcessingStep::Html { next_steps, .. } => units_route_rel(
                            v.deep_view(),
                            next_steps@,
                            res,
                        ),
                        ProcessingStep::Regex { next_steps, .. } => units_route_rel(
                            v.deep_view(),
                            next_steps@,
                            res,
                        ),
                        ProcessingStep::JSON { next_steps, .. } => units_route_rel(
                            v.deep_view(),
                            next_steps@,
                            res,
                        ),
                    },
                }
            },
            _ => res matches Err(e) && e matches ProcessorError::PairingError(_),
        },
        NextProcessingStep::Store(_) => res matches Err(e) && e matches
            ProcessorError::PairingError(_),
    }
}

/// Routing every value into every continuation of the list, in value
/// order: the first fatal sub-routing aborts the whole dispatch.
pub open spec fn units_route_rel(
    units: Seq<ResultUnitView>,
    steps: Seq<NextProcessingStep>,
    res: UnitOutcome,
) -> bool
    decreases steps, 1int, units.len(),
{
    if units.len() == 0 {
        res == Ok::<_, ProcessorError>(
            (Seq::<(ScraperJob, UrlView)>::empty(), Seq::<ProcessorError>::empty()),
        )
    } else {
        exists|first: UnitOutcome, rest: UnitOutcome|
            #![trigger unit_then(first, rest)]
            {
            &&& one_unit_route_rel(units[0], steps, 0, first)
            &&& (first is Ok ==> units_route_rel(units.drop_first(), steps, rest))
            &&& res == unit_then(first, rest)
        }
    }
}

/// Routing one value into the continuations from position `j` on, in
/// list order.
pub open spec fn one_unit_route_rel(
    u: ResultUnitView,
    steps: Seq<NextProcessingStep>,
    j: int,
    res: UnitOutcome,
) -> bool
    decreases steps, 0int, (if j < steps.len() { steps.len() - j } else { 0int }),
{
    if j < 0 {
        false
    } else if j >= steps.len() {
        res == Ok::<_, ProcessorError>(
            (Seq::<(ScraperJob, UrlView)>::empty(), Seq::<ProcessorError>::empty()),
        )
    } else {
        exists|first: UnitOutcome, rest: UnitOutcome|
            #![trigger unit_then(first, rest)]
            {
            &&& unit_route_rel(u, steps[j], first)
            &&& (first is Ok ==> one_unit_route_rel(u, steps, j + 1, rest))
            &&& res == unit_then(first, rest)
        }
    }
}

/// What handling the single continuation `step` against one materialized
/// response contributes, before the remaining list: a store continuation
/// hands the bytes to its sink; a store or extract-again continuation on
/// a response of the wrong materialization records a branch failure; an
/// extract-again continuation on text runs its strategy and routes the
/// values; a fetch-further continuation is fatal here.
pub open spec fn step_head_rel(resp: Resp, step: NextProcessingStep, first: ResponseOutcome) -> bool
    decreases step, 3int,
{
    match step {
        NextProcessingStep::Scrape(_) => first matches Err(e) && e matches
            ProcessorError::PairingError(_),
        NextProcessingStep::Store(st) => match resp {
            Resp::RespBytes { .. } => first == Ok::<_, ProcessorError>(
                (
                    seq![st],
                    Seq::<(ScraperJob, UrlView)>::empty(),
                    Seq::<ProcessorError>::empty(),
                ),
            ),
            Resp::RespText(_) => first matches Ok(t) && t.0 == Seq::<Storage>::empty() && t.1
                == Seq::<(ScraperJob, UrlView)>::empty() && t.2.len() == 1 && t.2[0] matches
                ProcessorError::PairingError(_),
        },
        NextProcessingStep::Process(proc) => match resp {
            Resp::RespBytes { .. } => first matches Ok(t) && t.0 == Seq::<Storage>::empty()
                && t.1 == Seq::<(ScraperJob, UrlView)>::empty() && t.2.len() == 1 && t.2[0] matches
                ProcessorError::PairingError(_),
            Resp::RespText(t) => exists|pr: ProcessingResult| {
                &&& #[trigger] step_outcome(pr, proc, t@)
                &&& match pr {
                    Err(e) => first == Ok::<_, ProcessorError>(
                        (
                            Seq::<Storage>::empty(),
                            Seq::<(ScraperJob, UrlView)>::empty(),
                            seq![e],
                        ),
                    ),
                    Ok(FinishedProcessingResult::NothingRequired) => first == Ok::<
                        _,
                        ProcessorError,
                    >(
                        (
                            Seq::<Storage>::empty(),
                            Seq::<(ScraperJob, UrlView)>::empty(),
                            Seq::<ProcessorError>::empty(),
                        ),
                    ),
                    Ok(FinishedProcessingResult::VectorResult(v)) => exists|sub: UnitOutcome| {
                        &&& #[trigger] routed_sub(proc, v.deep_view(), sub)
                        &&& match sub {
                            Err(e) => first == Err::<
                                (Seq<Storage>, Seq<(ScraperJob, UrlView)>, Seq<ProcessorError>),
                                _,
                            >(e),
                            Ok((s1, e1)) => first == Ok::<_, ProcessorError>(
                                (Seq::<Storage>::empty(), s1, e1),
                            ),
                        }
                    },
                }
            },
        },
    }
}

/// The extract-again node's values routed into its own continuations.
pub open spec fn routed_sub(proc: ProcessingStep, units: Seq<ResultUnitView>, sub: UnitOutcome) -> bool
    decreases proc, 2int,
{
    match proc {
        ProcessingStep::Html { next_steps, .. } => units_route_rel(units, next_steps@, sub),
        ProcessingStep::Regex { next_steps, .. } => units_route_rel(units, next_steps@, sub),
        ProcessingStep::JSON { next_steps, .. } => units_route_rel(units, next_steps@, sub),
    }
}

/// Whether `res` is an outcome handling one materialized response against
/// the continuations from position `j` on owes, in list order.
pub open spec fn response_route_rel(
    resp: Resp,
    steps: Seq<NextProcessingStep>,
    j: int,
    res: ResponseOutcome,
) -> bool
    decreases steps, 4int, (if j < steps.len() { steps.len() - j } else { 0int }),
{
    if j < 0 {
        false
    } else if j >= steps.len() {
        res == Ok::<_, ProcessorError>(
            (
                Seq::<Storage>::empty(),
                Seq::<(ScraperJob, UrlView)>::empty(),
                Seq::<ProcessorError>::empty(),
            ),
        )
    } else {
        exists|first: ResponseOutcome, rest: ResponseOutcome|
            #![trigger response_then(first, rest)]
            {
            &&& step_head_rel(resp, steps[j], first)
            &&& (first is Ok ==> response_route_rel(resp, steps, j + 1, rest))
            &&& res == response_then(first, rest)
        }
    }
}

/// Prefixing twice is prefixing the concatenation.
proof fn lemma_route_combine_assoc(
    s1: Seq<(ScraperJob, UrlView)>,
    e1: Seq<ProcessorError>,
    s2: Seq<(ScraperJob, UrlView)>,
    e2: Seq<ProcessorError>,
    rest: UnitOutcome,
)
    ensures
        route_combine(s1, e1, route_combine(s2, e2, rest)) == route_combine(s1 + s2, e1 + e2, rest),
{
    match rest {
        Err(_) => {},
        Ok((s3, e3)) => {
            assert(s1 + (s2 + s3) =~= (s1 + s2) + s3);
            assert(e1 + (e2 + e3) =~= (e1 + e2) + e3);
        },
    }
}

/// Prefixing nothing changes nothing.
proof fn lemma_route_combine_empty(rest: UnitOutcome)
    ensures
        route_combine(
            Seq::<(ScraperJob, UrlView)>::empty(),
            Seq::<ProcessorError>::empty(),
            rest,
        ) == rest,
{
    match rest {
        Err(_) => {},
        Ok((s, e)) => {
            assert(Seq::<(ScraperJob, UrlView)>::empty() + s =~= s);
            assert(Seq::<ProcessorError>::empty() + e =~= e);
        },
    }
}

/// Prefixing twice is prefixing the concatenation, at the response level.
proof fn lemma_response_combine_assoc(
    st1: Seq<Storage>,
    s1: Seq<(ScraperJob, UrlView)>,
    e1: Seq<ProcessorError>,
    st2: Seq<Storage>,
    s2: Seq<(ScraperJob, UrlView)>,
    e2: Seq<ProcessorError>,
    rest: ResponseOutcome,
)
    ensures
        response_combine(st1, s1, e1, response_combine(st2, s2, e2, rest)) == response_combine(
            st1 + st2,
            s1 + s2,
            e1 + e2,
            rest,
        ),
{
    match rest {
        Err(_) => {},
        Ok((st3, s3, e3)) => {
            assert(st1 + (st2 + st3) =~= (st1 + st2) + st3);
            assert(s1 + (s2 + s3) =~= (s1 + s2) + s3);
            assert(e1 + (e2 + e3) =~= (e1 + e2) + e3);
        },
    }
}

/// Prefixing nothing changes nothing, at the response level.
proof fn lemma_response_combine_empty(rest: ResponseOutcome)
    ensures
        response_combine(
            Seq::<Storage>::empty(),
            Seq::<(ScraperJob, UrlView)>::empty(),
            Seq::<ProcessorError>::empty(),
            rest,
        ) == rest,
{
    match rest {
        Err(_) => {},
        Ok((st, s, e)) => {
            assert(Seq::<Storage>::empty() + st =~= st);
            assert(Seq::<(ScraperJob, UrlView)>::empty() + s =~= s);
            assert(Seq::<ProcessorError>::empty() + e =~= e);
        },
    }
}

/// One more continuation handled in front of a routed tail.
proof fn lemma_one_rel_step(
    u: ResultUnitView,
    steps: Seq<NextProcessingStep>,
    j: int,
    first: UnitOutcome,
    rest: UnitOutcome,
)
    requires
        0 <= j < steps.len(),
        unit_route_rel(u, steps[j], first),
        first is Ok ==> one_unit_route_rel(u, steps, j + 1, rest),
    ensures
        one_unit_route_rel(u, steps, j, unit_then(first, rest)),
{
}

/// One more value routed in front of a routed tail.
proof fn lemma_units_rel_step(
    units: Seq<ResultUnitView>,
    steps: Seq<NextProcessingStep>,
    first: UnitOutcome,
    rest: UnitOutcome,
)
    requires
        units.len() > 0,
        one_unit_route_rel(units[0], steps, 0, first),
        first is Ok ==> units_route_rel(units.drop_first(), steps, rest),
    ensures
        units_route_rel(units, steps, unit_then(first, rest)),
{
}

/// One more continuation handled in front of a handled tail, at the
/// response level.
proof fn lemma_response_rel_step(
    resp: Resp,
    steps: Seq<NextProcessingStep>,
    j: int,
    first: ResponseOutcome,
    rest: ResponseOutcome,
)
    requires
        0 <= j < steps.len(),
        step_head_rel(resp, steps[j], first),
        first is Ok ==> response_route_rel(resp, steps, j + 1, rest),
    ensures
        response_route_rel(resp, steps, j, response_then(first, rest)),
{
}

/// Plain values of a concatenation of spawn lists.
proof fn lemma_spawn_views_concat<'a>(a: Seq<SpawnRequest<'a>>, b: Seq<SpawnRequest<'a>>)
    ensures
        spawn_views(a + b) == spawn_views(a) + spawn_views(b),
{
    assert(spawn_views(a + b) =~= spawn_views(a) + spawn_views(b));
}

impl ScraperJob {
    /// Routes every extracted value into every continuation of one list,
    /// in value order: each URL paired with a fetch-further continuation
    /// asks for a new unit; each string paired with an extract-again
    /// continuation is routed on recursively; a branch-local extraction
    /// failure is recorded and its siblings proceed; an invalid pairing
    /// anywhere is fatal.
    fn route_units<'a>(
        &self,
        results: &Vec<ProcessingResultUnit>,
        steps: &'a Vec<NextProcessingStep>,
    ) -> (r: Result<UnitDispatch<'a>, ProcessorError>)
        ensures
            r matches Err(e) ==> e matches ProcessorError::PairingError(_),
            units_route_rel(results.deep_view(), steps@, unit_outcome_of(r)),
            r matches Ok(o) ==> forall|q: int| #![trigger o.spawns@[q]] 0 <= q < o.spawns@.len()
                ==> spec_scrape_jobs_list(steps@).contains(*o.spawns@[q].job),
        decreases steps@, 0int,
    {
        let ghost units_dv = results.deep_view();
        let ghost steps_view = steps@;
        let mut spawns: Vec<SpawnRequest<'a>> = Vec::new();
        let mut errors: Vec<ProcessorError> = Vec::new();
        let mut i: usize = 0;
        proof {
            assert(spawn_views(spawns@) =~= Seq::<(ScraperJob, UrlView)>::empty());
            assert forall|rest: UnitOutcome|
                #[trigger] units_route_rel(units_dv.skip(i as int), steps_view, rest) implies
                units_route_rel(
                    units_dv,
                    steps_view,
                    route_combine(spawn_views(spawns@), errors@, rest),
                ) by {
                assert(units_dv.skip(0) =~= units_dv);
                lemma_route_combine_empty(rest);
            }
        }
        while i < results.len()
            invariant
                i <= results.len(),
                units_dv == results.deep_view(),
                steps_view == steps@,
                forall|q: int| #![trigger spawns@[q]] 0 <= q < spawns@.len()
                    ==> spec_scrape_jobs_list(steps_view).contains(*spawns@[q].job),
                forall|rest: UnitOutcome|
                    #[trigger] units_route_rel(units_dv.skip(i as int), steps_view, rest)
                    ==> units_route_rel(
                    units_dv,
                    steps_view,
                    route_combine(spawn_views(spawns@), errors@, rest),
                ),
            decreases results.len() - i,
        {
            let ghost u = units_dv[i as int];
            let mut unit_spawns: Vec<SpawnRequest<'a>> = Vec::new();
            let mut unit_errors: Vec<ProcessorError> = Vec::new();
            let mut k: usize = 0;
            proof {
                assert(spawn_views(unit_spawns@) =~= Seq::<(ScraperJob, UrlView)>::empty());
                assert forall|rest: UnitOutcome|
                    #[trigger] one_unit_route_rel(u, steps_view, k as int, rest) implies
                    one_unit_route_rel(
                        u,
                        steps_view,
                        0,
                        route_combine(spawn_views(unit_spawns@), unit_errors@, rest),
                    ) by {
                    lemma_route_combine_empty(rest);
                }
            }
            while k < steps.len()
                invariant
                    k <= steps.len(),
                    i < results.len(),
                    units_dv == results.deep_view(),
                    steps_view == steps@,
                    u == units_dv[i as int],
                    forall|q: int| #![trigger unit_spawns@[q]] 0 <= q < unit_spawns@.len()
                        ==> spec_scrape_jobs_list(steps_view).contains(*unit_spawns@[q].job),
                    forall|rest: UnitOutcome|
                        #[trigger] one_unit_route_rel(u, steps_view, k as int, rest)
                        ==> one_unit_route_rel(
                        u,
                        steps_view,
                        0,
                        route_combine(spawn_views(unit_spawns@), unit_errors@, rest),
                    ),
                decreases steps.len() - k,
            {
                match self.process_processed_result(&results[i], &steps[k]) {
                    Ok(mut sub) => {
                        let ghost sub_s = spawn_views(sub.spawns@);
                        let ghost sub_e = sub.errors@;
                        let ghost first: UnitOutcome = Ok((sub_s, sub_e));
                        let ghost prev_s = spawn_views(unit_spawns@);
                        let ghost prev_e = unit_errors@;
                        proof {
                            assert(unit_route_rel(u, steps_view[k as int], first));
                            assert forall|q: int| 0 <= q < sub.spawns@.len() implies
                                spec_scrape_jobs_list(steps_view).contains(
                                *(#[trigger] sub.spawns@[q]).job,
                            ) by {
                                lemma_list_contains(
                                    steps_view,
                                    k as int,
                                    *sub.spawns@[q].job,
                                );
                            }
                        }
                        unit_spawns.append(&mut sub.spawns);
                        unit_errors.append(&mut sub.errors);
                        proof {
                            lemma_spawn_views_concat(
                                unit_spawns@.subrange(0, prev_s.len() as int),
                                unit_spawns@.subrange(prev_s.len() as int, unit_spawns@.len() as int),
                            );
                            assert(unit_spawns@.subrange(0, prev_s.len() as int)
                                + unit_spawns@.subrange(
                                prev_s.len() as int,
                                unit_spawns@.len() as int,
                            ) =~= unit_spawns@);
                            assert(spawn_views(unit_spawns@) =~= prev_s + sub_s);
                            assert(unit_errors@ =~= prev_e + sub_e);
                            assert forall|rest: UnitOutcome|
                                #[trigger] one_unit_route_rel(u, steps_view, k as int + 1, rest)
                                implies one_unit_route_rel(
                                u,
                                steps_view,
                                0,
                                route_combine(spawn_views(unit_spawns@), unit_errors@, rest),
                            ) by {
                                lemma_one_rel_step(u, steps_view, k as int, first, rest);
                                assert(unit_then(first, rest) == route_combine(sub_s, sub_e, rest));
                                lemma_route_combine_assoc(prev_s, prev_e, sub_s, sub_e, rest);
                            }
                            assert forall|q: int| 0 <= q < unit_spawns@.len() implies
                                spec_scrape_jobs_list(steps_view).contains(
                                *(#[trigger] unit_spawns@[q]).job,
                            ) by {}
                        }
                    },
                    Err(e) => {
                        proof {
                            let fatal: UnitOutcome = Err(e);
                            assert(unit_route_rel(u, steps_view[k as int], fatal));
                            lemma_one_rel_step(u, steps_view, k as int, fatal, fatal);
                            assert(one_unit_route_rel(u, steps_view, k as int, fatal));
                            assert(one_unit_route_rel(
                                u,
                                steps_view,
                                0,
                                route_combine(spawn_views(unit_spawns@), unit_errors@, fatal),
                            ));
                            assert(route_combine(spawn_views(unit_spawns@), unit_errors@, fatal)
                                == fatal);
                            assert(units_dv.skip(i as int)[0] == u);
                            lemma_units_rel_step(units_dv.skip(i as int), steps_view, fatal, fatal);
                            assert(units_route_rel(units_dv.skip(i as int), steps_view, fatal));
                            assert(units_route_rel(
                                units_dv,
                                steps_view,
                                route_combine(spawn_views(spawns@), errors@, fatal),
                            ));
                            assert(route_combine(spawn_views(spawns@), errors@, fatal) == fatal);
                        }
                        return Err(e);
                    },
                }
                k += 1;
            }
            let ghost unit_s = spawn_views(unit_spawns@);
            let ghost unit_e = unit_errors@;
            let ghost prev_s = spawn_views(spawns@);
            let ghost prev_e = errors@;
            proof {
                let ghost done: UnitOutcome = Ok(
                    (Seq::<(ScraperJob, UrlView)>::empty(), Seq::<ProcessorError>::empty()),
                );
                assert(one_unit_route_rel(u, steps_view, steps_view.len() as int, done));
                assert(one_unit_route_rel(
                    u,
                    steps_view,
                    0,
                    route_combine(unit_s, unit_e, done),
                ));
                assert(unit_s + Seq::<(ScraperJob, UrlView)>::empty() =~= unit_s);
                assert(unit_e + Seq::<ProcessorError>::empty() =~= unit_e);
                assert(route_combine(unit_s, unit_e, done) == Ok::<_, ProcessorError>(
                    (unit_s, unit_e),
                ));
            }
            spawns.append(&mut unit_spawns);
            errors.append(&mut unit_errors);
            i += 1;
            proof {
                lemma_spawn_views_concat(
                    spawns@.subrange(0, prev_s.len() as int),
                    spawns@.subrange(prev_s.len() as int, spawns@.len() as int),
                );
                assert(spawns@.subrange(0, prev_s.len() as int) + spawns@.subrange(
                    prev_s.len() as int,
                    spawns@.len() as int,
                ) =~= spawns@);
                assert(spawn_views(spawns@) =~= prev_s + unit_s);
                assert(errors@ =~= prev_e + unit_e);
                let ghost unit_first: UnitOutcome = Ok((unit_s, unit_e));
                assert forall|rest: UnitOutcome|
                    #[trigger] units_route_rel(units_dv.skip(i as int), steps_view, rest) implies
                    units_route_rel(
                    units_dv,
                    steps_view,
                    route_combine(spawn_views(spawns@), errors@, rest),
                ) by {
                    assert(units_dv.skip(i as int - 1).drop_first() =~= units_dv.skip(i as int));
                    assert(units_dv.skip(i as int - 1)[0] == u);
                    lemma_units_rel_step(
                        units_dv.skip(i as int - 1),
                        steps_view,
                        unit_first,
                        rest,
                    );
                    assert(unit_then(unit_first, rest) == route_combine(unit_s, unit_e, rest));
                    lemma_route_combine_assoc(prev_s, prev_e, unit_s, unit_e, rest);
                }
            }
        }
        proof {
            let ghost done: UnitOutcome = Ok(
                (Seq::<(ScraperJob, UrlView)>::empty(), Seq::<ProcessorError>::empty()),
            );
            assert(units_dv.skip(results.len() as int) =~= Seq::<ResultUnitView>::empty());
            assert(units_route_rel(units_dv.skip(results.len() as int), steps_view, done));
            assert(units_route_rel(
                units_dv,
                steps_view,
                route_combine(spawn_views(spawns@), errors@, done),
            ));
            assert(spawn_views(spawns@) + Seq::<(ScraperJob, UrlView)>::empty() =~= spawn_views(
                spawns@,
            ));
            assert(errors@ + Seq::<ProcessorError>::empty() =~= errors@);
        }
        Ok(UnitDispatch { spawns, errors })
    }

    /// Routes one extracted value into one continuation, enforcing the
    /// pairing rule at dispatch time: a URL may pair with a fetch-further
    /// continuation, which asks for a new unit; a plain string may pair
    /// with an extract-again continuation, whose own values are routed on
    /// recursively; any other pairing is a fatal configuration error. A
    /// failure of an inner extraction is branch-local: it is recorded and
    /// its siblings proceed. `unit_route_rel` fixes the outcome in full.
    pub fn process_processed_result<'a>(
        &self,
        proc_result: &ProcessingResultUnit,
        next_proc_step: &'a NextProcessingStep,
    ) -> (r: Result<UnitDispatch<'a>, ProcessorError>)
        ensures
            r matches Err(e) ==> e matches ProcessorError::PairingError(_),
            unit_route_rel(proc_result@, *next_proc_step, unit_outcome_of(r)),
            r matches Ok(o) ==> spawns_from(o.spawns@, *next_proc_step),
        decreases *next_proc_step, 1int,
    {
        match (proc_result, next_proc_step) {
            (ProcessingResultUnit::URL(url), NextProcessingStep::Scrape(scraper)) => {
                let spawn = SpawnRequest { job: scraper, url: url.duplicate() };
                let o = UnitDispatch { spawns: vec![spawn], errors: Vec::new() };
                proof {
                    assert(spec_scrape_jobs(*next_proc_step)[0] == *o.spawns@[0].job);
                    assert(spawn_views(o.spawns@) =~= seq![(*scraper, url@)]);
                    assert(o.errors@ =~= Seq::<ProcessorError>::empty());
                    assert(unit_route_rel(
                        proc_result@,
                        *next_proc_step,
                        Ok((spawn_views(o.spawns@), o.errors@)),
                    ));
                }
                Ok(o)
            },
            (ProcessingResultUnit::Str(text), NextProcessingStep::Process(proc)) => {
                let pr = proc.process_string_result(text.as_str());
                let ghost gpr = pr;
                match pr {
                    Err(e) => {
                        let o = UnitDispatch { spawns: Vec::new(), errors: vec![e] };
                        proof {
                            assert(proc_result@ matches ResultUnitView::Str(t2)
                                && *next_proc_step matches NextProcessingStep::Process(p2)
                                && step_outcome(gpr, p2, t2));
                            assert(spawn_views(o.spawns@) =~= Seq::<(ScraperJob, UrlView)>::empty());
                            assert(o.errors@ =~= seq![gpr->Err_0]);
                            assert(unit_route_rel(
                                proc_result@,
                                *next_proc_step,
                                Ok((spawn_views(o.spawns@), o.errors@)),
                            ));
                        }
                        Ok(o)
                    },
                    Ok(FinishedProcessingResult::NothingRequired) => {
                        let o = UnitDispatch { spawns: Vec::new(), errors: Vec::new() };
                        proof {
                            assert(proc_result@ matches ResultUnitView::Str(t2)
                                && *next_proc_step matches NextProcessingStep::Process(p2)
                                && step_outcome(gpr, p2, t2));
                            assert(spawn_views(o.spawns@) =~= Seq::<(ScraperJob, UrlView)>::empty());
                            assert(o.errors@ =~= Seq::<ProcessorError>::empty());
                            assert(unit_route_rel(
                                proc_result@,
                                *next_proc_step,
                                Ok((spawn_views(o.spawns@), o.errors@)),
                            ));
                        }
                        Ok(o)
                    },
                    Ok(FinishedProcessingResult::VectorResult(results)) => {
                        let steps = proc.next_steps();
                        let r = self.route_units(&results, steps);
                        proof {
                            assert(proc_result@ matches ResultUnitView::Str(t2)
                                && *next_proc_step matches NextProcessingStep::Process(p2)
                                && step_outcome(gpr, p2, t2));
                            assert(steps@ == spec_next_steps(*proc)@);
                            assert(gpr matches Ok(f) && f matches
                                FinishedProcessingResult::VectorResult(v) && v.deep_view()
                                == results.deep_view());
                            assert(unit_route_rel(proc_result@, *next_proc_step, unit_outcome_of(r)));
                            if r is Ok {
                                assert(spec_scrape_jobs(*next_proc_step) =~= spec_scrape_jobs_list(
                                    steps@,
                                ));
                            }
                        }
                        r
                    },
                }
            },
            _ => {
                let e = ProcessorError::PairingError(
                    "this value kind cannot feed this continuation".to_owned(),
                );
                proof {
                    assert(unit_route_rel(proc_result@, *next_proc_step, Err(e)));
                }
                Err(e)
            },
        }
    }

    /// Handles one materialized response against the continuation list of
    /// its materialization, in list order: a store continuation hands the
    /// bytes to its sink; an extract-again continuation runs its strategy
    /// and routes every emitted value on; a continuation of the wrong
    /// materialization records a branch failure and its siblings proceed;
    /// a fetch-further continuation directly on an un-extracted response
    /// is fatal, as is any invalid pairing further down.
    /// `response_route_rel` fixes the outcome in full.
    pub fn process_adopted_response<'a>(
        &self,
        adopted_response: &Resp,
        steps: &'a Vec<NextProcessingStep>,
    ) -> (r: Result<ResponseDispatch<'a>, ProcessorError>)
        ensures
            r matches Err(e) ==> e matches ProcessorError::PairingError(_),
            response_route_rel(*adopted_response, steps@, 0, response_outcome_of(r)),
            r matches Ok(o) ==> forall|q: int| #![trigger o.spawns@[q]] 0 <= q < o.spawns@.len()
                ==> spec_scrape_jobs_list(steps@).contains(*o.spawns@[q].job),
            r matches Ok(o) ==> forall|k: int| 0 <= k < steps@.len() ==> !(#[trigger] steps@[k]
                is Scrape),
    {
        let ghost steps_view = steps@;
        let ghost resp = *adopted_response;
        let mut stores: Vec<&'a Storage> = Vec::new();
        let mut spawns: Vec<SpawnRequest<'a>> = Vec::new();
        let mut errors: Vec<ProcessorError> = Vec::new();
        let mut k: usize = 0;
        proof {
            assert(store_views(stores@) =~= Seq::<Storage>::empty());
            assert(spawn_views(spawns@) =~= Seq::<(ScraperJob, UrlView)>::empty());
            assert forall|rest: ResponseOutcome|
                #[trigger] response_route_rel(resp, steps_view, k as int, rest) implies
                response_route_rel(
                resp,
                steps_view,
                0,
                response_combine(store_views(stores@), spawn_views(spawns@), errors@, rest),
            ) by {
                lemma_response_combine_empty(rest);
            }
        }
        while k < steps.len()
            invariant
                k <= steps.len(),
                steps_view == steps@,
                resp == *adopted_response,
                forall|q: int| #![trigger spawns@[q]] 0 <= q < spawns@.len()
                    ==> spec_scrape_jobs_list(steps_view).contains(*spawns@[q].job),
                forall|j: int| 0 <= j < k ==> !(#[trigger] steps_view[j] is Scrape),
                forall|rest: ResponseOutcome|
                    #[trigger] response_route_rel(resp, steps_view, k as int, rest)
                    ==> response_route_rel(
                    resp,
                    steps_view,
                    0,
                    response_combine(store_views(stores@), spawn_views(spawns@), errors@, rest),
                ),
            decreases steps.len() - k,
        {
            let ghost prev_st = store_views(stores@);
            let ghost prev_s = spawn_views(spawns@);
            let ghost prev_e = errors@;
            let ghost head: ResponseOutcome;
            match &steps[k] {
                NextProcessingStep::Store(storage) => {
                    match adopted_response {
                        Resp::RespBytes { .. } => {
                            stores.push(storage);
                            proof {
                                head = Ok(
                                    (
                                        seq![*storage],
                                        Seq::<(ScraperJob, UrlView)>::empty(),
                                        Seq::<ProcessorError>::empty(),
                                    ),
                                );
                                assert(step_head_rel(resp, steps_view[k as int], head));
                                assert(store_views(stores@) =~= prev_st + seq![*storage]);
                            }
                        },
                        Resp::RespText(_) => {
                            let e = ProcessorError::PairingError(
                                "a text response carries no bytes to store".to_owned(),
                            );
                            let ghost ge = e;
                            errors.push(e);
                            proof {
                                head = Ok(
                                    (
                                        Seq::<Storage>::empty(),
                                        Seq::<(ScraperJob, UrlView)>::empty(),
                                        seq![ge],
                                    ),
                                );
                                assert(step_head_rel(resp, steps_view[k as int], head));
                                assert(errors@ =~= prev_e + seq![ge]);
                            }
                        },
                    }
                },
                NextProcessingStep::Process(proc) => {
                    match adopted_response {
                        Resp::RespText(_) => {
                            let pr = proc.process(adopted_response);
                            let ghost gpr = pr;
                            match pr {
                                Ok(FinishedProcessingResult::VectorResult(results)) => {
                                    let inner = proc.next_steps();
                                    match self.route_units(&results, inner) {
                                        Ok(mut sub) => {
                                            let ghost sub_outcome: UnitOutcome = Ok(
                                                (spawn_views(sub.spawns@), sub.errors@),
                                            );
                                            let ghost sub_s = spawn_views(sub.spawns@);
                                            let ghost sub_e = sub.errors@;
                                            proof {
                                                head = Ok((Seq::<Storage>::empty(), sub_s, sub_e));
                                                assert(routed_sub(
                                                    *proc,
                                                    results.deep_view(),
                                                    sub_outcome,
                                                ));
                                                assert(step_outcome(gpr, *proc, resp->RespText_0@));
                                                assert(step_head_rel(
                                                    resp,
                                                    steps_view[k as int],
                                                    head,
                                                ));
                                                assert forall|q: int| 0 <= q < sub.spawns@.len()
                                                    implies spec_scrape_jobs_list(
                                                    steps_view,
                                                ).contains(
                                                    *(#[trigger] sub.spawns@[q]).job,
                                                ) by {
                                                    assert(spec_scrape_jobs(steps_view[k as int])
                                                        =~= spec_scrape_jobs_list(inner@));
                                                    lemma_list_contains(
                                                        steps_view,
                                                        k as int,
                                                        *sub.spawns@[q].job,
                                                    );
                                                }
                                            }
                                            spawns.append(&mut sub.spawns);
                                            errors.append(&mut sub.errors);
                                            proof {
                                                lemma_spawn_views_concat(
                                                    spawns@.subrange(0, prev_s.len() as int),
                                                    spawns@.subrange(
                                                        prev_s.len() as int,
                                                        spawns@.len() as int,
                                                    ),
                                                );
                                                assert(spawns@.subrange(0, prev_s.len() as int)
                                                    + spawns@.subrange(
                                                    prev_s.len() as int,
                                                    spawns@.len() as int,
                                                ) =~= spawns@);
                                                assert(spawn_views(spawns@) =~= prev_s + sub_s);
                                                assert(errors@ =~= prev_e + sub_e);
                                            }
                                        },
                                        Err(e) => {
                                            proof {
                                                let fatal_sub: UnitOutcome = Err(e);
                                                assert(routed_sub(
                                                    *proc,
                                                    results.deep_view(),
                                                    fatal_sub,
                                                ));
                                                assert(step_outcome(gpr, *proc, resp->RespText_0@));
                                                let fatal: ResponseOutcome = Err(e);
                                                assert(step_head_rel(
                                                    resp,
                                                    steps_view[k as int],
                                                    fatal,
                                                ));
                                                lemma_response_rel_step(
                                                    resp,
                                                    steps_view,
                                                    k as int,
                                                    fatal,
                                                    fatal,
                                                );
                                                assert(response_route_rel(
                                                    resp,
                                                    steps_view,
                                                    k as int,
                                                    fatal,
                                                ));
                                                assert(response_combine(
                                                    prev_st,
                                                    prev_s,
                                                    prev_e,
                                                    fatal,
                                                ) == fatal);
                                            }
                                            return Err(e);
                                        },
                                    }
                                },
                                Ok(FinishedProcessingResult::NothingRequired) => {
                                    proof {
                                        head = Ok(
                                            (
                                                Seq::<Storage>::empty(),
                                                Seq::<(ScraperJob, UrlView)>::empty(),
                                                Seq::<ProcessorError>::empty(),
                                            ),
                                        );
                                        assert(step_outcome(gpr, *proc, resp->RespText_0@));
                                        assert(step_head_rel(resp, steps_view[k as int], head));
                                    }
                                },
                                Err(e) => {
                                    let ghost ge = e;
                                    errors.push(e);
                                    proof {
                                        head = Ok(
                                            (
                                                Seq::<Storage>::empty(),
                                                Seq::<(ScraperJob, UrlView)>::empty(),
                                                seq![ge],
                                            ),
                                        );
                                        assert(step_outcome(gpr, *proc, resp->RespText_0@));
                                        assert(step_head_rel(resp, steps_view[k as int], head));
                                        assert(errors@ =~= prev_e + seq![ge]);
                                    }
                                },
                            }
                        },
                        Resp::RespBytes { .. } => {
                            let e = ProcessorError::PairingError(
                                "a byte response must be re-materialized before extraction".to_owned(),
                            );
                            let ghost ge = e;
                            errors.push(e);
                            proof {
                                head = Ok(
                                    (
                                        Seq::<Storage>::empty(),
                                        Seq::<(ScraperJob, UrlView)>::empty(),
                                        seq![ge],
                                    ),
                                );
                                assert(step_head_rel(resp, steps_view[k as int], head));
                                assert(errors@ =~= prev_e + seq![ge]);
                            }
                        },
                    }
                },
                NextProcessingStep::Scrape(_) => {
                    let e = ProcessorError::PairingError(
                        "a fetch-further continuation cannot take an un-extracted response".to_owned(),
                    );
                    proof {
                        let fatal: ResponseOutcome = Err(e);
                        assert(step_head_rel(resp, steps_view[k as int], fatal));
                        lemma_response_rel_step(resp, steps_view, k as int, fatal, fatal);
                        assert(response_route_rel(resp, steps_view, k as int, fatal));
                        assert(response_combine(prev_st, prev_s, prev_e, fatal) == fatal);
                    }
                    return Err(e);
                },
            }
            k += 1;
            proof {
                assert forall|rest: ResponseOutcome|
                    #[trigger] response_route_rel(resp, steps_view, k as int, rest) implies
                    response_route_rel(
                    resp,
                    steps_view,
                    0,
                    response_combine(store_views(stores@), spawn_views(spawns@), errors@, rest),
                ) by {
                    lemma_response_rel_step(resp, steps_view, k as int - 1, head, rest);
                    match head {
                        Err(_) => {
                            assert(false);
                        },
                        Ok((h_st, h_s, h_e)) => {
                            assert(response_then(head, rest) == response_combine(
                                h_st,
                                h_s,
                                h_e,
                                rest,
                            ));
                            lemma_response_combine_assoc(
                                prev_st,
                                prev_s,
                                prev_e,
                                h_st,
                                h_s,
                                h_e,
                                rest,
                            );
                            assert(store_views(stores@) =~= prev_st + h_st);
                            assert(spawn_views(spawns@) =~= prev_s + h_s);
                            assert(errors@ =~= prev_e + h_e);
                        },
                    }
                }
            }
        }
        proof {
            let ghost done: ResponseOutcome = Ok(
                (
                    Seq::<Storage>::empty(),
                    Seq::<(ScraperJob, UrlView)>::empty(),
                    Seq::<ProcessorError>::empty(),
                ),
            );
            assert(response_route_rel(resp, steps_view, steps_view.len() as int, done));
            assert(response_route_rel(
                resp,
                steps_view,
                0,
                response_combine(store_views(stores@), spawn_views(spawns@), errors@, done),
            ));
            assert(store_views(stores@) + Seq::<Storage>::empty() =~= store_views(stores@));
            assert(spawn_views(spawns@) + Seq::<(ScraperJob, UrlView)>::empty() =~= spawn_views(
                spawns@,
            ));
            assert(errors@ + Seq::<ProcessorError>::empty() =~= errors@);
        }
        Ok(ResponseDispatch { stores, spawns, errors })
    }

    /// Handles the outcome of materializing one response: a transport
    /// failure is reported and that branch abandoned; a materialized
    /// response is dispatched — `response_route_rel` fixes the dispatch —
    /// and handed back for further derivations.
    pub fn handle_adopted_response_res<'a>(
        &self,
        adopted_response_res: Result<Resp, ProcessorError>,
        steps: &'a Vec<NextProcessingStep>,
    ) -> (r: (Option<Resp>, Result<ResponseDispatch<'a>, ProcessorError>, Option<ProcessorError>))
        ensures
            adopted_response_res matches Ok(resp) ==> {
                &&& r.0 matches Some(kept)
                &&& kept == resp
                &&& r.2 is None
                &&& response_route_rel(resp, steps@, 0, response_outcome_of(r.1))
            },
            adopted_response_res matches Err(e) ==> {
                &&& r.0 is None
                &&& r.2 matches Some(kept)
                &&& kept == e
                &&& r.1 matches Ok(o) && o.stores@.len() == 0 && o.spawns@.len() == 0
                    && o.errors@.len() == 0
            },
            r.1 matches Err(e) ==> e matches ProcessorError::PairingError(_),
    {
        match adopted_response_res {
            Err(e) => {
                let empty = ResponseDispatch {
                    stores: Vec::new(),
                    spawns: Vec::new(),
                    errors: Vec::new(),
                };
                (None, Ok(empty), Some(e))
            },
            Ok(resp) => {
                let dispatched = self.process_adopted_response(&resp, steps);
                (Some(resp), dispatched, None)
            },
        }
    }
}


// ---------------------------------------------------------------------
// Load-time validation
// ---------------------------------------------------------------------

/// Whether every selector and pattern in one extraction step's own tree
/// is one its engine accepts.
pub open spec fn step_patterns_ok(proc: ProcessingStep) -> bool
    decreases proc,
{
    match proc {
        ProcessingStep::Html { selector, next_steps, .. } => selector_ok(selector@)
            && steps_patterns_ok(next_steps@),
        ProcessingStep::Regex { regex, next_steps, .. } => pattern_ok(regex@)
            && steps_patterns_ok(next_steps@),
        ProcessingStep::JSON { next_steps, .. } => steps_patterns_ok(next_steps@),
    }
}

/// Whether every selector and pattern under one continuation is accepted,
/// spawned jobs included.
pub open spec fn next_patterns_ok(step: NextProcessingStep) -> bool
    decreases step,
{
    match step {
        NextProcessingStep::Process(proc) => step_patterns_ok(proc),
        NextProcessingStep::Scrape(job) => job_patterns_ok(job),
        NextProcessingStep::Store(_) => true,
    }
}

/// Whether every selector and pattern under a continuation list is
/// accepted.
pub open spec fn steps_patterns_ok(steps: Seq<NextProcessingStep>) -> bool
    decreases steps,
{
    if steps.len() == 0 {
        true
    } else {
        next_patterns_ok(steps[0]) && steps_patterns_ok(steps.drop_first())
    }
}

/// Whether every selector and pattern under a target list is accepted.
pub open spec fn targets_patterns_ok(ts: Seq<(RespAdaptMarker, Vec<NextProcessingStep>)>) -> bool
    decreases ts,
{
    if ts.len() == 0 {
        true
    } else {
        steps_patterns_ok(ts[0].1@) && targets_patterns_ok(ts.drop_first())
    }
}

/// Whether every selector and pattern anywhere in this job's continuation
/// trees, spawned jobs included, is one its engine accepts.
pub open spec fn job_patterns_ok(job: ScraperJob) -> bool
    decreases job,
{
    targets_patterns_ok(job.targets@)
}

impl ScraperJob {
    /// Checks, before any unit is scheduled, every selector and pattern
    /// anywhere in this job's continuation trees, spawned jobs included:
    /// a malformed one is refused at load time, not when a response first
    /// reaches it.
    pub fn validate(&self) -> (r: Result<(), ProcessorError>)
        ensures
            r is Ok <==> job_patterns_ok(*self),
            r matches Err(e) ==> (e matches ProcessorError::HtmlParserBuildError(_) || e matches
                ProcessorError::RegexBuildError(_)),
        decreases *self, 3int,
    {
        let mut t: usize = 0;
        proof {
            assert(self.targets@.skip(0) =~= self.targets@);
        }
        while t < self.targets.len()
            invariant
                t <= self.targets.len(),
                targets_patterns_ok(self.targets@) <==> targets_patterns_ok(
                    self.targets@.skip(t as int),
                ),
            decreases self.targets.len() - t,
        {
            match validate_steps(&self.targets[t].1) {
                Ok(()) => {},
                Err(e) => {
                    proof {
                        assert(self.targets@.skip(t as int)[0] == self.targets@[t as int]);
                    }
                    return Err(e);
                },
            }
            t += 1;
            proof {
                assert(self.targets@.skip(t as int - 1).drop_first() =~= self.targets@.skip(
                    t as int,
                ));
                assert(self.targets@.skip(t as int - 1)[0] == self.targets@[t as int - 1]);
            }
        }
        proof {
            assert(self.targets@.skip(self.targets.len() as int)
                =~= Seq::<(RespAdaptMarker, Vec<NextProcessingStep>)>::empty());
        }
        Ok(())
    }
}

/// Checks every selector and pattern under one continuation list.
fn validate_steps(steps: &Vec<NextProcessingStep>) -> (r: Result<(), ProcessorError>)
    ensures
        r is Ok <==> steps_patterns_ok(steps@),
        r matches Err(e) ==> (e matches ProcessorError::HtmlParserBuildError(_) || e matches
            ProcessorError::RegexBuildError(_)),
    decreases steps@, 2int,
{
    let mut k: usize = 0;
    proof {
        assert(steps@.skip(0) =~= steps@);
    }
    while k < steps.len()
        invariant
            k <= steps.len(),
            steps_patterns_ok(steps@) <==> steps_patterns_ok(steps@.skip(k as int)),
        decreases steps.len() - k,
    {
        match validate_next(&steps[k]) {
            Ok(()) => {},
            Err(e) => {
                proof {
                    assert(steps@.skip(k as int)[0] == steps@[k as int]);
                }
                return Err(e);
            },
        }
        k += 1;
        proof {
            assert(steps@.skip(k as int - 1).drop_first() =~= steps@.skip(k as int));
            assert(steps@.skip(k as int - 1)[0] == steps@[k as int - 1]);
        }
    }
    proof {
        assert(steps@.skip(steps.len() as int) =~= Seq::<NextProcessingStep>::empty());
    }
    Ok(())
}

/// Checks every selector and pattern under one continuation.
fn validate_next(step: &NextProcessingStep) -> (r: Result<(), ProcessorError>)
    ensures
        r is Ok <==> next_patterns_ok(*step),
        r matches Err(e) ==> (e matches ProcessorError::HtmlParserBuildError(_) || e matches
            ProcessorError::RegexBuildError(_)),
    decreases *step, 4int,
{
    match step {
        NextProcessingStep::Store(_) => Ok(()),
        NextProcessingStep::Scrape(job) => job.validate(),
        NextProcessingStep::Process(proc) => {
            match proc {
                ProcessingStep::Html { selector, next_steps, .. } => {
                    check_selector(selector)?;
                    validate_steps(next_steps)
                },
                ProcessingStep::Regex { regex, next_steps, .. } => {
                    check_pattern(regex)?;
                    validate_steps(next_steps)
                },
                ProcessingStep::JSON { next_steps, .. } => validate_steps(next_steps),
            }
        },
    }
}

} // verus!
