//! The extraction engine: three interchangeable strategies turning
//! response text into typed result values.
//!
//! Selecting markup nodes, matching a pattern and parsing a structured
//! document are outside crates' work behind trusted wrappers; everything
//! around them — cardinality cutoffs, attribute lookups, the lookup-path
//! walk, result shaping — is verified.

use vstd::prelude::*;
use vstd::string::StringExecFns;
use crate::errors::ProcessorError;
use crate::response_adaptor::Resp;
use crate::scraper_job::ScraperJob;
use crate::storage::Storage;
use crate::url_parts::{UrlParts, UrlView, join_url, parse_url, url_join_of, url_parse_of};

verus! {

/// The outcome of one extraction step.
pub type ProcessingResult = Result<FinishedProcessingResult, ProcessorError>;

pub enum FinishedProcessingResult {
    VectorResult(Vec<ProcessingResultUnit>),
    NothingRequired,
}

/// The rule shaping a raw captured string into a typed result value.
#[derive(Debug, Clone)]
pub enum JSONProcessingResultUnit {
    /// The string is itself an absolute URL.
    URL,
    /// The string is resolved against this base URL.
    PartialURL(UrlParts),
    /// The string is concatenated after this literal base.
    Base(String),
    /// The string stays an opaque string.
    Str,
    /// The string becomes the value of this query parameter on this URL.
    Parameter(UrlParts, String),
    /// The string becomes the value of a named form parameter.
    FormParameter(String),
}

/// A typed value extracted from a response.
#[derive(Debug)]
pub enum ProcessingResultUnit {
    URL(UrlParts),
    Str(String),
    FormParameter { name: String, value: String },
}

/// The mathematical shape of an extracted value.
#[verifier::ext_equal]
pub enum ResultUnitView {
    URL(UrlView),
    Str(Seq<char>),
    FormParameter { name: Seq<char>, value: Seq<char> },
}

impl View for ProcessingResultUnit {
    type V = ResultUnitView;

    open spec fn view(&self) -> ResultUnitView {
        match self {
            ProcessingResultUnit::URL(u) => ResultUnitView::URL(u@),
            ProcessingResultUnit::Str(s) => ResultUnitView::Str(s@),
            ProcessingResultUnit::FormParameter { name, value } => ResultUnitView::FormParameter {
                name: name@,
                value: value@,
            },
        }
    }
}

impl DeepView for ProcessingResultUnit {
    type V = ResultUnitView;

    open spec fn deep_view(&self) -> ResultUnitView {
        self.view()
    }
}

/// The raw text a strategy's pattern is written in; held for the record,
/// compiled by the strategy when it runs.
#[derive(Debug, Clone)]
pub enum ParserType {
    Html(String),
    Regex(String),
    JSON(String),
}

/// How many captures an extraction step keeps: the first so many, or all
/// up to a large finite bound.
#[derive(Debug, Clone, Copy, PartialEq, Eq, Structural)]
pub enum Capture {
    Many(usize),
    All,
}

/// The finite bound that stands in for "all" captures.
pub const CAP_UNBOUNDED: usize = 1000000;

/// How many captures a cardinality policy admits.
pub open spec fn spec_cap(c: Capture) -> nat {
    match c {
        Capture::Many(n) => n as nat,
        Capture::All => CAP_UNBOUNDED as nat,
    }
}

/// One step of a structured-value lookup path: an object field, an array
/// index, a broadcast over every array element, or the terminal take of
/// the scalar reached.
#[derive(Debug, Clone)]
pub enum LookupBlock {
    Pos(usize),
    Att(String),
    Broadcast,
    Take,
}

/// What an extraction step does with each value it emits.
#[derive(Debug)]
pub enum NextProcessingStep {
    Process(ProcessingStep),
    Scrape(ScraperJob),
    Store(Storage),
}

/// What is read from a selected markup node: a named attribute, or its
/// concatenated text content.
#[derive(Debug, Clone)]
pub enum SelectorTarget {
    Attr(String),
    Text,
}

/// One extraction step: a strategy with its pattern, its cardinality
/// policy, its shaping rule and the continuations fed with its values.
#[derive(Debug)]
pub enum ProcessingStep {
    Html {
        selector: String,
        capture_elements: Capture,
        selector_target: SelectorTarget,
        proc_result: JSONProcessingResultUnit,
        next_steps: Vec<NextProcessingStep>,
    },
    Regex {
        regex: String,
        capture_elements: Capture,
        groups: Vec<u8>,
        next_steps: Vec<NextProcessingStep>,
        proc_result: JSONProcessingResultUnit,
    },
    JSON {
        lookup_search: Vec<LookupBlock>,
        next_steps: Vec<NextProcessingStep>,
        proc_result: JSONProcessingResultUnit,
    },
}

// ---------------------------------------------------------------------
// Result shaping
// ---------------------------------------------------------------------

/// What shaping one captured string with one rule yields: a typed value,
/// or a URL failure.
pub open spec fn spec_shape(s: Seq<char>, p: JSONProcessingResultUnit) -> Result<
    ResultUnitView,
    (),
> {
    match p {
        JSONProcessingResultUnit::URL => match url_parse_of(s) {
            Some(u) => Ok(ResultUnitView::URL(u)),
            None => Err(()),
        },
        JSONProcessingResultUnit::PartialURL(base) => match url_join_of(base@.0, base@.1, s) {
            Some(u) => Ok(ResultUnitView::URL(u)),
            None => Err(()),
        },
        JSONProcessingResultUnit::Base(url_base) => match url_parse_of(url_base@ + s) {
            Some(u) => Ok(ResultUnitView::URL(u)),
            None => Err(()),
        },
        JSONProcessingResultUnit::Str => Ok(ResultUnitView::Str(s)),
        JSONProcessingResultUnit::Parameter(url, name) => Ok(
            ResultUnitView::URL((url@.0, url@.1, url@.2.push((name@, s)))),
        ),
        JSONProcessingResultUnit::FormParameter(name) => Ok(
            ResultUnitView::FormParameter { name: name@, value: s },
        ),
    }
}

/// Shaping a whole capture set: every string shaped in order, or a URL
/// failure as soon as any one fails.
pub open spec fn spec_shape_all(ss: Seq<Seq<char>>, p: JSONProcessingResultUnit) -> Result<
    Seq<ResultUnitView>,
    (),
>
    decreases ss.len(),
{
    if ss.len() == 0 {
        Ok(Seq::empty())
    } else {
        match (spec_shape_all(ss.drop_last(), p), spec_shape(ss.last(), p)) {
            (Ok(front), Ok(u)) => Ok(front.push(u)),
            _ => Err(()),
        }
    }
}

/// A failing element makes the whole shaping fail.
proof fn lemma_shape_all_err(ss: Seq<Seq<char>>, p: JSONProcessingResultUnit, i: int)
    requires
        0 <= i < ss.len(),
        spec_shape(ss[i], p) is Err,
    ensures
        spec_shape_all(ss, p) is Err,
    decreases ss.len(),
{
    if i < ss.len() - 1 {
        lemma_shape_all_err(ss.drop_last(), p, i);
    }
}

impl ProcessingStep {
    /// Shapes one captured string into a typed result value; a string
    /// that should denote a URL but does not is a failure of that
    /// capture.
    pub fn string_to_processing_result(
        &self,
        string_result: String,
        proc_result_unit: &JSONProcessingResultUnit,
    ) -> (r: Result<ProcessingResultUnit, ProcessorError>)
        ensures
            r matches Ok(u) ==> spec_shape(string_result@, *proc_result_unit) == Ok::<_, ()>(u@),
            r is Err <==> spec_shape(string_result@, *proc_result_unit) is Err,
            r matches Err(e) ==> e matches ProcessorError::UrlParseError(_),
    {
        match proc_result_unit {
            JSONProcessingResultUnit::URL => {
                let u = parse_url(string_result.as_str())?;
                Ok(ProcessingResultUnit::URL(u))
            },
            JSONProcessingResultUnit::PartialURL(base) => {
                let u = join_url(base, string_result.as_str())?;
                Ok(ProcessingResultUnit::URL(u))
            },
            JSONProcessingResultUnit::Base(url_base) => {
                let full = url_base.clone().concat(string_result.as_str());
                let u = parse_url(full.as_str())?;
                Ok(ProcessingResultUnit::URL(u))
            },
            JSONProcessingResultUnit::Str => Ok(ProcessingResultUnit::Str(string_result)),
            JSONProcessingResultUnit::Parameter(url, name) => {
                let mut u = url.duplicate();
                u.append_query_pair(name.clone(), string_result);
                Ok(ProcessingResultUnit::URL(u))
            },
            JSONProcessingResultUnit::FormParameter(name) => Ok(
                ProcessingResultUnit::FormParameter { name: name.clone(), value: string_result },
            ),
        }
    }

    /// Shapes a whole capture set in order, failing on the first string a
    /// URL-producing rule rejects.
    fn shape_all(&self, strings: Vec<String>, proc_result_unit: &JSONProcessingResultUnit) -> (r:
        Result<Vec<ProcessingResultUnit>, ProcessorError>)
        ensures
            r matches Ok(units) ==> spec_shape_all(strings.deep_view(), *proc_result_unit)
                == Ok::<_, ()>(units.deep_view()),
            r is Err <==> spec_shape_all(strings.deep_view(), *proc_result_unit) is Err,
            r matches Err(e) ==> e matches ProcessorError::UrlParseError(_),
    {
        let ghost all = strings.deep_view();
        let mut units: Vec<ProcessingResultUnit> = Vec::new();
        let mut i: usize = 0;
        proof {
            assert(all.take(0) =~~= Seq::<Seq<char>>::empty());
            assert(units.deep_view() =~~= Seq::<ResultUnitView>::empty());
        }
        while i < strings.len()
            invariant
                i <= strings.len(),
                spec_shape_all(all.take(i as int), *proc_result_unit) == Ok::<_, ()>(
                    units.deep_view(),
                ),
            decreases strings.len() - i,
        {
            let s = strings[i].clone();
            let ghost prev = units.deep_view();
            match self.string_to_processing_result(s, proc_result_unit) {
                Ok(u) => {
                    let ghost uv = u@;
                    units.push(u);
                    proof {
                        assert(units.deep_view() =~~= prev.push(uv));
                    }
                },
                Err(e) => {
                    proof {
                        lemma_shape_all_err(all, *proc_result_unit, i as int);
                    }
                    return Err(e);
                },
            }
            i += 1;
            proof {
                assert(all.take(i as int).drop_last() =~~= all.take(i as int - 1));
                assert(spec_shape_all(all.take(i as int), *proc_result_unit) == Ok::<_, ()>(
                    units.deep_view(),
                ));
            }
        }
        proof {
            assert(all.take(strings.len() as int) =~~= all);
        }
        Ok(units)
    }
}

// ---------------------------------------------------------------------
// Structured-value lookup
// ---------------------------------------------------------------------

/// A structured document value: the engine's own shape for parsed
/// documents. A number keeps its literal text.
#[derive(Debug)]
pub enum JsonValue {
    Null,
    Bool(bool),
    Num(String),
    Str(String),
    Arr(Vec<JsonValue>),
    Obj(Vec<(String, JsonValue)>),
}

/// The text a boolean scalar is taken as.
pub open spec fn spec_bool_text(b: bool) -> Seq<char> {
    if b {
        seq!['t', 'r', 'u', 'e']
    } else {
        seq!['f', 'a', 'l', 's', 'e']
    }
}

/// Walking a lookup path over a value: the ordered scalars collected, or
/// a shape failure where a step meets a value of the wrong shape, a
/// missing field or index, or the path ends without a terminal take.
pub open spec fn spec_lookup(v: JsonValue, path: Seq<LookupBlock>, k: int) -> Result<
    Seq<Seq<char>>,
    (),
>
    decreases v, 0int, 0int,
{
    if k < 0 || k >= path.len() {
        Err(())
    } else {
        match path[k] {
            LookupBlock::Take => match v {
                JsonValue::Bool(b) => Ok(seq![spec_bool_text(b)]),
                JsonValue::Num(s) => Ok(seq![s@]),
                JsonValue::Str(s) => Ok(seq![s@]),
                _ => Err(()),
            },
            LookupBlock::Att(name) => match v {
                JsonValue::Obj(fields) => spec_lookup_obj(fields@, 0, name@, path, k),
                _ => Err(()),
            },
            LookupBlock::Pos(i) => match v {
                JsonValue::Arr(items) => if i < items@.len() {
                    spec_lookup(items@[i as int], path, k + 1)
                } else {
                    Err(())
                },
                _ => Err(()),
            },
            LookupBlock::Broadcast => match v {
                JsonValue::Arr(items) => spec_lookup_bcast(items@, 0, path, k + 1),
                _ => Err(()),
            },
        }
    }
}

/// The first field named `name`, looked up from position `j`: recurses
/// into its value, or fails where no such field exists.
pub open spec fn spec_lookup_obj(
    fields: Seq<(String, JsonValue)>,
    j: int,
    name: Seq<char>,
    path: Seq<LookupBlock>,
    k: int,
) -> Result<Seq<Seq<char>>, ()>
    decreases fields, 1int, fields.len() - j,
{
    if j < 0 || j >= fields.len() {
        Err(())
    } else if fields[j].0@ == name {
        spec_lookup(fields[j].1, path, k + 1)
    } else {
        spec_lookup_obj(fields, j + 1, name, path, k)
    }
}

/// The remaining path applied independently to every element from
/// position `j` on, collecting in element order; any failing element
/// fails the broadcast.
pub open spec fn spec_lookup_bcast(
    items: Seq<JsonValue>,
    j: int,
    path: Seq<LookupBlock>,
    k: int,
) -> Result<Seq<Seq<char>>, ()>
    decreases items, 1int, items.len() - j,
{
    if j < 0 {
        Err(())
    } else if j >= items.len() {
        Ok(Seq::empty())
    } else {
        match (spec_lookup(items[j], path, k), spec_lookup_bcast(items, j + 1, path, k)) {
            (Ok(first), Ok(rest)) => Ok(first + rest),
            _ => Err(()),
        }
    }
}

impl ProcessingStep {
    /// Walks a lookup path over a structured value, collecting the
    /// ordered scalars it reaches; a step whose expected shape does not
    /// match, or whose field or index is absent, fails that walk.
    pub fn parse_json_value(
        &self,
        cur_lookup: usize,
        value: &JsonValue,
        lookup_search: &Vec<LookupBlock>,
    ) -> (r: Result<Vec<String>, ProcessorError>)
        ensures
            r matches Ok(items) ==> spec_lookup(*value, lookup_search@, cur_lookup as int)
                == Ok::<_, ()>(items.deep_view()),
            r is Err <==> spec_lookup(*value, lookup_search@, cur_lookup as int) is Err,
            r matches Err(e) ==> e matches ProcessorError::ExtractionShapeError(_),
        decreases *value, 0int, 0int,
    {
        proof {
            reveal_strlit("true");
            reveal_strlit("false");
        }
        if cur_lookup >= lookup_search.len() {
            return Err(
                ProcessorError::ExtractionShapeError(
                    "lookup path ended without a terminal take".to_owned(),
                ),
            );
        }
        match (&lookup_search[cur_lookup], value) {
            (LookupBlock::Take, JsonValue::Bool(b)) => {
                let text = if *b {
                    "true".to_owned()
                } else {
                    "false".to_owned()
                };
                let r: Vec<String> = vec![text];
                proof {
                    assert(r.deep_view() =~~= seq![spec_bool_text(*b)]);
                }
                Ok(r)
            },
            (LookupBlock::Take, JsonValue::Num(s)) => {
                let r: Vec<String> = vec![s.clone()];
                proof {
                    assert(r.deep_view() =~~= seq![s@]);
                }
                Ok(r)
            },
            (LookupBlock::Take, JsonValue::Str(s)) => {
                let r: Vec<String> = vec![s.clone()];
                proof {
                    assert(r.deep_view() =~~= seq![s@]);
                }
                Ok(r)
            },
            (LookupBlock::Att(name), JsonValue::Obj(fields)) => self.lookup_obj(
                fields,
                0,
                name,
                lookup_search,
                cur_lookup,
            ),
            (LookupBlock::Pos(i), JsonValue::Arr(items)) => {
                if *i < items.len() {
                    self.parse_json_value(cur_lookup + 1, &items[*i], lookup_search)
                } else {
                    Err(
                        ProcessorError::ExtractionShapeError(
                            "array index out of range".to_owned(),
                        ),
                    )
                }
            },
            (LookupBlock::Broadcast, JsonValue::Arr(items)) => self.lookup_bcast(
                items,
                0,
                lookup_search,
                cur_lookup + 1,
            ),
            _ => Err(
                ProcessorError::ExtractionShapeError(
                    "value shape does not match the lookup step".to_owned(),
                ),
            ),
        }
    }

    /// Finds the first field with the given name and walks on into its
    /// value.
    fn lookup_obj(
        &self,
        fields: &Vec<(String, JsonValue)>,
        j: usize,
        name: &String,
        lookup_search: &Vec<LookupBlock>,
        cur_lookup: usize,
    ) -> (r: Result<Vec<String>, ProcessorError>)
        requires
            cur_lookup < lookup_search@.len(),
            cur_lookup < usize::MAX,
        ensures
            r matches Ok(items) ==> spec_lookup_obj(
                fields@,
                j as int,
                name@,
                lookup_search@,
                cur_lookup as int,
            ) == Ok::<_, ()>(items.deep_view()),
            r is Err <==> spec_lookup_obj(
                fields@,
                j as int,
                name@,
                lookup_search@,
                cur_lookup as int,
            ) is Err,
            r matches Err(e) ==> e matches ProcessorError::ExtractionShapeError(_),
        decreases fields@, 1int, fields@.len() - j,
    {
        if j >= fields.len() {
            Err(ProcessorError::ExtractionShapeError("object field is absent".to_owned()))
        } else if fields[j].0 == *name {
            self.parse_json_value(cur_lookup + 1, &fields[j].1, lookup_search)
        } else {
            self.lookup_obj(fields, j + 1, name, lookup_search, cur_lookup)
        }
    }

    /// Applies the remaining path to every element from `j` on,
    /// collecting in element order.
    fn lookup_bcast(
        &self,
        items: &Vec<JsonValue>,
        j: usize,
        lookup_search: &Vec<LookupBlock>,
        cur_lookup: usize,
    ) -> (r: Result<Vec<String>, ProcessorError>)
        ensures
            r matches Ok(collected) ==> spec_lookup_bcast(
                items@,
                j as int,
                lookup_search@,
                cur_lookup as int,
            ) == Ok::<_, ()>(collected.deep_view()),
            r is Err <==> spec_lookup_bcast(
                items@,
                j as int,
                lookup_search@,
                cur_lookup as int,
            ) is Err,
            r matches Err(e) ==> e matches ProcessorError::ExtractionShapeError(_),
        decreases items@, 1int, items@.len() - j,
    {
        if j >= items.len() {
            let r: Vec<String> = Vec::new();
            proof {
                assert(r.deep_view() =~~= Seq::<Seq<char>>::empty());
            }
            Ok(r)
        } else {
            let mut first = self.parse_json_value(cur_lookup, &items[j], lookup_search)?;
            let mut rest = self.lookup_bcast(items, j + 1, lookup_search, cur_lookup)?;
            let ghost first_view = first.deep_view();
            let ghost rest_view = rest.deep_view();
            first.append(&mut rest);
            proof {
                assert(first.deep_view() =~~= first_view + rest_view);
            }
            Ok(first)
        }
    }
}

// ---------------------------------------------------------------------
// Structured-document parsing (trusted)
// ---------------------------------------------------------------------

#[verifier::external_type_specification]
#[verifier::external_body]
pub struct ExJsonDocument(serde_json::Value);

/// Whether `text` parses as a structured document.
pub uninterp spec fn json_parses(text: Seq<char>) -> bool;

/// Relies on serde_json::Value's variants, moved one arm each into the
/// engine's own value shape; a number becomes its literal text.
#[verifier::external_body]
fn convert_json(v: serde_json::Value) -> JsonValue {
    match v {
        serde_json::Value::Null => JsonValue::Null,
        serde_json::Value::Bool(b) => JsonValue::Bool(b),
        serde_json::Value::Number(n) => JsonValue::Num(n.to_string()),
        serde_json::Value::String(s) => JsonValue::Str(s),
        serde_json::Value::Array(a) => JsonValue::Arr(a.into_iter().map(convert_json).collect()),
        serde_json::Value::Object(o) => JsonValue::Obj(
            o.into_iter().map(|(k, x)| (k, convert_json(x))).collect(),
        ),
    }
}

/// Relies on serde_json::from_str: whether a document parses depends on
/// the text alone. The parsed value itself carries no further promise:
/// whatever came back, the walk over it is verified.
#[verifier::external_body]
fn parse_json(text: &str) -> (r: Result<JsonValue, ()>)
    ensures
        r is Ok <==> json_parses(text@),
{
    match serde_json::from_str::<serde_json::Value>(text) {
        Ok(v) => Ok(convert_json(v)),
        Err(_) => Err(()),
    }
}

// ---------------------------------------------------------------------
// The path-lookup strategy
// ---------------------------------------------------------------------

/// Whether `r` is the outcome the path-lookup strategy owes for the
/// document value `doc`: the walked scalars shaped in order, a shape
/// failure, a URL failure, or an empty capture.
pub open spec fn json_value_outcome(
    r: ProcessingResult,
    doc: JsonValue,
    path: Seq<LookupBlock>,
    p: JSONProcessingResultUnit,
) -> bool {
    let looked = spec_lookup(doc, path, 0);
    &&& ((r matches Err(e) && e matches ProcessorError::ExtractionShapeError(_)) <==> looked
        is Err)
    &&& ((r matches Err(e) && e matches ProcessorError::UrlParseError(_)) <==> (looked matches
        Ok(ss) && spec_shape_all(ss, p) is Err))
    &&& ((r matches Err(e) && e matches ProcessorError::NothingToCaptureError) <==> (looked
        matches Ok(ss) && spec_shape_all(ss, p) is Ok && ss.len() == 0))
    &&& (r matches Ok(f) ==> {
        &&& looked matches Ok(ss)
        &&& ss.len() > 0
        &&& f matches FinishedProcessingResult::VectorResult(units)
        &&& Ok::<_, ()>(units.deep_view()) == spec_shape_all(ss, p)
    })
    &&& ((looked matches Ok(ss) && spec_shape_all(ss, p) is Ok && ss.len() > 0) ==> r is Ok)
}

impl ProcessingStep {
    /// The path-lookup strategy on an already-parsed document value.
    pub fn process_from_json_value(
        &self,
        doc: &JsonValue,
        lookup_search: &Vec<LookupBlock>,
        proc_result_unit: &JSONProcessingResultUnit,
    ) -> (r: ProcessingResult)
        ensures
            json_value_outcome(r, *doc, lookup_search@, *proc_result_unit),
    {
        let strings = match self.parse_json_value(0, doc, lookup_search) {
            Ok(ss) => ss,
            Err(e) => {
                return Err(e);
            },
        };
        let empty = strings.len() == 0;
        let units = self.shape_all(strings, proc_result_unit)?;
        if empty {
            Err(ProcessorError::NothingToCaptureError)
        } else {
            Ok(FinishedProcessingResult::VectorResult(units))
        }
    }

    /// The path-lookup strategy: parses the text as a structured document
    /// and walks the lookup path over it. A document that does not parse
    /// is rejected; whatever value the parser produced, the walk's
    /// outcome is owed for it.
    pub fn process_from_json(
        &self,
        text: &str,
        lookup_search: &Vec<LookupBlock>,
        proc_result_unit: &JSONProcessingResultUnit,
    ) -> (r: ProcessingResult)
        ensures
            (r matches Err(e) && e matches ProcessorError::JsonParseError(_)) <==> !json_parses(
                text@,
            ),
            json_parses(text@) ==> exists|doc: JsonValue|
                json_value_outcome(r, doc, lookup_search@, *proc_result_unit),
    {
        let doc = match parse_json(text) {
            Ok(d) => d,
            Err(()) => {
                return Err(
                    ProcessorError::JsonParseError("text is not a structured document".to_owned()),
                );
            },
        };
        let r = self.process_from_json_value(&doc, lookup_search, proc_result_unit);
        proof {
            assert(json_value_outcome(r, doc, lookup_search@, *proc_result_unit));
        }
        r
    }
}


// ---------------------------------------------------------------------
// The structured-markup strategy
// ---------------------------------------------------------------------

/// One selected node: its attributes in order and its concatenated text.
pub type NodeView = (Seq<(Seq<char>, Seq<char>)>, Seq<char>);

/// Whether the markup engine accepts the selector text.
pub uninterp spec fn selector_ok(selector: Seq<char>) -> bool;

/// The nodes the compiled selector selects in the parsed document, in
/// document order: each node's attributes (in the order the markup
/// engine keeps them) and its concatenated text content.
pub uninterp spec fn selected_nodes_of(html: Seq<char>, selector: Seq<char>) -> Seq<NodeView>;

/// Relies on scraper's Selector::parse, Html::parse_document and select:
/// each selected element is read back whole, attributes and text, in
/// document order; a pure function of document and selector.
#[verifier::external_body]
fn select_nodes(html: &str, selector: &str) -> (r: Result<
    Vec<(Vec<(String, String)>, String)>,
    (),
>)
    ensures
        r matches Ok(nodes) ==> selector_ok(selector@) && nodes.deep_view() == selected_nodes_of(
            html@,
            selector@,
        ),
        r is Err <==> !selector_ok(selector@),
{
    let sel = match scraper::Selector::parse(selector) {
        Ok(s) => s,
        Err(_) => return Err(()),
    };
    let doc = scraper::Html::parse_document(html);
    Ok(doc.select(&sel).map(
        |el| (
            el.value().attrs().map(|(k, v)| (k.to_string(), v.to_string())).collect(),
            el.text().collect::<String>(),
        ),
    ).collect())
}

/// The first attribute under `name`, in the order the node keeps them.
pub open spec fn spec_attr_of(attrs: Seq<(Seq<char>, Seq<char>)>, name: Seq<char>) -> Option<
    Seq<char>,
>
    decreases attrs.len(),
{
    if attrs.len() == 0 {
        None
    } else if attrs[0].0 == name {
        Some(attrs[0].1)
    } else {
        spec_attr_of(attrs.drop_first(), name)
    }
}

/// What one node contributes: a named attribute where the node has one,
/// or its text content.
pub open spec fn spec_node_text(node: NodeView, target: SelectorTarget) -> Option<Seq<char>> {
    match target {
        SelectorTarget::Attr(a) => spec_attr_of(node.0, a@),
        SelectorTarget::Text => Some(node.1),
    }
}

/// The strings the given nodes contribute in order; a node missing the
/// requested attribute is silently skipped.
pub open spec fn spec_captured(nodes: Seq<NodeView>, target: SelectorTarget) -> Seq<Seq<char>>
    decreases nodes.len(),
{
    if nodes.len() == 0 {
        Seq::empty()
    } else {
        let front = spec_captured(nodes.drop_last(), target);
        match spec_node_text(nodes.last(), target) {
            Some(s) => front.push(s),
            None => front,
        }
    }
}

/// The capture set of the markup strategy: the first so many selected
/// nodes, each read for the target.
pub open spec fn spec_html_strings(
    html: Seq<char>,
    selector: Seq<char>,
    cap: Capture,
    target: SelectorTarget,
) -> Seq<Seq<char>> {
    let nodes = selected_nodes_of(html, selector);
    let limit = if spec_cap(cap) < nodes.len() {
        spec_cap(cap) as int
    } else {
        nodes.len() as int
    };
    spec_captured(nodes.take(limit), target)
}

/// Whether `r` is the outcome the markup strategy owes: the capture set
/// shaped in order, a rejected selector, a URL failure, or an empty
/// capture.
pub open spec fn html_outcome(
    r: ProcessingResult,
    html: Seq<char>,
    selector: Seq<char>,
    cap: Capture,
    target: SelectorTarget,
    p: JSONProcessingResultUnit,
) -> bool {
    let ss = spec_html_strings(html, selector, cap, target);
    &&& ((r matches Err(e) && e matches ProcessorError::HtmlParserBuildError(_)) <==> !selector_ok(
        selector,
    ))
    &&& ((r matches Err(e) && e matches ProcessorError::UrlParseError(_)) <==> (selector_ok(
        selector,
    ) && spec_shape_all(ss, p) is Err))
    &&& ((r matches Err(e) && e matches ProcessorError::NothingToCaptureError) <==> (selector_ok(
        selector,
    ) && spec_shape_all(ss, p) is Ok && ss.len() == 0))
    &&& (r matches Ok(f) ==> {
        &&& selector_ok(selector)
        &&& ss.len() > 0
        &&& f matches FinishedProcessingResult::VectorResult(units)
        &&& Ok::<_, ()>(units.deep_view()) == spec_shape_all(ss, p)
    })
    &&& ((selector_ok(selector) && spec_shape_all(ss, p) is Ok && ss.len() > 0) ==> r is Ok)
}

/// The first attribute under the given name, read in order.
fn find_attr(attrs: &Vec<(String, String)>, name: &String) -> (r: Option<String>)
    ensures
        r matches Some(v) ==> spec_attr_of(attrs.deep_view(), name@) == Some(v@),
        r is None <==> spec_attr_of(attrs.deep_view(), name@) is None,
{
    let mut i: usize = 0;
    proof {
        assert(attrs.deep_view().skip(0) =~~= attrs.deep_view());
    }
    while i < attrs.len()
        invariant
            i <= attrs.len(),
            spec_attr_of(attrs.deep_view(), name@) == spec_attr_of(
                attrs.deep_view().skip(i as int),
                name@,
            ),
        decreases attrs.len() - i,
    {
        if attrs[i].0 == *name {
            proof {
                assert(attrs.deep_view().skip(i as int)[0] == attrs.deep_view()[i as int]);
            }
            return Some(attrs[i].1.clone());
        }
        i += 1;
        proof {
            assert(attrs.deep_view().skip(i as int - 1).drop_first() =~~= attrs.deep_view().skip(
                i as int,
            ));
        }
    }
    proof {
        assert(attrs.deep_view().skip(attrs.len() as int) =~~= Seq::<(Seq<char>, Seq<char>)>::empty());
    }
    None
}

/// Checks one selector against the markup engine, as configuration
/// loading does before any response arrives.
pub fn check_selector(selector: &String) -> (r: Result<(), ProcessorError>)
    ensures
        r is Ok <==> selector_ok(selector@),
        r matches Err(e) ==> e matches ProcessorError::HtmlParserBuildError(_),
{
    match select_nodes("", selector.as_str()) {
        Ok(_) => Ok(()),
        Err(()) => Err(ProcessorError::HtmlParserBuildError(selector.clone())),
    }
}

impl ProcessingStep {
    /// The markup strategy: parse the document, select nodes, take the
    /// first so many, read the target out of each, skip nodes missing a
    /// requested attribute, and shape what is left; an empty capture is
    /// reported as such.
    pub fn process_from_html(
        &self,
        html: &str,
        selector: &String,
        capture_elements: &Capture,
        selector_target: &SelectorTarget,
        proc_result_unit: &JSONProcessingResultUnit,
    ) -> (r: ProcessingResult)
        ensures
            html_outcome(
                r,
                html@,
                selector@,
                *capture_elements,
                *selector_target,
                *proc_result_unit,
            ),
    {
        let nodes = match select_nodes(html, selector.as_str()) {
            Ok(n) => n,
            Err(()) => {
                return Err(ProcessorError::HtmlParserBuildError(selector.clone()));
            },
        };
        let cap: usize = match capture_elements {
            Capture::Many(n) => *n,
            Capture::All => CAP_UNBOUNDED,
        };
        let limit: usize = if cap < nodes.len() {
            cap
        } else {
            nodes.len()
        };
        let ghost taken = nodes.deep_view().take(limit as int);
        let mut strings: Vec<String> = Vec::new();
        let mut i: usize = 0;
        proof {
            assert(taken.take(0) =~~= Seq::<NodeView>::empty());
            assert(strings.deep_view() =~~= Seq::<Seq<char>>::empty());
        }
        while i < limit
            invariant
                i <= limit,
                limit <= nodes.len(),
                strings.deep_view() =~~= spec_captured(taken.take(i as int), *selector_target),
            decreases limit - i,
        {
            match selector_target {
                SelectorTarget::Attr(a) => {
                    match find_attr(&nodes[i].0, a) {
                        Some(v) => strings.push(v),
                        None => {},
                    }
                },
                SelectorTarget::Text => {
                    strings.push(nodes[i].1.clone());
                },
            }
            i += 1;
            proof {
                assert(taken.take(i as int).drop_last() =~~= taken.take(i as int - 1));
                assert(taken.take(i as int).last() == nodes.deep_view()[i as int - 1]);
                assert(strings.deep_view() =~~= spec_captured(
                    taken.take(i as int),
                    *selector_target,
                ));
            }
        }
        proof {
            assert(taken.take(limit as int) =~~= taken);
            assert(strings.deep_view() =~~= spec_html_strings(
                html@,
                selector@,
                *capture_elements,
                *selector_target,
            ));
        }
        let empty = strings.len() == 0;
        let units = self.shape_all(strings, proc_result_unit)?;
        if empty {
            Err(ProcessorError::NothingToCaptureError)
        } else {
            Ok(FinishedProcessingResult::VectorResult(units))
        }
    }
}

// ---------------------------------------------------------------------
// The pattern strategy
// ---------------------------------------------------------------------

/// Whether the pattern engine accepts the pattern text.
pub uninterp spec fn pattern_ok(pattern: Seq<char>) -> bool;

/// The matches of the compiled pattern over the text, in match order:
/// per match, each capture group's text by group index (group zero is
/// the whole match), absent where the group took no part. A pure
/// function of pattern and text.
pub uninterp spec fn regex_captures_of(pattern: Seq<char>, text: Seq<char>) -> Seq<
    Seq<Option<Seq<char>>>,
>;

/// Relies on regex's Regex::new and captures_iter: every match's groups
/// are read back whole with Captures::get, in match order.
#[verifier::external_body]
fn regex_captures(pattern: &str, text: &str) -> (r: Result<Vec<Vec<Option<String>>>, ()>)
    ensures
        r matches Ok(ms) ==> pattern_ok(pattern@) && ms.deep_view() == regex_captures_of(
            pattern@,
            text@,
        ),
        r is Err <==> !pattern_ok(pattern@),
{
    let re = match regex::Regex::new(pattern) {
        Ok(re) => re,
        Err(_) => return Err(()),
    };
    Ok(re.captures_iter(text).map(
        |c| (0..c.len()).map(|g| c.get(g).map(|m| m.as_str().to_string())).collect(),
    ).collect())
}

/// What one group captured across all matches, in match order.
pub open spec fn spec_group_caps(ms: Seq<Seq<Option<Seq<char>>>>, g: int) -> Seq<Seq<char>>
    decreases ms.len(),
{
    if ms.len() == 0 {
        Seq::empty()
    } else {
        let front = spec_group_caps(ms.drop_last(), g);
        if 0 <= g < ms.last().len() {
            match ms.last()[g] {
                Some(s) => front.push(s),
                None => front,
            }
        } else {
            front
        }
    }
}

/// The captures of every configured group whose index lies below `g`,
/// ascending by group index, each group's values in match order.
pub open spec fn spec_regex_upto(
    ms: Seq<Seq<Option<Seq<char>>>>,
    groups: Seq<u8>,
    g: int,
) -> Seq<Seq<char>>
    decreases g,
{
    if g <= 0 {
        Seq::empty()
    } else {
        let front = spec_regex_upto(ms, groups, g - 1);
        if groups.contains((g - 1) as u8) {
            front + spec_group_caps(ms, g - 1)
        } else {
            front
        }
    }
}

/// The capture set of the pattern strategy: every configured group's
/// captures ordered by group index ascending, cut off by the
/// cardinality policy.
pub open spec fn spec_regex_strings(
    pattern: Seq<char>,
    text: Seq<char>,
    groups: Seq<u8>,
    cap: Capture,
) -> Seq<Seq<char>> {
    let all = spec_regex_upto(regex_captures_of(pattern, text), groups, 256);
    let limit = if spec_cap(cap) < all.len() {
        spec_cap(cap) as int
    } else {
        all.len() as int
    };
    all.take(limit)
}

/// Whether `r` is the outcome the pattern strategy owes.
pub open spec fn regex_outcome(
    r: ProcessingResult,
    text: Seq<char>,
    pattern: Seq<char>,
    groups: Seq<u8>,
    cap: Capture,
    p: JSONProcessingResultUnit,
) -> bool {
    let ss = spec_regex_strings(pattern, text, groups, cap);
    &&& ((r matches Err(e) && e matches ProcessorError::RegexBuildError(_)) <==> !pattern_ok(
        pattern,
    ))
    &&& ((r matches Err(e) && e matches ProcessorError::UrlParseError(_)) <==> (pattern_ok(pattern)
        && spec_shape_all(ss, p) is Err))
    &&& ((r matches Err(e) && e matches ProcessorError::NothingToCaptureError) <==> (pattern_ok(
        pattern,
    ) && spec_shape_all(ss, p) is Ok && ss.len() == 0))
    &&& (r matches Ok(f) ==> {
        &&& pattern_ok(pattern)
        &&& ss.len() > 0
        &&& f matches FinishedProcessingResult::VectorResult(units)
        &&& Ok::<_, ()>(units.deep_view()) == spec_shape_all(ss, p)
    })
    &&& ((pattern_ok(pattern) && spec_shape_all(ss, p) is Ok && ss.len() > 0) ==> r is Ok)
}

/// Whether the byte value `g` stands in the configured group list.
fn contains_group(groups: &Vec<u8>, g: u8) -> (r: bool)
    ensures
        r == groups@.contains(g),
{
    let mut i: usize = 0;
    while i < groups.len()
        invariant
            i <= groups.len(),
            forall|k: int| 0 <= k < i ==> groups@[k] != g,
        decreases groups.len() - i,
    {
        if groups[i] == g {
            return true;
        }
        i += 1;
    }
    false
}

/// Checks one pattern against the pattern engine, as configuration
/// loading does before any response arrives.
pub fn check_pattern(pattern: &String) -> (r: Result<(), ProcessorError>)
    ensures
        r is Ok <==> pattern_ok(pattern@),
        r matches Err(e) ==> e matches ProcessorError::RegexBuildError(_),
{
    match regex_captures(pattern.as_str(), "") {
        Ok(_) => Ok(()),
        Err(()) => Err(ProcessorError::RegexBuildError(pattern.clone())),
    }
}

impl ProcessingStep {
    /// The pattern strategy: run the compiled pattern over the text,
    /// collect each configured group's captures across all matches,
    /// order them by group index ascending, cut the set off by the
    /// cardinality policy and shape what is left.
    pub fn process_from_regex(
        &self,
        text: &str,
        regex: &String,
        groups: &Vec<u8>,
        capture: &Capture,
        proc_result_unit: &JSONProcessingResultUnit,
    ) -> (r: ProcessingResult)
        ensures
            regex_outcome(r, text@, regex@, groups@, *capture, *proc_result_unit),
    {
        let ms = match regex_captures(regex.as_str(), text) {
            Ok(m) => m,
            Err(()) => {
                return Err(ProcessorError::RegexBuildError(regex.clone()));
            },
        };
        let ghost msv = ms.deep_view();
        let mut collected: Vec<String> = Vec::new();
        let mut g: usize = 0;
        proof {
            assert(collected.deep_view() =~~= Seq::<Seq<char>>::empty());
        }
        while g < 256
            invariant
                g <= 256,
                collected.deep_view() =~~= spec_regex_upto(msv, groups@, g as int),
            decreases 256 - g,
        {
            if contains_group(groups, g as u8) {
                let ghost front = collected.deep_view();
                let mut m: usize = 0;
                proof {
                    assert(msv.take(0) =~~= Seq::<Seq<Option<Seq<char>>>>::empty());
                    assert(collected.deep_view() =~~= front + spec_group_caps(
                        msv.take(0),
                        g as int,
                    ));
                }
                while m < ms.len()
                    invariant
                        m <= ms.len(),
                        collected.deep_view() =~~= front + spec_group_caps(
                            msv.take(m as int),
                            g as int,
                        ),
                    decreases ms.len() - m,
                {
                    let ghost prevc = collected.deep_view();
                    if g < ms[m].len() {
                        match &ms[m][g] {
                            Some(s) => {
                                let ghost sv = s@;
                                collected.push(s.clone());
                                proof {
                                    assert(collected.deep_view() =~~= prevc.push(sv));
                                }
                            },
                            None => {},
                        }
                    }
                    m += 1;
                    proof {
                        assert(msv.take(m as int).drop_last() =~~= msv.take(m as int - 1));
                        assert(msv.take(m as int).last() == msv[m as int - 1]);
                        assert(collected.deep_view() =~~= front + spec_group_caps(
                            msv.take(m as int),
                            g as int,
                        ));
                    }
                }
                proof {
                    assert(msv.take(ms.len() as int) =~~= msv);
                }
            }
            g += 1;
            proof {
                assert(collected.deep_view() =~~= spec_regex_upto(msv, groups@, g as int));
            }
        }
        let cap: usize = match capture {
            Capture::Many(n) => *n,
            Capture::All => CAP_UNBOUNDED,
        };
        let limit: usize = if cap < collected.len() {
            cap
        } else {
            collected.len()
        };
        collected.truncate(limit);
        proof {
            assert(collected.deep_view() =~~= spec_regex_strings(
                regex@,
                text@,
                groups@,
                *capture,
            ));
        }
        let empty = collected.len() == 0;
        let units = self.shape_all(collected, proc_result_unit)?;
        if empty {
            Err(ProcessorError::NothingToCaptureError)
        } else {
            Ok(FinishedProcessingResult::VectorResult(units))
        }
    }
}

// ---------------------------------------------------------------------
// The common strategy surface
// ---------------------------------------------------------------------

/// Whether `r` is the outcome this step owes for this text, whatever the
/// step's strategy.
pub open spec fn step_outcome(r: ProcessingResult, step: ProcessingStep, text: Seq<char>) -> bool {
    match step {
        ProcessingStep::Html { selector, capture_elements, selector_target, proc_result, .. } =>
            html_outcome(r, text, selector@, capture_elements, selector_target, proc_result),
        ProcessingStep::Regex { regex, capture_elements, groups, proc_result, .. } => regex_outcome(
            r,
            text,
            regex@,
            groups@,
            capture_elements,
            proc_result,
        ),
        ProcessingStep::JSON { lookup_search, proc_result, .. } => {
            &&& ((r matches Err(e) && e matches ProcessorError::JsonParseError(_)) <==> !json_parses(
                text,
            ))
            &&& (json_parses(text) ==> exists|doc: JsonValue|
                json_value_outcome(r, doc, lookup_search@, proc_result))
        },
    }
}

/// The continuations fed with a step's values.
pub open spec fn spec_next_steps(step: ProcessingStep) -> Vec<NextProcessingStep> {
    match step {
        ProcessingStep::Html { next_steps, .. } => next_steps,
        ProcessingStep::Regex { next_steps, .. } => next_steps,
        ProcessingStep::JSON { next_steps, .. } => next_steps,
    }
}

impl ProcessingStep {
    /// Runs this step's strategy over response text.
    pub fn process_string_result(&self, text: &str) -> (r: ProcessingResult)
        ensures
            step_outcome(r, *self, text@),
            r matches Err(e) ==> !(e matches ProcessorError::AuthenticationError(_)),
    {
        match self {
            ProcessingStep::Html {
                selector,
                capture_elements,
                selector_target,
                proc_result,
                next_steps: _,
            } => self.process_from_html(text, selector, capture_elements, selector_target, proc_result),
            ProcessingStep::Regex {
                regex,
                groups,
                capture_elements,
                proc_result,
                next_steps: _,
            } => self.process_from_regex(text, regex, groups, capture_elements, proc_result),
            ProcessingStep::JSON { lookup_search, next_steps: _, proc_result } => self
                .process_from_json(text, lookup_search, proc_result),
        }
    }

    /// Runs this step's strategy over a materialized response, which must
    /// hold text.
    pub fn process(&self, resp: &Resp) -> (r: ProcessingResult)
        requires
            resp matches Resp::RespText(_),
        ensures
            resp matches Resp::RespText(text) ==> step_outcome(
                r,
                *self,
                text@,
            ),
            r matches Err(e) ==> !(e matches ProcessorError::AuthenticationError(_)),
    {
        match resp {
            Resp::RespText(text) => self.process_string_result(text.as_str()),
            _ => {
                proof {
                    assert(false);
                }
                Err(ProcessorError::NothingToCaptureError)
            },
        }
    }

    /// The continuations fed with this step's values.
    pub fn next_steps(&self) -> (r: &Vec<NextProcessingStep>)
        ensures
            *r == spec_next_steps(*self),
    {
        match self {
            ProcessingStep::Html { next_steps, .. } => next_steps,
            ProcessingStep::Regex { next_steps, .. } => next_steps,
            ProcessingStep::JSON { next_steps, .. } => next_steps,
        }
    }
}

} // verus!
