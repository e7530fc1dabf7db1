//! The authentication chain: a linear recursive sequence of requests run
//! before a job exists. Each step issues one request over the in-progress
//! transport handle; a non-success status is fatal to the whole chain. A
//! step may harvest form fields out of its response, which the next
//! step's outgoing form inherits. Issuing the request is the caller's
//! work; every decision in between is verified here.

use vstd::prelude::*;
use crate::errors::ProcessorError;
use crate::parser::{
    FinishedProcessingResult, ProcessingResult, ProcessingResultUnit, ProcessingStep,
    ResultUnitView, step_outcome,
};
use crate::scraper_job::HTTPMethod;
use crate::url_parts::UrlParts;

verus! {

/// What follows a successful step: the session stands, or another step
/// runs over the same handle.
#[derive(Debug)]
pub enum AuthResultJSON {
    ClientSession,
    NextStep(Box<AuthJob>),
}

/// One step of an authentication chain.
#[derive(Debug)]
pub struct AuthJob {
    pub headers: Vec<(String, String)>,
    pub request_url: UrlParts,
    pub http_method: HTTPMethod,
    pub request_form: Vec<(String, String)>,
    pub proc_step: Option<ProcessingStep>,
    pub action: AuthResultJSON,
}

/// What one advanced step asks its runner to do: hand back the
/// authenticated handle, or run the next step.
pub enum AuthOutcome {
    SessionEstablished,
    Continue(Box<AuthJob>),
}

/// The form with `name` set to `value`: the first pair under that name is
/// replaced, or the pair appended where none exists.
pub open spec fn spec_insert(
    form: Seq<(Seq<char>, Seq<char>)>,
    name: Seq<char>,
    value: Seq<char>,
) -> Seq<(Seq<char>, Seq<char>)>
    decreases form.len(),
{
    if form.len() == 0 {
        seq![(name, value)]
    } else if form[0].0 == name {
        seq![(name, value)] + form.drop_first()
    } else {
        seq![form[0]] + spec_insert(form.drop_first(), name, value)
    }
}

/// Inserting a pair whose name is absent appends it.
proof fn lemma_insert_absent(
    form: Seq<(Seq<char>, Seq<char>)>,
    name: Seq<char>,
    value: Seq<char>,
)
    requires
        forall|k: int| 0 <= k < form.len() ==> form[k].0 != name,
    ensures
        spec_insert(form, name, value) == form.push((name, value)),
    decreases form.len(),
{
    if form.len() == 0 {
        assert(spec_insert(form, name, value) =~= form.push((name, value)));
    } else {
        lemma_insert_absent(form.drop_first(), name, value);
        assert(spec_insert(form, name, value) =~= form.push((name, value)));
    }
}

/// Inserting a pair whose name first occurs at `i` replaces that pair.
proof fn lemma_insert_found(
    form: Seq<(Seq<char>, Seq<char>)>,
    i: int,
    name: Seq<char>,
    value: Seq<char>,
)
    requires
        0 <= i < form.len(),
        form[i].0 == name,
        forall|k: int| 0 <= k < i ==> form[k].0 != name,
    ensures
        spec_insert(form, name, value) == form.update(i, (name, value)),
    decreases form.len(),
{
    if i == 0 {
        assert(spec_insert(form, name, value) =~= form.update(0, (name, value)));
    } else {
        lemma_insert_found(form.drop_first(), i - 1, name, value);
        assert(spec_insert(form, name, value) =~= form.update(i, (name, value)));
    }
}

/// Whether every unit is a named form parameter: the only result kind an
/// authentication step may harvest.
pub open spec fn all_form_parameters(us: Seq<ResultUnitView>) -> bool {
    forall|i: int| #![trigger us[i]] 0 <= i < us.len() ==> us[i] matches ResultUnitView::FormParameter { .. }
}

/// One harvested unit folded into a form.
pub open spec fn spec_insert_unit(
    form: Seq<(Seq<char>, Seq<char>)>,
    u: ResultUnitView,
) -> Seq<(Seq<char>, Seq<char>)> {
    match u {
        ResultUnitView::FormParameter { name, value } => spec_insert(form, name, value),
        _ => form,
    }
}

/// Every harvested unit folded into a form, in order.
pub open spec fn spec_merge(
    form: Seq<(Seq<char>, Seq<char>)>,
    us: Seq<ResultUnitView>,
) -> Seq<(Seq<char>, Seq<char>)>
    decreases us.len(),
{
    if us.len() == 0 {
        form
    } else {
        spec_merge(spec_insert_unit(form, us[0]), us.drop_first())
    }
}

/// The decision one step owes once its extraction results are in hand:
/// the session stands as configured; or the next step continues, its
/// outgoing form inheriting every harvested form parameter and nothing
/// else changed; a harvested result of any other kind is a pairing error.
pub open spec fn advance_outcome(
    a: AuthJob,
    results: Option<Seq<ResultUnitView>>,
    r: Result<AuthOutcome, ProcessorError>,
) -> bool {
    match a.action {
        AuthResultJSON::ClientSession => r matches Ok(o) && o is SessionEstablished,
        AuthResultJSON::NextStep(step) => match results {
            None => r matches Ok(o) && o matches AuthOutcome::Continue(s) && *s == *step,
            Some(us) => if all_form_parameters(us) {
                r matches Ok(o) && o matches AuthOutcome::Continue(s)
                    && s.request_form.deep_view() == spec_merge(step.request_form.deep_view(), us)
                    && s.headers == step.headers && s.request_url == step.request_url
                    && s.http_method == step.http_method && s.proc_step == step.proc_step
                    && s.action == step.action
            } else {
                r matches Err(e) && e matches ProcessorError::PairingError(_)
            },
        },
    }
}

impl AuthJob {
    /// Sets one form pair, replacing the first pair under that name or
    /// appending a new one.
    fn set_form_pair(&mut self, name: String, value: String)
        ensures
            final(self).headers == old(self).headers,
            final(self).request_url == old(self).request_url,
            final(self).http_method == old(self).http_method,
            final(self).proc_step == old(self).proc_step,
            final(self).action == old(self).action,
            final(self).request_form.deep_view() == spec_insert(
                old(self).request_form.deep_view(),
                name@,
                value@,
            ),
    {
        let ghost orig = self.request_form.deep_view();
        let n = self.request_form.len();
        let mut i: usize = 0;
        while i < n
            invariant
                n == self.request_form.len(),
                i <= n,
                *self == *old(self),
                forall|k: int| 0 <= k < i ==> self.request_form.deep_view()[k].0 != name@,
            decreases n - i,
        {
            if self.request_form[i].0 == name {
                let mut rebuilt: Vec<(String, String)> = Vec::new();
                let mut k: usize = 0;
                while k < n
                    invariant
                        n == self.request_form.len(),
                        i < n,
                        k <= n,
                        self.request_form.deep_view()[i as int].0 == name@,
                        rebuilt.deep_view() =~~= self.request_form.deep_view().update(
                            i as int,
                            (name@, value@),
                        ).take(k as int),
                    decreases n - k,
                {
                    if k == i {
                        rebuilt.push((name.clone(), value.clone()));
                    } else {
                        let pair = (
                            self.request_form[k].0.clone(),
                            self.request_form[k].1.clone(),
                        );
                        rebuilt.push(pair);
                    }
                    k += 1;
                }
                proof {
                    lemma_insert_found(orig, i as int, name@, value@);
                    assert(rebuilt.deep_view() =~~= orig.update(i as int, (name@, value@)));
                }
                self.request_form = rebuilt;
                return ;
            }
            i += 1;
        }
        proof {
            lemma_insert_absent(orig, name@, value@);
        }
        self.request_form.push((name, value));
        proof {
            assert(self.request_form.deep_view() =~~= orig.push((name@, value@)));
        }
    }

    /// Merges harvested form parameters into this step's outgoing form;
    /// any other result kind is a configuration error and leaves the form
    /// unchanged.
    pub fn inherit(&mut self, maybe_proc_results: Option<Vec<ProcessingResultUnit>>) -> (r: Result<
        (),
        ProcessorError,
    >)
        ensures
            final(self).headers == old(self).headers,
            final(self).request_url == old(self).request_url,
            final(self).http_method == old(self).http_method,
            final(self).proc_step == old(self).proc_step,
            final(self).action == old(self).action,
            maybe_proc_results is None ==> r is Ok && final(self).request_form == old(self).request_form,
            maybe_proc_results matches Some(us) ==> {
                &&& (r is Ok <==> all_form_parameters(us.deep_view()))
                &&& (r is Ok ==> final(self).request_form.deep_view() == spec_merge(
                    old(self).request_form.deep_view(),
                    us.deep_view(),
                ))
                &&& (r matches Err(e) ==> e matches ProcessorError::PairingError(_) && final(self).request_form == old(self).request_form)
            },
    {
        let units = match maybe_proc_results {
            None => {
                return Ok(());
            },
            Some(us) => us,
        };
        let mut i: usize = 0;
        while i < units.len()
            invariant
                i <= units.len(),
                forall|k: int| #![trigger units.deep_view()[k]] 0 <= k < i
                    ==> units.deep_view()[k] matches ResultUnitView::FormParameter { .. },
            decreases units.len() - i,
        {
            match &units[i] {
                ProcessingResultUnit::FormParameter { .. } => {},
                _ => {
                    proof {
                        assert(!(units.deep_view()[i as int] matches
                            ResultUnitView::FormParameter { .. }));
                    }
                    return Err(
                        ProcessorError::PairingError(
                            "an authentication step may harvest only form parameters".to_owned(),
                        ),
                    );
                },
            }
            i += 1;
        }
        let ghost all = units.deep_view();
        let mut j: usize = 0;
        proof {
            assert(all.skip(0) =~~= all);
        }
        while j < units.len()
            invariant
                j <= units.len(),
                all == units.deep_view(),
                all_form_parameters(all),
                self.headers == old(self).headers,
                self.request_url == old(self).request_url,
                self.http_method == old(self).http_method,
                self.proc_step == old(self).proc_step,
                self.action == old(self).action,
                spec_merge(self.request_form.deep_view(), all.skip(j as int)) == spec_merge(
                    old(self).request_form.deep_view(),
                    all,
                ),
            decreases units.len() - j,
        {
            match &units[j] {
                ProcessingResultUnit::FormParameter { name, value } => {
                    let ghost before = self.request_form.deep_view();
                    let ghost nv = name@;
                    let ghost vv = value@;
                    self.set_form_pair(name.clone(), value.clone());
                    proof {
                        assert(all.skip(j as int).drop_first() =~~= all.skip(j as int + 1));
                        assert(all.skip(j as int)[0] == all[j as int]);
                        assert(all[j as int] matches ResultUnitView::FormParameter { name, value }
                            && name == nv && value == vv);
                        assert(self.request_form.deep_view() == spec_insert_unit(
                            before,
                            all[j as int],
                        ));
                    }
                },
                _ => {
                    proof {
                        assert(false);
                    }
                },
            }
            j += 1;
        }
        proof {
            assert(all.skip(units.len() as int) =~~= Seq::<ResultUnitView>::empty());
        }
        Ok(())
    }

    /// Decides one step of the chain once its extraction results are in
    /// hand: the session stands, or the next step runs with the harvested
    /// form fields merged into its outgoing form.
    pub fn advance_with_results(self, results: Option<Vec<ProcessingResultUnit>>) -> (r: Result<
        AuthOutcome,
        ProcessorError,
    >)
        ensures
            advance_outcome(
                self,
                match results {
                    Some(us) => Some(us.deep_view()),
                    None => None,
                },
                r,
            ),
    {
        match self.action {
            AuthResultJSON::ClientSession => Ok(AuthOutcome::SessionEstablished),
            AuthResultJSON::NextStep(step) => {
                let mut next = step;
                match next.inherit(results) {
                    Ok(()) => Ok(AuthOutcome::Continue(next)),
                    Err(e) => Err(e),
                }
            },
        }
    }

    /// Decides one step of the chain from the transport's report: a
    /// non-success status is fatal to the whole chain; on success the
    /// optional extraction step harvests form fields out of the response
    /// text, and the action decides whether the session stands or the
    /// next step runs with those fields inherited.
    pub fn advance(self, status_success: bool, response_text: Option<&str>) -> (r: Result<
        AuthOutcome,
        ProcessorError,
    >)
        ensures
            !status_success <==> (r matches Err(e) && e matches
                ProcessorError::AuthenticationError(_)),
            status_success && (self.proc_step is None || response_text is None)
                ==> advance_outcome(self, None, r),
            status_success ==> (self.proc_step matches Some(proc) ==> (response_text matches
                Some(text) ==> exists|pr: ProcessingResult| {
                &&& #[trigger] step_outcome(pr, proc, text@)
                &&& match pr {
                    Err(e) => r matches Err(kept) && kept == e,
                    Ok(FinishedProcessingResult::VectorResult(v)) => advance_outcome(
                        self,
                        Some(v.deep_view()),
                        r,
                    ),
                    Ok(FinishedProcessingResult::NothingRequired) => advance_outcome(
                        self,
                        None,
                        r,
                    ),
                }
            })),
    {
        if !status_success {
            return Err(ProcessorError::AuthenticationError("cannot authenticate".to_owned()));
        }
        let results: Option<Vec<ProcessingResultUnit>> = match (&self.proc_step, response_text) {
            (Some(proc), Some(text)) => {
                let pr = proc.process_string_result(text);
                let ghost gpr = pr;
                proof {
                    assert(self.proc_step matches Some(p2) && response_text matches Some(t2)
                        && step_outcome(gpr, p2, t2@));
                }
                match pr {
                    Ok(FinishedProcessingResult::VectorResult(res)) => {
                        proof {
                            assert(gpr matches Ok(f) && f matches
                                FinishedProcessingResult::VectorResult(v) && v.deep_view()
                                == res.deep_view());
                        }
                        Some(res)
                    },
                    Ok(FinishedProcessingResult::NothingRequired) => None,
                    Err(e) => {
                        return Err(e);
                    },
                }
            },
            _ => None,
        };
        self.advance_with_results(results)
    }
}

} // verus!
