//! The request plan: one request descriptor per dynamic value, produced
//! lazily so a bounded consumer can take a prefix without materializing
//! the whole sequence. Each descriptor is the base URL with the job's
//! default parameters appended and the current dynamic value applied.

use vstd::prelude::*;
use crate::errors::ProcessorError;
use crate::scraper_job::{
    DynParamsIterator, DynamicParameters, HTTPParameterType, ScraperJob, spec_values,
    spec_values_target,
};
use crate::url_parts::{UrlParts, UrlView};

verus! {

/// One request descriptor: the base URL with the defaults appended as
/// query pairs, and the dynamic value (where one exists) applied either
/// as one more query pair or as a literal path suffix.
pub open spec fn spec_descriptor(
    base: UrlView,
    defaults: Seq<(Seq<char>, Seq<char>)>,
    target: Option<(bool, Seq<char>)>,
    value: Option<Seq<char>>,
) -> UrlView {
    match (target, value) {
        (Some(t), Some(v)) => if t.0 {
            (base.0, base.1 + t.1 + v, base.2 + defaults)
        } else {
            (base.0, base.1, base.2 + defaults + seq![(t.1, v)])
        },
        _ => (base.0, base.1, base.2 + defaults),
    }
}

/// A lazy cursor over a job's request descriptors for one base URL. Its
/// view is the sequence of descriptors not yet produced: one per
/// remaining dynamic value, or exactly one where no parameter spec is
/// configured.
pub struct ScraperIterator<'a> {
    pub dyn_params: Option<DynParamsIterator>,
    pub scraper: &'a ScraperJob,
    pub single_pending: bool,
    pub url: Option<UrlParts>,
}

impl View for ScraperIterator<'_> {
    type V = Seq<UrlView>;

    open spec fn view(&self) -> Seq<UrlView> {
        match self.url {
            None => Seq::empty(),
            Some(u) => match self.dyn_params {
                Some(it) => Seq::new(
                    it@.len(),
                    |i: int|
                        spec_descriptor(
                            u@,
                            self.scraper.default_parameters.deep_view(),
                            Some(it.target_view()),
                            Some(it@[i]),
                        ),
                ),
                None => if self.single_pending {
                    seq![
                        spec_descriptor(
                            u@,
                            self.scraper.default_parameters.deep_view(),
                            None,
                            None,
                        ),
                    ]
                } else {
                    Seq::empty()
                },
            },
        }
    }
}

impl<'a> ScraperIterator<'a> {
    /// The cursor's internal consistency.
    pub open spec fn wf(&self) -> bool {
        match self.dyn_params {
            Some(it) => it.wf(),
            None => true,
        }
    }

    /// A cursor over the job's descriptors, not yet aimed at a base URL:
    /// it produces nothing until one is set.
    pub fn new(dyn_params: Option<DynParamsIterator>, scraper: &'a ScraperJob) -> (r:
        ScraperIterator<'a>)
        requires
            dyn_params matches Some(it) ==> it.wf(),
        ensures
            r.wf(),
            r.dyn_params == dyn_params,
            r.scraper == scraper,
            r.single_pending,
            r.url is None,
            r@ == Seq::<UrlView>::empty(),
    {
        ScraperIterator { dyn_params, scraper, single_pending: true, url: None }
    }

    /// Aims the cursor at a base URL.
    pub fn with_url(self, url: &UrlParts) -> (r: ScraperIterator<'a>)
        ensures
            r.dyn_params == self.dyn_params,
            r.scraper == self.scraper,
            r.single_pending == self.single_pending,
            r.url matches Some(u) && u@ == url@,
            self.wf() ==> r.wf(),
    {
        ScraperIterator {
            dyn_params: self.dyn_params,
            scraper: self.scraper,
            single_pending: self.single_pending,
            url: Some(url.duplicate()),
        }
    }

    /// Produces the next request descriptor: the base URL with every
    /// default parameter appended and the current dynamic value applied.
    /// No transport is touched here.
    pub fn next(&mut self) -> (r: Option<UrlParts>)
        requires
            old(self).wf(),
        ensures
            final(self).wf(),
            old(self)@.len() == 0 ==> r is None && final(self)@ == old(self)@,
            old(self)@.len() > 0 ==> {
                &&& r matches Some(u) && u@ == old(self)@[0]
                &&& final(self)@ == old(self)@.drop_first()
            },
    {
        let base = match &self.url {
            Some(u) => u.duplicate(),
            None => {
                return None;
            },
        };
        let mut descriptor = self.scraper.new_url_with_defaults(&base);
        match &mut self.dyn_params {
            Some(it) => {
                let target = it.target().duplicate();
                let value = match it.next() {
                    Some(v) => v,
                    None => {
                        proof {
                            assert(self@ =~~= old(self)@);
                        }
                        return None;
                    },
                };
                match target {
                    HTTPParameterType::Name(param_name) => {
                        descriptor.append_query_pair(param_name, value);
                    },
                    HTTPParameterType::Suffix(suffix) => {
                        descriptor.append_path_suffix(suffix.as_str(), value.as_str());
                    },
                }
                proof {
                    assert(descriptor@.2 =~~= old(self)@[0].2);
                    assert(descriptor@ == old(self)@[0]);
                    assert(self@ =~~= old(self)@.drop_first());
                }
                Some(descriptor)
            },
            None => {
                if self.single_pending {
                    self.single_pending = false;
                    proof {
                        assert(descriptor@.2 =~~= old(self)@[0].2);
                        assert(descriptor@ == old(self)@[0]);
                        assert(self@ =~~= old(self)@.drop_first());
                    }
                    Some(descriptor)
                } else {
                    None
                }
            },
        }
    }
}


/// A plan aimed at a base URL yields exactly one descriptor per dynamic
/// value — or exactly one where no parameter spec is configured — and
/// each descriptor is the base with every default pair appended and that
/// one value applied.
pub proof fn lemma_plan_shape(it: ScraperIterator<'_>, base: UrlParts)
    requires
        it.url == Some(base),
    ensures
        it.dyn_params matches Some(dp) ==> {
            &&& it@.len() == dp@.len()
            &&& forall|i: int| 0 <= i < it@.len() ==> #[trigger] it@[i] == spec_descriptor(
                base@,
                it.scraper.default_parameters.deep_view(),
                Some(dp.target_view()),
                Some(dp@[i]),
            )
        },
        (it.dyn_params is None && it.single_pending) ==> it@ == seq![
            spec_descriptor(base@, it.scraper.default_parameters.deep_view(), None, None),
        ],
{
}

impl ScraperJob {
    /// A fresh cursor over this job's request plan; rejects a parameter
    /// spec that could generate no finite sequence.
    pub fn iter(&self) -> (r: Result<ScraperIterator<'_>, ProcessorError>)
        ensures
            r matches Ok(it) ==> {
                &&& it.wf()
                &&& it.scraper == self
                &&& it.single_pending
                &&& it.url is None
                &&& (self.dynamic_parameters is None ==> it.dyn_params is None)
                &&& (self.dynamic_parameters matches Some(d) ==> it.dyn_params matches Some(dp)
                    && dp@ == spec_values(d) && dp.target_view() == spec_values_target(d))
            },
            r is Err <==> (self.dynamic_parameters matches Some(d) && d matches
                DynamicParameters::IntRange { step: 0, .. }),
            r matches Err(e) ==> e matches ProcessorError::ConfigError(_),
    {
        match &self.dynamic_parameters {
            None => Ok(ScraperIterator::new(None, self)),
            Some(d) => {
                let dp = DynParamsIterator::new(d)?;
                Ok(ScraperIterator::new(Some(dp), self))
            },
        }
    }
}

} // verus!
