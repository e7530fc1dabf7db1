//! Request URLs, modeled by their parts: everything before the path
//! (scheme and authority), the path, and the decoded query pairs in order.
//!
//! Building query pairs and path suffixes onto a URL is the engine's own
//! logic and is verified here; parsing text into a URL and resolving a
//! relative reference against a base are the url crate's work and stand
//! behind trusted wrappers.

use vstd::prelude::*;
use vstd::string::StringExecFns;
use crate::errors::ProcessorError;

verus! {

/// The mathematical shape of a URL: scheme and authority, path, and the
/// decoded query pairs in order.
pub type UrlView = (Seq<char>, Seq<char>, Seq<(Seq<char>, Seq<char>)>);

/// A request URL. `scheme_host` holds everything before the path
/// (`https://example.com:8080`), `path` the absolute path (`/a/b`), and
/// `query` the decoded query pairs in order.
#[derive(Debug, Clone)]
pub struct UrlParts {
    pub scheme_host: String,
    pub path: String,
    pub query: Vec<(String, String)>,
}

impl View for UrlParts {
    type V = UrlView;

    open spec fn view(&self) -> UrlView {
        (self.scheme_host@, self.path@, self.query.deep_view())
    }
}

impl UrlParts {
    /// Assembles a URL from its parts.
    pub fn new(scheme_host: String, path: String, query: Vec<(String, String)>) -> (r: UrlParts)
        ensures
            r@ == (scheme_host@, path@, query.deep_view()),
    {
        UrlParts { scheme_host, path, query }
    }

    /// Appends one decoded query pair, keeping everything else.
    pub fn append_query_pair(&mut self, name: String, value: String)
        ensures
            final(self)@.0 == old(self)@.0,
            final(self)@.1 == old(self)@.1,
            final(self)@.2 == old(self)@.2.push((name@, value@)),
    {
        self.query.push((name, value));
        proof {
            assert(self.query.deep_view() =~~= old(self).query.deep_view().push((name@, value@)));
        }
    }

    /// An exact copy, sharing nothing with the original.
    pub fn duplicate(&self) -> (r: UrlParts)
        ensures
            r@ == self@,
    {
        let mut r = UrlParts {
            scheme_host: self.scheme_host.clone(),
            path: self.path.clone(),
            query: Vec::new(),
        };
        let mut i: usize = 0;
        while i < self.query.len()
            invariant
                i <= self.query.len(),
                r@.0 == self@.0,
                r@.1 == self@.1,
                r@.2 =~~= self@.2.subrange(0, i as int),
            decreases self.query.len() - i,
        {
            let name = self.query[i].0.clone();
            let value = self.query[i].1.clone();
            r.append_query_pair(name, value);
            i += 1;
            proof {
                assert(r@.2 =~~= self@.2.subrange(0, i as int));
            }
        }
        proof {
            assert(r@.2 =~~= self@.2);
            assert(r@ == self@);
        }
        r
    }

    /// Appends every given pair in order, keeping everything else.
    pub fn append_query_pairs(&mut self, pairs: &Vec<(String, String)>)
        ensures
            final(self)@.0 == old(self)@.0,
            final(self)@.1 == old(self)@.1,
            final(self)@.2 == old(self)@.2 + pairs.deep_view(),
    {
        let ghost orig = self@;
        let mut i: usize = 0;
        while i < pairs.len()
            invariant
                i <= pairs.len(),
                self@.0 == orig.0,
                self@.1 == orig.1,
                self@.2 =~~= orig.2 + pairs.deep_view().subrange(0, i as int),
            decreases pairs.len() - i,
        {
            let name = pairs[i].0.clone();
            let value = pairs[i].1.clone();
            self.append_query_pair(name, value);
            i += 1;
            proof {
                assert(self@.2 =~~= orig.2 + pairs.deep_view().subrange(0, i as int));
            }
        }
        proof {
            assert(self@.2 =~~= old(self)@.2 + pairs.deep_view());
        }
    }

    /// Concatenates a literal suffix and a value onto the path, keeping
    /// everything else: the "suffix" way of applying a dynamic parameter.
    pub fn append_path_suffix(&mut self, suffix: &str, value: &str)
        ensures
            final(self)@.0 == old(self)@.0,
            final(self)@.1 == old(self)@.1 + suffix@ + value@,
            final(self)@.2 == old(self)@.2,
    {
        self.path.append(suffix);
        self.path.append(value);
    }
}

/// What url::Url::parse yields on `s`, decomposed into scheme and
/// authority, path, and decoded query pairs; `None` where the text does
/// not parse as an absolute URL that can serve as a base.
pub uninterp spec fn url_parse_of(s: Seq<char>) -> Option<UrlView>;

/// Relies on url::Url::parse, whose outcome depends on the text alone;
/// the parts are read back with url::Position slicing, Url::path and
/// Url::query_pairs.
#[verifier::external_body]
pub(crate) fn parse_url(s: &str) -> (r: Result<UrlParts, ProcessorError>)
    ensures
        r matches Ok(u) ==> url_parse_of(s@) == Some(u@),
        r is Err <==> url_parse_of(s@) is None,
        r matches Err(e) ==> e matches ProcessorError::UrlParseError(_),
{
    let u = url::Url::parse(s).map_err(|e| ProcessorError::UrlParseError(e.to_string()))?;
    if u.cannot_be_a_base() {
        return Err(ProcessorError::UrlParseError(s.to_string()));
    }
    Ok(UrlParts {
        scheme_host: u[..url::Position::BeforePath].to_string(),
        path: u.path().to_string(),
        query: u.query_pairs().into_owned().collect(),
    })
}

/// What url::Url::join yields for the relative reference `rel` against the
/// base assembled from `scheme_host` and `path`, decomposed as by
/// `url_parse_of`; the base's own query takes no part in resolution.
pub uninterp spec fn url_join_of(scheme_host: Seq<char>, path: Seq<char>, rel: Seq<char>) -> Option<UrlView>;

/// Relies on url::Url::join on a base rebuilt from the URL's scheme,
/// authority and path; the outcome depends on those parts and the
/// reference text alone.
#[verifier::external_body]
pub(crate) fn join_url(base: &UrlParts, rel: &str) -> (r: Result<UrlParts, ProcessorError>)
    ensures
        r matches Ok(u) ==> url_join_of(base@.0, base@.1, rel@) == Some(u@),
        r is Err <==> url_join_of(base@.0, base@.1, rel@) is None,
        r matches Err(e) ==> e matches ProcessorError::UrlParseError(_),
{
    let b = url::Url::parse(&format!("{}{}", base.scheme_host, base.path))
        .map_err(|e| ProcessorError::UrlParseError(e.to_string()))?;
    let u = b.join(rel).map_err(|e| ProcessorError::UrlParseError(e.to_string()))?;
    if u.cannot_be_a_base() {
        return Err(ProcessorError::UrlParseError(rel.to_string()));
    }
    Ok(UrlParts {
        scheme_host: u[..url::Position::BeforePath].to_string(),
        path: u.path().to_string(),
        query: u.query_pairs().into_owned().collect(),
    })
}

} // verus!
