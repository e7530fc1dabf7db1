//! Materialized responses: a body adopted either as text or as named
//! bytes. Deriving the stored filename from the URL's path segments and
//! the media subtype is verified here; decoding bytes to text is the
//! encoding crate's work behind a trusted wrapper.

use vstd::prelude::*;
use vstd::string::StrSliceExecFns;
use vstd::string::StringExecFns;

verus! {

/// The form a response body is materialized in.
#[derive(Debug, Clone, Copy, PartialEq, Eq, Structural)]
pub enum RespAdaptMarker {
    Text,
    Bytes,
}

impl RespAdaptMarker {
    /// Whether this marker asks for raw bytes.
    pub fn is_bytes(&self) -> (r: bool)
        ensures
            r == (*self is Bytes),
    {
        matches!(self, RespAdaptMarker::Bytes)
    }
}

/// A materialized response: decoded text, or raw bytes together with the
/// name and media type they arrived under.
#[derive(Debug, Clone)]
pub enum Resp {
    RespText(String),
    RespBytes { bts: Vec<u8>, filename: String, mime_type: Option<String> },
}

impl Resp {
    /// The marker this response was materialized under.
    pub fn res_type_marker(&self) -> (r: RespAdaptMarker)
        ensures
            r == (if *self is RespText {
                RespAdaptMarker::Text
            } else {
                RespAdaptMarker::Bytes
            }),
    {
        match self {
            Resp::RespText(_) => RespAdaptMarker::Text,
            Resp::RespBytes { .. } => RespAdaptMarker::Bytes,
        }
    }
}

/// What decoding a byte sequence yields under the UTF-8 decoder, with
/// byte-order-mark sniffing and malformed sequences replaced; the result
/// depends on the bytes alone.
pub uninterp spec fn utf8_text_of(bytes: Seq<u8>) -> Seq<char>;

/// Relies on encoding_rs::UTF_8.decode: decoding with byte-order-mark
/// sniffing and replacement, a pure function of the bytes.
#[verifier::external_body]
fn utf8_decode(bytes: &Vec<u8>) -> (r: String)
    ensures
        r@ == utf8_text_of(bytes@),
        bytes@.len() == 0 ==> r@.len() == 0,
{
    let (text, _, _) = encoding_rs::UTF_8.decode(bytes);
    text.into_owned()
}

impl Resp {
    /// Re-materializes a byte response as decoded text. Only that one
    /// conversion exists: the source must hold bytes and the goal must not.
    pub fn from_bytes(&self, convert_to: &RespAdaptMarker) -> (r: Resp)
        requires
            *self matches Resp::RespBytes { .. },
            !(*convert_to is Bytes),
        ensures
            self matches Resp::RespBytes { bts, .. } ==> r matches Resp::RespText(t) && t@
                == utf8_text_of(bts@),
    {
        match self {
            Resp::RespBytes { bts, .. } => Resp::RespText(utf8_decode(bts)),
            Resp::RespText(_) => {
                proof {
                    assert(false);
                }
                Resp::RespText(String::new())
            },
        }
    }
}

/// The path segments joined with underscores.
pub open spec fn spec_join_segments(segs: Seq<Seq<char>>) -> Seq<char>
    decreases segs.len(),
{
    if segs.len() == 0 {
        Seq::empty()
    } else if segs.len() == 1 {
        segs[0]
    } else {
        spec_join_segments(segs.drop_last()) + seq!['_'] + segs.last()
    }
}

/// Whether `s` ends with `suffix`.
pub open spec fn spec_ends_with(s: Seq<char>, suffix: Seq<char>) -> bool {
    s.len() >= suffix.len() && s.skip(s.len() - suffix.len()) == suffix
}

/// The filename a byte response is stored under: the URL's path segments
/// joined with underscores, with a dot and the media subtype appended
/// unless the name already ends with it.
pub open spec fn spec_derive_filename(segs: Seq<Seq<char>>, subtype: Option<Seq<char>>) -> Seq<
    char,
> {
    let base = spec_join_segments(segs);
    match subtype {
        Some(st) => if spec_ends_with(base, st) {
            base
        } else {
            base + seq!['.'] + st
        },
        None => base,
    }
}

/// Whether `s` ends with `suffix`, read character by character.
fn ends_with(s: &str, suffix: &str) -> (r: bool)
    ensures
        r == spec_ends_with(s@, suffix@),
{
    let n = s.unicode_len();
    let m = suffix.unicode_len();
    if n < m {
        return false;
    }
    let mut j: usize = 0;
    while j < m
        invariant
            j <= m,
            m <= n,
            n == s@.len(),
            m == suffix@.len(),
            forall|k: int| 0 <= k < j ==> s@[n - m + k] == suffix@[k],
        decreases m - j,
    {
        if s.get_char(n - m + j) != suffix.get_char(j) {
            return false;
        }
        j += 1;
    }
    proof {
        assert(s@.skip(n - m) =~= suffix@);
    }
    true
}

/// Builds the filename a byte response is stored under from the URL's
/// path segments and the media subtype.
pub fn derive_filename(segments: &Vec<String>, subtype: &Option<String>) -> (r: String)
    ensures
        r@ == spec_derive_filename(
            segments.deep_view(),
            match subtype {
                Some(st) => Some(st@),
                None => None,
            },
        ),
{
    let mut base = String::new();
    let mut i: usize = 0;
    proof {
        reveal_strlit("_");
        reveal_strlit(".");
    }
    while i < segments.len()
        invariant
            i <= segments.len(),
            base@ =~~= spec_join_segments(segments.deep_view().take(i as int)),
        decreases segments.len() - i,
    {
        if i > 0 {
            base.append("_");
        }
        base.append(segments[i].as_str());
        i += 1;
        proof {
            assert(segments.deep_view().take(i as int).drop_last() =~~= segments.deep_view().take(
                i as int - 1,
            ));
            assert(base@ =~~= spec_join_segments(segments.deep_view().take(i as int)));
        }
    }
    proof {
        assert(segments.deep_view().take(segments.len() as int) =~~= segments.deep_view());
    }
    match subtype {
        Some(st) => {
            if ends_with(base.as_str(), st.as_str()) {
                base
            } else {
                base.append(".");
                base.append(st.as_str());
                base
            }
        },
        None => base,
    }
}

} // verus!
