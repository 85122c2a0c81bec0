use vstd::prelude::*;
use vstd::string::StrSliceExecFns;
use vstd::string::StringExecFns;

use crate::validator::ValidatorKind;

verus! {

/// The outcome of parsing a URL string: `None` where the string cannot be
/// parsed as an absolute URL, otherwise the canonical serialisation that
/// `url::Url` produces for it.
pub uninterp spec fn spec_url_normalize(s: Seq<char>) -> Option<Seq<char>>;

/// The path component of a URL string, as `url::Url::path` returns it (the
/// empty sequence for a string that does not parse).
pub uninterp spec fn spec_url_path(s: Seq<char>) -> Seq<char>;

/// The serialisation of a URL string after its path component is replaced,
/// as `url::Url::set_path` leaves it (the empty sequence for a string that
/// does not parse).
pub uninterp spec fn spec_url_with_path(s: Seq<char>, path: Seq<char>) -> Seq<char>;

/// Relies on `url::Url::parse` and `url::Url::as_str`: parsing either fails
/// or yields the canonical serialisation, and both are functions of the
/// input string alone.
#[verifier::external_body]
fn url_normalize(s: &str) -> (r: Option<String>)
    ensures
        r is Some <==> spec_url_normalize(s@) is Some,
        r is Some ==> r.unwrap()@ == spec_url_normalize(s@).unwrap(),
{
    match url::Url::parse(s) {
        Ok(u) => Some(String::from(u.as_str())),
        Err(_) => None,
    }
}

/// Relies on `url::Url::parse` and `url::Url::path`: both are functions of
/// the input string alone.
#[verifier::external_body]
fn url_path(s: &str) -> (r: String)
    ensures
        r@ == spec_url_path(s@),
{
    match url::Url::parse(s) {
        Ok(u) => u.path().to_owned(),
        Err(_) => String::new(),
    }
}

/// Relies on `url::Url::parse`, `url::Url::set_path` and `url::Url::as_str`:
/// all are functions of their string arguments alone, and `set_path` accepts
/// any path string.
#[verifier::external_body]
fn url_with_path(s: &str, path: &str) -> (r: String)
    ensures
        r@ == spec_url_with_path(s@, path@),
{
    match url::Url::parse(s) {
        Ok(mut u) => {
            u.set_path(path);
            String::from(u.as_str())
        },
        Err(_) => String::new(),
    }
}

/// A path with `pointer` appended as one further segment: the pointer alone
/// on an empty base path, otherwise the base path and the pointer joined by
/// exactly one `/`.
pub open spec fn spec_join_path(base: Seq<char>, pointer: Seq<char>) -> Seq<char> {
    if base.len() == 0 {
        pointer
    } else if base.last() == '/' {
        base + pointer
    } else {
        base + seq!['/'] + pointer
    }
}

/// Append `pointer` to `base` as one further path segment.
fn join_path(base: &str, pointer: &str) -> (r: String)
    ensures
        r@ == spec_join_path(base@, pointer@),
{
    let n = base.unicode_len();
    if n == 0 {
        pointer.to_owned()
    } else if base.get_char(n - 1) == '/' {
        let mut r = base.to_owned();
        r.append(pointer);
        r
    } else {
        let mut r = base.to_owned();
        r.append("/");
        r.append(pointer);
        proof {
            reveal_strlit("/");
            assert(r@ =~= base@ + seq!['/'] + pointer@);
        }
        r
    }
}

/// The request URL of a pointer in the context of an endpoint's base URL:
/// the base URL with the pointer appended to its path as one further
/// segment.
pub open spec fn spec_url_for(base: Seq<char>, pointer: Seq<char>) -> Seq<char> {
    spec_url_with_path(base, spec_join_path(spec_url_path(base), pointer))
}

/// Error raised when an endpoint's base URL cannot be parsed.
#[derive(Debug)]
pub struct MalformedEndpointUrlError {
    /// The URL string that was rejected.
    pub url: String,
}

/// [Endpoint] represents a single access point of a specific source, to be
/// accessed according to the source-specific schedule.
///
/// An endpoint also carries a [ValidatorKind], with which an external
/// executor can verify that content retrieved from the endpoint is valid.
pub struct Endpoint {
    /// Endpoint url, in the normalised serialisation of `url::Url`.
    pub url: String,
    /// Content validator for content returned from the endpoint.
    /// Endpoint-specific validation allows for different signatories for
    /// different locations.
    pub validator: ValidatorKind,
}

impl Endpoint {
    /// Build an endpoint from a URL string; the URL is stored in normalised
    /// form.  Fails with [MalformedEndpointUrlError] exactly when the string
    /// cannot be parsed.
    pub fn new(endpoint_url_src: &str, validator: Option<ValidatorKind>) -> (r: Result<
        Endpoint,
        MalformedEndpointUrlError,
    >)
        ensures
            r is Ok <==> spec_url_normalize(endpoint_url_src@) is Some,
            r is Ok ==> r.unwrap().url@ == spec_url_normalize(endpoint_url_src@).unwrap(),
            r is Ok ==> r.unwrap().validator == (match validator {
                Some(v) => v,
                None => ValidatorKind::Noop,
            }),
            r is Err ==> r->Err_0.url@ == endpoint_url_src@,
    {
        match url_normalize(endpoint_url_src) {
            Some(u) => Ok(
                Endpoint {
                    url: u,
                    validator: match validator {
                        Some(v) => v,
                        None => ValidatorKind::Noop,
                    },
                },
            ),
            None => Err(MalformedEndpointUrlError { url: endpoint_url_src.to_owned() }),
        }
    }

    /// Calculates the URL of a resource in the context of the specific
    /// endpoint.
    ///
    /// The pointer will typically be the string representation of a digest.
    pub fn url_for(&self, pointer: &str) -> (r: String)
        ensures
            r@ == spec_url_for(self.url@, pointer@),
    {
        let p = url_path(self.url.as_str());
        let joined = join_path(p.as_str(), pointer);
        url_with_path(self.url.as_str(), joined.as_str())
    }

    /// The endpoint's base URL string.
    pub fn url_string(&self) -> (r: String)
        ensures
            r@ == self.url@,
    {
        self.url.clone()
    }
}

} // verus!
