//! Network resources: a URL held as its parsed parts, with the base URI and
//! file extension derived from them, and a builder.

use vstd::prelude::*;
use vstd::string::*;

use crate::text::{last_index_of, lemma_last_index_range, push_chars, rfind, str_eq, string_from_chars};

verus! {

#[verifier::external_type_specification]
#[verifier::external_body]
pub struct ExParseError(url::ParseError);

/// Whether `url::Url::parse` accepts the input.
pub uninterp spec fn url_parses(input: Seq<char>) -> bool;

/// `Url::as_str` of the parsed input.
pub uninterp spec fn url_serialization(input: Seq<char>) -> Seq<char>;

/// `Url::scheme` of the parsed input.
pub uninterp spec fn url_scheme(input: Seq<char>) -> Seq<char>;

/// `Url::path` of the parsed input.
pub uninterp spec fn url_path(input: Seq<char>) -> Seq<char>;

/// `Url::query` of the parsed input.
pub uninterp spec fn url_query(input: Seq<char>) -> Option<Seq<char>>;

/// `Url::fragment` of the parsed input.
pub uninterp spec fn url_fragment(input: Seq<char>) -> Option<Seq<char>>;

/// A parsed URL as plain values.
pub struct UrlParts {
    pub serialization: String,
    pub scheme: String,
    pub path: String,
    pub query: Option<String>,
    pub fragment: Option<String>,
}

/// The characters of an optional string.
pub open spec fn opt_view(o: Option<String>) -> Option<Seq<char>> {
    match o {
        Some(s) => Some(s@),
        None => None,
    }
}

/// Relies on `url::Url::parse`, and on `Url::as_str`, `Url::scheme`,
/// `Url::path`, `Url::query` and `Url::fragment` of the parsed URL: whether
/// the input parses, and each part, depend on the input alone.
#[verifier::external_body]
fn parse_url(input: &str) -> (r: Result<UrlParts, url::ParseError>)
    ensures
        r is Ok <==> url_parses(input@),
        r matches Ok(p) ==> p.serialization@ == url_serialization(input@),
        r matches Ok(p) ==> p.scheme@ == url_scheme(input@),
        r matches Ok(p) ==> p.path@ == url_path(input@),
        r matches Ok(p) ==> opt_view(p.query) == url_query(input@),
        r matches Ok(p) ==> opt_view(p.fragment) == url_fragment(input@),
{
    url::Url::parse(input).map(|u| UrlParts {
        serialization: u.as_str().to_string(),
        scheme: u.scheme().to_string(),
        path: u.path().to_string(),
        query: u.query().map(|q| q.to_string()),
        fragment: u.fragment().map(|f| f.to_string()),
    })
}

/// Why a resource could not be made.
#[derive(PartialEq, Eq, Structural, Clone, Copy, Debug)]
pub enum ResourceError {
    /// The URL does not parse.
    InvalidUrl,
}

impl UrlParts {
    /// The parts of `input` as a URL; `InvalidUrl` when it does not parse.
    pub fn parse(input: &str) -> (r: Result<UrlParts, ResourceError>)
        ensures
            r is Ok <==> url_parses(input@),
            r is Err ==> r == Err::<UrlParts, ResourceError>(ResourceError::InvalidUrl),
            r matches Ok(p) ==> p.serialization@ == url_serialization(input@) && p.scheme@
                == url_scheme(input@) && p.path@ == url_path(input@) && opt_view(p.query)
                == url_query(input@) && opt_view(p.fragment) == url_fragment(input@),
    {
        match parse_url(input) {
            Ok(p) => Ok(p),
            Err(_) => Err(ResourceError::InvalidUrl),
        }
    }
}

/// The path, then `?query` and `#fragment` where present.
pub open spec fn absolute_uri_of(u: UrlParts) -> Seq<char> {
    u.path@ + match u.query {
        Some(q) => seq!['?'] + q@,
        None => Seq::empty(),
    } + match u.fragment {
        Some(f) => seq!['#'] + f@,
        None => Seq::empty(),
    }
}

/// The last segment of a path.
pub open spec fn file_name_of(path: Seq<char>) -> Seq<char> {
    path.subrange(last_index_of(path, '/') + 1, path.len() as int)
}

/// What follows the last `.` of the path's last segment; empty when there
/// is no `.`.
pub open spec fn extension_of(path: Seq<char>) -> Seq<char> {
    let f = file_name_of(path);
    let d = last_index_of(f, '.');
    if d < 0 {
        Seq::empty()
    } else {
        f.subrange(d + 1, f.len() as int)
    }
}

/// The URI of a resource without scheme and host: its path, its query and
/// its fragment.
pub fn get_absolute_uri(url: &UrlParts) -> (r: String)
    ensures
        r@ == absolute_uri_of(*url),
{
    let mut out: Vec<char> = Vec::new();
    push_chars(&mut out, url.path.as_str());
    let ghost after_path = out@;
    match &url.query {
        Some(q) => {
            out.push('?');
            push_chars(&mut out, q.as_str());
        },
        None => {},
    }
    let ghost after_query = out@;
    match &url.fragment {
        Some(f) => {
            out.push('#');
            push_chars(&mut out, f.as_str());
        },
        None => {},
    }
    assert(out@ =~= absolute_uri_of(*url));
    string_from_chars(out)
}

/// A resource to fetch: its URL, request headers and retry budget.
pub struct HoutuNetworkResource {
    pub url: UrlParts,
    pub headers: Vec<(String, String)>,
    pub retry_count: usize,
}

impl HoutuNetworkResource {
    /// A resource at `url`, with no headers.
    pub fn new(url: UrlParts) -> (r: HoutuNetworkResource)
        ensures
            r.url == url,
            r.headers@.len() == 0,
            r.retry_count == 0,
    {
        HoutuNetworkResource { url, headers: Vec::new(), retry_count: 0 }
    }

    /// A resource at the URL `url` spells; `InvalidUrl` when it does not parse.
    pub fn set_url(url: &str) -> (r: Result<HoutuNetworkResource, ResourceError>)
        ensures
            r is Ok <==> url_parses(url@),
            r is Err ==> r == Err::<HoutuNetworkResource, ResourceError>(ResourceError::InvalidUrl),
            r matches Ok(res) ==> res.url.serialization@ == url_serialization(url@) && res.url.path@
                == url_path(url@) && res.headers@.len() == 0 && res.retry_count == 0,
    {
        match UrlParts::parse(url) {
            Ok(u) => Ok(HoutuNetworkResource::new(u)),
            Err(e) => Err(e),
        }
    }

    /// A resource at `url` that asks for JSON; `InvalidUrl` when the URL
    /// does not parse.
    pub fn fetch_json(url: &str) -> (r: Result<HoutuNetworkResource, ResourceError>)
        ensures
            r is Ok <==> url_parses(url@),
            r is Err ==> r == Err::<HoutuNetworkResource, ResourceError>(ResourceError::InvalidUrl),
            r matches Ok(res) ==> res.url.serialization@ == url_serialization(url@) && res.url.path@
                == url_path(url@) && res.headers@.len() == 1 && res.headers@[0].0@ == "Accept"@
                && res.headers@[0].1@ == "application/json,*/*;q=0.01"@ && res.retry_count == 0,
    {
        match UrlParts::parse(url) {
            Ok(u) => {
                let mut headers: Vec<(String, String)> = Vec::new();
                headers.push(("Accept".to_owned(), "application/json,*/*;q=0.01".to_owned()));
                Ok(HoutuNetworkResource { url: u, headers, retry_count: 0 })
            },
            Err(e) => Err(e),
        }
    }

    /// The path, with the query and fragment when `include_query` holds.
    pub fn get_base_uri(&self, include_query: bool) -> (r: String)
        ensures
            include_query ==> r@ == absolute_uri_of(self.url),
            !include_query ==> r@ == self.url.path@,
    {
        if include_query {
            get_absolute_uri(&self.url)
        } else {
            self.url.path.clone()
        }
    }

    /// The extension of the URL's path: what follows the last `.` of its
    /// last segment, empty when there is none.
    pub fn extension(&self) -> (r: &str)
        ensures
            r@ == extension_of(self.url.path@),
    {
        let path = self.url.path.as_str();
        let n = path.unicode_len();
        proof {
            lemma_last_index_range(path@, '/');
        }
        let start = match rfind(path, '/') {
            Some(i) => i + 1,
            None => 0,
        };
        let file = path.substring_char(start, n);
        let m = file.unicode_len();
        proof {
            lemma_last_index_range(file@, '.');
        }
        match rfind(file, '.') {
            Some(d) => file.substring_char(d + 1, m),
            None => file.substring_char(0, 0),
        }
    }

    /// Whether the URL's scheme is `data`.
    pub fn is_data_uri(&self) -> (r: bool)
        ensures
            r == (self.url.scheme@ == "data"@),
    {
        str_eq(self.url.scheme.as_str(), "data")
    }

    /// Whether the URL's scheme is `blob`.
    pub fn is_blob_uri(&self) -> (r: bool)
        ensures
            r == (self.url.scheme@ == "blob"@),
    {
        str_eq(self.url.scheme.as_str(), "blob")
    }
}

/// Collects what a resource is made of.
pub struct ResourceBuilder {
    pub url: String,
    pub retry_count: usize,
}

impl ResourceBuilder {
    /// A builder for the resource at `url`, with no retries.
    pub fn new(url: &str) -> (r: ResourceBuilder)
        ensures
            r.url@ == url@,
            r.retry_count == 0,
    {
        ResourceBuilder { url: url.to_owned(), retry_count: 0 }
    }

    /// The same builder with `retry_count` retries.
    pub fn retry_count(self, retry_count: usize) -> (r: ResourceBuilder)
        ensures
            r.url@ == self.url@,
            r.retry_count == retry_count,
    {
        ResourceBuilder { url: self.url, retry_count }
    }

    /// The resource; `InvalidUrl` when the URL does not parse.
    pub fn build(self) -> (r: Result<HoutuNetworkResource, ResourceError>)
        ensures
            r is Ok <==> url_parses(self.url@),
            r is Err ==> r == Err::<HoutuNetworkResource, ResourceError>(ResourceError::InvalidUrl),
            r matches Ok(res) ==> res.url.serialization@ == url_serialization(self.url@) && res.url.path@
                == url_path(self.url@) && opt_view(res.url.query) == url_query(self.url@)
                && opt_view(res.url.fragment) == url_fragment(self.url@) && res.url.scheme@
                == url_scheme(self.url@) && res.headers@.len() == 0 && res.retry_count
                == self.retry_count,
    {
        match UrlParts::parse(self.url.as_str()) {
            Ok(u) => Ok(HoutuNetworkResource { url: u, headers: Vec::new(), retry_count: self.retry_count }),
            Err(e) => Err(e),
        }
    }
}

} // verus!
