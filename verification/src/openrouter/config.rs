//! Client configuration: where the API lives and how requests identify
//! the caller.

use vstd::prelude::*;
use crate::text::push_text;

verus! {

/// The default address of the API.
pub open spec fn default_site_url() -> Seq<char> {
    "https://openrouter.ai/"@
}

/// Client configuration. The site address is kept as the text of an
/// absolute URL.
#[derive(Clone, Debug)]
pub struct OpenRouterBaseConfig {
    pub site_url: String,
    pub api_key: String,
    pub site_title: Option<String>,
    pub site_referer: Option<String>,
}

impl OpenRouterBaseConfig {
    /// A configuration for the default address with the given key and
    /// neither a title nor a referer.
    pub fn new(api_key: String) -> (r: Self)
        ensures
            r.site_url@ == default_site_url(),
            r.api_key@ == api_key@,
            r.site_title is None,
            r.site_referer is None,
    {
        let site_url = "https://openrouter.ai/".to_owned();
        OpenRouterBaseConfig { site_url, api_key, site_title: None, site_referer: None }
    }

    /// The same configuration with another site address.
    pub fn with_site_url(self, site_url: String) -> (r: Self)
        ensures
            r.site_url@ == site_url@,
            r.api_key@ == self.api_key@,
            r.site_title == self.site_title,
            r.site_referer == self.site_referer,
    {
        OpenRouterBaseConfig { site_url, ..self }
    }

    /// The same configuration with a site title.
    pub fn with_site_title(self, site_title: String) -> (r: Self)
        ensures
            r.site_url@ == self.site_url@,
            r.api_key@ == self.api_key@,
            r.site_title matches Some(t) && t@ == site_title@,
            r.site_referer == self.site_referer,
    {
        OpenRouterBaseConfig { site_title: Some(site_title), ..self }
    }

    /// The same configuration with a site referer.
    pub fn with_site_referer(self, site_referer: String) -> (r: Self)
        ensures
            r.site_url@ == self.site_url@,
            r.api_key@ == self.api_key@,
            r.site_title == self.site_title,
            r.site_referer matches Some(t) && t@ == site_referer@,
    {
        OpenRouterBaseConfig { site_referer: Some(site_referer), ..self }
    }
}

/// The headers of every request, in order: JSON is accepted, the key is
/// sent as a bearer token, then the title and the referer where they are
/// set. Header names are in lower case.
pub open spec fn headers_spec(c: OpenRouterBaseConfig) -> Seq<(Seq<char>, Seq<char>)> {
    seq![("accept"@, "application/json"@), ("authorization"@, "Bearer "@ + c.api_key@)] + match c.site_title {
        Some(t) => seq![("x-title"@, t@)],
        None => Seq::empty(),
    } + match c.site_referer {
        Some(r) => seq![("http-referer"@, r@)],
        None => Seq::empty(),
    }
}

/// The characters of a list of header pairs.
pub open spec fn pairs_view(v: Seq<(String, String)>) -> Seq<(Seq<char>, Seq<char>)> {
    Seq::new(v.len(), |i: int| (v[i].0@, v[i].1@))
}

impl OpenRouterBaseConfig {
    /// The headers requests carry, as [`headers_spec`]. A value that is not
    /// a valid header value is left out by whoever builds the request.
    pub fn request_headers(&self) -> (r: Vec<(String, String)>)
        ensures
            pairs_view(r@) == headers_spec(*self),
    {
        let mut out: Vec<(String, String)> = Vec::new();
        out.push(("accept".to_owned(), "application/json".to_owned()));
        let mut bearer = "Bearer ".to_owned();
        push_text(&mut bearer, self.api_key.as_str());
        out.push(("authorization".to_owned(), bearer));
        if let Some(t) = &self.site_title {
            out.push(("x-title".to_owned(), t.clone()));
        }
        if let Some(r) = &self.site_referer {
            out.push(("http-referer".to_owned(), r.clone()));
        }
        assert(pairs_view(out@) =~= headers_spec(*self));
        out
    }
}

/// Every request accepts JSON and carries the key as a bearer token; a set
/// title is sent as `x-title` and a set referer as `http-referer`, each
/// whatever the other is; a header that is not set is not sent.
pub proof fn law_request_headers(c: OpenRouterBaseConfig)
    ensures
        headers_spec(c).contains(("accept"@, "application/json"@)),
        headers_spec(c).contains(("authorization"@, "Bearer "@ + c.api_key@)),
        c.site_title matches Some(t) ==> headers_spec(c).contains(("x-title"@, t@)),
        c.site_referer matches Some(r) ==> headers_spec(c).contains(("http-referer"@, r@)),
        c.site_title is None ==> forall|i: int| 0 <= i < headers_spec(c).len() ==> #[trigger] headers_spec(c)[i].0 != "x-title"@,
        c.site_referer is None ==> forall|i: int| 0 <= i < headers_spec(c).len() ==> #[trigger] headers_spec(c)[i].0 != "http-referer"@,
        headers_spec(c).len() == 2 + (if c.site_title is Some { 1int } else { 0int }) + (if c.site_referer is Some { 1int } else { 0int }),
{
    let h = headers_spec(c);
    reveal_strlit("accept");
    reveal_strlit("authorization");
    reveal_strlit("x-title");
    reveal_strlit("http-referer");
    assert(h[0] == ("accept"@, "application/json"@));
    assert(h[1] == ("authorization"@, "Bearer "@ + c.api_key@));
    if c.site_title is Some {
        assert(h[2] == ("x-title"@, c.site_title->0@));
    }
    if c.site_referer is Some {
        assert(h[h.len() - 1] == ("http-referer"@, c.site_referer->0@));
    }
    assert("x-title"@ != "http-referer"@ && "accept"@ != "x-title"@ && "authorization"@ != "x-title"@
        && "accept"@ != "http-referer"@ && "authorization"@ != "http-referer"@) by {
        assert("x-title"@[0] != "http-referer"@[0]);
        assert("accept"@.len() != "x-title"@.len());
        assert("authorization"@.len() != "x-title"@.len());
        assert("accept"@.len() != "http-referer"@.len());
        assert("authorization"@.len() != "http-referer"@.len());
    }
}

} // verus!
