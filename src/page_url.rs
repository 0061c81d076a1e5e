use vstd::prelude::*;

verus! {

/// Whether the URL parser accepts `s`.
pub uninterp spec fn url_parses(s: Seq<char>) -> bool;

/// The serialization of the URL parsed from `s`.
pub uninterp spec fn url_serialization(s: Seq<char>) -> Seq<char>;

/// The serialization of the URL parsed from `s`, with its fragment removed.
pub uninterp spec fn url_without_fragment(s: Seq<char>) -> Seq<char>;

/// The domain name of the URL parsed from `s`; `None` where its host is an
/// IP address or it has no host.
pub uninterp spec fn url_domain(s: Seq<char>) -> Option<Seq<char>>;

/// What the crawl reads of a URL.
pub struct PageUrlView {
    /// The full serialization, fragment included.
    pub text: Seq<char>,
    /// The canonical form: the serialization without its fragment.
    pub page: Seq<char>,
    /// The domain name, if the host is one.
    pub host: Option<Seq<char>>,
}

/// An absolute URL, held as the plain values that the crawl reads of it.
#[derive(Debug)]
pub struct PageUrl {
    text: String,
    page: String,
    host: Option<String>,
}

pub open spec fn opt_string_view(o: Option<String>) -> Option<Seq<char>> {
    match o {
        Some(s) => Some(s@),
        None => None,
    }
}

/// The view of the URL that `s` parses to.
pub open spec fn parsed_view(s: Seq<char>) -> PageUrlView {
    PageUrlView {
        text: url_serialization(s),
        page: url_without_fragment(s),
        host: url_domain(s),
    }
}

impl View for PageUrl {
    type V = PageUrlView;

    closed spec fn view(&self) -> PageUrlView {
        PageUrlView { text: self.text@, page: self.page@, host: opt_string_view(self.host) }
    }
}

/// Relies on `url::Url::parse` for success and the serialization, on
/// `url::Url::set_fragment(None)` for the canonical form, and on
/// `url::Url::domain` for the domain name: each depends on the input alone.
#[verifier::external_body]
fn parse_url(s: &str) -> (r: Result<PageUrl, url::ParseError>)
    ensures
        r is Ok <==> url_parses(s@),
        r matches Ok(u) ==> u@.text == url_serialization(s@),
        r matches Ok(u) ==> u@.page == url_without_fragment(s@),
        r matches Ok(u) ==> u@.host == url_domain(s@),
{
    let u = url::Url::parse(s)?;
    let mut page = u.clone();
    page.set_fragment(None);
    let host = u.domain().map(|d| d.to_string());
    Ok(PageUrl { text: u.as_str().to_string(), page: page.as_str().to_string(), host })
}

impl Clone for PageUrl {
    fn clone(&self) -> (r: PageUrl)
        ensures
            r@ == self@,
    {
        let host = match &self.host {
            Some(h) => Some(h.clone()),
            None => None,
        };
        PageUrl { text: self.text.clone(), page: self.page.clone(), host }
    }
}

impl PageUrl {
    /// Parses an absolute URL.
    pub fn parse(s: &str) -> (r: Result<PageUrl, url::ParseError>)
        ensures
            r is Ok <==> url_parses(s@),
            r matches Ok(u) ==> u@ == parsed_view(s@),
    {
        parse_url(s)
    }

    /// The full serialization, fragment included.
    pub fn as_str(&self) -> (r: &str)
        ensures
            r@ == self@.text,
    {
        self.text.as_str()
    }

    /// The canonical form, without the fragment: the key under which a page
    /// counts as visited.
    pub fn page(&self) -> (r: &str)
        ensures
            r@ == self@.page,
    {
        self.page.as_str()
    }

    /// The domain name, if the host is one.
    pub fn domain(&self) -> (r: Option<&str>)
        ensures
            r matches Some(d) ==> self@.host == Some(d@),
            r is None ==> self@.host is None,
    {
        match &self.host {
            Some(h) => Some(h.as_str()),
            None => None,
        }
    }
}

} // verus!
