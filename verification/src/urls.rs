//! Addresses: which of them the application shows itself, which may launch it, and
//! which pages may use its proxy.
use vstd::prelude::*;
use vstd::string::*;

use crate::release_channel::BETA_BASE_URL;
use crate::release_channel::STABLE_BASE_URL;
use crate::text;

verus! {

/// One name and its value in the query of an address.
pub struct LaunchQueryPair {
    pub key: String,
    pub value: String,
}

impl View for LaunchQueryPair {
    type V = (Seq<char>, Seq<char>);

    open spec fn view(&self) -> (Seq<char>, Seq<char>) {
        (self.key@, self.value@)
    }
}

/// The names and values of a list of pairs.
pub open spec fn pairs_view(pairs: Seq<LaunchQueryPair>) -> Seq<(Seq<char>, Seq<char>)> {
    Seq::new(pairs.len(), |i: int| pairs[i]@)
}

/// What the application reads of an address.
pub struct ParsedUrl {
    pub scheme: String,
    /// The host, as a domain or as an IP address.
    pub host: Option<String>,
    /// The host, where it is a domain.
    pub domain: Option<String>,
    pub query_pairs: Vec<LaunchQueryPair>,
}

/// The contents of a [`ParsedUrl`].
pub struct UrlParts {
    pub scheme: Seq<char>,
    pub host: Option<Seq<char>>,
    pub domain: Option<Seq<char>>,
    pub query_pairs: Seq<(Seq<char>, Seq<char>)>,
}

impl View for ParsedUrl {
    type V = UrlParts;

    open spec fn view(&self) -> UrlParts {
        UrlParts {
            scheme: self.scheme@,
            host: text::optional_text(self.host),
            domain: text::optional_text(self.domain),
            query_pairs: pairs_view(self.query_pairs@),
        }
    }
}

/// The contents of an optional address.
pub open spec fn optional_parts(url: Option<ParsedUrl>) -> Option<UrlParts> {
    match url {
        Some(u) => Some(u@),
        None => None,
    }
}

/// What `Url::parse` reads out of a text: the parts of an absolute address, if the
/// text is one.
pub uninterp spec fn url_parse(input: Seq<char>) -> Option<UrlParts>;

/// `Url::parse`, with what `Url::scheme`, `Url::host_str`, `Url::domain` and
/// `Url::query_pairs` say of the address. Where the host is a domain, it is the host
/// string.
#[verifier::external_body]
pub(crate) fn parse_url(input: &str) -> (r: Option<ParsedUrl>)
    ensures
        optional_parts(r) == url_parse(input@),
        r matches Some(url) ==> (url@.domain is Some ==> url@.host == url@.domain),
{
    url::Url::parse(input).ok().map(|url| ParsedUrl {
        scheme: url.scheme().to_string(),
        host: url.host_str().map(|host| host.to_string()),
        domain: url.domain().map(|domain| domain.to_string()),
        query_pairs: url.query_pairs().map(|(key, value)| LaunchQueryPair {
            key: key.into_owned(),
            value: value.into_owned(),
        }).collect(),
    })
}

/// What `Url::query_pairs_mut` and `append_pair` make of an address by appending
/// pairs to its query, one after another.
pub uninterp spec fn url_with_pairs(base: Seq<char>, pairs: Seq<(Seq<char>, Seq<char>)>) -> Seq<
    char,
>;

/// The domain of an address of the application.
pub open spec fn base_domain(base: Seq<char>) -> Seq<char> {
    if base == STABLE_BASE_URL@ {
        "bdengine.app"@
    } else {
        "beta.bdengine.app"@
    }
}

/// `Url::parse` of an address of the application, then `Url::query_pairs_mut` and
/// `Serializer::extend_pairs`, which calls `append_pair` for one pair after another.
/// Neither address has a query of its own, and what the query is then read as is
/// what was appended.
#[verifier::external_body]
pub(crate) fn append_query_pairs(base: &str, pairs: &Vec<LaunchQueryPair>) -> (r: String)
    requires
        base@ == STABLE_BASE_URL@ || base@ == BETA_BASE_URL@,
    ensures
        r@ == url_with_pairs(base@, pairs_view(pairs@)),
        url_parse(r@) == Some(
            UrlParts {
                scheme: "https"@,
                host: Some(base_domain(base@)),
                domain: Some(base_domain(base@)),
                query_pairs: pairs_view(pairs@),
            },
        ),
{
    let mut url = url::Url::parse(base).expect("remote base URL must be valid");
    url.query_pairs_mut().extend_pairs(pairs.iter().map(|pair| (&pair.key, &pair.value)));
    url.into()
}

/// The two domains of the application.
pub open spec fn is_app_domain(domain: Option<Seq<char>>) -> bool {
    domain == Some("bdengine.app"@) || domain == Some("beta.bdengine.app"@)
}

/// The pages of the application.
pub open spec fn is_embedded(url: UrlParts) -> bool {
    url.scheme == "https"@ && is_app_domain(url.domain)
}

/// The links that launch the application: its own scheme, and its pages.
pub open spec fn is_launch_link(url: UrlParts) -> bool {
    url.scheme == "bdengine"@ || is_embedded(url)
}

/// The origins whose pages may use the proxy: the application's pages, and pages of
/// this computer.
pub open spec fn is_proxy_origin(url: UrlParts) -> bool {
    ||| url.scheme == "https"@ && is_app_domain(url.host)
    ||| (url.scheme == "http"@ || url.scheme == "https"@) && (url.host == Some("localhost"@)
        || url.host == Some("127.0.0.1"@))
}

fn is_one_of(value: &Option<String>, a: &str, b: &str) -> (r: bool)
    ensures
        r == (text::optional_text(*value) == Some(a@) || text::optional_text(*value) == Some(b@)),
{
    match value {
        Some(v) => text::same_text(v.as_str(), a) || text::same_text(v.as_str(), b),
        None => false,
    }
}

/// Tells whether an address launches the application.
pub fn is_supported_launch_url(url: &ParsedUrl) -> (r: bool)
    ensures
        r == is_launch_link(url@),
{
    text::same_text(url.scheme.as_str(), "bdengine") || is_embedded_app_url(url)
}

/// Tells whether an address is a page of the application.
pub fn is_embedded_app_url(url: &ParsedUrl) -> (r: bool)
    ensures
        r == is_embedded(url@),
{
    text::same_text(url.scheme.as_str(), "https") && is_one_of(
        &url.domain,
        "bdengine.app",
        "beta.bdengine.app",
    )
}

/// Tells whether pages of a parsed origin may use the proxy.
pub fn is_allowed_origin_url(origin: &Option<ParsedUrl>) -> (r: bool)
    ensures
        r == (optional_parts(*origin) matches Some(url) && is_proxy_origin(url)),
{
    match origin {
        Some(url) => {
            let https: bool = text::same_text(url.scheme.as_str(), "https");
            let http: bool = text::same_text(url.scheme.as_str(), "http");
            (https && is_one_of(&url.host, "bdengine.app", "beta.bdengine.app")) || ((http
                || https) && is_one_of(&url.host, "localhost", "127.0.0.1"))
        },
        None => false,
    }
}

/// Tells whether pages of an origin may use the proxy.
pub fn is_allowed_minecraft_proxy_origin(origin: &str) -> (r: bool)
    ensures
        r == (url_parse(origin@) matches Some(url) && is_proxy_origin(url)),
{
    is_allowed_origin_url(&parse_url(origin))
}

/// Where a page is opened.
#[derive(Clone, Copy, Debug, PartialEq, Eq, Structural)]
pub enum Navigation {
    /// In the window of the application.
    Embedded,
    /// In the browser of the system.
    SystemBrowser,
}

/// Where the window lets an address be opened.
pub fn navigation_of(url: &ParsedUrl) -> (r: Navigation)
    ensures
        r == (if is_embedded(url@) {
            Navigation::Embedded
        } else {
            Navigation::SystemBrowser
        }),
{
    if is_embedded_app_url(url) {
        Navigation::Embedded
    } else {
        Navigation::SystemBrowser
    }
}

/// Law: every page of the application may launch it.
pub proof fn law_embedded_pages_are_launch_links(url: UrlParts)
    ensures
        is_embedded(url) ==> is_launch_link(url),
{
}

/// Law: every page of the application may use the proxy, where the host of an
/// address with a domain is that domain.
pub proof fn law_embedded_pages_may_use_the_proxy(url: UrlParts)
    requires
        url.domain is Some ==> url.host == url.domain,
    ensures
        is_embedded(url) ==> is_proxy_origin(url),
{
}

/// Law: a page of the application is served over HTTPS from one of its two domains, and
/// every such page is one.
pub proof fn law_embedded_pages(url: UrlParts)
    ensures
        url.scheme != "https"@ ==> !is_embedded(url),
        url.scheme == "https"@ && url.domain == Some("bdengine.app"@) ==> is_embedded(url),
        url.scheme == "https"@ && url.domain == Some("beta.bdengine.app"@) ==> is_embedded(url),
        is_embedded(url) ==> url.domain == Some("bdengine.app"@) || url.domain == Some(
            "beta.bdengine.app"@,
        ),
{
}

/// Law: every address with the scheme of the application launches it, whatever else it
/// holds; of the others, only pages of the application do.
pub proof fn law_launch_links(url: UrlParts)
    ensures
        url.scheme == "bdengine"@ ==> is_launch_link(url),
        url.scheme == "https"@ && url.domain == Some("bdengine.app"@) ==> is_launch_link(url),
        url.scheme == "https"@ && url.domain == Some("beta.bdengine.app"@) ==> is_launch_link(url),
        is_launch_link(url) && url.scheme != "bdengine"@ ==> url.scheme == "https"@ && (url.domain
            == Some("bdengine.app"@) || url.domain == Some("beta.bdengine.app"@)),
{
}

/// Law: pages of this computer may use the proxy with and without encryption, pages of
/// the application with it, and no other pages may.
pub proof fn law_proxy_origins(url: UrlParts)
    ensures
        url.scheme != "http"@ && url.scheme != "https"@ ==> !is_proxy_origin(url),
        url.scheme == "http"@ || url.scheme == "https"@ ==> {
            &&& url.host == Some("localhost"@) ==> is_proxy_origin(url)
            &&& url.host == Some("127.0.0.1"@) ==> is_proxy_origin(url)
        },
        url.scheme == "https"@ && url.host == Some("bdengine.app"@) ==> is_proxy_origin(url),
        url.scheme == "https"@ && url.host == Some("beta.bdengine.app"@) ==> is_proxy_origin(url),
        is_proxy_origin(url) ==> (url.host == Some("localhost"@) || url.host == Some(
            "127.0.0.1"@,
        ) || (url.scheme == "https"@ && (url.host == Some("bdengine.app"@) || url.host == Some(
            "beta.bdengine.app"@,
        )))),
        url.host is None ==> !is_proxy_origin(url),
{
}

/// Law: the window of the application opens pages of the application itself and leaves
/// every other address to the browser of the system.
pub proof fn law_other_pages_go_to_the_browser(url: ParsedUrl, r: Navigation)
    requires
        call_ensures(navigation_of, (&url,), r),
    ensures
        url@.scheme == "https"@ && (url@.domain == Some("bdengine.app"@) || url@.domain == Some(
            "beta.bdengine.app"@,
        )) ==> r == Navigation::Embedded,
        url@.scheme != "https"@ ==> r == Navigation::SystemBrowser,
        url@.domain != Some("bdengine.app"@) && url@.domain != Some("beta.bdengine.app"@) ==> r
            == Navigation::SystemBrowser,
{
}

} // verus!
