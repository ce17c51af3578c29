//! The two kinds of oracle: what to send them, and what to make of their
//! answers.

use vstd::prelude::*;
use vstd::string::*;

use crate::calibration_response::{CalibrationResponse, CalibrationResponseView};
use crate::config::{
    Header, HeaderView, ProxyCredentials, ProxyCredentialsView, RequestTimeout, ScriptConfig,
    ThreadDelay, UserAgent, WebOptions,
};
use crate::oracle_location::{OracleLocation, OracleLocationView};
use crate::text::{contains, occurs_in, replace, replaced};

verus! {

/// How a web oracle is used.
#[derive(Clone, Debug)]
pub struct WebConfig {
    post_data: Option<String>,
    headers: Vec<Header>,
    keyword: String,
    user_agent: UserAgent,
    proxy: Option<String>,
    proxy_credentials: Option<ProxyCredentials>,
    request_timeout: RequestTimeout,
    redirect: bool,
    insecure: bool,
    consider_body: bool,
    thread_delay: ThreadDelay,
}

/// How the oracle at hand is used.
#[derive(Clone, Debug)]
pub enum SubConfig {
    Web(WebConfig),
    Script(ScriptConfig),
}

/// How a web oracle is used, as a value.
pub struct WebConfigView {
    /// The body to send; with a body the request is a `POST`.
    pub post_data: Option<Seq<char>>,
    pub headers: Seq<HeaderView>,
    /// The keyword that marks where the ciphertext goes.
    pub keyword: Seq<char>,
    pub user_agent: Seq<char>,
    /// The URL of the proxy, if requests go through one.
    pub proxy: Option<Seq<char>>,
    pub proxy_credentials: Option<ProxyCredentialsView>,
    /// How long a request may take, in seconds.
    pub request_timeout: u64,
    /// Whether redirects are followed.
    pub redirect: bool,
    /// Whether certificates go unchecked.
    pub insecure: bool,
    /// Whether the body of a response counts in telling responses apart.
    pub consider_body: bool,
    /// The pause before each request, in milliseconds.
    pub thread_delay: u64,
}

impl View for WebConfig {
    type V = WebConfigView;

    closed spec fn view(&self) -> WebConfigView {
        WebConfigView {
            post_data: match self.post_data {
                Some(data) => Some(data@),
                None => None,
            },
            headers: header_views(self.headers@),
            keyword: self.keyword@,
            user_agent: self.user_agent@,
            proxy: match self.proxy {
                Some(url) => Some(url@),
                None => None,
            },
            proxy_credentials: match self.proxy_credentials {
                Some(credentials) => Some(credentials@),
                None => None,
            },
            request_timeout: self.request_timeout@,
            redirect: self.redirect,
            insecure: self.insecure,
            consider_body: self.consider_body,
            thread_delay: self.thread_delay@,
        }
    }
}

/// The views of a list of headers.
pub open spec fn header_views(headers: Seq<Header>) -> Seq<HeaderView> {
    Seq::new(headers.len(), |i: int| headers[i]@)
}

fn headers_of(pairs: &Vec<(String, String)>) -> (headers: Vec<Header>)
    ensures
        headers@.len() == pairs@.len(),
        forall|i: int|
            0 <= i < pairs@.len() ==> (#[trigger] headers@[i])@ == (HeaderView {
                name: pairs@[i].0@,
                value: pairs@[i].1@,
            }),
{
    let count = pairs.len();
    let mut headers: Vec<Header> = Vec::new();
    let mut i: usize = 0;
    while i < count
        invariant
            count == pairs@.len(),
            i <= count,
            headers@.len() == i,
            forall|j: int|
                0 <= j < i ==> (#[trigger] headers@[j])@ == (HeaderView {
                    name: pairs@[j].0@,
                    value: pairs@[j].1@,
                }),
        decreases count - i,
    {
        let pair = &pairs[i];
        headers.push(Header::new(pair.0.clone(), pair.1.clone()));
        i += 1;
    }
    headers
}

fn copy_headers(headers: &Vec<Header>) -> (copy: Vec<Header>)
    ensures
        header_views(copy@) == header_views(headers@),
{
    let count = headers.len();
    let mut copy: Vec<Header> = Vec::new();
    let mut i: usize = 0;
    while i < count
        invariant
            count == headers@.len(),
            i <= count,
            copy@.len() == i,
            forall|j: int| 0 <= j < i ==> (#[trigger] copy@[j])@ == headers@[j]@,
        decreases count - i,
    {
        copy.push(headers[i].duplicate());
        i += 1;
    }
    assert(header_views(copy@) =~= header_views(headers@));
    copy
}

impl WebConfig {
    /// The configuration for the given options of the request and of how it
    /// is sent.
    pub fn new(
        options: &WebOptions,
        user_agent: UserAgent,
        proxy: Option<String>,
        proxy_credentials: Option<ProxyCredentials>,
        request_timeout: RequestTimeout,
        consider_body: bool,
        thread_delay: ThreadDelay,
    ) -> (config: WebConfig)
        ensures
            config@.keyword == options.spec_keyword()@,
            config@.post_data == (match options.spec_post_data() {
                Some(data) => Some(data@),
                None => None,
            }),
            config@.headers.len() == options.spec_headers()@.len(),
            forall|i: int|
                0 <= i < config@.headers.len() ==> #[trigger] config@.headers[i] == (HeaderView {
                    name: options.spec_headers()@[i].0@,
                    value: options.spec_headers()@[i].1@,
                }),
            config@.redirect == options.spec_redirect(),
            config@.insecure == options.spec_insecure(),
            config@.consider_body == consider_body,
            config@.thread_delay == thread_delay@,
            config@.request_timeout == request_timeout@,
            config@.user_agent == user_agent@,
            config@.proxy == (match proxy {
                Some(url) => Some(url@),
                None => None,
            }),
            config@.proxy_credentials == (match proxy_credentials {
                Some(credentials) => Some(credentials@),
                None => None,
            }),
    {
        let post_data = match options.post_data() {
            Some(data) => Some(data.clone()),
            None => None,
        };
        WebConfig {
            post_data,
            headers: headers_of(options.headers()),
            keyword: options.keyword().clone(),
            user_agent,
            proxy,
            proxy_credentials,
            request_timeout,
            redirect: options.redirect(),
            insecure: options.insecure(),
            consider_body,
            thread_delay,
        }
    }

    /// The body to send; with a body the request is a `POST`.
    pub fn post_data(&self) -> (post_data: &Option<String>)
        ensures
            match *post_data {
                Some(data) => self@.post_data == Some(data@),
                None => self@.post_data is None,
            },
    {
        &self.post_data
    }

    /// The headers to send.
    pub fn headers(&self) -> (headers: &Vec<Header>)
        ensures
            header_views(headers@) == self@.headers,
    {
        &self.headers
    }

    /// The keyword that marks where the ciphertext goes.
    pub fn keyword(&self) -> (keyword: &String)
        ensures
            keyword@ == self@.keyword,
    {
        &self.keyword
    }

    /// The name that requests are sent under.
    pub fn user_agent(&self) -> (user_agent: &UserAgent)
        ensures
            user_agent@ == self@.user_agent,
    {
        &self.user_agent
    }

    /// The URL of the proxy, if requests go through one.
    pub fn proxy(&self) -> (proxy: &Option<String>)
        ensures
            match *proxy {
                Some(url) => self@.proxy == Some(url@),
                None => self@.proxy is None,
            },
    {
        &self.proxy
    }

    /// The credentials for the proxy, if it asks for any.
    pub fn proxy_credentials(&self) -> (credentials: &Option<ProxyCredentials>)
        ensures
            match *credentials {
                Some(held) => self@.proxy_credentials == Some(held@),
                None => self@.proxy_credentials is None,
            },
    {
        &self.proxy_credentials
    }

    /// How long a request may take.
    pub fn request_timeout(&self) -> (timeout: &RequestTimeout)
        ensures
            timeout@ == self@.request_timeout,
    {
        &self.request_timeout
    }

    /// Whether redirects are followed.
    pub fn redirect(&self) -> (redirect: bool)
        ensures
            redirect == self@.redirect,
    {
        self.redirect
    }

    /// Whether certificates go unchecked.
    pub fn insecure(&self) -> (insecure: bool)
        ensures
            insecure == self@.insecure,
    {
        self.insecure
    }

    /// Whether the body of a response counts in telling responses apart.
    pub fn consider_body(&self) -> (consider_body: bool)
        ensures
            consider_body == self@.consider_body,
    {
        self.consider_body
    }

    /// The pause before each request.
    pub fn thread_delay(&self) -> (delay: &ThreadDelay)
        ensures
            delay@ == self@.thread_delay,
    {
        &self.thread_delay
    }

    /// A copy of this configuration.
    pub fn duplicate(&self) -> (copy: WebConfig)
        ensures
            copy@ == self@,
    {
        WebConfig {
            post_data: match &self.post_data {
                Some(data) => Some(data.clone()),
                None => None,
            },
            headers: copy_headers(&self.headers),
            keyword: self.keyword.clone(),
            user_agent: self.user_agent.duplicate(),
            proxy: match &self.proxy {
                Some(url) => Some(url.clone()),
                None => None,
            },
            proxy_credentials: match &self.proxy_credentials {
                Some(credentials) => Some(credentials.duplicate()),
                None => None,
            },
            request_timeout: self.request_timeout,
            redirect: self.redirect,
            insecure: self.insecure,
            consider_body: self.consider_body,
            thread_delay: self.thread_delay,
        }
    }
}

/// Which parts of a header hold the keyword.
#[derive(Clone, Copy, Debug, PartialEq, Eq, Structural)]
pub struct HeaderWithKeyword {
    /// The index of the header among the headers.
    pub idx: usize,
    pub keyword_in_name: bool,
    pub keyword_in_value: bool,
}

/// A part of the request that holds the keyword.
#[derive(Clone, Debug)]
pub enum KeywordLocation {
    /// The URL holds it.
    Url,
    /// The body holds it.
    PostData,
    /// These headers hold it, in the order of their indices.
    Headers(Vec<HeaderWithKeyword>),
}

/// Where the keyword occurs, as a value.
pub struct KeywordSites {
    pub in_url: bool,
    pub in_post_data: bool,
    pub in_headers: Seq<HeaderWithKeyword>,
}

/// What is known of the header with index `idx`, if it holds the keyword.
pub open spec fn header_site(headers: Seq<HeaderView>, keyword: Seq<char>, idx: int) -> Option<
    HeaderWithKeyword,
> {
    let in_name = occurs_in(keyword, headers[idx].name);
    let in_value = occurs_in(keyword, headers[idx].value);
    if in_name || in_value {
        Some(
            HeaderWithKeyword {
                idx: idx as usize,
                keyword_in_name: in_name,
                keyword_in_value: in_value,
            },
        )
    } else {
        None
    }
}

/// The headers among the first `count` that hold the keyword, in order.
pub open spec fn header_sites(headers: Seq<HeaderView>, keyword: Seq<char>, count: int) -> Seq<
    HeaderWithKeyword,
>
    decreases count,
{
    if count <= 0 {
        Seq::empty()
    } else {
        match header_site(headers, keyword, count - 1) {
            Some(site) => header_sites(headers, keyword, count - 1).push(site),
            None => header_sites(headers, keyword, count - 1),
        }
    }
}

/// Where the keyword occurs in a request to `url` under `config`.
pub open spec fn keyword_sites(url: Seq<char>, config: WebConfigView) -> KeywordSites {
    KeywordSites {
        in_url: occurs_in(config.keyword, url),
        in_post_data: occurs_in(
            config.keyword,
            match config.post_data {
                Some(data) => data,
                None => Seq::empty(),
            },
        ),
        in_headers: header_sites(config.headers, config.keyword, config.headers.len() as int),
    }
}

/// The parts that hold the keyword, listed: the URL, then the body, then the
/// headers if any of them holds it.
pub open spec fn listed(sites: KeywordSites) -> Seq<KeywordLocationView> {
    let url = if sites.in_url {
        seq![KeywordLocationView::Url]
    } else {
        Seq::empty()
    };
    let data = if sites.in_post_data {
        seq![KeywordLocationView::PostData]
    } else {
        Seq::empty()
    };
    let headers = if sites.in_headers.len() > 0 {
        seq![KeywordLocationView::Headers(sites.in_headers)]
    } else {
        Seq::empty()
    };
    url + data + headers
}

/// A part of the request that holds the keyword, as a value.
pub enum KeywordLocationView {
    Url,
    PostData,
    Headers(Seq<HeaderWithKeyword>),
}

impl View for KeywordLocation {
    type V = KeywordLocationView;

    open spec fn view(&self) -> KeywordLocationView {
        match self {
            KeywordLocation::Url => KeywordLocationView::Url,
            KeywordLocation::PostData => KeywordLocationView::PostData,
            KeywordLocation::Headers(sites) => KeywordLocationView::Headers(sites@),
        }
    }
}

/// The views of a list of keyword locations.
pub open spec fn location_views(locations: Seq<KeywordLocation>) -> Seq<KeywordLocationView> {
    Seq::new(locations.len(), |i: int| locations[i]@)
}

/// Finds the parts of the request that hold the keyword, so that no other
/// part is searched when a request is built.
pub fn keyword_location(url: &str, config: &WebConfig) -> (keyword_locations: Vec<KeywordLocation>)
    ensures
        location_views(keyword_locations@) == listed(keyword_sites(url@, config@)),
{
    let keyword = config.keyword().as_str();
    let mut keyword_locations: Vec<KeywordLocation> = Vec::new();
    if contains(url, keyword) {
        keyword_locations.push(KeywordLocation::Url);
    }
    let in_post_data = match config.post_data() {
        Some(data) => contains(data.as_str(), keyword),
        None => contains("", keyword),
    };
    proof {
        reveal_strlit("");
        assert(""@ =~= Seq::<char>::empty());
    }
    if in_post_data {
        keyword_locations.push(KeywordLocation::PostData);
    }
    let ghost before_headers = location_views(keyword_locations@);
    let headers = config.headers();
    let count = headers.len();
    let mut headers_with_keyword: Vec<HeaderWithKeyword> = Vec::new();
    let mut idx: usize = 0;
    while idx < count
        invariant
            count == headers@.len(),
            header_views(headers@) == config@.headers,
            keyword@ == config@.keyword,
            idx <= count,
            headers_with_keyword@ == header_sites(config@.headers, config@.keyword, idx as int),
        decreases count - idx,
    {
        let header = &headers[idx];
        let keyword_in_name = contains(header.name().as_str(), keyword);
        let keyword_in_value = contains(header.value().as_str(), keyword);
        assert(header@ == config@.headers[idx as int]);
        if keyword_in_name || keyword_in_value {
            headers_with_keyword.push(HeaderWithKeyword { idx, keyword_in_name, keyword_in_value });
        }
        idx += 1;
    }
    if headers_with_keyword.len() > 0 {
        keyword_locations.push(KeywordLocation::Headers(headers_with_keyword));
    }
    assert(location_views(keyword_locations@) =~= listed(keyword_sites(url@, config@)));
    keyword_locations
}

/// How a request is sent.
#[derive(Clone, Copy, Debug, PartialEq, Eq, Structural)]
pub enum Method {
    Get,
    Post,
}

/// A request to a web oracle.
#[derive(Debug)]
pub struct Request {
    pub method: Method,
    pub url: String,
    pub body: Option<String>,
    pub headers: Vec<Header>,
}

/// `text` with the keyword replaced by the ciphertext where `holds_keyword`
/// says that it holds the keyword, else as it is.
pub open spec fn substituted(
    text: Seq<char>,
    holds_keyword: bool,
    keyword: Seq<char>,
    encoded: Seq<char>,
) -> Seq<char> {
    if holds_keyword {
        replaced(text, keyword, encoded)
    } else {
        text
    }
}

/// The header with index `idx` as it is sent.
pub open spec fn sent_header(
    headers: Seq<HeaderView>,
    keyword: Seq<char>,
    encoded: Seq<char>,
    idx: int,
) -> HeaderView {
    HeaderView {
        name: substituted(
            headers[idx].name,
            occurs_in(keyword, headers[idx].name),
            keyword,
            encoded,
        ),
        value: substituted(
            headers[idx].value,
            occurs_in(keyword, headers[idx].value),
            keyword,
            encoded,
        ),
    }
}

fn substitute(text: &str, holds_keyword: bool, keyword: &str, encoded: &str) -> (result: String)
    ensures
        result@ == substituted(text@, holds_keyword, keyword@, encoded@),
{
    if holds_keyword {
        replace(text, keyword, encoded)
    } else {
        String::from_str(text)
    }
}

fn site_of(sites: &Vec<HeaderWithKeyword>, idx: usize) -> (site: Option<HeaderWithKeyword>)
    ensures
        match site {
            Some(found) => exists|k: int| 0 <= k < sites@.len() && sites@[k] == found && found.idx == idx,
            None => forall|k: int| 0 <= k < sites@.len() ==> sites@[k].idx != idx,
        },
{
    let count = sites.len();
    let mut k: usize = 0;
    while k < count
        invariant
            count == sites@.len(),
            k <= count,
            forall|j: int| 0 <= j < k ==> sites@[j].idx != idx,
        decreases count - k,
    {
        if sites[k].idx == idx {
            return Some(sites[k]);
        }
        k += 1;
    }
    None
}

/// What `header_sites` lists: exactly the headers that hold the keyword,
/// each with what is known of it.
pub proof fn lemma_header_sites(headers: Seq<HeaderView>, keyword: Seq<char>, count: int)
    requires
        0 <= count <= headers.len(),
        headers.len() <= usize::MAX,
    ensures
        forall|k: int|
            0 <= k < header_sites(headers, keyword, count).len() ==> {
                let site = #[trigger] header_sites(headers, keyword, count)[k];
                0 <= site.idx < count && header_site(headers, keyword, site.idx as int) == Some(site)
            },
        forall|idx: int|
            0 <= idx < count && header_site(headers, keyword, idx) is Some ==> exists|k: int|
                0 <= k < header_sites(headers, keyword, count).len() && #[trigger] header_sites(
                    headers,
                    keyword,
                    count,
                )[k] == header_site(headers, keyword, idx)->0,
    decreases count,
{
    if count > 0 {
        lemma_header_sites(headers, keyword, count - 1);
        let before = header_sites(headers, keyword, count - 1);
        let now = header_sites(headers, keyword, count);
        assert forall|idx: int|
            0 <= idx < count && header_site(headers, keyword, idx) is Some implies exists|k: int|
            0 <= k < now.len() && #[trigger] now[k] == header_site(headers, keyword, idx)->0 by {
            if idx < count - 1 {
                let k = choose|k: int|
                    0 <= k < before.len() && #[trigger] before[k] == header_site(
                        headers,
                        keyword,
                        idx,
                    )->0;
                assert(now[k] == before[k]);
            } else {
                assert(now[now.len() - 1] == header_site(headers, keyword, idx)->0);
            }
        }
        assert forall|k: int| 0 <= k < now.len() implies {
            let site = #[trigger] now[k];
            0 <= site.idx < count && header_site(headers, keyword, site.idx as int) == Some(site)
        } by {
            if k < before.len() {
                assert(now[k] == before[k]);
            }
        }
    }
}

/// A web oracle: where it is, how it is asked, and how it answers invalid
/// padding once that is known.
#[derive(Debug)]
pub struct WebOracle {
    url: String,
    config: WebConfig,
    keyword_locations: Vec<KeywordLocation>,
    padding_error_response: Option<CalibrationResponse>,
}

/// Why an oracle cannot be used.
#[derive(Clone, Copy, Debug, PartialEq, Eq, Structural)]
pub enum VisitError {
    /// The location is not of the kind of the oracle.
    WrongLocation,
    /// The configuration is not of the kind of the oracle.
    WrongConfig,
    /// The keyword occurs neither in the URL nor in the body nor in a header:
    /// there is no place for the ciphertext.
    KeywordNotFound,
}

/// The oracle was asked before it was calibrated: how it answers invalid
/// padding is not known.
#[derive(Clone, Copy, Debug, PartialEq, Eq, Structural)]
pub struct NotCalibrated;

impl WebOracle {
    /// The URL of the oracle.
    pub closed spec fn spec_url(self) -> Seq<char> {
        self.url@
    }

    /// How the oracle is asked.
    pub closed spec fn spec_config(self) -> WebConfigView {
        self.config@
    }

    /// How the oracle answers invalid padding, once known.
    pub closed spec fn spec_padding_error_response(self) -> Option<CalibrationResponseView> {
        match self.padding_error_response {
            Some(response) => Some(response@),
            None => None,
        }
    }

    #[verifier::type_invariant]
    spec fn inv(self) -> bool {
        location_views(self.keyword_locations@) == listed(keyword_sites(self.url@, self.config@))
    }

    /// Prepares the web oracle at `oracle_location`. Refused where the
    /// location or the configuration is that of a script, and where the
    /// keyword occurs nowhere in the request.
    pub fn visit(oracle_location: &OracleLocation, oracle_config: &SubConfig) -> (visited: Result<
        WebOracle,
        VisitError,
    >)
        ensures
            match (oracle_location@, *oracle_config) {
                (OracleLocationView::Script(_), _) => visited == Err::<WebOracle, VisitError>(
                    VisitError::WrongLocation,
                ),
                (OracleLocationView::Web(_), SubConfig::Script(_)) => visited == Err::<
                    WebOracle,
                    VisitError,
                >(VisitError::WrongConfig),
                (OracleLocationView::Web(url), SubConfig::Web(config)) => if listed(
                    keyword_sites(url, config@),
                ).len() == 0 {
                    visited == Err::<WebOracle, VisitError>(VisitError::KeywordNotFound)
                } else {
                    &&& visited is Ok
                    &&& visited->Ok_0.spec_url() == url
                    &&& visited->Ok_0.spec_config() == config@
                    &&& visited->Ok_0.spec_padding_error_response() is None
                },
            },
    {
        let url = match oracle_location {
            OracleLocation::Web(url) => url,
            OracleLocation::Script(_) => {
                return Err(VisitError::WrongLocation);
            },
        };
        let config = match oracle_config {
            SubConfig::Web(config) => config,
            SubConfig::Script(_) => {
                return Err(VisitError::WrongConfig);
            },
        };
        let keyword_locations = keyword_location(url.as_str(), config);
        if keyword_locations.len() == 0 {
            return Err(VisitError::KeywordNotFound);
        }
        let copy = config.duplicate();
        Ok(WebOracle { url: url.clone(), config: copy, keyword_locations, padding_error_response: None })
    }

    /// Tells the oracle how it answers invalid padding.
    pub fn set_padding_error_response(&mut self, response: Option<CalibrationResponse>)
        ensures
            final(self).spec_url() == old(self).spec_url(),
            final(self).spec_config() == old(self).spec_config(),
            final(self).spec_padding_error_response() == (match response {
                Some(held) => Some(held@),
                None => None,
            }),
    {
        proof {
            use_type_invariant(&*self);
        }
        self.padding_error_response = response;
    }

    /// The place of the oracle, under which its results are remembered.
    pub fn location(&self) -> (location: OracleLocation)
        ensures
            location@ == OracleLocationView::Web(self.spec_url()),
    {
        OracleLocation::Web(self.url.clone())
    }

    /// How the oracle is asked.
    pub fn config(&self) -> (config: &WebConfig)
        ensures
            config@ == self.spec_config(),
    {
        &self.config
    }

    /// The pause before each request.
    pub fn thread_delay(&self) -> (delay: &ThreadDelay)
        ensures
            delay@ == self.spec_config().thread_delay,
    {
        self.config.thread_delay()
    }

    /// The request that asks about a ciphertext: the keyword is replaced by
    /// the encoded ciphertext in the URL, the body and each part of a header
    /// that holds it, and nothing else is changed. With a body the request
    /// is a `POST`, without one a `GET`.
    pub fn replace_keyword_occurrences(&self, encoded_cypher_text: &str) -> (request: Request)
        ensures
            request.method == (if self.spec_config().post_data is Some {
                Method::Post
            } else {
                Method::Get
            }),
            request.url@ == substituted(
                self.spec_url(),
                occurs_in(self.spec_config().keyword, self.spec_url()),
                self.spec_config().keyword,
                encoded_cypher_text@,
            ),
            match self.spec_config().post_data {
                Some(data) => request.body is Some && request.body->0@ == substituted(
                    data,
                    occurs_in(self.spec_config().keyword, data),
                    self.spec_config().keyword,
                    encoded_cypher_text@,
                ),
                None => request.body is None,
            },
            request.headers@.len() == self.spec_config().headers.len(),
            forall|i: int|
                0 <= i < request.headers@.len() ==> (#[trigger] request.headers@[i])@
                    == sent_header(
                    self.spec_config().headers,
                    self.spec_config().keyword,
                    encoded_cypher_text@,
                    i,
                ),
    {
        proof {
            use_type_invariant(self);
        }
        let keyword = self.config.keyword.as_str();
        let ghost sites = keyword_sites(self.url@, self.config@);
        let mut in_url = false;
        let mut in_post_data = false;
        let mut in_headers: Vec<HeaderWithKeyword> = Vec::new();
        let count = self.keyword_locations.len();
        let mut i: usize = 0;
        proof {
            lemma_listed(sites);
        }
        while i < count
            invariant
                count == self.keyword_locations@.len(),
                i <= count,
                location_views(self.keyword_locations@) == listed(sites),
                in_url == exists|k: int| 0 <= k < i && listed(sites)[k] is Url,
                in_post_data == exists|k: int| 0 <= k < i && listed(sites)[k] is PostData,
                (exists|k: int| 0 <= k < i && listed(sites)[k] is Headers) ==> in_headers@
                    == sites.in_headers,
                !(exists|k: int| 0 <= k < i && listed(sites)[k] is Headers) ==> in_headers@.len()
                    == 0,
                forall|k: int, l: int|
                    0 <= k < l < listed(sites).len() && listed(sites)[k] is Headers ==> !(listed(
                        sites,
                    )[l] is Headers),
                forall|k: int|
                    0 <= k < listed(sites).len() && listed(sites)[k] is Headers ==> listed(
                        sites,
                    )[k]->Headers_0 == sites.in_headers,
            decreases count - i,
        {
            assert(self.keyword_locations@[i as int]@ == listed(sites)[i as int]);
            match &self.keyword_locations[i] {
                KeywordLocation::Url => {
                    in_url = true;
                },
                KeywordLocation::PostData => {
                    in_post_data = true;
                },
                KeywordLocation::Headers(headers_with_keyword) => {
                    in_headers = Vec::new();
                    in_headers.extend_from_slice(headers_with_keyword.as_slice());
                    assert(in_headers@ =~= headers_with_keyword@);
                },
            }
            i += 1;
        }
        proof {
            lemma_listed(sites);
            assert(listed(sites).len() == count);
            if sites.in_headers.len() == 0 {
                assert(in_headers@ =~= sites.in_headers);
            }
        }
        let url = substitute(self.url.as_str(), in_url, keyword, encoded_cypher_text);
        let body = match &self.config.post_data {
            Some(data) => Some(substitute(data.as_str(), in_post_data, keyword, encoded_cypher_text)),
            None => None,
        };
        let headers = self.replace_keyword_in_headers(&in_headers, encoded_cypher_text);
        let method = if self.config.post_data.is_none() {
            Method::Get
        } else {
            Method::Post
        };
        Request { method, url, body, headers }
    }

    /// The headers as they are sent: in each part of a header that is listed
    /// as holding the keyword, the keyword is replaced by the encoded
    /// ciphertext.
    fn replace_keyword_in_headers(
        &self,
        headers_with_keyword: &Vec<HeaderWithKeyword>,
        encoded_cypher_text: &str,
    ) -> (headers: Vec<Header>)
        requires
            headers_with_keyword@ == header_sites(
                self.config@.headers,
                self.config@.keyword,
                self.config@.headers.len() as int,
            ),
        ensures
            headers@.len() == self.config@.headers.len(),
            forall|i: int|
                0 <= i < headers@.len() ==> (#[trigger] headers@[i])@ == sent_header(
                    self.config@.headers,
                    self.config@.keyword,
                    encoded_cypher_text@,
                    i,
                ),
    {
        let keyword = self.config.keyword.as_str();
        let count = self.config.headers.len();
        let mut headers: Vec<Header> = Vec::new();
        let mut idx: usize = 0;
        proof {
            assert(self.config@.headers.len() == self.config.headers@.len());
            lemma_header_sites(
                self.config@.headers,
                self.config@.keyword,
                self.config@.headers.len() as int,
            );
        }
        while idx < count
            invariant
                count == self.config.headers@.len(),
                count == self.config@.headers.len(),
                keyword@ == self.config@.keyword,
                idx <= count,
                headers@.len() == idx,
                headers_with_keyword@ == header_sites(
                    self.config@.headers,
                    self.config@.keyword,
                    self.config@.headers.len() as int,
                ),
                forall|k: int|
                    0 <= k < headers_with_keyword@.len() ==> {
                        let site = #[trigger] headers_with_keyword@[k];
                        0 <= site.idx < count && header_site(
                            self.config@.headers,
                            self.config@.keyword,
                            site.idx as int,
                        ) == Some(site)
                    },
                forall|at: int|
                    0 <= at < count && header_site(self.config@.headers, self.config@.keyword, at)
                        is Some ==> exists|k: int|
                        0 <= k < headers_with_keyword@.len() && #[trigger] headers_with_keyword@[k]
                            == header_site(self.config@.headers, self.config@.keyword, at)->0,
                forall|i: int|
                    0 <= i < idx ==> (#[trigger] headers@[i])@ == sent_header(
                        self.config@.headers,
                        self.config@.keyword,
                        encoded_cypher_text@,
                        i,
                    ),
            decreases count - idx,
        {
            let header = &self.config.headers[idx];
            assert(header@ == self.config@.headers[idx as int]);
            let ghost expected = header_site(
                self.config@.headers,
                self.config@.keyword,
                idx as int,
            );
            let (in_name, in_value) = match site_of(headers_with_keyword, idx) {
                Some(site) => {
                    assert(expected == Some(site));
                    (site.keyword_in_name, site.keyword_in_value)
                },
                None => {
                    proof {
                        if expected is Some {
                            let k = choose|k: int|
                                0 <= k < headers_with_keyword@.len()
                                    && #[trigger] headers_with_keyword@[k] == expected->0;
                            assert(headers_with_keyword@[k].idx == idx);
                        }
                    }
                    (false, false)
                },
            };
            let name = substitute(header.name().as_str(), in_name, keyword, encoded_cypher_text);
            let value = substitute(header.value().as_str(), in_value, keyword, encoded_cypher_text);
            headers.push(Header::new(name, value));
            idx += 1;
        }
        headers
    }

    /// Judges a response: it stands for valid padding exactly if it differs
    /// from the response to invalid padding. An oracle that is not
    /// calibrated cannot judge.
    pub fn ask_validation(&self, response: &CalibrationResponse) -> (valid: Result<
        bool,
        NotCalibrated,
    >)
        ensures
            match self.spec_padding_error_response() {
                Some(padding_error) => valid == Ok::<bool, NotCalibrated>(response@ != padding_error),
                None => valid == Err::<bool, NotCalibrated>(NotCalibrated),
            },
    {
        match &self.padding_error_response {
            Some(padding_error_response) => Ok(!response.same_as(padding_error_response)),
            None => Err(NotCalibrated),
        }
    }
}

/// What `listed` lists: each part at most once, the headers with their
/// sites.
pub proof fn lemma_listed(sites: KeywordSites)
    ensures
        sites.in_url <==> exists|k: int| 0 <= k < listed(sites).len() && listed(sites)[k] is Url,
        sites.in_post_data <==> exists|k: int|
            0 <= k < listed(sites).len() && listed(sites)[k] is PostData,
        sites.in_headers.len() > 0 <==> exists|k: int|
            0 <= k < listed(sites).len() && listed(sites)[k] is Headers,
        forall|k: int, l: int|
            0 <= k < l < listed(sites).len() && listed(sites)[k] is Headers ==> !(listed(sites)[l]
                is Headers),
        forall|k: int|
            0 <= k < listed(sites).len() && listed(sites)[k] is Headers ==> listed(
                sites,
            )[k]->Headers_0 == sites.in_headers,
{
    let all = listed(sites);
    if sites.in_url {
        assert(all[0] is Url);
    }
    if sites.in_post_data {
        if sites.in_url {
            assert(all[1] is PostData);
        } else {
            assert(all[0] is PostData);
        }
    }
    if sites.in_headers.len() > 0 {
        assert(all[all.len() - 1] is Headers);
    }
}

/// A script oracle: a program that is run on the ciphertext and ends
/// without error exactly if the padding is valid.
#[derive(Debug)]
pub struct ScriptOracle {
    path: String,
    config: ScriptConfig,
}

impl ScriptOracle {
    /// The path of the script.
    pub closed spec fn spec_path(self) -> Seq<char> {
        self.path@
    }

    /// How the script is used.
    pub closed spec fn spec_config(self) -> ScriptConfig {
        self.config
    }

    /// Prepares the script oracle at `oracle_location`. Refused where the
    /// location or the configuration is that of a web oracle.
    pub fn visit(oracle_location: &OracleLocation, oracle_config: &SubConfig) -> (visited: Result<
        ScriptOracle,
        VisitError,
    >)
        ensures
            match (oracle_location@, *oracle_config) {
                (OracleLocationView::Web(_), _) => visited == Err::<ScriptOracle, VisitError>(
                    VisitError::WrongLocation,
                ),
                (OracleLocationView::Script(_), SubConfig::Web(_)) => visited == Err::<
                    ScriptOracle,
                    VisitError,
                >(VisitError::WrongConfig),
                (OracleLocationView::Script(path), SubConfig::Script(config)) => {
                    &&& visited is Ok
                    &&& visited->Ok_0.spec_path() == path
                    &&& visited->Ok_0.spec_config() == config
                },
            },
    {
        let path = match oracle_location {
            OracleLocation::Script(path) => path,
            OracleLocation::Web(_) => {
                return Err(VisitError::WrongLocation);
            },
        };
        let config = match oracle_config {
            SubConfig::Script(config) => config,
            SubConfig::Web(_) => {
                return Err(VisitError::WrongConfig);
            },
        };
        Ok(ScriptOracle { path: path.clone(), config: *config })
    }

    /// The command that asks about a ciphertext: the path of the script, a
    /// space, and the encoded ciphertext as its only argument.
    pub fn command(&self, encoded_cypher_text: &str) -> (command: String)
        ensures
            command@ == self.spec_path() + seq![' '] + encoded_cypher_text@,
    {
        proof {
            reveal_strlit(" ");
            assert(" "@ =~= seq![' ']);
        }
        let mut command = self.path.clone();
        command.append(" ");
        command.append(encoded_cypher_text);
        command
    }

    /// Judges a run of the script: the padding is valid exactly if the
    /// script ended without error.
    pub fn ask_validation(&self, exited_without_error: bool) -> (valid: bool)
        ensures
            valid == exited_without_error,
    {
        exited_without_error
    }

    /// The place of the oracle, under which its results are remembered.
    pub fn location(&self) -> (location: OracleLocation)
        ensures
            location@ == OracleLocationView::Script(self.spec_path()),
    {
        OracleLocation::Script(self.path.clone())
    }

    /// The pause before each run of the script.
    pub fn thread_delay(&self) -> (delay: &ThreadDelay)
        ensures
            *delay == self.spec_config().spec_thread_delay(),
    {
        self.config.thread_delay()
    }
}

} // verus!
