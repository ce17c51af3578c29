//! What the user asks for, checked and ready for the attack.

use vstd::prelude::*;
use vstd::string::*;

use crate::text::{
    has_colon, is_cut_at_colon, parse_u64, parsed_u64, replace, replaced, split_once_at_colon,
    trim, trimmed,
};

verus! {

/// The text is no number of the kind that is asked for.
#[derive(Clone, Copy, Debug, PartialEq, Eq, Structural)]
pub struct InvalidNumber;

/// The text is not of the form `<left>:<right>`.
#[derive(Clone, Copy, Debug, PartialEq, Eq, Structural)]
pub struct MissingColon;

/// What the user says of the block size: one of them, or to find it out.
#[derive(Clone, Copy, Debug, PartialEq, Eq, Structural)]
pub enum BlockSizeOption {
    Eight,
    Sixteen,
    Auto,
}

/// How much the log tells.
#[derive(Clone, Copy, Debug, PartialEq, Eq, Structural)]
pub enum LogLevel {
    Info,
    Debug,
    Trace,
}

impl BlockSizeOption {
    /// The option that `text` names, if it is one of `auto`, `8` and `16`.
    pub open spec fn named(text: Seq<char>) -> Option<BlockSizeOption> {
        if text == "auto"@ {
            Some(BlockSizeOption::Auto)
        } else if text == "8"@ {
            Some(BlockSizeOption::Eight)
        } else if text == "16"@ {
            Some(BlockSizeOption::Sixteen)
        } else {
            None
        }
    }

    /// Reads the option from its name.
    pub fn parse(data: &str) -> (option: Option<BlockSizeOption>)
        ensures
            option == Self::named(data@),
    {
        let text = String::from_str(data);
        if text == String::from_str("auto") {
            Some(BlockSizeOption::Auto)
        } else if text == String::from_str("8") {
            Some(BlockSizeOption::Eight)
        } else if text == String::from_str("16") {
            Some(BlockSizeOption::Sixteen)
        } else {
            None
        }
    }
}

impl LogLevel {
    /// The level for how often the user asked for more: not at all is
    /// `Info`, once is `Debug`, more often is `Trace`.
    pub fn from_verbosity(verbosity: u8) -> (level: LogLevel)
        ensures
            level == (if verbosity == 0 {
                LogLevel::Info
            } else if verbosity == 1 {
                LogLevel::Debug
            } else {
                LogLevel::Trace
            }),
    {
        if verbosity == 0 {
            LogLevel::Info
        } else if verbosity == 1 {
            LogLevel::Debug
        } else {
            LogLevel::Trace
        }
    }
}

/// How many workers ask the oracle at once; at least one.
#[derive(Clone, Copy, Debug, PartialEq, Eq)]
pub struct ThreadCount(usize);

/// The pause before each request, in milliseconds.
#[derive(Clone, Copy, Debug, PartialEq, Eq)]
pub struct ThreadDelay(u64);

/// How long a web request may take, in seconds.
#[derive(Clone, Copy, Debug, PartialEq, Eq)]
pub struct RequestTimeout(u64);

impl View for ThreadCount {
    type V = usize;

    closed spec fn view(&self) -> usize {
        self.0
    }
}

impl View for ThreadDelay {
    type V = u64;

    closed spec fn view(&self) -> u64 {
        self.0
    }
}

impl View for RequestTimeout {
    type V = u64;

    closed spec fn view(&self) -> u64 {
        self.0
    }
}

/// The number of workers that `text` asks for: a number from one up to what
/// the machine can count.
pub open spec fn thread_count_named(text: Seq<char>) -> Option<usize> {
    match parsed_u64(text) {
        Some(count) => if 0 < count <= usize::MAX {
            Some(count as usize)
        } else {
            None
        },
        None => None,
    }
}

impl ThreadCount {
    #[verifier::type_invariant]
    spec fn inv(self) -> bool {
        self.0 > 0
    }

    /// So many workers, which must be one at least and no more than the
    /// machine can count.
    pub fn from_number(count: u64) -> (made: Result<ThreadCount, InvalidNumber>)
        ensures
            made is Ok <==> 0 < count <= usize::MAX,
            made is Ok ==> made->Ok_0@ == count,
    {
        if count > 0 && count <= usize::MAX as u64 {
            Ok(ThreadCount(count as usize))
        } else {
            Err(InvalidNumber)
        }
    }

    /// Reads a number of workers, which must be a number above zero.
    pub fn parse(thread_count: &str) -> (parsed: Result<ThreadCount, InvalidNumber>)
        ensures
            match thread_count_named(thread_count@) {
                Some(count) => parsed is Ok && parsed->Ok_0@ == count,
                None => parsed is Err,
            },
    {
        match parse_u64(thread_count) {
            Some(count) => ThreadCount::from_number(count),
            None => Err(InvalidNumber),
        }
    }

    /// The number of workers; above zero.
    pub fn get(&self) -> (count: usize)
        ensures
            count == self@,
            count > 0,
    {
        proof {
            use_type_invariant(self);
        }
        self.0
    }
}

impl Default for ThreadCount {
    /// Sixty-four workers.
    fn default() -> (count: ThreadCount)
        ensures
            count@ == 64,
    {
        ThreadCount(64)
    }
}

impl ThreadDelay {
    /// A pause of so many milliseconds.
    pub fn from_millis(millis: u64) -> (delay: ThreadDelay)
        ensures
            delay@ == millis,
    {
        ThreadDelay(millis)
    }

    /// Reads a pause in milliseconds.
    pub fn parse(delay: &str) -> (parsed: Result<ThreadDelay, InvalidNumber>)
        ensures
            match parsed_u64(delay@) {
                Some(millis) => parsed is Ok && parsed->Ok_0@ == millis,
                None => parsed is Err,
            },
    {
        match parse_u64(delay) {
            Some(millis) => Ok(ThreadDelay(millis)),
            None => Err(InvalidNumber),
        }
    }

    /// The pause in milliseconds.
    pub fn as_millis(&self) -> (millis: u64)
        ensures
            millis == self@,
    {
        self.0
    }
}

impl Default for ThreadDelay {
    /// No pause.
    fn default() -> (delay: ThreadDelay)
        ensures
            delay@ == 0,
    {
        ThreadDelay(0)
    }
}

impl RequestTimeout {
    /// A timeout of so many seconds.
    pub fn from_secs(secs: u64) -> (timeout: RequestTimeout)
        ensures
            timeout@ == secs,
    {
        RequestTimeout(secs)
    }

    /// Reads a timeout in seconds.
    pub fn parse(timeout: &str) -> (parsed: Result<RequestTimeout, InvalidNumber>)
        ensures
            match parsed_u64(timeout@) {
                Some(secs) => parsed is Ok && parsed->Ok_0@ == secs,
                None => parsed is Err,
            },
    {
        match parse_u64(timeout) {
            Some(secs) => Ok(RequestTimeout(secs)),
            None => Err(InvalidNumber),
        }
    }

    /// The timeout in seconds.
    pub fn as_secs(&self) -> (secs: u64)
        ensures
            secs == self@,
    {
        self.0
    }
}

impl Default for RequestTimeout {
    /// Ten seconds.
    fn default() -> (timeout: RequestTimeout)
        ensures
            timeout@ == 10,
    {
        RequestTimeout(10)
    }
}

/// The name that web requests are sent under.
#[derive(Clone, Debug)]
pub struct UserAgent(String);

impl View for UserAgent {
    type V = Seq<char>;

    closed spec fn view(&self) -> Seq<char> {
        self.0@
    }
}

/// `user_agent` with every `<version>` replaced by `version`.
pub open spec fn with_version(user_agent: Seq<char>, version: Seq<char>) -> Seq<char> {
    replaced(user_agent, "<version>"@, version)
}

/// Puts `version` in the place of every `<version>` in `user_agent`.
pub fn replace_version(user_agent: &str, version: &str) -> (replaced: String)
    ensures
        replaced@ == with_version(user_agent@, version@),
{
    replace(user_agent, "<version>", version)
}

impl UserAgent {
    /// The user agent that `user_agent` asks for, for a release `version`.
    pub fn parse(user_agent: &str, version: &str) -> (parsed: UserAgent)
        ensures
            parsed@ == with_version(user_agent@, version@),
    {
        UserAgent(replace_version(user_agent, version))
    }

    /// The user agent that is used unless another is asked for.
    pub fn for_version(version: &str) -> (agent: UserAgent)
        ensures
            agent@ == with_version("rustpad/<version>"@, version@),
    {
        UserAgent(replace_version("rustpad/<version>", version))
    }

    /// The user agent as text.
    pub fn as_str(&self) -> (text: &str)
        ensures
            text@ == self@,
    {
        self.0.as_str()
    }

    /// A copy of this user agent.
    pub fn duplicate(&self) -> (copy: UserAgent)
        ensures
            copy@ == self@,
    {
        UserAgent(self.0.clone())
    }
}

/// A header of a web request.
#[derive(Clone, Debug)]
pub struct Header {
    name: String,
    value: String,
}

/// A header as a value.
pub struct HeaderView {
    pub name: Seq<char>,
    pub value: Seq<char>,
}

impl View for Header {
    type V = HeaderView;

    closed spec fn view(&self) -> HeaderView {
        HeaderView { name: self.name@, value: self.value@ }
    }
}

impl Header {
    /// A header of that name and value.
    pub fn new(name: String, value: String) -> (header: Header)
        ensures
            header@ == (HeaderView { name: name@, value: value@ }),
    {
        Header { name, value }
    }

    /// Reads a header of the form `<name>:<value>`: the name is what stands
    /// before the first colon, the value what stands after it, both without
    /// white space around them.
    pub fn parse(header: &str) -> (parsed: Result<Header, MissingColon>)
        ensures
            parsed is Ok <==> has_colon(header@),
            parsed is Ok ==> exists|before: Seq<char>, after: Seq<char>|
                #![auto]
                is_cut_at_colon(header@, before, after) && parsed->Ok_0@ == (HeaderView {
                    name: trimmed(before),
                    value: trimmed(after),
                }),
    {
        match split_once_at_colon(header) {
            Some(cut) => {
                let parsed = Header {
                    name: trim(cut.before.as_str()),
                    value: trim(cut.after.as_str()),
                };
                assert(is_cut_at_colon(header@, cut.before@, cut.after@));
                Ok(parsed)
            },
            None => Err(MissingColon),
        }
    }

    /// The name of the header.
    pub fn name(&self) -> (name: &String)
        ensures
            name@ == self@.name,
    {
        &self.name
    }

    /// The value of the header.
    pub fn value(&self) -> (value: &String)
        ensures
            value@ == self@.value,
    {
        &self.value
    }

    /// A copy of this header.
    pub fn duplicate(&self) -> (copy: Header)
        ensures
            copy@ == self@,
    {
        Header { name: self.name.clone(), value: self.value.clone() }
    }
}

/// A user name and a password for a proxy.
#[derive(Clone, Debug)]
pub struct ProxyCredentials {
    username: String,
    password: String,
}

/// Credentials as a value.
pub struct ProxyCredentialsView {
    pub username: Seq<char>,
    pub password: Seq<char>,
}

impl View for ProxyCredentials {
    type V = ProxyCredentialsView;

    closed spec fn view(&self) -> ProxyCredentialsView {
        ProxyCredentialsView { username: self.username@, password: self.password@ }
    }
}

impl ProxyCredentials {

    /// Reads credentials of the form `<username>:<password>`: the user name
    /// is what stands before the first colon, the password what stands after
    /// it.
    pub fn parse(proxy_credentials: &str) -> (parsed: Result<ProxyCredentials, MissingColon>)
        ensures
            parsed is Ok <==> has_colon(proxy_credentials@),
            parsed is Ok ==> is_cut_at_colon(
                proxy_credentials@,
                parsed->Ok_0@.username,
                parsed->Ok_0@.password,
            ),
    {
        match split_once_at_colon(proxy_credentials) {
            Some(cut) => Ok(ProxyCredentials { username: cut.before, password: cut.after }),
            None => Err(MissingColon),
        }
    }

    /// The user name.
    pub fn username(&self) -> (username: &String)
        ensures
            username@ == self@.username,
    {
        &self.username
    }

    /// The password.
    pub fn password(&self) -> (password: &String)
        ensures
            password@ == self@.password,
    {
        &self.password
    }

    /// A copy of these credentials.
    pub fn duplicate(&self) -> (copy: ProxyCredentials)
        ensures
            copy@ == self@,
    {
        ProxyCredentials { username: self.username.clone(), password: self.password.clone() }
    }
}

/// What is asked of a script oracle.
#[derive(Clone, Copy, Debug)]
pub struct ScriptOptions {}

/// How a script oracle is used.
#[derive(Clone, Copy, Debug)]
pub struct ScriptConfig {
    thread_delay: ThreadDelay,
}

impl ScriptConfig {
    /// A configuration with the given pause before each run of the script.
    pub fn new(thread_delay: ThreadDelay) -> (config: ScriptConfig)
        ensures
            config.spec_thread_delay() == thread_delay,
    {
        ScriptConfig { thread_delay }
    }

    /// The pause before each run of the script.
    pub closed spec fn spec_thread_delay(self) -> ThreadDelay {
        self.thread_delay
    }

    /// The pause before each run of the script.
    pub fn thread_delay(&self) -> (delay: &ThreadDelay)
        ensures
            *delay == self.spec_thread_delay(),
    {
        &self.thread_delay
    }
}

/// What is asked of a web oracle: how to build the request that carries the
/// ciphertext.
#[derive(Clone, Debug)]
pub struct WebOptions {
    post_data: Option<String>,
    headers: Vec<(String, String)>,
    redirect: bool,
    insecure: bool,
    keyword: String,
}

/// The options for the oracle at hand.
#[derive(Clone, Debug)]
pub enum SubOptions {
    Web(WebOptions),
    Script(ScriptOptions),
}

impl WebOptions {
    /// Options with the given body, headers as pairs of name and value, and
    /// keyword that marks where the ciphertext goes.
    pub fn new(
        post_data: Option<String>,
        headers: Vec<(String, String)>,
        redirect: bool,
        insecure: bool,
        keyword: String,
    ) -> (options: WebOptions)
        ensures
            options.spec_post_data() == post_data,
            options.spec_headers() == headers,
            options.spec_redirect() == redirect,
            options.spec_insecure() == insecure,
            options.spec_keyword() == keyword,
    {
        WebOptions { post_data, headers, redirect, insecure, keyword }
    }

    /// The body to send, if any.
    pub closed spec fn spec_post_data(self) -> Option<String> {
        self.post_data
    }

    /// The headers to send.
    pub closed spec fn spec_headers(self) -> Vec<(String, String)> {
        self.headers
    }

    /// Whether redirects are followed.
    pub closed spec fn spec_redirect(self) -> bool {
        self.redirect
    }

    /// Whether certificates go unchecked.
    pub closed spec fn spec_insecure(self) -> bool {
        self.insecure
    }

    /// The keyword that marks where the ciphertext goes.
    pub closed spec fn spec_keyword(self) -> String {
        self.keyword
    }

    /// The body to send; with a body the request is a `POST`.
    pub fn post_data(&self) -> (post_data: &Option<String>)
        ensures
            *post_data == self.spec_post_data(),
    {
        &self.post_data
    }

    /// The headers to send, as pairs of name and value.
    pub fn headers(&self) -> (headers: &Vec<(String, String)>)
        ensures
            *headers == self.spec_headers(),
    {
        &self.headers
    }

    /// Whether redirects are followed.
    pub fn redirect(&self) -> (redirect: bool)
        ensures
            redirect == self.spec_redirect(),
    {
        self.redirect
    }

    /// Whether certificates go unchecked.
    pub fn insecure(&self) -> (insecure: bool)
        ensures
            insecure == self.spec_insecure(),
    {
        self.insecure
    }

    /// The keyword that marks where the ciphertext goes.
    pub fn keyword(&self) -> (keyword: &String)
        ensures
            *keyword == self.spec_keyword(),
    {
        &self.keyword
    }
}

} // verus!
