//! HTTP plumbing: collecting a response body, and the settings of a GET request.
use vstd::prelude::*;
use curl::easy::List;

verus! {

/// A progress sink that reports nothing and never cancels a transfer.
pub struct DummyProgress;

/// How many bytes a file download reports as taken from a chunk of `data_len`
/// bytes: all of them when the chunk was written to the file, none otherwise
/// (which makes curl abort the transfer).
pub fn accepted_len(written: bool, data_len: usize) -> (taken: usize)
    ensures
        taken == if written { data_len } else { 0 },
{
    if written {
        data_len
    } else {
        0
    }
}

/// Collects the body of a response in memory.
pub struct Collector {
    data: Vec<u8>,
}

impl View for Collector {
    type V = Seq<u8>;

    /// The bytes received so far.
    closed spec fn view(&self) -> Seq<u8> {
        self.data@
    }
}

impl Collector {
    /// A collector that has received nothing.
    pub fn new() -> (collector: Self)
        ensures
            collector@ == Seq::<u8>::empty(),
    {
        Collector { data: Vec::new() }
    }

    /// A copy of the bytes received so far.
    pub fn get_data(&self) -> (data: Vec<u8>)
        ensures
            data@ == self@,
    {
        let data = self.data.clone();
        assert(data@ =~= self.data@);
        data
    }

    /// Receives a chunk of the body; all of it is taken.
    pub fn write(&mut self, data: &[u8]) -> (taken: usize)
        ensures
            final(self)@ == old(self)@ + data@,
            taken == data@.len(),
    {
        self.data.extend_from_slice(data);
        assert(self.data@ =~= old(self)@ + data@);
        data.len()
    }
}

/// A collector gives back what was written to it, in order: a new collector that
/// took `first` and then `second` holds `first` followed by `second`.
pub proof fn law_collector_concatenates(
    start: Collector,
    middle: Collector,
    end: Collector,
    first: Seq<u8>,
    second: Seq<u8>,
)
    requires
        start@ == Seq::<u8>::empty(),
        middle@ == start@ + first,
        end@ == middle@ + second,
    ensures
        end@ == first + second,
{
    assert(start@ + first =~= first);
}

#[verifier::external_type_specification]
#[verifier::external_body]
pub struct ExCurlList(curl::easy::List);

#[verifier::external_type_specification]
#[verifier::external_body]
pub struct ExCurlError(curl::Error);

/// The strings that a curl string list holds, in order.
pub uninterp spec fn list_items(list: List) -> Seq<Seq<char>>;

/// `curl::easy::List::new`: an empty list.
#[verifier::external_body]
fn new_list() -> (list: List)
    ensures
        list_items(list) == Seq::<Seq<char>>::empty(),
{
    List::new()
}

/// `curl::easy::List::append`: appends `data`. The crate first turns `data` into a C
/// string, which fails exactly when `data` holds a NUL character; the list is then
/// unchanged. Left unsaid: the crate panics when libcurl cannot allocate the node.
#[verifier::external_body]
fn list_append(list: &mut List, data: &str) -> (appended: Result<(), curl::Error>)
    ensures
        appended is Ok <==> !data@.contains('\0'),
        appended is Ok ==> list_items(*final(list)) == list_items(*old(list)).push(data@),
        appended is Err ==> list_items(*final(list)) == list_items(*old(list)),
{
    list.append(data)
}

/// Why a header line was refused: curl takes headers as C strings, which cannot
/// hold a NUL character.
#[derive(Debug, Clone, Copy, PartialEq, Eq, Structural)]
pub enum HeaderError {
    ContainsNul,
}

/// A span of time as `std::time::Duration` holds it: whole seconds, and the
/// nanoseconds below a second.
pub struct Timeout {
    secs: u64,
    nanos: u32,
}

impl View for Timeout {
    type V = (u64, u32);

    /// `(seconds, nanoseconds below a second)`.
    closed spec fn view(&self) -> (u64, u32) {
        (self.secs, self.nanos)
    }
}

impl Timeout {
    #[verifier::type_invariant]
    spec fn below_a_second(self) -> bool {
        self.nanos < 1_000_000_000
    }

    /// A span of `secs` whole seconds.
    pub fn from_secs(secs: u64) -> (t: Timeout)
        ensures
            t@ == (secs, 0u32),
    {
        Timeout { secs, nanos: 0 }
    }

    /// A span of `secs` seconds and `nanos` nanoseconds, `nanos` below a second.
    pub fn from_parts(secs: u64, nanos: u32) -> (t: Timeout)
        requires
            nanos < 1_000_000_000,
        ensures
            t@ == (secs, nanos),
    {
        Timeout { secs, nanos }
    }

    /// The whole seconds of the span.
    pub fn as_secs(&self) -> (secs: u64)
        ensures
            secs == self@.0,
    {
        self.secs
    }

    /// The nanoseconds of the span below a second.
    pub fn subsec_nanos(&self) -> (nanos: u32)
        ensures
            nanos == self@.1,
            nanos < 1_000_000_000,
    {
        proof {
            use_type_invariant(self);
        }
        self.nanos
    }
}

/// The user agent with which the launcher makes its requests.
pub const USER_AGENT: &'static str = "curl/8.9.1";

/// How a curl handle is set up for a GET request: the method is GET, redirects are
/// followed, `USER_AGENT` is sent and progress reports are on.
pub struct EasyGet<'a> {
    pub url: &'a str,
    pub get: bool,
    pub follow_location: bool,
    pub user_agent: &'static str,
    pub progress: bool,
}

/// The set-up of a GET request for `url`.
pub fn easy_get<'a>(url: &'a str) -> (settings: EasyGet<'a>)
    ensures
        settings.url@ == url@,
        settings.get,
        settings.follow_location,
        settings.user_agent@ == USER_AGENT@,
        settings.progress,
{
    EasyGet { url, get: true, follow_location: true, user_agent: USER_AGENT, progress: true }
}

/// What a request to be made is: URL, method, redirect following, user agent,
/// progress reports, timeout (`(seconds, nanoseconds)`) and extra header lines.
pub struct RequestModel {
    pub url: Seq<char>,
    pub get: bool,
    pub follow_location: bool,
    pub user_agent: Seq<char>,
    pub progress: bool,
    pub timeout: Option<(u64, u32)>,
    pub headers: Seq<Seq<char>>,
}

/// A new GET request for `url`: redirects followed, `USER_AGENT`, progress on, no
/// timeout and no extra headers.
pub open spec fn new_request(url: Seq<char>) -> RequestModel {
    RequestModel {
        url,
        get: true,
        follow_location: true,
        user_agent: USER_AGENT@,
        progress: true,
        timeout: None,
        headers: Seq::empty(),
    }
}

impl RequestModel {
    /// This request with its timeout set to `t`.
    pub open spec fn with_timeout(self, t: (u64, u32)) -> RequestModel {
        RequestModel { timeout: Some(t), ..self }
    }

    /// This request with the header line `h` added after the others.
    pub open spec fn with_header(self, h: Seq<char>) -> RequestModel {
        RequestModel { headers: self.headers.push(h), ..self }
    }
}

/// One call on a request builder: setting the timeout, or adding a header line
/// (that the builder took).
pub enum BuilderStep {
    Timeout((u64, u32)),
    Header(Seq<char>),
}

/// The request after `steps`, taken in order, on `m`.
pub open spec fn apply_steps(m: RequestModel, steps: Seq<BuilderStep>) -> RequestModel
    decreases steps.len(),
{
    if steps.len() == 0 {
        m
    } else {
        match steps.last() {
            BuilderStep::Timeout(t) => apply_steps(m, steps.drop_last()).with_timeout(t),
            BuilderStep::Header(h) => apply_steps(m, steps.drop_last()).with_header(h),
        }
    }
}

/// The timeout that the last timeout step sets, if there is one.
pub open spec fn last_timeout(steps: Seq<BuilderStep>) -> Option<(u64, u32)>
    decreases steps.len(),
{
    if steps.len() == 0 {
        None
    } else {
        match steps.last() {
            BuilderStep::Timeout(t) => Some(t),
            BuilderStep::Header(_) => last_timeout(steps.drop_last()),
        }
    }
}

/// The header lines that the header steps add, in order.
pub open spec fn added_headers(steps: Seq<BuilderStep>) -> Seq<Seq<char>>
    decreases steps.len(),
{
    if steps.len() == 0 {
        Seq::empty()
    } else {
        match steps.last() {
            BuilderStep::Timeout(_) => added_headers(steps.drop_last()),
            BuilderStep::Header(h) => added_headers(steps.drop_last()).push(h),
        }
    }
}

/// A request built from `new(url)` and then timeout and header calls is a GET
/// for `url` that follows redirects, sends `USER_AGENT` and reports progress, with
/// the timeout of the last timeout call (none without one) and exactly the added
/// header lines, in the order they were added.
pub proof fn law_request_builder_steps(url: Seq<char>, steps: Seq<BuilderStep>)
    ensures
        apply_steps(new_request(url), steps) == (RequestModel {
            url,
            get: true,
            follow_location: true,
            user_agent: USER_AGENT@,
            progress: true,
            timeout: last_timeout(steps),
            headers: added_headers(steps),
        }),
    decreases steps.len(),
{
    if steps.len() > 0 {
        law_request_builder_steps(url, steps.drop_last());
    }
}

/// The settings of a GET request: its URL, a timeout and extra headers.
pub struct RequestBuilder<'a> {
    easy: EasyGet<'a>,
    timeout: Option<Timeout>,
    headers: List,
}

/// The `(seconds, nanoseconds)` of an optional timeout.
pub open spec fn timeout_view(t: Option<Timeout>) -> Option<(u64, u32)> {
    match t {
        Some(t) => Some(t@),
        None => None,
    }
}

impl<'a> View for RequestBuilder<'a> {
    type V = RequestModel;

    closed spec fn view(&self) -> RequestModel {
        RequestModel {
            url: self.easy.url@,
            get: self.easy.get,
            follow_location: self.easy.follow_location,
            user_agent: self.easy.user_agent@,
            progress: self.easy.progress,
            timeout: timeout_view(self.timeout),
            headers: list_items(self.headers),
        }
    }
}

impl<'a> RequestBuilder<'a> {
    /// A GET request for `url`, without a timeout or extra headers.
    pub fn new(url: &'a str) -> (builder: Self)
        ensures
            builder@ == new_request(url@),
    {
        RequestBuilder { easy: easy_get(url), timeout: None, headers: new_list() }
    }

    /// Sets the timeout of the whole transfer.
    pub fn timeout(&mut self, timeout: Timeout) -> (builder: &mut Self)
        ensures
            builder@ == old(self)@.with_timeout(timeout@),
            *final(self) == *final(builder),
    {
        self.timeout = Some(timeout);
        self
    }

    /// Adds the header line `header` (such as `"Name: value"`). Fails, leaving the
    /// request as it was, when `header` holds a NUL character.
    pub fn add_header(&mut self, header: &str) -> (added: Result<&mut Self, HeaderError>)
        ensures
            added is Ok <==> !header@.contains('\0'),
            added matches Ok(builder) ==> builder@ == old(self)@.with_header(header@),
            added matches Ok(builder) ==> *final(self) == *final(builder),
            added is Err ==> final(self)@ == old(self)@,
    {
        match list_append(&mut self.headers, header) {
            Ok(()) => Ok(self),
            Err(_) => Err(HeaderError::ContainsNul),
        }
    }

    /// The set-up, the timeout and the header list, for performing the request.
    pub fn into_parts(self) -> (parts: (EasyGet<'a>, Option<Timeout>, List))
        ensures
            parts.0.url@ == self@.url,
            parts.0.get == self@.get,
            parts.0.follow_location == self@.follow_location,
            parts.0.user_agent@ == self@.user_agent,
            parts.0.progress == self@.progress,
            timeout_view(parts.1) == self@.timeout,
            list_items(parts.2) == self@.headers,
    {
        (self.easy, self.timeout, self.headers)
    }
}

/// The API version header that every GitHub API request carries.
pub const GITHUB_API_VERSION_HEADER: &'static str = "X-GitHub-Api-Version: 2026-03-10";

/// The timeout, in seconds, of a GitHub API request.
pub const GITHUB_API_TIMEOUT_SECS: u64 = 3;

/// The settings of a GitHub API request for `url`: a GET that follows redirects,
/// sends `USER_AGENT` and reports progress, with the API version header and a
/// timeout of `GITHUB_API_TIMEOUT_SECS` seconds.
pub fn api_request_builder<'a>(url: &'a str) -> (builder: Result<RequestBuilder<'a>, HeaderError>)
    ensures
        builder is Ok <==> !GITHUB_API_VERSION_HEADER@.contains('\0'),
        builder matches Ok(b) ==> b@ == (RequestModel {
            url: url@,
            get: true,
            follow_location: true,
            user_agent: USER_AGENT@,
            progress: true,
            timeout: Some((GITHUB_API_TIMEOUT_SECS, 0u32)),
            headers: seq![GITHUB_API_VERSION_HEADER@],
        }),
{
    let mut builder = RequestBuilder::new(url);
    match builder.add_header(GITHUB_API_VERSION_HEADER) {
        Ok(_) => {},
        Err(e) => return Err(e),
    }
    builder.timeout(Timeout::from_secs(GITHUB_API_TIMEOUT_SECS));
    assert(Seq::<Seq<char>>::empty().push(GITHUB_API_VERSION_HEADER@) =~= seq![GITHUB_API_VERSION_HEADER@]);
    Ok(builder)
}

} // verus!
