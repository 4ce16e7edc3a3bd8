//! Release information from the GitHub API and the `hashes.txt` list of a release.
use vstd::prelude::*;
use crate::text::{char_is_whitespace, chars_of, is_white_space};
use crate::updater::json::{json_document, parse_json, JsonValue};
use crate::updater::pattern::{compile_pattern, pattern_is_match, regex_compiles, regex_is_match, CompiledPattern};

verus! {

// ---------------------------------------------------------------------------
// Releases, responses and errors
// ---------------------------------------------------------------------------

/// One downloadable file of a release.
pub struct AssetInformation {
    pub name: String,
    pub url: String,
}

/// The latest release of a repository: its tag and its files.
pub struct ReleaseInformation {
    pub tag_name: String,
    pub assets: Vec<AssetInformation>,
}

impl View for AssetInformation {
    type V = (Seq<char>, Seq<char>);

    open spec fn view(&self) -> (Seq<char>, Seq<char>) {
        (self.name@, self.url@)
    }
}

impl View for ReleaseInformation {
    type V = (Seq<char>, Seq<(Seq<char>, Seq<char>)>);

    open spec fn view(&self) -> (Seq<char>, Seq<(Seq<char>, Seq<char>)>) {
        (self.tag_name@, self.assets@.map_values(|a: AssetInformation| a@))
    }
}

/// What an HTTP request to the GitHub API gave back: the body as text and the
/// status code (0 when the transfer did not report one).
pub struct Response {
    pub data: String,
    pub status: u32,
}

/// Why the release information could not be had.
#[derive(Debug, Clone, Copy, PartialEq, Eq, Structural)]
pub enum FetchError {
    RequestError,
    Forbidden,
    InvalidResponse,
    TagName,
    ReleaseAssets,
}

impl FetchError {
    /// The text shown to the user for this error.
    pub fn message(&self) -> (text: &'static str)
        ensures
            text@ == match self {
                FetchError::RequestError => "Couldn't check for updates at the moment. Please try again later."@,
                FetchError::Forbidden => "Communication with GitHub API not allowed at the moment. Please try again later."@,
                FetchError::InvalidResponse => "Invalid JSON response from GitHub API"@,
                FetchError::TagName => "Couldn't get tag name"@,
                FetchError::ReleaseAssets => "Couldn't get release assets"@,
            },
    {
        match self {
            FetchError::RequestError => "Couldn't check for updates at the moment. Please try again later.",
            FetchError::Forbidden => "Communication with GitHub API not allowed at the moment. Please try again later.",
            FetchError::InvalidResponse => "Invalid JSON response from GitHub API",
            FetchError::TagName => "Couldn't get tag name",
            FetchError::ReleaseAssets => "Couldn't get release assets",
        }
    }
}

/// Why the hash list of a release could not be had.
#[derive(Debug, Clone, Copy, PartialEq, Eq, Structural)]
pub enum HashesError {
    AssetNotFound,
    FetchError,
}

impl HashesError {
    /// The text shown to the user for this error.
    pub fn message(&self) -> (text: &'static str)
        ensures
            text@ == match self {
                HashesError::AssetNotFound => "Couldn't find hashes.txt asset"@,
                HashesError::FetchError => "Failed to fetch hashes.txt"@,
            },
    {
        match self {
            HashesError::AssetNotFound => "Couldn't find hashes.txt asset",
            HashesError::FetchError => "Failed to fetch hashes.txt",
        }
    }
}

/// Any error on the way to a release's hash list.
#[derive(Debug, Clone, Copy, PartialEq, Eq, Structural)]
pub enum FetchHashesError {
    /// The pattern that names the hash-list asset is not a valid regular expression.
    InvalidPattern,
    Hashes(HashesError),
    Fetch(FetchError),
}

/// The outcome of the status code of a GitHub API reply: 200 is success,
/// 403 is `Forbidden`, anything else is `RequestError`.
pub open spec fn status_outcome(status: u32) -> Result<(), FetchError> {
    if status == 200 {
        Ok(())
    } else if status == 403 {
        Err(FetchError::Forbidden)
    } else {
        Err(FetchError::RequestError)
    }
}

/// Only status 200 is success: 403 is `Forbidden`, and every other status,
/// whatever its range, is `RequestError`.
pub proof fn law_only_200_succeeds(status: u32)
    ensures
        status_outcome(status) is Ok <==> status == 200,
        status == 403 ==> status_outcome(status) == Err::<(), FetchError>(FetchError::Forbidden),
        status != 200 && status != 403 ==> status_outcome(status) == Err::<(), FetchError>(FetchError::RequestError),
{
}

/// Checks the status code of a GitHub API reply.
pub fn check_status(status: u32) -> (outcome: Result<(), FetchError>)
    ensures
        outcome == status_outcome(status),
        outcome is Ok <==> status == 200,
        status == 403 ==> outcome == Err::<(), FetchError>(FetchError::Forbidden),
        status != 200 && status != 403 ==> outcome == Err::<(), FetchError>(FetchError::RequestError),
{
    if status != 200 {
        if status == 403 {
            return Err(FetchError::Forbidden);
        }
        return Err(FetchError::RequestError);
    }
    Ok(())
}

/// The reply of a finished transfer: `body` as text and the status code, 0 when
/// the transfer has none. `None` when the body is not UTF-8.
pub fn response_from_transfer(body: &[u8], response_code: Option<u32>) -> (response: Option<Response>)
    ensures
        response is Some <==> vstd::utf8::valid_utf8(body@),
        response matches Some(r) ==> {
            &&& r.data@ == vstd::utf8::decode_utf8(body@)
            &&& r.status == match response_code {
                Some(code) => code,
                None => 0,
            }
        },
{
    match crate::text::utf8_to_string(body) {
        Ok(data) => {
            let status = match response_code {
                Some(code) => code,
                None => 0,
            };
            Some(Response { data, status })
        },
        Err(_) => None,
    }
}

/// The address of the latest release of `repository_path` (`owner/name`) in the GitHub API.
pub fn release_url(repository_path: &str) -> (url: String)
    ensures
        url@ == "https://api.github.com/repos/"@ + repository_path@ + "/releases/latest"@,
{
    let mut url = String::from_str("https://api.github.com/repos/");
    url.append(repository_path);
    url.append("/releases/latest");
    url
}

// ---------------------------------------------------------------------------
// Release information from the JSON reply
// ---------------------------------------------------------------------------

/// The text of the string member `key` of `v`.
pub open spec fn text_member(v: JsonValue, key: Seq<char>) -> Option<Seq<char>> {
    match v.spec_member(key) {
        Some(m) => m.spec_as_str(),
        None => None,
    }
}

/// The elements of the array member `key` of `v`.
pub open spec fn array_member(v: JsonValue, key: Seq<char>) -> Option<Seq<JsonValue>> {
    match v.spec_member(key) {
        Some(m) => m.spec_as_array(),
        None => None,
    }
}

/// An asset as the GitHub API describes it: `(name, browser_download_url)`, both strings.
pub open spec fn asset_of(v: JsonValue) -> Option<(Seq<char>, Seq<char>)> {
    match (text_member(v, "name"@), text_member(v, "browser_download_url"@)) {
        (Some(name), Some(url)) => Some((name, url)),
        _ => None,
    }
}

/// The release that a GitHub API reply describes, as `(tag_name, assets)`: `TagName`
/// when the reply has no string `tag_name`, `ReleaseAssets` when it has no array
/// `assets` or one of its elements is not an asset.
pub open spec fn release_of(v: JsonValue) -> Result<(Seq<char>, Seq<(Seq<char>, Seq<char>)>), FetchError> {
    match text_member(v, "tag_name"@) {
        None => Err(FetchError::TagName),
        Some(tag) => match array_member(v, "assets"@) {
            None => Err(FetchError::ReleaseAssets),
            Some(items) => if forall|i: int| 0 <= i < items.len() ==> (#[trigger] asset_of(items[i])) is Some {
                Ok((tag, items.map_values(|item: JsonValue| asset_of(item).unwrap())))
            } else {
                Err(FetchError::ReleaseAssets)
            },
        },
    }
}

/// The tag of a release is the reply's string member `tag_name` and nothing else:
/// when the reply has one, reading it never fails for the tag, and the release
/// read carries exactly that text as its tag, whatever the other members.
pub proof fn law_release_tag_is_tag_name(v: JsonValue, tag: Seq<char>)
    requires
        match v.spec_member("tag_name"@) {
            Some(m) => m.spec_as_str() == Some(tag),
            None => false,
        },
    ensures
        release_of(v) != Err::<(Seq<char>, Seq<(Seq<char>, Seq<char>)>), FetchError>(FetchError::TagName),
        release_of(v) matches Ok(r) ==> r.0 == tag,
{
}

/// The assets of a release are the elements of the reply's array `assets`, in
/// order: each one's name is its string member `name` and its URL is its string
/// member `browser_download_url` (no other member counts). A reply with a string
/// `tag_name` whose assets all have both is read successfully.
pub proof fn law_release_assets_are_download_urls(v: JsonValue, items: Seq<JsonValue>)
    requires
        match v.spec_member("assets"@) {
            Some(m) => m.spec_as_array() == Some(items),
            None => false,
        },
    ensures
        release_of(v) matches Ok(r) ==> {
            &&& r.1.len() == items.len()
            &&& forall|i: int| 0 <= i < items.len() ==> {
                &&& match (#[trigger] items[i]).spec_member("name"@) {
                    Some(m) => m.spec_as_str() == Some(r.1[i].0),
                    None => false,
                }
                &&& match items[i].spec_member("browser_download_url"@) {
                    Some(m) => m.spec_as_str() == Some(r.1[i].1),
                    None => false,
                }
            }
        },
        (match v.spec_member("tag_name"@) {
            Some(m) => m.spec_as_str() is Some,
            None => false,
        } && forall|i: int| 0 <= i < items.len() ==> {
            &&& match (#[trigger] items[i]).spec_member("name"@) {
                Some(m) => m.spec_as_str() is Some,
                None => false,
            }
            &&& match items[i].spec_member("browser_download_url"@) {
                Some(m) => m.spec_as_str() is Some,
                None => false,
            }
        }) ==> release_of(v) is Ok,
{
    if let Ok(r) = release_of(v) {
        assert forall|i: int| 0 <= i < items.len() implies {
            &&& match (#[trigger] items[i]).spec_member("name"@) {
                Some(m) => m.spec_as_str() == Some(r.1[i].0),
                None => false,
            }
            &&& match items[i].spec_member("browser_download_url"@) {
                Some(m) => m.spec_as_str() == Some(r.1[i].1),
                None => false,
            }
        } by {
            assert(asset_of(items[i]) is Some);
        }
    }
    if match v.spec_member("tag_name"@) {
        Some(m) => m.spec_as_str() is Some,
        None => false,
    } && forall|i: int| 0 <= i < items.len() ==> {
        &&& match (#[trigger] items[i]).spec_member("name"@) {
            Some(m) => m.spec_as_str() is Some,
            None => false,
        }
        &&& match items[i].spec_member("browser_download_url"@) {
            Some(m) => m.spec_as_str() is Some,
            None => false,
        }
    } {
        assert forall|i: int| 0 <= i < items.len() implies (#[trigger] asset_of(items[i])) is Some by {}
    }
}

/// The text of the string member `key` of `v`.
fn text_field<'a>(v: &'a JsonValue, key: &str) -> (text: Option<&'a String>)
    ensures
        match text {
            Some(t) => text_member(*v, key@) == Some(t@),
            None => text_member(*v, key@) is None,
        },
{
    let key = String::from_str(key);
    match v.member(&key) {
        Some(m) => m.as_str(),
        None => None,
    }
}

/// The release information in a GitHub API reply. `document` is the reply parsed as
/// JSON, `None` when it is not JSON.
pub fn release_information_from_json(document: Option<&JsonValue>) -> (info: Result<ReleaseInformation, FetchError>)
    ensures
        match document {
            None => info == Err::<ReleaseInformation, FetchError>(FetchError::InvalidResponse),
            Some(v) => match info {
                Ok(release) => release_of(*v) == Ok::<_, FetchError>(release@),
                Err(e) => release_of(*v) == Err::<(Seq<char>, Seq<(Seq<char>, Seq<char>)>), FetchError>(e),
            },
        },
{
    let v = match document {
        Some(v) => v,
        None => return Err(FetchError::InvalidResponse),
    };
    let tag_name = match text_field(v, "tag_name") {
        Some(t) => t.clone(),
        None => return Err(FetchError::TagName),
    };
    let assets_key = String::from_str("assets");
    let items = match v.member(&assets_key) {
        Some(m) => match m.as_array() {
            Some(items) => items,
            None => return Err(FetchError::ReleaseAssets),
        },
        None => return Err(FetchError::ReleaseAssets),
    };
    let ghost spec_items = array_member(*v, "assets"@).unwrap();
    assert(spec_items == items@);
    let mut assets: Vec<AssetInformation> = Vec::new();
    let n = items.len();
    let mut i: usize = 0;
    while i < n
        invariant
            document == Some(v),
            text_member(*v, "tag_name"@) == Some(tag_name@),
            array_member(*v, "assets"@) == Some(items@),
            n == items@.len(),
            i <= n,
            assets@.len() == i,
            forall|j: int| 0 <= j < i ==> (#[trigger] asset_of(items@[j])) is Some,
            forall|j: int| 0 <= j < i ==> (#[trigger] assets@[j])@ == asset_of(items@[j]).unwrap(),
        decreases n - i,
    {
        let item = &items[i];
        let name = match text_field(item, "name") {
            Some(t) => t.clone(),
            None => {
                assert(asset_of(items@[i as int]) is None);
                return Err(FetchError::ReleaseAssets);
            },
        };
        let url = match text_field(item, "browser_download_url") {
            Some(t) => t.clone(),
            None => {
                assert(asset_of(items@[i as int]) is None);
                return Err(FetchError::ReleaseAssets);
            },
        };
        assets.push(AssetInformation { name, url });
        i = i + 1;
    }
    let release = ReleaseInformation { tag_name, assets };
    assert(release@.1 =~= spec_items.map_values(|item: JsonValue| asset_of(item).unwrap()));
    Ok(release)
}

/// The release information in a reply of the GitHub API: the status is checked
/// first (`status_outcome`), then the body is read as JSON (`InvalidResponse` when
/// it is not) and the release taken from it (`release_of`).
pub fn release_information_from_response(response: &Response) -> (info: Result<ReleaseInformation, FetchError>)
    ensures
        match status_outcome(response.status) {
            Err(e) => info == Err::<ReleaseInformation, FetchError>(e),
            Ok(()) => match json_document(response.data@) {
                None => info == Err::<ReleaseInformation, FetchError>(FetchError::InvalidResponse),
                Some(v) => match info {
                    Ok(release) => release_of(v) == Ok::<_, FetchError>(release@),
                    Err(e) => release_of(v) == Err::<(Seq<char>, Seq<(Seq<char>, Seq<char>)>), FetchError>(e),
                },
            },
        },
{
    match check_status(response.status) {
        Ok(()) => {},
        Err(e) => return Err(e),
    }
    let document = parse_json(response.data.as_str());
    release_information_from_json(document.as_ref())
}

// ---------------------------------------------------------------------------
// Finding assets by name
// ---------------------------------------------------------------------------

/// Index of the first asset whose name `pattern` matches, if there is one.
pub open spec fn first_matching_asset(assets: Seq<AssetInformation>, pattern: Seq<char>) -> Option<int>
    decreases assets.len(),
{
    if assets.len() == 0 {
        None
    } else if regex_is_match(pattern, assets[0].name@) {
        Some(0)
    } else {
        match first_matching_asset(assets.drop_first(), pattern) {
            Some(i) => Some(i + 1),
            None => None,
        }
    }
}

/// The asset that a search finds is the first whose name the pattern matches: its
/// name matches and no earlier name does; when none is found, no name matches.
pub proof fn law_first_matching_asset(assets: Seq<AssetInformation>, pattern: Seq<char>)
    ensures
        match first_matching_asset(assets, pattern) {
            Some(i) => {
                &&& 0 <= i < assets.len()
                &&& regex_is_match(pattern, assets[i].name@)
                &&& forall|j: int| 0 <= j < i ==> !regex_is_match(pattern, #[trigger] assets[j].name@)
            },
            None => forall|j: int| 0 <= j < assets.len() ==> !regex_is_match(pattern, #[trigger] assets[j].name@),
        },
    decreases assets.len(),
{
    if assets.len() > 0 && !regex_is_match(pattern, assets[0].name@) {
        let rest = assets.drop_first();
        law_first_matching_asset(rest, pattern);
        match first_matching_asset(rest, pattern) {
            Some(k) => {
                assert(assets[k + 1] == rest[k]);
                assert forall|j: int| 0 <= j < k + 1 implies !regex_is_match(pattern, #[trigger] assets[j].name@) by {
                    if j > 0 {
                        assert(assets[j] == rest[j - 1]);
                    }
                }
            },
            None => {
                assert forall|j: int| 0 <= j < assets.len() implies !regex_is_match(pattern, #[trigger] assets[j].name@) by {
                    if j > 0 {
                        assert(assets[j] == rest[j - 1]);
                    }
                }
            },
        }
    }
}

/// The first asset of `assets` whose name the compiled pattern matches.
fn search_assets<'a>(assets: &'a Vec<AssetInformation>, compiled: &CompiledPattern) -> (found: Option<&'a AssetInformation>)
    ensures
        match first_matching_asset(assets@, compiled.spec_pattern()) {
            Some(i) => found == Some(&assets@[i]),
            None => found is None,
        },
{
    let n = assets.len();
    let mut i: usize = 0;
    let ghost pattern = compiled.spec_pattern();
    assert(assets@.skip(0) =~= assets@);
    while i < n
        invariant
            n == assets@.len(),
            i <= n,
            pattern == compiled.spec_pattern(),
            first_matching_asset(assets@, pattern) == match first_matching_asset(assets@.skip(i as int), pattern) {
                Some(k) => Some(k + i),
                None => None::<int>,
            },
        decreases n - i,
    {
        let ghost rest = assets@.skip(i as int);
        assert(rest[0] == assets@[i as int]);
        assert(rest.drop_first() =~= assets@.skip(i + 1));
        if pattern_is_match(compiled, assets[i].name.as_str()) {
            return Some(&assets[i]);
        }
        i = i + 1;
    }
    assert(assets@.skip(n as int).len() == 0);
    None
}

/// The first asset of the release whose name the regular expression `pattern`
/// matches. The pattern must be one that the `regex` crate accepts.
pub fn find_asset<'a>(release_info: &'a ReleaseInformation, pattern: &str) -> (found: Option<&'a AssetInformation>)
    requires
        regex_compiles(pattern@),
    ensures
        match first_matching_asset(release_info.assets@, pattern@) {
            Some(i) => found == Some(&release_info.assets@[i]),
            None => found is None,
        },
{
    let compiled = compile_pattern(pattern).unwrap();
    search_assets(&release_info.assets, &compiled)
}

/// `find_asset` for any pattern: `None` when the `regex` crate refuses the
/// pattern, else `Some` of what `find_asset` gives.
pub fn try_find_asset<'a>(release_info: &'a ReleaseInformation, pattern: &str) -> (found: Option<Option<&'a AssetInformation>>)
    ensures
        found is Some <==> regex_compiles(pattern@),
        found matches Some(f) ==> match first_matching_asset(release_info.assets@, pattern@) {
            Some(i) => f == Some(&release_info.assets@[i]),
            None => f is None,
        },
{
    if compile_pattern(pattern).is_some() {
        Some(find_asset(release_info, pattern))
    } else {
        None
    }
}

/// The pattern that names the hash list among a release's assets.
pub const HASHES_ASSET_PATTERN: &'static str = "^hashes.txt$";

/// Where to download the hash list of a release: the URL of its first asset that
/// `HASHES_ASSET_PATTERN` matches; `Hashes(AssetNotFound)` when there is none, and
/// `InvalidPattern` when the `regex` crate refuses the pattern.
pub fn hashes_url(release_info: &ReleaseInformation) -> (url: Result<String, FetchHashesError>)
    ensures
        !regex_compiles(HASHES_ASSET_PATTERN@) ==> url == Err::<String, FetchHashesError>(FetchHashesError::InvalidPattern),
        regex_compiles(HASHES_ASSET_PATTERN@) ==> match first_matching_asset(release_info.assets@, HASHES_ASSET_PATTERN@) {
            Some(i) => url matches Ok(u) && u@ == release_info.assets@[i].url@,
            None => url == Err::<String, FetchHashesError>(FetchHashesError::Hashes(HashesError::AssetNotFound)),
        },
{
    match try_find_asset(release_info, HASHES_ASSET_PATTERN) {
        None => Err(FetchHashesError::InvalidPattern),
        Some(None) => Err(FetchHashesError::Hashes(HashesError::AssetNotFound)),
        Some(Some(asset)) => Ok(asset.url.clone()),
    }
}

/// The hash list from the reply to its download: `None` when the request failed
/// (`Hashes(FetchError)`); otherwise the body on status 200, `Fetch(Forbidden)` on
/// 403 and `Fetch(RequestError)` on any other status.
pub fn hashes_from_response(response: Option<Response>) -> (hashes: Result<String, FetchHashesError>)
    ensures
        match response {
            None => hashes == Err::<String, FetchHashesError>(FetchHashesError::Hashes(HashesError::FetchError)),
            Some(r) => match status_outcome(r.status) {
                Ok(()) => hashes matches Ok(h) && h@ == r.data@,
                Err(e) => hashes == Err::<String, FetchHashesError>(FetchHashesError::Fetch(e)),
            },
        },
        response matches Some(r) ==> (hashes is Ok <==> r.status == 200),
        response matches Some(r) ==> (r.status == 200 ==> (hashes matches Ok(h) && h@ == r.data@)),
{
    let response = match response {
        Some(r) => r,
        None => return Err(FetchHashesError::Hashes(HashesError::FetchError)),
    };
    match check_status(response.status) {
        Ok(()) => Ok(response.data),
        Err(e) => Err(FetchHashesError::Fetch(e)),
    }
}

// ---------------------------------------------------------------------------
// The `hashes.txt` list
// ---------------------------------------------------------------------------

/// A class of characters that the hash-list reader looks for.
pub enum CharClass {
    Newline,
    WhiteSpace,
    NotWhiteSpace,
}

impl CharClass {
    pub open spec fn holds(self, c: char) -> bool {
        match self {
            CharClass::Newline => c == '\n',
            CharClass::WhiteSpace => is_white_space(c),
            CharClass::NotWhiteSpace => !is_white_space(c),
        }
    }

    fn test(&self, c: char) -> (r: bool)
        ensures
            r == self.holds(c),
    {
        match self {
            CharClass::Newline => c == '\n',
            CharClass::WhiteSpace => char_is_whitespace(c),
            CharClass::NotWhiteSpace => !char_is_whitespace(c),
        }
    }
}

/// Index of the first character of `s` in `class`, or `s.len()` when there is none.
pub open spec fn first_match(s: Seq<char>, class: CharClass) -> int
    decreases s.len(),
{
    if s.len() == 0 {
        0
    } else if class.holds(s[0]) {
        0
    } else {
        1 + first_match(s.drop_first(), class)
    }
}

/// `first_match` lies within `s`, and is the first position of a match.
pub proof fn lemma_first_match_bounds(s: Seq<char>, class: CharClass)
    ensures
        0 <= first_match(s, class) <= s.len(),
        first_match(s, class) < s.len() ==> class.holds(s[first_match(s, class)]),
        forall|i: int| 0 <= i < first_match(s, class) ==> !class.holds(#[trigger] s[i]),
    decreases s.len(),
{
    if s.len() > 0 && !class.holds(s[0]) {
        lemma_first_match_bounds(s.drop_first(), class);
        assert forall|i: int| 0 <= i < first_match(s, class) implies !class.holds(#[trigger] s[i]) by {
            if i > 0 {
                assert(s[i] == s.drop_first()[i - 1]);
            }
        }
    }
}

/// A position before which no character is in `class`, and at which one is
/// (or the end), is `first_match`.
pub proof fn lemma_first_match_at(s: Seq<char>, class: CharClass, k: int)
    requires
        0 <= k <= s.len(),
        forall|i: int| 0 <= i < k ==> !class.holds(#[trigger] s[i]),
        k == s.len() || class.holds(s[k]),
    ensures
        first_match(s, class) == k,
    decreases k,
{
    if k > 0 {
        assert(!class.holds(s[0]));
        assert forall|i: int| 0 <= i < k - 1 implies !class.holds(#[trigger] s.drop_first()[i]) by {
            assert(s.drop_first()[i] == s[i + 1]);
        }
        lemma_first_match_at(s.drop_first(), class, k - 1);
    }
}

/// `line` without one trailing carriage return.
pub open spec fn strip_cr(line: Seq<char>) -> Seq<char> {
    if line.len() > 0 && line.last() == '\r' {
        line.drop_last()
    } else {
        line
    }
}

/// The lines of `s`, as `str::lines` gives them: split at `"\n"` or `"\r\n"`, where a
/// final line ending adds no empty line.
pub open spec fn lines(s: Seq<char>) -> Seq<Seq<char>>
    decreases s.len(),
{
    if s.len() == 0 {
        seq![]
    } else {
        let k = first_match(s, CharClass::Newline);
        if k >= s.len() {
            seq![s]
        } else {
            proof {
                lemma_first_match_bounds(s, CharClass::Newline);
            }
            seq![strip_cr(s.take(k))] + lines(s.skip(k + 1))
        }
    }
}

/// `s` without its leading white space.
pub open spec fn trim_start(s: Seq<char>) -> Seq<char> {
    s.skip(first_match(s, CharClass::NotWhiteSpace))
}

/// The entry that one line of the hash list gives, as `(file name, hash)`: the hash
/// is what comes before the first white-space character, the file name what comes
/// after it, without leading white space. A line without white space gives none.
pub open spec fn line_entry(line: Seq<char>) -> Option<(Seq<char>, Seq<char>)> {
    let k = first_match(line, CharClass::WhiteSpace);
    if k < line.len() {
        Some((trim_start(line.skip(k + 1)), line.take(k)))
    } else {
        None
    }
}

/// The map from file name to hash that `ls` give, read in order: a later line for
/// the same file name replaces the hash of an earlier one.
pub open spec fn hashes_of_lines(ls: Seq<Seq<char>>) -> Map<Seq<char>, Seq<char>>
    decreases ls.len(),
{
    if ls.len() == 0 {
        Map::empty()
    } else {
        match line_entry(ls.last()) {
            Some((file, hash)) => hashes_of_lines(ls.drop_last()).insert(file, hash),
            None => hashes_of_lines(ls.drop_last()),
        }
    }
}

/// The map from file name to hash that the text of a hash list gives.
pub open spec fn hash_list(s: Seq<char>) -> Map<Seq<char>, Seq<char>> {
    hashes_of_lines(lines(s))
}

/// `first_match` in `a + b` is `first_match` in `a` when `a` has a match.
proof fn lemma_first_match_prefix(a: Seq<char>, b: Seq<char>, class: CharClass)
    requires
        first_match(a, class) < a.len(),
    ensures
        first_match(a + b, class) == first_match(a, class),
{
    lemma_first_match_bounds(a, class);
    let k = first_match(a, class);
    assert forall|i: int| 0 <= i < k implies !class.holds(#[trigger] (a + b)[i]) by {
        assert((a + b)[i] == a[i]);
    }
    assert((a + b)[k] == a[k]);
    lemma_first_match_at(a + b, class, k);
}

/// The lines of two texts, the first of which is empty or ends with a line feed,
/// are the lines of the first followed by the lines of the second.
proof fn lemma_lines_concat(s1: Seq<char>, s2: Seq<char>)
    requires
        s1.len() == 0 || s1.last() == '\n',
    ensures
        lines(s1 + s2) == lines(s1) + lines(s2),
    decreases s1.len(),
{
    if s1.len() == 0 {
        assert(s1 + s2 =~= s2);
        assert(lines(s1) + lines(s2) =~= lines(s2));
    } else {
        let s = s1 + s2;
        lemma_first_match_bounds(s1, CharClass::Newline);
        if first_match(s1, CharClass::Newline) >= s1.len() {
            assert forall|i: int| 0 <= i < s1.len() - 1 implies !CharClass::Newline.holds(#[trigger] s1[i]) by {}
            assert(!CharClass::Newline.holds(s1[s1.len() - 1]));
        }
        let k = first_match(s1, CharClass::Newline);
        lemma_first_match_prefix(s1, s2, CharClass::Newline);
        lemma_first_match_bounds(s, CharClass::Newline);
        let rest1 = s1.skip(k + 1);
        assert(s.take(k) =~= s1.take(k));
        assert(s.skip(k + 1) =~= rest1 + s2);
        if rest1.len() > 0 {
            assert(rest1.last() == s1.last());
        }
        lemma_lines_concat(rest1, s2);
        assert(lines(s) == seq![strip_cr(s1.take(k))] + lines(rest1 + s2));
        assert(lines(s1) == seq![strip_cr(s1.take(k))] + lines(rest1));
        assert(lines(s) =~= lines(s1) + lines(s2));
    }
}

/// Reading lines `a` then lines `b` gives the entries of `a`, with those of `b` over them.
proof fn lemma_hashes_of_lines_concat(a: Seq<Seq<char>>, b: Seq<Seq<char>>)
    ensures
        hashes_of_lines(a + b) == hashes_of_lines(a).union_prefer_right(hashes_of_lines(b)),
    decreases b.len(),
{
    if b.len() == 0 {
        assert(a + b =~= a);
        assert(hashes_of_lines(a).union_prefer_right(hashes_of_lines(b)) =~= hashes_of_lines(a));
    } else {
        lemma_hashes_of_lines_concat(a, b.drop_last());
        assert((a + b).drop_last() =~= a + b.drop_last());
        assert((a + b).last() == b.last());
        let left = hashes_of_lines(a);
        let right = hashes_of_lines(b.drop_last());
        match line_entry(b.last()) {
            Some((file, hash)) => {
                assert(left.union_prefer_right(right.insert(file, hash)) =~= left.union_prefer_right(right).insert(file, hash));
            },
            None => {},
        }
    }
}

/// Hash lists compose: reading a complete hash list (empty, or ending with a line
/// feed) followed by another gives the entries of the first, with those of the
/// second in place of any for the same file name.
pub proof fn law_hash_list_concat(first: Seq<char>, second: Seq<char>)
    requires
        first.len() == 0 || first.last() == '\n',
    ensures
        hash_list(first + second) == hash_list(first).union_prefer_right(hash_list(second)),
{
    lemma_lines_concat(first, second);
    lemma_hashes_of_lines_concat(lines(first), lines(second));
}

/// One line of a hash list reads back as what was written: a hash without white
/// space, a run of white space other than line feeds, and a file name that neither
/// starts with white space nor holds a line feed (nor ends with a carriage return),
/// followed by a line feed, give the single entry from the file name to the hash.
pub proof fn law_hash_line_round_trip(hash: Seq<char>, gap: Seq<char>, file: Seq<char>)
    requires
        forall|i: int| 0 <= i < hash.len() ==> !is_white_space(#[trigger] hash[i]),
        gap.len() > 0,
        forall|i: int| 0 <= i < gap.len() ==> is_white_space(#[trigger] gap[i]) && gap[i] != '\n',
        file.len() > 0,
        !is_white_space(file[0]),
        file.last() != '\r',
        forall|i: int| 0 <= i < file.len() ==> #[trigger] file[i] != '\n',
    ensures
        hash_list(hash + gap + file + seq!['\n']) == map![file => hash],
{
    let line = hash + gap + file;
    let s = line + seq!['\n'];
    // The line ends at the line feed.
    assert forall|i: int| 0 <= i < line.len() implies !CharClass::Newline.holds(#[trigger] s[i]) by {
        if i < hash.len() {
            assert(s[i] == hash[i]);
            assert(!is_white_space(hash[i]));
        } else if i < hash.len() + gap.len() {
            assert(s[i] == gap[i - hash.len()]);
        } else {
            assert(s[i] == file[i - hash.len() - gap.len()]);
        }
    }
    assert(s[line.len() as int] == '\n');
    lemma_first_match_at(s, CharClass::Newline, line.len() as int);
    assert(s.take(line.len() as int) =~= line);
    assert(s.skip(line.len() as int + 1) =~= Seq::<char>::empty());
    assert(line.last() == file.last());
    assert(strip_cr(line) == line);
    assert(lines(Seq::<char>::empty()) =~= Seq::<Seq<char>>::empty());
    assert(lines(s) == seq![strip_cr(s.take(line.len() as int))] + lines(s.skip(line.len() as int + 1)));
    assert(lines(s) =~= seq![line]);
    // The hash ends at the first white space.
    assert forall|i: int| 0 <= i < hash.len() implies !CharClass::WhiteSpace.holds(#[trigger] line[i]) by {
        assert(line[i] == hash[i]);
    }
    assert(line[hash.len() as int] == gap[0]);
    lemma_first_match_at(line, CharClass::WhiteSpace, hash.len() as int);
    assert(line.take(hash.len() as int) =~= hash);
    // The file name follows the rest of the gap.
    let after = line.skip(hash.len() as int + 1);
    assert(after =~= gap.drop_first() + file);
    assert forall|i: int| 0 <= i < gap.len() - 1 implies !CharClass::NotWhiteSpace.holds(#[trigger] after[i]) by {
        assert(after[i] == gap[i + 1]);
    }
    assert(after[gap.len() - 1] == file[0]);
    lemma_first_match_at(after, CharClass::NotWhiteSpace, gap.len() - 1);
    assert(trim_start(after) =~= file);
    assert(line_entry(line) == Some((file, hash)));
    assert(seq![line].drop_last() =~= Seq::<Seq<char>>::empty());
    assert(hashes_of_lines(seq![line]) == hashes_of_lines(Seq::<Seq<char>>::empty()).insert(file, hash));
    assert(hash_list(s) =~= map![file => hash]);
}

/// The entries that lines give: at most one per line, each hash free of white
/// space, each file name not starting with white space.
proof fn lemma_hashes_of_lines_shape(ls: Seq<Seq<char>>)
    ensures
        hashes_of_lines(ls).dom().finite(),
        hashes_of_lines(ls).dom().len() <= ls.len(),
        forall|f: Seq<char>| #[trigger] hashes_of_lines(ls).contains_key(f) ==> {
            &&& forall|i: int| 0 <= i < hashes_of_lines(ls)[f].len() ==> !is_white_space(#[trigger] hashes_of_lines(ls)[f][i])
            &&& f.len() > 0 ==> !is_white_space(f[0])
        },
    decreases ls.len(),
{
    if ls.len() > 0 {
        let rest = ls.drop_last();
        lemma_hashes_of_lines_shape(rest);
        let line = ls.last();
        let m = hashes_of_lines(rest);
        match line_entry(line) {
            Some((file, hash)) => {
                let k = first_match(line, CharClass::WhiteSpace);
                lemma_first_match_bounds(line, CharClass::WhiteSpace);
                let after = line.skip(k + 1);
                lemma_first_match_bounds(after, CharClass::NotWhiteSpace);
                assert(hash == line.take(k));
                assert forall|i: int| 0 <= i < hash.len() implies !is_white_space(#[trigger] hash[i]) by {
                    assert(hash[i] == line[i]);
                    assert(!CharClass::WhiteSpace.holds(line[i]));
                }
                if file.len() > 0 {
                    let j = first_match(after, CharClass::NotWhiteSpace);
                    assert(file[0] == after[j]);
                }
                assert(m.insert(file, hash).dom() == m.dom().insert(file));
            },
            None => {},
        }
    }
}

/// The shape of a hash list: it holds at most one entry per line, no hash holds
/// white space, no file name starts with white space, and the empty text gives
/// no entry.
pub proof fn law_hash_list_shape(s: Seq<char>)
    ensures
        hash_list(s).dom().finite(),
        hash_list(s).dom().len() <= lines(s).len(),
        forall|f: Seq<char>| #[trigger] hash_list(s).contains_key(f) ==> {
            &&& forall|i: int| 0 <= i < hash_list(s)[f].len() ==> !is_white_space(#[trigger] hash_list(s)[f][i])
            &&& f.len() > 0 ==> !is_white_space(f[0])
        },
        s.len() == 0 ==> hash_list(s) == Map::<Seq<char>, Seq<char>>::empty(),
{
    lemma_hashes_of_lines_shape(lines(s));
    if s.len() == 0 {
        assert(hash_list(s) =~= Map::<Seq<char>, Seq<char>>::empty());
    }
}

/// A line ended by `"\r\n"` is the same line as one ended by `"\n"`: for a text `t`
/// without line feeds, the lines of `t + "\r\n" + rest` are `t` and then the lines
/// of `rest`, whatever the length of `t`.
pub proof fn law_crlf_line_is_line(t: Seq<char>, rest: Seq<char>)
    requires
        forall|i: int| 0 <= i < t.len() ==> #[trigger] t[i] != '\n',
    ensures
        lines(t + seq!['\r', '\n'] + rest) == seq![t] + lines(rest),
{
    let first = t + seq!['\r', '\n'];
    assert forall|i: int| 0 <= i < t.len() + 1 implies !CharClass::Newline.holds(#[trigger] first[i]) by {
        if i < t.len() {
            assert(first[i] == t[i]);
        }
    }
    assert(first[t.len() as int + 1] == '\n');
    lemma_first_match_at(first, CharClass::Newline, t.len() as int + 1);
    assert(first.take(t.len() as int + 1) =~= t.push('\r'));
    assert(strip_cr(t.push('\r')) =~= t);
    assert(first.skip(t.len() as int + 2) =~= Seq::<char>::empty());
    assert(lines(Seq::<char>::empty()) =~= Seq::<Seq<char>>::empty());
    assert(lines(first) =~= seq![t]);
    lemma_lines_concat(first, rest);
}

/// A hash list reads the same with `"\r\n"` line ends as with `"\n"` ones: no
/// carriage return of a CRLF line end ever stays in a file name. (A line that
/// itself ends with a carriage return before its `"\r\n"` keeps that one, as
/// `str::lines` does, so `t` does not end with one.)
pub proof fn law_hash_list_crlf(t: Seq<char>, rest: Seq<char>)
    requires
        forall|i: int| 0 <= i < t.len() ==> #[trigger] t[i] != '\n',
        t.len() == 0 || t.last() != '\r',
    ensures
        hash_list(t + seq!['\r', '\n'] + rest) == hash_list(t + seq!['\n'] + rest),
{
    law_crlf_line_is_line(t, rest);
    let first = t + seq!['\n'];
    assert forall|i: int| 0 <= i < t.len() implies !CharClass::Newline.holds(#[trigger] first[i]) by {
        assert(first[i] == t[i]);
    }
    assert(first[t.len() as int] == '\n');
    lemma_first_match_at(first, CharClass::Newline, t.len() as int);
    assert(first.take(t.len() as int) =~= t);
    assert(first.skip(t.len() as int + 1) =~= Seq::<char>::empty());
    assert(lines(Seq::<char>::empty()) =~= Seq::<Seq<char>>::empty());
    assert(lines(first) =~= seq![t]);
    lemma_lines_concat(first, rest);
}

/// `entries`, ranges of `chars` given as `(file start, file end, hash start, hash end)`,
/// hold exactly the map `m`, each file name once.
spec fn entries_hold(chars: Seq<char>, entries: Seq<(usize, usize, usize, usize)>, m: Map<Seq<char>, Seq<char>>) -> bool {
    &&& forall|i: int| 0 <= i < entries.len() ==> {
        let e = #[trigger] entries[i];
        e.0 <= e.1 <= chars.len() && e.2 <= e.3 <= chars.len()
    }
    &&& forall|i: int, j: int| 0 <= i < j < entries.len() ==>
        chars.subrange(entries[i].0 as int, entries[i].1 as int)
            != chars.subrange(entries[j].0 as int, entries[j].1 as int)
    &&& forall|i: int| 0 <= i < entries.len() ==> {
        let e = #[trigger] entries[i];
        &&& m.contains_key(chars.subrange(e.0 as int, e.1 as int))
        &&& m[chars.subrange(e.0 as int, e.1 as int)] == chars.subrange(e.2 as int, e.3 as int)
    }
    &&& forall|f: Seq<char>| m.contains_key(f) ==> exists|i: int| 0 <= i < entries.len()
        && chars.subrange(entries[i].0 as int, entries[i].1 as int) == f
}

/// Index of the first character of `chars[from..to]` in `class`, or `to`.
fn scan(chars: &Vec<char>, from: usize, to: usize, class: &CharClass) -> (k: usize)
    requires
        from <= to <= chars@.len(),
    ensures
        from <= k <= to,
        k - from == first_match(chars@.subrange(from as int, to as int), *class),
{
    let mut k = from;
    while k < to && !class.test(chars[k])
        invariant
            from <= k <= to <= chars@.len(),
            forall|i: int| from <= i < k ==> !class.holds(#[trigger] chars@[i]),
        decreases to - k,
    {
        k = k + 1;
    }
    proof {
        let sub = chars@.subrange(from as int, to as int);
        assert forall|i: int| 0 <= i < k - from implies !class.holds(#[trigger] sub[i]) by {
            assert(sub[i] == chars@[from + i]);
        }
        if k < to {
            assert(sub[k - from] == chars@[k as int]);
        }
        lemma_first_match_at(sub, *class, k - from);
    }
    k
}

/// Whether `chars[a0..a1]` and `chars[b0..b1]` hold the same characters.
fn ranges_equal(chars: &Vec<char>, a0: usize, a1: usize, b0: usize, b1: usize) -> (eq: bool)
    requires
        a0 <= a1 <= chars@.len(),
        b0 <= b1 <= chars@.len(),
    ensures
        eq == (chars@.subrange(a0 as int, a1 as int) == chars@.subrange(b0 as int, b1 as int)),
{
    if a1 - a0 != b1 - b0 {
        assert(chars@.subrange(a0 as int, a1 as int).len() != chars@.subrange(b0 as int, b1 as int).len());
        return false;
    }
    let len = a1 - a0;
    let ghost sa = chars@.subrange(a0 as int, a1 as int);
    let ghost sb = chars@.subrange(b0 as int, b1 as int);
    let mut i: usize = 0;
    while i < len
        invariant
            len == a1 - a0,
            len == b1 - b0,
            a0 <= a1 <= chars@.len(),
            b0 <= b1 <= chars@.len(),
            sa == chars@.subrange(a0 as int, a1 as int),
            sb == chars@.subrange(b0 as int, b1 as int),
            i <= len,
            forall|j: int| 0 <= j < i ==> sa[j] == #[trigger] sb[j],
        decreases len - i,
    {
        if chars[a0 + i] != chars[b0 + i] {
            assert(sa[i as int] != sb[i as int]);
            return false;
        }
        i = i + 1;
    }
    assert(sa =~= sb);
    true
}

/// Writing `entry` at `slot` of `before` (over the entry with the same file name,
/// or after all entries when there is none) records its file name and hash.
proof fn lemma_entry_written(
    chars: Seq<char>,
    before: Seq<(usize, usize, usize, usize)>,
    after: Seq<(usize, usize, usize, usize)>,
    m: Map<Seq<char>, Seq<char>>,
    entry: (usize, usize, usize, usize),
    slot: int,
)
    requires
        entries_hold(chars, before, m),
        entry.0 <= entry.1 <= chars.len(),
        entry.2 <= entry.3 <= chars.len(),
        0 <= slot <= before.len(),
        slot < before.len() ==> {
            &&& chars.subrange(before[slot].0 as int, before[slot].1 as int)
                == chars.subrange(entry.0 as int, entry.1 as int)
            &&& after == before.update(slot, entry)
        },
        slot == before.len() ==> {
            &&& forall|j: int| 0 <= j < before.len() ==> chars.subrange((#[trigger] before[j]).0 as int, before[j].1 as int)
                != chars.subrange(entry.0 as int, entry.1 as int)
            &&& after == before.push(entry)
        },
    ensures
        entries_hold(chars, after, m.insert(
            chars.subrange(entry.0 as int, entry.1 as int),
            chars.subrange(entry.2 as int, entry.3 as int),
        )),
{
    let file = chars.subrange(entry.0 as int, entry.1 as int);
    let hash = chars.subrange(entry.2 as int, entry.3 as int);
    let m2 = m.insert(file, hash);
    let key = |e: (usize, usize, usize, usize)| chars.subrange(e.0 as int, e.1 as int);
    assert(after[slot] == entry);
    assert forall|j: int| 0 <= j < after.len() && j != slot implies #[trigger] after[j] == before[j] by {}
    assert forall|f: Seq<char>| m2.contains_key(f) implies exists|j: int| 0 <= j < after.len()
        && chars.subrange(after[j].0 as int, after[j].1 as int) == f by {
        if f == file {
            assert(key(after[slot]) == f);
        } else {
            let j = choose|j: int| 0 <= j < before.len()
                && chars.subrange(before[j].0 as int, before[j].1 as int) == f;
            assert(j != slot);
            assert(after[j] == before[j]);
        }
    }
    assert forall|j: int| 0 <= j < after.len() implies {
        let e = #[trigger] after[j];
        &&& m2.contains_key(chars.subrange(e.0 as int, e.1 as int))
        &&& m2[chars.subrange(e.0 as int, e.1 as int)] == chars.subrange(e.2 as int, e.3 as int)
    } by {
        if j != slot {
            assert(after[j] == before[j]);
        }
    }
    assert forall|j: int, k: int| 0 <= j < k < after.len() implies
        chars.subrange(after[j].0 as int, after[j].1 as int)
            != chars.subrange(after[k].0 as int, after[k].1 as int) by {
        if j != slot {
            assert(after[j] == before[j]);
        }
        if k != slot {
            assert(after[k] == before[k]);
        }
    }
}

/// Records `file -> hash` in `entries`, replacing the hash of an entry with the same file name.
fn upsert(chars: &Vec<char>, entries: &mut Vec<(usize, usize, usize, usize)>, entry: (usize, usize, usize, usize), Ghost(m): Ghost<Map<Seq<char>, Seq<char>>>)
    requires
        entry.0 <= entry.1 <= chars@.len(),
        entry.2 <= entry.3 <= chars@.len(),
        entries_hold(chars@, old(entries)@, m),
    ensures
        entries_hold(chars@, final(entries)@, m.insert(
            chars@.subrange(entry.0 as int, entry.1 as int),
            chars@.subrange(entry.2 as int, entry.3 as int),
        )),
        final(entries)@.len() <= old(entries)@.len() + 1,
{
    let ghost file = chars@.subrange(entry.0 as int, entry.1 as int);
    let n = entries.len();
    let mut i: usize = 0;
    while i < n
        invariant
            n == entries@.len(),
            i <= n,
            entries@ == old(entries)@,
            entries_hold(chars@, entries@, m),
            entry.0 <= entry.1 <= chars@.len(),
            entry.2 <= entry.3 <= chars@.len(),
            file == chars@.subrange(entry.0 as int, entry.1 as int),
            forall|j: int| 0 <= j < i ==> chars@.subrange((#[trigger] entries@[j]).0 as int, entries@[j].1 as int) != file,
        decreases n - i,
    {
        let e = entries[i];
        assert(e == entries@[i as int]);
        if ranges_equal(chars, e.0, e.1, entry.0, entry.1) {
            entries.set(i, entry);
            proof {
                lemma_entry_written(chars@, old(entries)@, entries@, m, entry, i as int);
            }
            return;
        }
        i = i + 1;
    }
    entries.push(entry);
    proof {
        lemma_entry_written(chars@, old(entries)@, entries@, m, entry, n as int);
    }
}

/// Reads the line `chars[start..end]` and records its entry, if it has one.
fn read_line(chars: &Vec<char>, start: usize, end: usize, entries: &mut Vec<(usize, usize, usize, usize)>, Ghost(m): Ghost<Map<Seq<char>, Seq<char>>>)
    requires
        start <= end <= chars@.len(),
        entries_hold(chars@, old(entries)@, m),
    ensures
        entries_hold(chars@, final(entries)@, match line_entry(chars@.subrange(start as int, end as int)) {
            Some((file, hash)) => m.insert(file, hash),
            None => m,
        }),
        final(entries)@.len() <= old(entries)@.len() + 1,
{
    let ghost line = chars@.subrange(start as int, end as int);
    let w = scan(chars, start, end, &CharClass::WhiteSpace);
    if w < end {
        let t = scan(chars, w + 1, end, &CharClass::NotWhiteSpace);
        proof {
            let k = w - start;
            assert(line.skip(k + 1) =~= chars@.subrange(w + 1, end as int));
            assert(trim_start(line.skip(k + 1)) =~= chars@.subrange(t as int, end as int));
            assert(line.take(k) =~= chars@.subrange(start as int, w as int));
        }
        upsert(chars, entries, (t, end, start, w), Ghost(m));
    }
}

/// Reads a hash list: each line holds a hash, white space, then a file name.
/// Returns the pairs `(file name, hash)`; for a file name listed twice the later
/// hash counts, and lines without white space are skipped. Each file name occurs
/// once in the result, whose order is unspecified.
pub fn parse_hashes<'a>(s: &'a str) -> (entries: Vec<(&'a str, &'a str)>)
    ensures
        forall|i: int, j: int| 0 <= i < j < entries@.len() ==> entries@[i].0@ != entries@[j].0@,
        forall|i: int| 0 <= i < entries@.len() ==> {
            &&& #[trigger] hash_list(s@).contains_key(entries@[i].0@)
            &&& hash_list(s@)[entries@[i].0@] == entries@[i].1@
        },
        forall|f: Seq<char>| #[trigger] hash_list(s@).contains_key(f) ==> exists|i: int|
            0 <= i < entries@.len() && entries@[i].0@ == f,
        entries@.len() <= lines(s@).len(),
        forall|i: int| 0 <= i < entries@.len() ==> {
            &&& exists|a: int, b: int| 0 <= a <= b <= s@.len() && s@.subrange(a, b) == (#[trigger] entries@[i]).0@
            &&& exists|a: int, b: int| 0 <= a <= b <= s@.len() && s@.subrange(a, b) == entries@[i].1@
        },
{
    let chars = chars_of(s);
    let n = chars.len();
    let mut ranges: Vec<(usize, usize, usize, usize)> = Vec::new();
    let ghost mut done: Seq<Seq<char>> = seq![];
    let mut pos: usize = 0;
    proof {
        assert(s@.skip(0) =~= s@);
    }
    while pos < n
        invariant
            n == chars@.len(),
            chars@ == s@,
            pos <= n,
            lines(s@) == done + lines(s@.skip(pos as int)),
            entries_hold(chars@, ranges@, hashes_of_lines(done)),
            ranges@.len() <= done.len(),
        decreases n - pos,
    {
        let ghost rest = s@.skip(pos as int);
        let j = scan(&chars, pos, n, &CharClass::Newline);
        proof {
            assert(chars@.subrange(pos as int, n as int) =~= rest);
            lemma_first_match_bounds(rest, CharClass::Newline);
        }
        let end = if j < n && j > pos && chars[j - 1] == '\r' {
            j - 1
        } else {
            j
        };
        let ghost line = chars@.subrange(pos as int, end as int);
        proof {
            if j < n {
                assert(rest.take(j - pos) =~= chars@.subrange(pos as int, j as int));
                assert(line =~= strip_cr(rest.take(j - pos)));
                assert(rest.skip(j - pos + 1) =~= s@.skip(j + 1));
                assert(lines(rest) == seq![line] + lines(s@.skip(j + 1)));
            } else {
                assert(line =~= rest);
                assert(s@.skip(n as int) =~= Seq::<char>::empty());
                assert(lines(rest) == seq![line] + lines(s@.skip(n as int)));
            }
        }
        read_line(&chars, pos, end, &mut ranges, Ghost(hashes_of_lines(done)));
        proof {
            assert(done.push(line).drop_last() =~= done);
            assert(done + (seq![line] + lines(s@.skip(if j < n { j + 1 } else { n as int }))) =~= done.push(line) + lines(s@.skip(if j < n { j + 1 } else { n as int })));
            done = done.push(line);
        }
        pos = if j < n {
            j + 1
        } else {
            n
        };
    }
    proof {
        assert(s@.skip(n as int) =~= Seq::<char>::empty());
        assert(done + lines(s@.skip(n as int)) =~= done);
    }
    let mut entries: Vec<(&'a str, &'a str)> = Vec::new();
    let count = ranges.len();
    let mut i: usize = 0;
    while i < count
        invariant
            count == ranges@.len(),
            i <= count,
            chars@ == s@,
            entries@.len() == i,
            entries_hold(chars@, ranges@, hash_list(s@)),
            ranges@.len() <= lines(s@).len(),
            forall|k: int| 0 <= k < i ==> {
                &&& (#[trigger] entries@[k]).0@ == chars@.subrange(ranges@[k].0 as int, ranges@[k].1 as int)
                &&& entries@[k].1@ == chars@.subrange(ranges@[k].2 as int, ranges@[k].3 as int)
            },
        decreases count - i,
    {
        let r = ranges[i];
        assert(r == ranges@[i as int]);
        let file = s.substring_char(r.0, r.1);
        let hash = s.substring_char(r.2, r.3);
        entries.push((file, hash));
        i = i + 1;
    }
    proof {
        let m = hash_list(s@);
        assert forall|f: Seq<char>| #[trigger] m.contains_key(f) implies exists|k: int|
            0 <= k < entries@.len() && entries@[k].0@ == f by {
            let k = choose|k: int| 0 <= k < ranges@.len()
                && chars@.subrange(ranges@[k].0 as int, ranges@[k].1 as int) == f;
            assert(entries@[k].0@ == f);
        }
        assert forall|a: int, b: int| 0 <= a < b < entries@.len() implies entries@[a].0@ != entries@[b].0@ by {
            assert(entries@[a].0@ == chars@.subrange(ranges@[a].0 as int, ranges@[a].1 as int));
            assert(entries@[b].0@ == chars@.subrange(ranges@[b].0 as int, ranges@[b].1 as int));
        }
        assert forall|k: int| 0 <= k < entries@.len() implies {
            &&& exists|a: int, b: int| 0 <= a <= b <= s@.len() && s@.subrange(a, b) == (#[trigger] entries@[k]).0@
            &&& exists|a: int, b: int| 0 <= a <= b <= s@.len() && s@.subrange(a, b) == entries@[k].1@
        } by {
            let r = ranges@[k];
            assert(s@.subrange(r.0 as int, r.1 as int) == entries@[k].0@);
            assert(s@.subrange(r.2 as int, r.3 as int) == entries@[k].1@);
        }
        assert forall|a: int| 0 <= a < entries@.len() implies {
            &&& #[trigger] m.contains_key(entries@[a].0@)
            &&& m[entries@[a].0@] == entries@[a].1@
        } by {
            assert(entries@[a].0@ == chars@.subrange(ranges@[a].0 as int, ranges@[a].1 as int));
        }
    }
    entries
}

} // verus!
