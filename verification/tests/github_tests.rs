use launcher::updater::github::{
    check_status, find_asset, hashes_from_response, hashes_url, release_information_from_json,
    release_information_from_response,
    release_url, response_from_transfer, try_find_asset, AssetInformation, FetchError,
    FetchHashesError, HashesError, ReleaseInformation, Response, HASHES_ASSET_PATTERN,
};
use launcher::updater::json::{parse_json, JsonValue};

fn s(text: &str) -> String {
    text.to_string()
}

fn asset_json(name: &str, url: &str) -> JsonValue {
    JsonValue::Object(vec![
        (s("browser_download_url"), JsonValue::Str(s(url))),
        (s("name"), JsonValue::Str(s(name))),
        (s("size"), JsonValue::Number(s("12"))),
    ])
}

fn release_json(tag: JsonValue, assets: JsonValue) -> JsonValue {
    JsonValue::Object(vec![(s("assets"), assets), (s("tag_name"), tag)])
}

fn release() -> ReleaseInformation {
    ReleaseInformation {
        tag_name: s("v1.2.3"),
        assets: vec![
            AssetInformation { name: s("launcher.exe"), url: s("https://example.com/launcher.exe") },
            AssetInformation { name: s("hashes.txt"), url: s("https://example.com/hashes.txt") },
            AssetInformation { name: s("hashesXtxt"), url: s("https://example.com/other") },
        ],
    }
}

#[test]
fn release_url_points_at_latest_release() {
    assert_eq!(
        release_url("owner/repo"),
        "https://api.github.com/repos/owner/repo/releases/latest"
    );
}

#[test]
fn check_status_classifies_codes() {
    assert_eq!(check_status(200), Ok(()));
    assert_eq!(check_status(403), Err(FetchError::Forbidden));
    assert_eq!(check_status(404), Err(FetchError::RequestError));
    assert_eq!(check_status(0), Err(FetchError::RequestError));
}

#[test]
fn response_from_transfer_decodes_body() {
    let r = response_from_transfer("héllo".as_bytes(), Some(200)).unwrap();
    assert_eq!(r.data, "héllo");
    assert_eq!(r.status, 200);
    let r = response_from_transfer(b"x", None).unwrap();
    assert_eq!(r.status, 0);
    assert!(response_from_transfer(&[0xFF, 0xFE], Some(200)).is_none());
}

#[test]
fn release_information_is_read_from_json() {
    let doc = release_json(
        JsonValue::Str(s("v2.0")),
        JsonValue::Array(vec![asset_json("a.zip", "https://x/a.zip"), asset_json("hashes.txt", "https://x/h")]),
    );
    let info = release_information_from_json(Some(&doc)).unwrap();
    assert_eq!(info.tag_name, "v2.0");
    assert_eq!(info.assets.len(), 2);
    assert_eq!(info.assets[0].name, "a.zip");
    assert_eq!(info.assets[0].url, "https://x/a.zip");
    assert_eq!(info.assets[1].name, "hashes.txt");
    assert_eq!(info.assets[1].url, "https://x/h");
}

#[test]
fn release_with_no_assets_is_fine() {
    let doc = release_json(JsonValue::Str(s("v0")), JsonValue::Array(vec![]));
    let info = release_information_from_json(Some(&doc)).unwrap();
    assert!(info.assets.is_empty());
}

#[test]
fn unparsable_reply_is_invalid_response() {
    assert_eq!(release_information_from_json(None).err(), Some(FetchError::InvalidResponse));
}

#[test]
fn missing_or_non_string_tag_is_tag_name_error() {
    let doc = JsonValue::Object(vec![(s("assets"), JsonValue::Array(vec![]))]);
    assert_eq!(release_information_from_json(Some(&doc)).err(), Some(FetchError::TagName));
    let doc = release_json(JsonValue::Number(s("3")), JsonValue::Array(vec![]));
    assert_eq!(release_information_from_json(Some(&doc)).err(), Some(FetchError::TagName));
    let doc = JsonValue::Array(vec![]);
    assert_eq!(release_information_from_json(Some(&doc)).err(), Some(FetchError::TagName));
}

#[test]
fn bad_assets_are_release_assets_error() {
    let doc = JsonValue::Object(vec![(s("tag_name"), JsonValue::Str(s("v1")))]);
    assert_eq!(release_information_from_json(Some(&doc)).err(), Some(FetchError::ReleaseAssets));
    let doc = release_json(JsonValue::Str(s("v1")), JsonValue::Null);
    assert_eq!(release_information_from_json(Some(&doc)).err(), Some(FetchError::ReleaseAssets));
    let incomplete = JsonValue::Object(vec![(s("name"), JsonValue::Str(s("a")))]);
    let doc = release_json(JsonValue::Str(s("v1")), JsonValue::Array(vec![asset_json("b", "u"), incomplete]));
    assert_eq!(release_information_from_json(Some(&doc)).err(), Some(FetchError::ReleaseAssets));
    let wrong_type = JsonValue::Object(vec![
        (s("name"), JsonValue::Bool(true)),
        (s("browser_download_url"), JsonValue::Str(s("u"))),
    ]);
    let doc = release_json(JsonValue::Str(s("v1")), JsonValue::Array(vec![wrong_type]));
    assert_eq!(release_information_from_json(Some(&doc)).err(), Some(FetchError::ReleaseAssets));
}

#[test]
fn json_member_lookup() {
    let doc = release_json(JsonValue::Str(s("v1")), JsonValue::Null);
    assert!(matches!(doc.member(&s("tag_name")), Some(JsonValue::Str(t)) if t == "v1"));
    assert!(doc.member(&s("missing")).is_none());
    assert!(JsonValue::Str(s("x")).member(&s("x")).is_none());
    assert_eq!(JsonValue::Str(s("x")).as_str().map(|t| t.as_str()), Some("x"));
    assert!(JsonValue::Null.as_array().is_none());
}

#[test]
fn find_asset_returns_first_match() {
    let info = release();
    let found = find_asset(&info, "^hashes.txt$").unwrap();
    assert_eq!(found.name, "hashes.txt");
    let found = find_asset(&info, "hashes").unwrap();
    assert_eq!(found.name, "hashes.txt");
    let found = find_asset(&info, r"\.exe$").unwrap();
    assert_eq!(found.name, "launcher.exe");
    assert!(find_asset(&info, "^nothing$").is_none());
}

#[test]
fn try_find_asset_refuses_invalid_pattern() {
    let info = release();
    assert!(try_find_asset(&info, "(").is_none());
    assert_eq!(try_find_asset(&info, "txt").unwrap().unwrap().name, "hashes.txt");
    assert!(try_find_asset(&info, "zzz").unwrap().is_none());
}

#[test]
fn hashes_url_finds_hash_list() {
    assert_eq!(HASHES_ASSET_PATTERN, "^hashes.txt$");
    assert_eq!(hashes_url(&release()).unwrap(), "https://example.com/hashes.txt");
    let none = ReleaseInformation { tag_name: s("v"), assets: vec![] };
    assert_eq!(hashes_url(&none), Err(FetchHashesError::Hashes(HashesError::AssetNotFound)));
}

#[test]
fn hashes_from_response_cases() {
    assert_eq!(hashes_from_response(None), Err(FetchHashesError::Hashes(HashesError::FetchError)));
    let ok = Response { data: s("abc f\n"), status: 200 };
    assert_eq!(hashes_from_response(Some(ok)).unwrap(), "abc f\n");
    let forbidden = Response { data: s(""), status: 403 };
    assert_eq!(hashes_from_response(Some(forbidden)), Err(FetchHashesError::Fetch(FetchError::Forbidden)));
    let other = Response { data: s(""), status: 500 };
    assert_eq!(hashes_from_response(Some(other)), Err(FetchHashesError::Fetch(FetchError::RequestError)));
}

#[test]
fn error_messages() {
    assert_eq!(FetchError::RequestError.message(), "Couldn't check for updates at the moment. Please try again later.");
    assert_eq!(FetchError::Forbidden.message(), "Communication with GitHub API not allowed at the moment. Please try again later.");
    assert_eq!(FetchError::InvalidResponse.message(), "Invalid JSON response from GitHub API");
    assert_eq!(FetchError::TagName.message(), "Couldn't get tag name");
    assert_eq!(FetchError::ReleaseAssets.message(), "Couldn't get release assets");
    assert_eq!(HashesError::AssetNotFound.message(), "Couldn't find hashes.txt asset");
    assert_eq!(HashesError::FetchError.message(), "Failed to fetch hashes.txt");
}

#[test]
fn parse_json_reads_documents() {
    let doc = parse_json(r#"{"b": [1, 2.5, "x", null, true], "a": {"k": "v"}}"#).unwrap();
    let a = doc.member(&s("a")).unwrap();
    assert!(matches!(a.member(&s("k")), Some(JsonValue::Str(v)) if v == "v"));
    match doc.member(&s("b")) {
        Some(JsonValue::Array(items)) => {
            assert_eq!(items.len(), 5);
            assert!(matches!(&items[0], JsonValue::Number(n) if n == "1"));
            assert!(matches!(&items[1], JsonValue::Number(n) if n == "2.5"));
            assert!(matches!(&items[2], JsonValue::Str(t) if t == "x"));
            assert!(matches!(&items[3], JsonValue::Null));
            assert!(matches!(&items[4], JsonValue::Bool(true)));
        }
        _ => panic!("expected an array"),
    }
    assert!(parse_json("{not json").is_none());
    assert!(parse_json("").is_none());
}

#[test]
fn release_information_from_response_cases() {
    let body = r#"{"tag_name": "v3.1", "assets": [{"name": "hashes.txt", "browser_download_url": "https://x/h", "size": 10}]}"#;
    let info = release_information_from_response(&Response { data: s(body), status: 200 }).unwrap();
    assert_eq!(info.tag_name, "v3.1");
    assert_eq!(info.assets.len(), 1);
    assert_eq!(info.assets[0].name, "hashes.txt");
    assert_eq!(info.assets[0].url, "https://x/h");
    let forbidden = Response { data: s(body), status: 403 };
    assert_eq!(release_information_from_response(&forbidden).err(), Some(FetchError::Forbidden));
    let failed = Response { data: s(body), status: 500 };
    assert_eq!(release_information_from_response(&failed).err(), Some(FetchError::RequestError));
    let garbage = Response { data: s("<html>"), status: 200 };
    assert_eq!(release_information_from_response(&garbage).err(), Some(FetchError::InvalidResponse));
    let no_tag = Response { data: s(r#"{"assets": []}"#), status: 200 };
    assert_eq!(release_information_from_response(&no_tag).err(), Some(FetchError::TagName));
    let bad_assets = Response { data: s(r#"{"tag_name": "v", "assets": [{"name": "a"}]}"#), status: 200 };
    assert_eq!(release_information_from_response(&bad_assets).err(), Some(FetchError::ReleaseAssets));
}
