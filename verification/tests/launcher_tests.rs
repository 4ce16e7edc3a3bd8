use launcher::filesystem::{appdata_bin_path, get_appdata_cod4_path, AppDataError, EnvVar, JoinedPath};
use launcher::http::{
    accepted_len, api_request_builder, easy_get, Collector, DummyProgress, HeaderError, RequestBuilder,
    Timeout, USER_AGENT,
};
use launcher::miles32::{convert_bytes_to_string, missing_procedure, Miles32LoadError, MILES32_DLL_NAME};
use launcher::text::{char_is_whitespace, chars_of};

#[test]
fn collector_keeps_what_was_written() {
    let mut c = Collector::new();
    assert!(c.get_data().is_empty());
    assert_eq!(c.write(b"hello "), 6);
    assert_eq!(c.write(b""), 0);
    assert_eq!(c.write(b"world"), 5);
    assert_eq!(c.get_data(), b"hello world".to_vec());
}

#[test]
fn accepted_len_is_zero_when_write_failed() {
    assert_eq!(accepted_len(true, 10), 10);
    assert_eq!(accepted_len(false, 10), 0);
    let _ = DummyProgress;
}

#[test]
fn request_builder_keeps_settings() {
    let mut b = RequestBuilder::new("https://example.com/x");
    b.timeout(Timeout::from_secs(7));
    b.add_header("Accept: text/plain").unwrap();
    b.add_header("X-Other: 1").unwrap().timeout(Timeout::from_parts(0, 250_000_000));
    let (settings, timeout, headers) = b.into_parts();
    assert_eq!(settings.url, "https://example.com/x");
    assert!(settings.get && settings.follow_location && settings.progress);
    assert_eq!(settings.user_agent, "curl/8.9.1");
    let t = timeout.unwrap();
    assert_eq!((t.as_secs(), t.subsec_nanos()), (0, 250_000_000));
    let items: Vec<Vec<u8>> = headers.iter().map(|h| h.to_vec()).collect();
    assert_eq!(items, vec![b"Accept: text/plain".to_vec(), b"X-Other: 1".to_vec()]);
}

#[test]
fn request_builder_refuses_nul_header() {
    let mut b = RequestBuilder::new("u");
    b.add_header("A: 1").unwrap();
    assert_eq!(b.add_header("Bad: \0").err(), Some(HeaderError::ContainsNul));
    let (_, timeout, headers) = b.into_parts();
    assert!(timeout.is_none());
    assert_eq!(headers.iter().count(), 1);
}

#[test]
fn github_api_request_settings() {
    let b = api_request_builder("https://api.github.com/repos/a/b/releases/latest").unwrap();
    let (settings, timeout, headers) = b.into_parts();
    assert_eq!(settings.url, "https://api.github.com/repos/a/b/releases/latest");
    assert!(settings.get && settings.follow_location && settings.progress);
    assert_eq!(settings.user_agent, USER_AGENT);
    let t = timeout.unwrap();
    assert_eq!((t.as_secs(), t.subsec_nanos()), (3, 0));
    let items: Vec<Vec<u8>> = headers.iter().map(|h| h.to_vec()).collect();
    assert_eq!(items, vec![b"X-GitHub-Api-Version: 2026-03-10".to_vec()]);
}

#[test]
fn easy_get_settings() {
    let e = easy_get("https://example.com/file.zip");
    assert_eq!(e.url, "https://example.com/file.zip");
    assert!(e.get && e.follow_location && e.progress);
    assert_eq!(e.user_agent, "curl/8.9.1");
}

#[test]
fn timeout_parts() {
    let t = Timeout::from_secs(5);
    assert_eq!((t.as_secs(), t.subsec_nanos()), (5, 0));
    let t = Timeout::from_parts(1, 999_999_999);
    assert_eq!((t.as_secs(), t.subsec_nanos()), (1, 999_999_999));
}

#[test]
fn miles32_messages() {
    assert_eq!(MILES32_DLL_NAME, "miles32.dll");
    assert_eq!(Miles32LoadError::ModuleNotFound.message(), "Miles32 DLL not found");
    let e = missing_procedure(b"AIL_startup");
    assert!(matches!(&e, Miles32LoadError::MissingProcedure(n) if n == "AIL_startup"));
    assert_eq!(e.message(), "Missing Miles32 procedure 'AIL_startup'");
    let e = missing_procedure(&[0xC3, 0x28]);
    assert_eq!(e.message(), "Missing Miles32 procedure '<Error>'");
}

#[test]
fn convert_bytes_to_string_cases() {
    assert_eq!(convert_bytes_to_string("añb".as_bytes()).unwrap(), "añb");
    assert!(convert_bytes_to_string(&[0x80]).is_err());
    assert_eq!(convert_bytes_to_string(&[]).unwrap(), "");
}

#[test]
fn chars_of_gives_each_char() {
    assert_eq!(chars_of("aé€"), vec!['a', 'é', '€']);
}

fn parts(p: &JoinedPath) -> (String, Vec<String>) {
    (p.base.clone(), p.parts.clone())
}

#[test]
fn appdata_paths_prefer_environment() {
    let env = || EnvVar::Present("C:\\Sandbox\\AppData".to_string());
    let known = || Some("C:\\Users\\me\\AppData\\Local".to_string());
    let p = get_appdata_cod4_path(env(), known()).unwrap();
    assert_eq!(parts(&p), ("C:\\Sandbox\\AppData".to_string(), vec!["CallofDuty4MW".to_string()]));
    let p = get_appdata_cod4_path(EnvVar::NotPresent, known()).unwrap();
    assert_eq!(p.base, "C:\\Users\\me\\AppData\\Local");
    assert_eq!(get_appdata_cod4_path(EnvVar::NotPresent, None).err(), Some(AppDataError::NotPresent));
    let bin = appdata_bin_path(env(), known()).unwrap();
    assert_eq!(parts(&bin), ("C:\\Sandbox\\AppData".to_string(), vec!["CallofDuty4MW".to_string(), "bin".to_string()]));
    assert_eq!(appdata_bin_path(EnvVar::NotPresent, None).err(), Some(AppDataError::NotPresent));
}

#[test]
fn non_unicode_variable_does_not_fall_back_to_known_folder() {
    let known = Some("C:\\Users\\me\\AppData\\Local".to_string());
    assert_eq!(get_appdata_cod4_path(EnvVar::NotUnicode, known.clone()).err(), Some(AppDataError::NotUnicode));
    assert_eq!(appdata_bin_path(EnvVar::NotUnicode, known).err(), Some(AppDataError::NotUnicode));
}

#[test]
fn char_is_whitespace_agrees_with_std() {
    for u in 0u32..=0x10FFFF {
        if let Some(c) = char::from_u32(u) {
            assert_eq!(char_is_whitespace(c), c.is_whitespace(), "U+{u:04X}");
        }
    }
}

#[test]
fn joined_path_appends_parts() {
    let p = JoinedPath::from_base("root".to_string()).join("a").join("b");
    assert_eq!(parts(&p), ("root".to_string(), vec!["a".to_string(), "b".to_string()]));
}
