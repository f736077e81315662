use base64::Engine;
use bdengine_desktop::launch::build_remote_url;
use bdengine_desktop::launch::build_splash_html;
use bdengine_desktop::launch::launch_context_script;
use bdengine_desktop::launch::launch_file_of;
use bdengine_desktop::launch::launch_script_to_run;
use bdengine_desktop::launch::load_launch_file;
use bdengine_desktop::launch::launch_file;
use bdengine_desktop::launch::parse_launch_context;
use bdengine_desktop::launch::remote_query_pairs;
use bdengine_desktop::launch::FoundFile;
use bdengine_desktop::launch::LaunchContext;
use bdengine_desktop::launch::LaunchScan;
use bdengine_desktop::release_channel::ReleaseChannel;
use bdengine_desktop::urls::is_allowed_minecraft_proxy_origin;
use bdengine_desktop::urls::is_embedded_app_url;
use bdengine_desktop::urls::is_supported_launch_url;
use bdengine_desktop::urls::navigation_of;
use bdengine_desktop::urls::LaunchQueryPair;
use bdengine_desktop::urls::Navigation;
use bdengine_desktop::urls::ParsedUrl;

fn args(list: &[&str]) -> Vec<String> {
    list.iter().map(|arg| arg.to_string()).collect()
}

fn pairs(list: &Vec<LaunchQueryPair>) -> Vec<(String, String)> {
    list.iter().map(|pair| (pair.key.clone(), pair.value.clone())).collect()
}

fn pair(key: &str, value: &str) -> (String, String) {
    (key.to_string(), value.to_string())
}

fn parsed(scheme: &str, domain: &str) -> ParsedUrl {
    ParsedUrl {
        scheme: scheme.to_string(),
        host: Some(domain.to_string()),
        domain: Some(domain.to_string()),
        query_pairs: Vec::new(),
    }
}

#[test]
fn launch_takes_the_first_link_and_the_pairs_of_all() {
    let scan = parse_launch_context(&args(&[
        "bdengine://open?room=a%20b&appReal=1",
        "https://beta.bdengine.app/x?k=v",
        "  ",
        "https://example.com/?no=1",
        "C:\\models\\cube.bdengine",
    ]));
    assert_eq!(scan.deeplink.as_deref(), Some("bdengine://open?room=a%20b&appReal=1"));
    assert_eq!(pairs(&scan.query_pairs), vec![pair("room", "a b"), pair("k", "v")]);
    assert_eq!(
        scan.paths,
        vec!["https://example.com/?no=1".to_string(), "C:\\models\\cube.bdengine".to_string()]
    );
}

#[test]
fn launch_without_arguments_is_empty() {
    let scan = parse_launch_context(&args(&[]));
    let context = scan.into_context(Vec::new());
    assert!(!context.has_payload());
    assert!(context.first_file_path().is_none());
}

#[test]
fn links_are_taken_as_they_were_read() {
    let mut scan = LaunchScan::new();
    let mut link = parsed("bdengine", "open");
    link.query_pairs.push(LaunchQueryPair { key: "appReal".to_string(), value: "x".to_string() });
    link.query_pairs.push(LaunchQueryPair { key: "id".to_string(), value: "7".to_string() });
    scan.take_arg("first", &Some(link));
    scan.take_arg("second", &Some(parsed("https", "bdengine.app")));
    scan.take_arg("third", &Some(parsed("http", "bdengine.app")));
    scan.take_arg("fourth", &None);
    assert_eq!(scan.deeplink.as_deref(), Some("first"));
    assert_eq!(pairs(&scan.query_pairs), vec![pair("id", "7")]);
    assert_eq!(scan.paths, vec!["third".to_string(), "fourth".to_string()]);
}

#[test]
fn launch_files_carry_their_bytes() {
    let bytes: Vec<u8> = vec![0, 1, 2, 250, 251];
    let file = launch_file("/tmp/a.bdengine", "a.bdengine", &bytes);
    assert_eq!(file.path, "/tmp/a.bdengine");
    assert_eq!(file.name, "a.bdengine");
    assert_eq!(file.mime_type, "application/x-bdengine");
    assert_eq!(file.base64, "AAEC+vs=");
    assert_eq!(
        base64::engine::general_purpose::STANDARD.decode(&file.base64).unwrap(),
        bytes
    );
}

#[test]
fn launch_files_go_by_their_file_name() {
    let file = load_launch_file("models/cube.bdengine", &Some(vec![1])).unwrap();
    assert_eq!(file.path, "models/cube.bdengine");
    assert_eq!(file.name, "cube.bdengine");
    assert_eq!(file.base64, "AQ==");
    assert!(load_launch_file("models/cube.bdengine", &None).is_none());
    assert!(load_launch_file("models/..", &Some(vec![1])).is_none());
    let file = load_launch_file("\\\\server\\share\\cube.bdengine", &Some(vec![1])).unwrap();
    assert!(file.name.ends_with("cube.bdengine"));
}

#[test]
fn only_application_files_are_launch_files() {
    let bytes = Some(vec![1]);
    assert_eq!(launch_file_of("m/a.BDEngine", true, &bytes).unwrap().name, "a.BDEngine");
    assert!(launch_file_of("m/a.bdengine", false, &bytes).is_none());
    assert!(launch_file_of("m/a.bdengine", true, &None).is_none());
    assert!(launch_file_of("m/a.txt", true, &bytes).is_none());
    assert!(launch_file_of("C:\\x.bdengine\\readme", true, &bytes).is_none());
    let file = launch_file_of("\\\\server\\share\\a.bdengine", true, &bytes).unwrap();
    assert!(file.name.ends_with("a.bdengine"));
}

#[test]
fn launch_takes_the_files_among_its_paths() {
    let found = |is_file: bool, content: Option<Vec<u8>>| FoundFile { is_file, content };
    let scan = parse_launch_context(&args(&[
        "a.bdengine",
        "notes.txt",
        "bdengine://x?k=v",
        "gone.bdengine",
        "dir/b.bdengine",
        "locked.bdengine",
    ]));
    let context = scan.into_launch(&vec![
        found(true, Some(vec![1])),
        found(true, Some(vec![2])),
        found(false, None),
        found(true, Some(vec![3])),
        found(true, None),
    ]);
    let files: Vec<(String, String)> = context
        .files
        .iter()
        .map(|file| (file.path.clone(), file.base64.clone()))
        .collect();
    assert_eq!(files, vec![pair("a.bdengine", "AQ=="), pair("dir/b.bdengine", "Aw==")]);
    assert_eq!(context.deeplink.as_deref(), Some("bdengine://x?k=v"));
    assert_eq!(pairs(&context.query_pairs), vec![pair("k", "v")]);
}

#[test]
fn launch_with_a_file_has_a_payload() {
    let file = launch_file("/x/a.bdengine", "a.bdengine", b"x");
    let context = LaunchScan::new().into_context(vec![file]);
    assert!(context.has_payload());
    assert_eq!(context.first_file_path().as_deref(), Some("/x/a.bdengine"));
    let copy = context.clone();
    assert_eq!(copy.files[0].base64, "eA==");
    assert!(copy.deeplink.is_none());
}

#[test]
fn page_is_told_of_the_launch() {
    let mut context = LaunchContext::default();
    assert_eq!(
        pairs(&remote_query_pairs(&context)),
        vec![pair("appReal", "true"), pair("appVersion", "13")]
    );
    context.deeplink = Some("bdengine://x".to_string());
    context.query_pairs.push(LaunchQueryPair { key: "k".to_string(), value: "v".to_string() });
    context.files.push(launch_file("p", "n", b""));
    assert_eq!(
        pairs(&remote_query_pairs(&context)),
        vec![
            pair("appReal", "true"),
            pair("appVersion", "13"),
            pair("k", "v"),
            pair("openFile", "true"),
            pair("fromAppLink", "true"),
        ]
    );
}

#[test]
fn remote_address_holds_the_pairs() {
    let mut context = LaunchContext::default();
    assert_eq!(
        build_remote_url(&context, ReleaseChannel::Stable),
        "https://bdengine.app/?appReal=true&appVersion=13"
    );
    context.query_pairs.push(LaunchQueryPair {
        key: "na me".to_string(),
        value: "a&b=ü".to_string(),
    });
    context.query_pairs.push(LaunchQueryPair { key: String::new(), value: String::new() });
    let address = build_remote_url(&context, ReleaseChannel::Beta);
    assert_eq!(
        address,
        "https://beta.bdengine.app/?appReal=true&appVersion=13&na+me=a%26b%3D%C3%BC&="
    );
    let url = url::Url::parse(&address).unwrap();
    assert_eq!(url.domain(), Some("beta.bdengine.app"));
    let read: Vec<(String, String)> = url
        .query_pairs()
        .map(|(key, value)| (key.into_owned(), value.into_owned()))
        .collect();
    assert_eq!(read, pairs(&remote_query_pairs(&context)));
}

#[test]
fn relaunching_with_the_remote_address_does_not_double_the_mark() {
    let first = parse_launch_context(&args(&["bdengine://x?k=v"])).into_context(Vec::new());
    let address = build_remote_url(&first, ReleaseChannel::Stable);
    let second = parse_launch_context(&args(&[&address])).into_context(Vec::new());
    let marks: usize = remote_query_pairs(&second)
        .iter()
        .filter(|pair| pair.key == "appReal")
        .count();
    assert_eq!(marks, 1);
}

#[test]
fn launch_script_holds_the_payload() {
    let script = launch_context_script("{\"files\":[]}");
    assert!(script.starts_with("(() => {\n  const payload = {\"files\":[]};\n  const install = () => {\n"));
    assert!(script.ends_with("  } else {\n    install();\n  }\n})();"));
    assert!(script.contains("window.__BDENGINE_DESKTOP__.pushLaunchContext(payload);"));
}

#[test]
fn script_is_run_only_for_a_payload() {
    let mut context = LaunchContext::default();
    assert!(launch_script_to_run(&context, "{}").is_none());
    context.deeplink = Some("bdengine://x".to_string());
    assert_eq!(launch_script_to_run(&context, "{}"), Some(launch_context_script("{}")));
}

#[test]
fn splash_page_shows_the_image() {
    let page = build_splash_html(&[1, 2, 3]);
    assert!(page.starts_with("<!doctype html>\n<html lang=\"en\">\n"));
    assert!(page.contains("<img src=\"data:image/png;base64,AQID\" alt=\"BDEngine splash\">"));
    assert!(page.ends_with("  </body>\n</html>"));
}

#[test]
fn pages_of_the_application_are_embedded() {
    for domain in ["bdengine.app", "beta.bdengine.app"] {
        assert!(is_embedded_app_url(&parsed("https", domain)));
        assert!(is_supported_launch_url(&parsed("https", domain)));
        assert_eq!(navigation_of(&parsed("https", domain)), Navigation::Embedded);
        assert!(!is_embedded_app_url(&parsed("http", domain)));
    }
    assert!(!is_embedded_app_url(&parsed("https", "evil.bdengine.app")));
    assert!(is_supported_launch_url(&parsed("bdengine", "anything")));
    assert!(!is_embedded_app_url(&parsed("bdengine", "bdengine.app")));
    assert_eq!(navigation_of(&parsed("https", "example.com")), Navigation::SystemBrowser);
}

#[test]
fn origins_that_may_use_the_proxy() {
    for origin in [
        "https://bdengine.app",
        "https://beta.bdengine.app",
        "https://bdengine.app:8443",
        "http://localhost:5173",
        "https://localhost",
        "http://127.0.0.1:80",
        "https://127.0.0.1",
    ] {
        assert!(is_allowed_minecraft_proxy_origin(origin), "{}", origin);
    }
    for origin in [
        "",
        "null",
        "http://bdengine.app",
        "https://www.bdengine.app",
        "https://example.com",
        "ws://localhost",
        "http://127.0.0.2",
        "http://[::1]",
    ] {
        assert!(!is_allowed_minecraft_proxy_origin(origin), "{}", origin);
    }
}
