use bdengine_desktop::webview2::first_present_installer;
use bdengine_desktop::webview2::startup_after_check;
use bdengine_desktop::webview2::version_of_output;
use bdengine_desktop::webview2::webview2_installer_candidates;
use bdengine_desktop::webview2::QueryOutcome;
use bdengine_desktop::webview2::RuntimeAction;
use bdengine_desktop::webview2::RuntimeCheck;
use bdengine_desktop::webview2::RuntimeEvent;
use bdengine_desktop::webview2::SearchAction;
use bdengine_desktop::webview2::Startup;
use bdengine_desktop::webview2::VersionSearch;

fn key(action: SearchAction) -> String {
    match action {
        SearchAction::Query(key) => key,
        _ => panic!("the search goes on"),
    }
}

fn result(action: RuntimeAction) -> Result<bool, String> {
    match action {
        RuntimeAction::Finish(result) => result,
        _ => panic!("the check goes on"),
    }
}

fn installing() -> RuntimeCheck {
    let (mut check, action) = RuntimeCheck::begin();
    assert!(matches!(action, RuntimeAction::Detect));
    assert!(matches!(
        check.step(RuntimeEvent::Detected(false)),
        RuntimeAction::FindInstaller
    ));
    assert!(matches!(
        check.step(RuntimeEvent::InstallerFound(true)),
        RuntimeAction::RunInstaller
    ));
    check
}

fn relaunching() -> RuntimeCheck {
    let mut check = installing();
    assert!(matches!(
        check.step(RuntimeEvent::InstallerEnded { success: true, code: Some(0) }),
        RuntimeAction::Detect
    ));
    assert!(matches!(check.step(RuntimeEvent::Detected(true)), RuntimeAction::Relaunch));
    check
}

#[test]
fn installers_in_order() {
    assert_eq!(
        webview2_installer_candidates(),
        [
            "redist\\MicrosoftEdgeWebView2RuntimeInstallerX64.exe",
            "redist\\MicrosoftEdgeWebview2Setup.exe",
        ]
    );
    let [offline, online] = webview2_installer_candidates();
    assert_eq!(first_present_installer([true, true]), Some(offline));
    assert_eq!(first_present_installer([true, false]), Some(offline));
    assert_eq!(first_present_installer([false, true]), Some(online));
    assert_eq!(first_present_installer([false, false]), None);
}

#[test]
fn version_is_the_last_word_of_the_line() {
    let output = "\r\nHKEY_CURRENT_USER\\Software\r\n    pv    REG_SZ    120.0.2210.91  \r\n\r\n";
    assert_eq!(version_of_output(output), Some("120.0.2210.91".to_string()));
    assert_eq!(version_of_output("pv REG_SZ 1\npv REG_SZ 2"), Some("1".to_string()));
    assert_eq!(version_of_output("REG_SZ"), Some("REG_SZ".to_string()));
    assert_eq!(version_of_output("a\u{2003}REG_SZ\u{3000}ä1\u{85}"), Some("ä1".to_string()));
    assert_eq!(version_of_output("pv REG_DWORD 1"), None);
    assert_eq!(version_of_output(""), None);
}

#[test]
fn keys_are_queried_in_order() {
    let guid = "{F3017226-FE2A-4295-8BDF-00C3A9A7E4C5}";
    let (mut search, action) = VersionSearch::begin();
    assert_eq!(
        key(action),
        format!("HKCU\\Software\\Microsoft\\EdgeUpdate\\Clients\\{}", guid)
    );
    assert_eq!(
        key(search.step(QueryOutcome::Failed)),
        format!("HKLM\\Software\\Microsoft\\EdgeUpdate\\Clients\\{}", guid)
    );
    assert_eq!(
        key(search.step(QueryOutcome::Printed(b"nothing".to_vec()))),
        format!("HKLM\\Software\\WOW6432Node\\Microsoft\\EdgeUpdate\\Clients\\{}", guid)
    );
    assert!(matches!(search.step(QueryOutcome::Failed), SearchAction::NotFound));
    assert!(matches!(
        search.step(QueryOutcome::Printed(b"pv REG_SZ 1".to_vec())),
        SearchAction::NotFound
    ));
}

#[test]
fn search_ends_with_the_version() {
    let (mut search, _) = VersionSearch::begin();
    match search.step(QueryOutcome::Printed(b"\xff REG_SZ 1\xff2\r\n".to_vec())) {
        SearchAction::Found(version) => assert_eq!(version, "1\u{fffd}2"),
        _ => panic!("the version is found"),
    }
    let (mut search, _) = VersionSearch::begin();
    assert!(matches!(search.step(QueryOutcome::NotRun), SearchAction::NotFound));
}

#[test]
fn runtime_that_is_there_is_left_alone() {
    let (mut check, _) = RuntimeCheck::begin();
    assert_eq!(result(check.step(RuntimeEvent::Detected(true))), Ok(false));
    assert!(matches!(check.step(RuntimeEvent::Detected(false)), RuntimeAction::Ignore));
}

#[test]
fn runtime_is_installed_and_the_application_relaunched() {
    assert_eq!(result(relaunching().step(RuntimeEvent::Relaunched)), Ok(true));
}

#[test]
fn installation_can_fail() {
    let x = || "x".to_string();
    let (mut check, _) = RuntimeCheck::begin();
    let _ = check.step(RuntimeEvent::Detected(false));
    assert_eq!(
        result(check.step(RuntimeEvent::InstallerFound(false))),
        Err("WebView2 Runtime is missing and no bundled installer was found.".to_string())
    );
    assert_eq!(
        result(installing().step(RuntimeEvent::InstallerNotStarted(x()))),
        Err("Could not launch bundled WebView2 installer: x".to_string())
    );
    for code in [Some(1603), Some(-2147219187), None] {
        assert_eq!(
            result(installing().step(RuntimeEvent::InstallerEnded { success: false, code })),
            Err(format!("Bundled WebView2 installer exited with code {:?}.", code))
        );
    }
    let mut check = installing();
    let _ = check.step(RuntimeEvent::InstallerEnded { success: true, code: Some(0) });
    assert_eq!(
        result(check.step(RuntimeEvent::Detected(false))),
        Err("WebView2 installer finished, but the runtime still could not be detected.".to_string())
    );
    assert_eq!(
        result(relaunching().step(RuntimeEvent::ExecutableUnknown(x()))),
        Err("Could not resolve current executable: x".to_string())
    );
    assert_eq!(
        result(relaunching().step(RuntimeEvent::NotRelaunched(x()))),
        Err("Could not relaunch application: x".to_string())
    );
}

#[test]
fn start_goes_on_or_ends() {
    assert!(matches!(startup_after_check(&Ok(false)), Startup::Continue));
    assert!(matches!(startup_after_check(&Ok(true)), Startup::Exit));
    match startup_after_check(&Err("No.".to_string())) {
        Startup::ShowError { title, message, url } => {
            assert_eq!(title, "BDEngine");
            assert_eq!(
                message,
                "No.\n\nOpen this page to install Microsoft Edge WebView2 Runtime:\nhttps://developer.microsoft.com/en-us/microsoft-edge/webview2"
            );
            assert_eq!(url, "https://developer.microsoft.com/en-us/microsoft-edge/webview2");
        }
        _ => panic!("an error is shown"),
    }
}
