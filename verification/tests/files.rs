use bdengine_desktop::files::accept_file_name;
use bdengine_desktop::files::dialog_reply;
use bdengine_desktop::files::download_dialog_script;
use bdengine_desktop::files::download_dialog_script_for;
use bdengine_desktop::files::escape_powershell_single_quoted;
use bdengine_desktop::files::extension_of;
use bdengine_desktop::files::file_name_of;
use bdengine_desktop::files::has_bdengine_name;
use bdengine_desktop::files::is_bdengine_file;
use bdengine_desktop::files::parent_of;
use bdengine_desktop::files::project_file_path;
use bdengine_desktop::files::prompt_download_destination;
use bdengine_desktop::files::sanitize_download_file_name;
use bdengine_desktop::files::suggested_save_path;
use bdengine_desktop::files::DialogOutcome;

#[test]
fn extensions_agree_with_the_standard_library() {
    for name in ["a", "a.b", "a.b.c", ".a", ".a.b", "a.", "a..", ".", "x.BDEngine", "ä.ö"] {
        let expected = std::path::Path::new(name).extension().and_then(|e| e.to_str());
        if name != "." {
            assert_eq!(extension_of(name), expected, "{:?}", name);
        }
    }
}

#[test]
fn files_of_the_application_are_told_by_their_name() {
    assert!(is_bdengine_file("cube.bdengine", true));
    assert!(is_bdengine_file("dir/Cube.BDENGINE", true));
    assert!(!is_bdengine_file("cube.bdengine", false));
    assert!(!is_bdengine_file("cube.bdengine.txt", true));
    assert!(!is_bdengine_file(".bdengine", true));
    assert!(!is_bdengine_file("cube", true));
    assert!(!is_bdengine_file("dir.bdengine/..", true));
    assert!(has_bdengine_name(&Some("a.bdengine".to_string())));
    assert!(!has_bdengine_name(&None));
}

#[test]
fn files_of_the_application_with_drives_and_on_shares() {
    assert!(is_bdengine_file("C:\\models\\cube.bdengine", true));
    assert!(is_bdengine_file("C:cube.BDEngine", true));
    assert!(is_bdengine_file("\\\\server\\share\\cube.bdengine", true));
    assert!(is_bdengine_file("\\\\server\\share\\models/cube.bdengine", true));
    assert!(!is_bdengine_file("\\\\server\\share\\cube.bdengine", false));
    assert!(!is_bdengine_file("\\\\server\\share\\cube.txt", true));
    assert!(!is_bdengine_file("C:\\x.bdengine\\readme", true));
    assert!(!is_bdengine_file("C:\\x.bdengine\\readme.bak", true));
}

#[test]
fn file_names_end_their_paths() {
    for path in [
        "C:\\dl\\setup.exe",
        "C:setup.exe",
        "\\\\server\\share\\setup.exe",
        "\\\\server\\share\\a/setup.exe",
        "dir\\setup.exe",
    ] {
        let name = file_name_of(path).unwrap();
        assert!(name.ends_with("setup.exe"), "{:?}", path);
        assert!(path.ends_with(&name), "{:?}", path);
        assert!(!name.contains('/'));
        assert_eq!(sanitize_download_file_name(path), Ok(name));
    }
    assert_eq!(file_name_of("a/.."), None);
    assert_eq!(file_name_of("."), None);
}

#[test]
fn portable_downloads_stay_in_their_directory() {
    for asked in ["setup.exe", "../setup.exe", "/etc/x", "a/b/./c", "..x", "a..", ".hidden"] {
        let name = sanitize_download_file_name(asked).unwrap();
        assert!(!name.contains(|c| c == '/' || c == '\\' || c == ':'), "{:?}", asked);
        assert!(name != "." && name != "..");
    }
}

#[test]
fn download_names_are_the_last_component() {
    assert_eq!(sanitize_download_file_name(" setup.exe\n"), Ok("setup.exe".to_string()));
    assert_eq!(sanitize_download_file_name("a/b/setup.exe"), Ok("setup.exe".to_string()));
    assert_eq!(sanitize_download_file_name("../../setup.exe"), Ok("setup.exe".to_string()));
    assert_eq!(sanitize_download_file_name("dir/."), Ok("dir".to_string()));
    assert_eq!(sanitize_download_file_name("dir//"), Ok("dir".to_string()));
}

#[test]
fn download_names_can_be_refused() {
    assert_eq!(sanitize_download_file_name("  "), Err("File name is empty.".to_string()));
    for name in ["..", "a/..", "/", ".", "./."] {
        assert_eq!(
            sanitize_download_file_name(name),
            Err("Could not resolve download file name.".to_string()),
            "{:?}",
            name
        );
    }
    assert_eq!(accept_file_name(Some("a".to_string())), Ok("a".to_string()));
    assert!(accept_file_name(Some("\u{a0}".to_string())).is_err());
    assert!(accept_file_name(None).is_err());
}

#[test]
fn file_names_agree_with_the_standard_library() {
    for path in ["a", "a/b", "/a", "a/", "a/./", "a//b", "./a", "a/..", "..", "/", "a/ b"] {
        let expected = std::path::Path::new(path)
            .file_name()
            .and_then(|name| name.to_str())
            .map(|name| name.to_string());
        assert_eq!(sanitize_download_file_name(path).ok(), expected, "{:?}", path);
    }
}

#[test]
fn project_paths_are_trimmed() {
    assert_eq!(project_file_path(" /a b "), Ok("/a b".to_string()));
    assert_eq!(project_file_path("\t"), Err("Project file path is empty.".to_string()));
    assert_eq!(suggested_save_path(" x.png"), Ok("x.png".to_string()));
    assert_eq!(suggested_save_path(""), Err("File name is empty.".to_string()));
}

#[test]
fn quotes_are_doubled() {
    assert_eq!(escape_powershell_single_quoted("it's ''x"), "it''s ''''x");
    assert_eq!(escape_powershell_single_quoted(""), "");
    assert_eq!(escape_powershell_single_quoted("ä\"b"), "ä\"b");
}

#[test]
fn escaped_literal_denotes_the_text() {
    for s in ["", "'", "''", "a'b", "it's", "$x"] {
        let escaped = escape_powershell_single_quoted(s);
        assert_eq!(escaped.replace("''", "'"), s);
        assert_eq!(escaped.matches('\'').count() % 2, 0);
    }
}

#[test]
fn dialog_script_names_file_and_directory() {
    let script = download_dialog_script(Some("it's.png"), Some("C:\\o'x"));
    assert!(script.starts_with("\nAdd-Type -AssemblyName System.Windows.Forms\n"));
    assert!(script.contains("$dialog.FileName = 'it''s.png'\n"));
    assert!(script.contains("if ('C:\\o''x' -ne '') {\n  $dialog.InitialDirectory = 'C:\\o''x'\n}\n"));
    assert!(script.ends_with("$bytes.Length)\n}\n"));
}

#[test]
fn parents_are_paths_without_the_last_component() {
    assert_eq!(parent_of("a/b.png").as_deref(), Some("a"));
    assert_eq!(parent_of("/x/a/b.png").as_deref(), Some("/x/a"));
    assert_eq!(parent_of("b.png").as_deref(), Some(""));
    assert_eq!(parent_of(""), None);
    assert_eq!(parent_of("/"), None);
    for path in ["a", "a/b", "/a", "a/", "a/./b", "a//b", "./a", "..", "a/..", "C:\\x\\y"] {
        let parent = parent_of(path).unwrap();
        assert!(parent.len() < path.len() && path.starts_with(&parent), "{:?}", path);
    }
}

#[test]
fn dialog_suggests_name_and_parent_of_the_path() {
    assert_eq!(
        download_dialog_script_for("my dir/it's.png"),
        download_dialog_script(Some("it's.png"), Some("my dir"))
    );
    assert_eq!(
        download_dialog_script_for("x.png"),
        download_dialog_script(Some("x.png"), None)
    );
    assert_eq!(download_dialog_script_for("/"), download_dialog_script(None, None));
}

#[test]
fn dialog_script_has_defaults() {
    for name in [None, Some(""), Some("  ")] {
        let script = download_dialog_script(name, None);
        assert!(script.contains("$dialog.FileName = 'download'\n"));
        assert!(script.contains("if ('' -ne '') {\n"));
    }
}

#[test]
fn destination_without_a_dialog_is_the_suggestion() {
    assert_eq!(
        prompt_download_destination("a.png", &DialogOutcome::Unavailable),
        Some("a.png".to_string())
    );
}

#[test]
fn destination_is_what_the_dialog_says() {
    let ended = |success: bool, stdout: &[u8]| DialogOutcome::Ended {
        success,
        stdout: stdout.to_vec(),
    };
    assert_eq!(prompt_download_destination("a", &DialogOutcome::NotStarted), None);
    assert_eq!(prompt_download_destination("a", &ended(false, b"x")), None);
    assert_eq!(prompt_download_destination("a", &ended(true, b" \r\n")), None);
    assert_eq!(
        prompt_download_destination("a", &ended(true, " C:\\ä.png\r\n".as_bytes())),
        Some("C:\\ä.png".to_string())
    );
    assert_eq!(
        prompt_download_destination("a", &ended(true, &[b'x', 0xff, b'y'])),
        Some("x\u{fffd}y".to_string())
    );
    assert_eq!(dialog_reply(" p "), Some("p".to_string()));
    assert_eq!(dialog_reply("\n"), None);
}
