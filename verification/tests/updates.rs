use bdengine_desktop::updates::installer_failed;
use bdengine_desktop::updates::plan_update;
use bdengine_desktop::updates::share_of;
use bdengine_desktop::updates::DownloadAction;
use bdengine_desktop::updates::DownloadEvent;
use bdengine_desktop::updates::ProgressShare;
use bdengine_desktop::updates::UpdateDownload;

fn download() -> UpdateDownload {
    UpdateDownload::new("setup.exe".to_string(), "/tmp/setup.exe".to_string())
}

fn response(total_bytes: Option<u64>) -> DownloadEvent {
    DownloadEvent::Response { success: true, status: "200 OK".to_string(), total_bytes }
}

fn reading(total_bytes: Option<u64>) -> UpdateDownload {
    let mut d = download();
    assert!(matches!(d.step(DownloadEvent::DirectoryReady), DownloadAction::SendRequest));
    match d.step(response(total_bytes)) {
        DownloadAction::CreateFile(payload) => {
            assert_eq!(payload.file_name, "setup.exe");
            assert_eq!(payload.total_bytes, total_bytes);
        }
        _ => panic!("the file is created"),
    }
    assert!(matches!(d.step(DownloadEvent::FileCreated), DownloadAction::ReadChunk));
    d
}

fn failed(action: DownloadAction) -> String {
    match action {
        DownloadAction::Fail(payload) => {
            assert_eq!(payload.file_name, "setup.exe");
            payload.error
        }
        _ => panic!("the download goes on"),
    }
}

#[test]
fn updates_are_planned() {
    let plan = plan_update(" https://x/y ", "dir/setup.exe ").ok().unwrap();
    assert_eq!(plan.url, "https://x/y");
    assert_eq!(plan.file_name, "setup.exe");
    assert_eq!(plan_update(" ", "").err(), Some("Update URL is empty.".to_string()));
    assert_eq!(plan_update("u", " ").err(), Some("File name is empty.".to_string()));
    assert_eq!(
        plan_update("u", "..").err(),
        Some("Could not resolve download file name.".to_string())
    );
}

#[test]
fn file_receives_the_stream() {
    let mut d = reading(Some(8));
    let mut file: Vec<u8> = Vec::new();
    let mut counted: Vec<u64> = Vec::new();
    for chunk in [vec![1, 2, 3], vec![4], vec![5, 6]] {
        match d.step(DownloadEvent::Chunk(chunk)) {
            DownloadAction::WriteChunk(bytes) => file.extend(bytes),
            _ => panic!("the chunk is written"),
        }
        match d.step(DownloadEvent::ChunkWritten) {
            DownloadAction::ReportProgress(payload) => {
                assert_eq!(payload.file_name, "setup.exe");
                assert_eq!(payload.total_bytes, Some(8));
                match payload.progress {
                    ProgressShare::Part { downloaded, total } => {
                        assert_eq!((downloaded, total), (payload.downloaded_bytes, 8));
                    }
                    _ => panic!("the share is known"),
                }
                counted.push(payload.downloaded_bytes);
            }
            _ => panic!("the progress is reported"),
        }
    }
    assert_eq!(file, vec![1, 2, 3, 4, 5, 6]);
    assert_eq!(counted, vec![3, 4, 6]);
    assert!(matches!(d.step(DownloadEvent::Chunk(Vec::new())), DownloadAction::Flush));
    match d.step(DownloadEvent::Flushed) {
        DownloadAction::Succeed(payload) => {
            assert_eq!(payload.file_name, "setup.exe");
            assert_eq!(payload.path, "/tmp/setup.exe");
        }
        _ => panic!("the download succeeds"),
    }
    assert!(matches!(d.step(DownloadEvent::Flushed), DownloadAction::Ignore));
}

#[test]
fn downloads_can_fail() {
    let x = || "x".to_string();
    assert_eq!(
        failed(download().step(DownloadEvent::DirectoryFailed(x()))),
        "Could not create update directory: x"
    );
    let mut d = download();
    let _ = d.step(DownloadEvent::DirectoryReady);
    assert_eq!(
        failed(d.step(DownloadEvent::RequestFailed(x()))),
        "Could not start update download: x"
    );
    let mut d = download();
    let _ = d.step(DownloadEvent::DirectoryReady);
    assert_eq!(
        failed(d.step(DownloadEvent::Response {
            success: false,
            status: "404 Not Found".to_string(),
            total_bytes: None,
        })),
        "Update download failed with status 404 Not Found."
    );
    assert!(matches!(d.step(DownloadEvent::DirectoryReady), DownloadAction::Ignore));
    let mut d = download();
    let _ = d.step(DownloadEvent::DirectoryReady);
    let _ = d.step(response(None));
    assert_eq!(
        failed(d.step(DownloadEvent::FileFailed(x()))),
        "Could not create update file: x"
    );
    assert_eq!(
        failed(reading(None).step(DownloadEvent::ReadFailed(x()))),
        "Could not read update stream: x"
    );
    let mut d = reading(None);
    let _ = d.step(DownloadEvent::Chunk(vec![1]));
    assert_eq!(
        failed(d.step(DownloadEvent::WriteFailed(x()))),
        "Could not write update file: x"
    );
    let mut d = reading(None);
    let _ = d.step(DownloadEvent::Chunk(Vec::new()));
    assert_eq!(
        failed(d.step(DownloadEvent::FlushFailed(x()))),
        "Could not finalize update file: x"
    );
}

#[test]
fn shares_of_the_whole() {
    assert!(matches!(share_of(5, None), ProgressShare::Unknown));
    assert!(matches!(share_of(5, Some(0)), ProgressShare::Nothing));
    match share_of(5, Some(20)) {
        ProgressShare::Part { downloaded, total } => assert_eq!((downloaded, total), (5, 20)),
        _ => panic!("the share is known"),
    }
}

#[test]
fn installers_can_fail() {
    let payload = installer_failed(Some("setup.exe"), "x");
    assert_eq!(payload.file_name, "setup.exe");
    assert_eq!(payload.error, "Could not launch installer: x");
    assert_eq!(installer_failed(None, "x").file_name, "update-installer");
}
