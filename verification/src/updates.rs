//! The download of an update: request, stream to a file, hand over to the
//! installer, with a report of every stage.
//!
//! The machine decides; whoever runs it performs each action and hands back what
//! came of it as the next event.
use vstd::prelude::*;
use vstd::string::*;

use crate::files;
use crate::text;

verus! {

/// What to download, and under which name to keep it.
pub struct UpdatePlan {
    pub url: String,
    pub file_name: String,
}

/// What to download for a request of the page, which gives an address and a name.
pub fn plan_update(url: &str, file_name: &str) -> (r: Result<UpdatePlan, String>)
    ensures
        text::is_blank(url@) ==> r is Err && r->Err_0@ == "Update URL is empty."@,
        !text::is_blank(url@) && text::is_blank(file_name@) ==> r is Err && r->Err_0@
            == "File name is empty."@,
        !text::is_blank(url@) && !text::is_blank(file_name@) ==> match r {
            Ok(plan) => {
                &&& plan.url@ == text::trimmed(url@)
                &&& files::is_kept_under(text::trimmed(file_name@), Some(plan.file_name@))
            },
            Err(message) => {
                &&& message@ == "Could not resolve download file name."@
                &&& files::is_kept_under(text::trimmed(file_name@), None)
            },
        },
{
    let address: &str = text::trim(url);
    if address.is_empty() {
        return Err("Update URL is empty.".to_owned());
    }
    match files::sanitize_download_file_name(file_name) {
        Ok(name) => Ok(UpdatePlan { url: address.to_owned(), file_name: name }),
        Err(message) => Err(message),
    }
}

/// Reported when the server has answered.
pub struct UpdateDownloadStartedPayload {
    pub file_name: String,
    pub total_bytes: Option<u64>,
}

/// How much of a download is done.
pub enum ProgressShare {
    /// The size of the whole is not known.
    Unknown,
    /// The whole is empty, which counts as nothing done.
    Nothing,
    /// So many bytes of so many.
    Part { downloaded: u64, total: u64 },
}

/// Reported after every chunk.
pub struct UpdateDownloadProgressPayload {
    pub file_name: String,
    pub downloaded_bytes: u64,
    pub total_bytes: Option<u64>,
    pub progress: ProgressShare,
}

/// Reported when the file is complete.
pub struct UpdateDownloadFinishedPayload {
    pub file_name: String,
    pub path: String,
}

/// Reported when the download has failed.
pub struct UpdateDownloadFailedPayload {
    pub file_name: String,
    pub error: String,
}

/// What is reported of an installer that could not be launched, `file_name` being the
/// name of its file, if it has one.
pub fn installer_failed(file_name: Option<&str>, error: &str) -> (r: UpdateDownloadFailedPayload)
    ensures
        r.file_name@ == (match file_name {
            Some(name) => name@,
            None => "update-installer"@,
        }),
        r.error@ == "Could not launch installer: "@ + error@,
{
    let name: &str = match file_name {
        Some(given) => given,
        None => "update-installer",
    };
    UpdateDownloadFailedPayload {
        file_name: name.to_owned(),
        error: text::concat2("Could not launch installer: ", error),
    }
}

/// What the download is waiting for.
pub enum DownloadPhase {
    /// The directory of the file.
    PreparingDirectory,
    /// The answer of the server.
    Requesting,
    /// The file.
    CreatingFile,
    /// The next chunk of the stream.
    Reading,
    /// The end of the write of a chunk of so many bytes.
    Writing(usize),
    /// The end of the flush.
    Flushing,
    /// Nothing more.
    Done,
}

/// What happened.
pub enum DownloadEvent {
    DirectoryReady,
    DirectoryFailed(String),
    /// The server answered: whether with success, under which status, and how
    /// many bytes it announced.
    Response { success: bool, status: String, total_bytes: Option<u64> },
    RequestFailed(String),
    FileCreated,
    FileFailed(String),
    /// A chunk of the stream; empty at its end.
    Chunk(Vec<u8>),
    ReadFailed(String),
    ChunkWritten,
    WriteFailed(String),
    Flushed,
    FlushFailed(String),
}

/// What to do next.
pub enum DownloadAction {
    /// Remove what is left of an earlier download and send the request.
    SendRequest,
    /// Report the start and create the file.
    CreateFile(UpdateDownloadStartedPayload),
    /// Read the next chunk.
    ReadChunk,
    /// Append these bytes to the file.
    WriteChunk(Vec<u8>),
    /// Report the progress and read the next chunk.
    ReportProgress(UpdateDownloadProgressPayload),
    /// Flush the file.
    Flush,
    /// Keep the file as the pending installer and report the end.
    Succeed(UpdateDownloadFinishedPayload),
    /// Remove the file, forget the pending installer and report the error.
    Fail(UpdateDownloadFailedPayload),
    /// The event answers nothing that was asked for.
    Ignore,
}

/// The contents of a [`DownloadAction`].
pub enum DownloadActionView {
    SendRequest,
    CreateFile { file_name: Seq<char>, total_bytes: Option<u64> },
    ReadChunk,
    WriteChunk(Seq<u8>),
    ReportProgress {
        file_name: Seq<char>,
        downloaded_bytes: u64,
        total_bytes: Option<u64>,
        progress: ProgressShare,
    },
    Flush,
    Succeed { file_name: Seq<char>, path: Seq<char> },
    Fail { file_name: Seq<char>, error: Seq<char> },
    Ignore,
}

impl View for DownloadAction {
    type V = DownloadActionView;

    open spec fn view(&self) -> DownloadActionView {
        match self {
            DownloadAction::SendRequest => DownloadActionView::SendRequest,
            DownloadAction::CreateFile(payload) => DownloadActionView::CreateFile {
                file_name: payload.file_name@,
                total_bytes: payload.total_bytes,
            },
            DownloadAction::ReadChunk => DownloadActionView::ReadChunk,
            DownloadAction::WriteChunk(bytes) => DownloadActionView::WriteChunk(bytes@),
            DownloadAction::ReportProgress(payload) => DownloadActionView::ReportProgress {
                file_name: payload.file_name@,
                downloaded_bytes: payload.downloaded_bytes,
                total_bytes: payload.total_bytes,
                progress: payload.progress,
            },
            DownloadAction::Flush => DownloadActionView::Flush,
            DownloadAction::Succeed(payload) => DownloadActionView::Succeed {
                file_name: payload.file_name@,
                path: payload.path@,
            },
            DownloadAction::Fail(payload) => DownloadActionView::Fail {
                file_name: payload.file_name@,
                error: payload.error@,
            },
            DownloadAction::Ignore => DownloadActionView::Ignore,
        }
    }
}

/// The state of a download.
pub struct DownloadView {
    pub file_name: Seq<char>,
    pub path: Seq<char>,
    pub total_bytes: Option<u64>,
    pub downloaded_bytes: u64,
    pub phase: DownloadPhase,
}

/// The share of the whole that has been downloaded.
pub open spec fn progress_share(downloaded: u64, total_bytes: Option<u64>) -> ProgressShare {
    match total_bytes {
        None => ProgressShare::Unknown,
        Some(total) => if total == 0 {
            ProgressShare::Nothing
        } else {
            ProgressShare::Part { downloaded, total }
        },
    }
}

/// The share of the whole that has been downloaded.
pub fn share_of(downloaded: u64, total_bytes: Option<u64>) -> (r: ProgressShare)
    ensures
        r == progress_share(downloaded, total_bytes),
{
    match total_bytes {
        None => ProgressShare::Unknown,
        Some(total) => if total == 0 {
            ProgressShare::Nothing
        } else {
            ProgressShare::Part { downloaded, total }
        },
    }
}

/// The byte count after `more` further bytes; it wraps at the end of its range.
pub open spec fn counted(downloaded: u64, more: nat) -> u64 {
    ((downloaded + more) % 0x1_0000_0000_0000_0000) as u64
}

/// The same download in another phase.
pub open spec fn moved(d: DownloadView, phase: DownloadPhase) -> DownloadView {
    DownloadView { phase, ..d }
}

/// The end of a download with an error.
pub open spec fn download_failed(d: DownloadView, error: Seq<char>) -> (
    DownloadView,
    DownloadActionView,
) {
    (
        moved(d, DownloadPhase::Done),
        DownloadActionView::Fail { file_name: d.file_name, error },
    )
}

/// An event that was not waited for.
pub open spec fn ignored(d: DownloadView) -> (DownloadView, DownloadActionView) {
    (d, DownloadActionView::Ignore)
}

/// The next state and the next action of a download.
pub open spec fn download_transition(d: DownloadView, event: DownloadEvent) -> (
    DownloadView,
    DownloadActionView,
) {
    match d.phase {
        DownloadPhase::PreparingDirectory => match event {
            DownloadEvent::DirectoryReady => (
                moved(d, DownloadPhase::Requesting),
                DownloadActionView::SendRequest,
            ),
            DownloadEvent::DirectoryFailed(error) => download_failed(
                d,
                "Could not create update directory: "@ + error@,
            ),
            _ => ignored(d),
        },
        DownloadPhase::Requesting => match event {
            DownloadEvent::Response { success, status, total_bytes } => if success {
                (
                    DownloadView { total_bytes, phase: DownloadPhase::CreatingFile, ..d },
                    DownloadActionView::CreateFile { file_name: d.file_name, total_bytes },
                )
            } else {
                download_failed(d, "Update download failed with status "@ + status@ + "."@)
            },
            DownloadEvent::RequestFailed(error) => download_failed(
                d,
                "Could not start update download: "@ + error@,
            ),
            _ => ignored(d),
        },
        DownloadPhase::CreatingFile => match event {
            DownloadEvent::FileCreated => (
                moved(d, DownloadPhase::Reading),
                DownloadActionView::ReadChunk,
            ),
            DownloadEvent::FileFailed(error) => download_failed(
                d,
                "Could not create update file: "@ + error@,
            ),
            _ => ignored(d),
        },
        DownloadPhase::Reading => match event {
            DownloadEvent::Chunk(bytes) => if bytes@.len() == 0 {
                (moved(d, DownloadPhase::Flushing), DownloadActionView::Flush)
            } else {
                (
                    moved(d, DownloadPhase::Writing(bytes.len())),
                    DownloadActionView::WriteChunk(bytes@),
                )
            },
            DownloadEvent::ReadFailed(error) => download_failed(
                d,
                "Could not read update stream: "@ + error@,
            ),
            _ => ignored(d),
        },
        DownloadPhase::Writing(size) => match event {
            DownloadEvent::ChunkWritten => {
                let downloaded_bytes = counted(d.downloaded_bytes, size as nat);
                (
                    DownloadView { downloaded_bytes, phase: DownloadPhase::Reading, ..d },
                    DownloadActionView::ReportProgress {
                        file_name: d.file_name,
                        downloaded_bytes,
                        total_bytes: d.total_bytes,
                        progress: progress_share(downloaded_bytes, d.total_bytes),
                    },
                )
            },
            DownloadEvent::WriteFailed(error) => download_failed(
                d,
                "Could not write update file: "@ + error@,
            ),
            _ => ignored(d),
        },
        DownloadPhase::Flushing => match event {
            DownloadEvent::Flushed => (
                moved(d, DownloadPhase::Done),
                DownloadActionView::Succeed { file_name: d.file_name, path: d.path },
            ),
            DownloadEvent::FlushFailed(error) => download_failed(
                d,
                "Could not finalize update file: "@ + error@,
            ),
            _ => ignored(d),
        },
        DownloadPhase::Done => ignored(d),
    }
}

/// One download.
pub struct UpdateDownload {
    file_name: String,
    path: String,
    total_bytes: Option<u64>,
    downloaded_bytes: u64,
    phase: DownloadPhase,
}

impl View for UpdateDownload {
    type V = DownloadView;

    closed spec fn view(&self) -> DownloadView {
        DownloadView {
            file_name: self.file_name@,
            path: self.path@,
            total_bytes: self.total_bytes,
            downloaded_bytes: self.downloaded_bytes,
            phase: self.phase,
        }
    }
}

impl UpdateDownload {
    /// A download into the file at `path`, which is reported as `file_name`.
    pub fn new(file_name: String, path: String) -> (r: UpdateDownload)
        ensures
            r@ == (DownloadView {
                file_name: file_name@,
                path: path@,
                total_bytes: None,
                downloaded_bytes: 0,
                phase: DownloadPhase::PreparingDirectory,
            }),
    {
        UpdateDownload {
            file_name,
            path,
            total_bytes: None,
            downloaded_bytes: 0,
            phase: DownloadPhase::PreparingDirectory,
        }
    }

    fn fail(&mut self, what: &str, error: &String) -> (r: DownloadAction)
        ensures
            (final(self)@, r@) == download_failed(old(self)@, what@ + error@),
    {
        self.phase = DownloadPhase::Done;
        DownloadAction::Fail(
            UpdateDownloadFailedPayload {
                file_name: self.file_name.clone(),
                error: text::concat2(what, error.as_str()),
            },
        )
    }

    /// Takes what happened and tells what to do next.
    pub fn step(&mut self, event: DownloadEvent) -> (r: DownloadAction)
        ensures
            (final(self)@, r@) == download_transition(old(self)@, event),
    {
        match self.phase {
            DownloadPhase::PreparingDirectory => match event {
                DownloadEvent::DirectoryReady => {
                    self.phase = DownloadPhase::Requesting;
                    DownloadAction::SendRequest
                },
                DownloadEvent::DirectoryFailed(error) => self.fail(
                    "Could not create update directory: ",
                    &error,
                ),
                _ => DownloadAction::Ignore,
            },
            DownloadPhase::Requesting => match event {
                DownloadEvent::Response { success, status, total_bytes } => if success {
                    self.phase = DownloadPhase::CreatingFile;
                    self.total_bytes = total_bytes;
                    DownloadAction::CreateFile(
                        UpdateDownloadStartedPayload {
                            file_name: self.file_name.clone(),
                            total_bytes,
                        },
                    )
                } else {
                    self.phase = DownloadPhase::Done;
                    DownloadAction::Fail(
                        UpdateDownloadFailedPayload {
                            file_name: self.file_name.clone(),
                            error: text::concat3(
                                "Update download failed with status ",
                                status.as_str(),
                                ".",
                            ),
                        },
                    )
                },
                DownloadEvent::RequestFailed(error) => self.fail(
                    "Could not start update download: ",
                    &error,
                ),
                _ => DownloadAction::Ignore,
            },
            DownloadPhase::CreatingFile => match event {
                DownloadEvent::FileCreated => {
                    self.phase = DownloadPhase::Reading;
                    DownloadAction::ReadChunk
                },
                DownloadEvent::FileFailed(error) => self.fail(
                    "Could not create update file: ",
                    &error,
                ),
                _ => DownloadAction::Ignore,
            },
            DownloadPhase::Reading => match event {
                DownloadEvent::Chunk(bytes) => if bytes.len() == 0 {
                    self.phase = DownloadPhase::Flushing;
                    DownloadAction::Flush
                } else {
                    self.phase = DownloadPhase::Writing(bytes.len());
                    DownloadAction::WriteChunk(bytes)
                },
                DownloadEvent::ReadFailed(error) => self.fail(
                    "Could not read update stream: ",
                    &error,
                ),
                _ => DownloadAction::Ignore,
            },
            DownloadPhase::Writing(size) => match event {
                DownloadEvent::ChunkWritten => {
                    self.phase = DownloadPhase::Reading;
                    self.downloaded_bytes = self.downloaded_bytes.wrapping_add(size as u64);
                    DownloadAction::ReportProgress(
                        UpdateDownloadProgressPayload {
                            file_name: self.file_name.clone(),
                            downloaded_bytes: self.downloaded_bytes,
                            total_bytes: self.total_bytes,
                            progress: share_of(self.downloaded_bytes, self.total_bytes),
                        },
                    )
                },
                DownloadEvent::WriteFailed(error) => self.fail(
                    "Could not write update file: ",
                    &error,
                ),
                _ => DownloadAction::Ignore,
            },
            DownloadPhase::Flushing => match event {
                DownloadEvent::Flushed => {
                    self.phase = DownloadPhase::Done;
                    DownloadAction::Succeed(
                        UpdateDownloadFinishedPayload {
                            file_name: self.file_name.clone(),
                            path: self.path.clone(),
                        },
                    )
                },
                DownloadEvent::FlushFailed(error) => self.fail(
                    "Could not finalize update file: ",
                    &error,
                ),
                _ => DownloadAction::Ignore,
            },
            DownloadPhase::Done => DownloadAction::Ignore,
        }
    }
}

// ---------------------------------------------------------------------------
// Whole downloads
// ---------------------------------------------------------------------------
/// The state after a sequence of events.
pub open spec fn download_after(d: DownloadView, events: Seq<DownloadEvent>) -> DownloadView
    decreases events.len(),
{
    if events.len() == 0 {
        d
    } else {
        download_transition(download_after(d, events.drop_last()), events.last()).0
    }
}

/// The actions that a sequence of events leads to, one for each event.
pub open spec fn download_actions(d: DownloadView, events: Seq<DownloadEvent>) -> Seq<
    DownloadActionView,
>
    decreases events.len(),
{
    if events.len() == 0 {
        Seq::empty()
    } else {
        download_actions(d, events.drop_last()).push(
            download_transition(download_after(d, events.drop_last()), events.last()).1,
        )
    }
}

/// The bytes of the chunks that were read.
pub open spec fn stream_bytes(d: DownloadView, events: Seq<DownloadEvent>) -> Seq<u8>
    decreases events.len(),
{
    if events.len() == 0 {
        Seq::empty()
    } else {
        let before = stream_bytes(d, events.drop_last());
        match (download_after(d, events.drop_last()).phase, events.last()) {
            (DownloadPhase::Reading, DownloadEvent::Chunk(bytes)) => before + bytes@,
            _ => before,
        }
    }
}

/// The bytes that a sequence of actions writes to the file.
pub open spec fn file_bytes(actions: Seq<DownloadActionView>) -> Seq<u8>
    decreases actions.len(),
{
    if actions.len() == 0 {
        Seq::empty()
    } else {
        match actions.last() {
            DownloadActionView::WriteChunk(bytes) => file_bytes(actions.drop_last()) + bytes,
            _ => file_bytes(actions.drop_last()),
        }
    }
}

/// A download of which nothing has happened yet.
pub open spec fn is_fresh(d: DownloadView) -> bool {
    &&& d.phase == DownloadPhase::PreparingDirectory
    &&& d.downloaded_bytes == 0
}

/// Law: the file receives the bytes of the stream unchanged, complete and in order.
pub proof fn law_file_holds_the_stream(d: DownloadView, events: Seq<DownloadEvent>)
    ensures
        file_bytes(download_actions(d, events)) == stream_bytes(d, events),
    decreases events.len(),
{
    if events.len() > 0 {
        let before = events.drop_last();
        law_file_holds_the_stream(d, before);
        assert(download_actions(d, events).drop_last() == download_actions(d, before));
        match (download_after(d, before).phase, events.last()) {
            (DownloadPhase::Reading, DownloadEvent::Chunk(bytes)) => {
                if bytes@.len() == 0 {
                    assert(stream_bytes(d, events) =~= stream_bytes(d, before));
                }
            },
            _ => {},
        }
    }
}

/// The byte count against the bytes read: equal but for a chunk that is still
/// being written.
proof fn lemma_count(d: DownloadView, events: Seq<DownloadEvent>)
    requires
        is_fresh(d),
    ensures
        ({
            let now = download_after(d, events);
            let read = stream_bytes(d, events).len();
            match now.phase {
                DownloadPhase::Writing(size) => counted(0, read) == counted(
                    now.downloaded_bytes,
                    size as nat,
                ),
                DownloadPhase::Reading | DownloadPhase::Flushing => counted(0, read)
                    == now.downloaded_bytes,
                DownloadPhase::Done => true,
                _ => read == 0 && now.downloaded_bytes == 0,
            }
        }),
    decreases events.len(),
{
    if events.len() > 0 {
        let before = events.drop_last();
        lemma_count(d, before);
        let earlier = download_after(d, before);
        let read = stream_bytes(d, before).len();
        match (earlier.phase, events.last()) {
            (DownloadPhase::Reading, DownloadEvent::Chunk(bytes)) => {
                let n = bytes@.len();
                assert(bytes.len() == n);
                assert(stream_bytes(d, events).len() == read + n);
                assert(counted(0, read + n) == counted(earlier.downloaded_bytes, n)) by {
                    vstd::arithmetic::div_mod::lemma_add_mod_noop(
                        read as int,
                        n as int,
                        0x1_0000_0000_0000_0000,
                    );
                    vstd::arithmetic::div_mod::lemma_add_mod_noop(
                        earlier.downloaded_bytes as int,
                        n as int,
                        0x1_0000_0000_0000_0000,
                    );
                }
            },
            _ => {},
        }
    }
}

/// Law: a download that succeeds has counted every byte of its file; the count
/// wraps at the end of its range.
pub proof fn law_success_counts_the_file(d: DownloadView, events: Seq<DownloadEvent>)
    requires
        is_fresh(d),
        events.len() > 0,
        download_actions(d, events).last() is Succeed,
    ensures
        download_after(d, events).downloaded_bytes == counted(
            0,
            file_bytes(download_actions(d, events)).len(),
        ),
        download_after(d, events).phase == DownloadPhase::Done,
{
    let before = events.drop_last();
    lemma_count(d, before);
    law_file_holds_the_stream(d, events);
    assert(stream_bytes(d, events) == stream_bytes(d, before));
}

/// Law: whatever is reported of the progress is told from the bytes that it reports. With
/// a total that is not 0, the share is the reported count, the complete one included, of
/// that total; nothing is done of an empty whole only; and the share is unknown only
/// where no total was announced.
pub proof fn law_progress_is_the_share_of_the_total(d: DownloadView, event: DownloadEvent)
    ensures
        download_transition(d, event).1 matches DownloadActionView::ReportProgress {
            file_name,
            downloaded_bytes,
            total_bytes,
            progress,
        } ==> {
            &&& file_name == d.file_name
            &&& total_bytes == d.total_bytes
            &&& downloaded_bytes == download_transition(d, event).0.downloaded_bytes
            &&& total_bytes matches Some(t) ==> t > 0 ==> (progress matches ProgressShare::Part {
                downloaded,
                total,
            } && downloaded == downloaded_bytes && total == t)
            &&& progress is Nothing <==> total_bytes == Some(0u64)
            &&& progress is Unknown <==> total_bytes is None
        },
{
}

/// Law: the share of a whole, of any count of bytes.
pub proof fn law_share_is_the_count_of_the_total(downloaded: u64, total: u64)
    ensures
        total > 0 ==> progress_share(downloaded, Some(total)) == (ProgressShare::Part {
            downloaded,
            total,
        }),
        progress_share(downloaded, Some(0)) is Nothing,
        progress_share(downloaded, None) is Unknown,
{
}

/// Law: a download ends in exactly one of success and failure, and then asks for
/// nothing more.
pub proof fn law_download_ends_once(d: DownloadView, event: DownloadEvent)
    ensures
        d.phase == DownloadPhase::Done ==> download_transition(d, event) == ignored(d),
        d.phase != DownloadPhase::Done ==> {
            let (next, action) = download_transition(d, event);
            (next.phase == DownloadPhase::Done) == (action is Succeed || action is Fail)
        },
{
}

/// Law: the count of a download grows by the size of every chunk, when the chunk has been
/// written and not before, in sixty-four bits; that is when the progress is reported.
pub proof fn law_progress_counts_written_chunks(d: DownloadView, event: DownloadEvent)
    ensures
        download_transition(d, event).1 is ReportProgress <==> d.phase is Writing
            && event is ChunkWritten,
        d.phase matches DownloadPhase::Writing(size) ==> (event is ChunkWritten
            ==> download_transition(d, event).0.downloaded_bytes == (d.downloaded_bytes + size)
            % 0x1_0000_0000_0000_0000),
        !(event is ChunkWritten) ==> download_transition(d, event).0.downloaded_bytes
            == d.downloaded_bytes,
{
}

/// Law: a download keeps its name and its path, and the total that the server announced
/// with its answer.
pub proof fn law_announced_total_is_kept(d: DownloadView, event: DownloadEvent)
    ensures
        download_transition(d, event).0.file_name == d.file_name,
        download_transition(d, event).0.path == d.path,
        d.phase != DownloadPhase::Requesting ==> download_transition(d, event).0.total_bytes
            == d.total_bytes,
        d.phase == DownloadPhase::Requesting ==> (event matches DownloadEvent::Response {
            success,
            total_bytes,
            ..
        } ==> success ==> download_transition(d, event).0.total_bytes == total_bytes),
{
}

/// Law: what a download asks for: a request when the directory is there, a file when the
/// server has answered with success, the first chunk when the file is there, a write of
/// exactly the bytes of every chunk, a flush at the end of the stream, and then it has
/// succeeded.
pub proof fn law_download_goes_step_by_step(d: DownloadView, event: DownloadEvent)
    ensures
        download_transition(d, event).1 is SendRequest <==> d.phase is PreparingDirectory
            && event is DirectoryReady,
        download_transition(d, event).1 is CreateFile <==> d.phase is Requesting && (
        event matches DownloadEvent::Response { success, .. } && success),
        download_transition(d, event).1 matches DownloadActionView::CreateFile {
            file_name,
            total_bytes,
        } ==> file_name == d.file_name && total_bytes == event->total_bytes,
        download_transition(d, event).1 is ReadChunk <==> d.phase is CreatingFile
            && event is FileCreated,
        d.phase is Reading ==> (event matches DownloadEvent::Chunk(bytes) ==> {
            &&& bytes@.len() > 0 ==> download_transition(d, event).1
                == DownloadActionView::WriteChunk(bytes@)
            &&& bytes@.len() > 0 ==> download_transition(d, event).0.phase
                == DownloadPhase::Writing(bytes.len())
            &&& bytes@.len() == 0 ==> download_transition(d, event).1 is Flush
            &&& bytes@.len() == 0 ==> download_transition(d, event).0.phase is Flushing
        }),
        download_transition(d, event).1 is WriteChunk ==> d.phase is Reading && event is Chunk,
        download_transition(d, event).1 is Flush ==> d.phase is Reading && event is Chunk,
        download_transition(d, event).1 is Succeed <==> d.phase is Flushing && event is Flushed,
        download_transition(d, event).1 matches DownloadActionView::Succeed { file_name, path } ==> {
            &&& file_name == d.file_name
            &&& path == d.path
        },
        d.phase is Writing && event is ChunkWritten ==> download_transition(
            d,
            event,
        ).0.phase is Reading,
        d.phase is CreatingFile && event is FileCreated ==> download_transition(
            d,
            event,
        ).0.phase is Reading,
        d.phase is PreparingDirectory && event is DirectoryReady ==> download_transition(
            d,
            event,
        ).0.phase is Requesting,
        download_transition(d, event).1 is CreateFile ==> download_transition(
            d,
            event,
        ).0.phase is CreatingFile,
{
}

/// Law: a download fails when what it waits for fails, tells what that was and why, and
/// fails at nothing else.
pub proof fn law_download_failures_are_told(d: DownloadView, event: DownloadEvent)
    ensures
        download_transition(d, event).1 matches DownloadActionView::Fail { file_name, error } ==> {
            &&& file_name == d.file_name
            &&& match event {
                DownloadEvent::DirectoryFailed(why) => d.phase is PreparingDirectory && error
                    == "Could not create update directory: "@ + why@,
                DownloadEvent::RequestFailed(why) => d.phase is Requesting && error
                    == "Could not start update download: "@ + why@,
                DownloadEvent::Response { success, status, .. } => d.phase is Requesting && !success
                    && error == "Update download failed with status "@ + status@ + "."@,
                DownloadEvent::FileFailed(why) => d.phase is CreatingFile && error
                    == "Could not create update file: "@ + why@,
                DownloadEvent::ReadFailed(why) => d.phase is Reading && error
                    == "Could not read update stream: "@ + why@,
                DownloadEvent::WriteFailed(why) => d.phase is Writing && error
                    == "Could not write update file: "@ + why@,
                DownloadEvent::FlushFailed(why) => d.phase is Flushing && error
                    == "Could not finalize update file: "@ + why@,
                _ => false,
            }
        },
        (d.phase is PreparingDirectory && event is DirectoryFailed) || (d.phase is Requesting
            && event is RequestFailed) || (d.phase is Requesting && (
        event matches DownloadEvent::Response { success, .. } && !success)) || (
        d.phase is CreatingFile && event is FileFailed) || (d.phase is Reading
            && event is ReadFailed) || (d.phase is Writing && event is WriteFailed) || (
        d.phase is Flushing && event is FlushFailed) ==> download_transition(d, event).1 is Fail,
{
}

/// Law: what is told of an installer that could not be launched: its name, or a name for it
/// where it has none, and the reason.
pub proof fn law_failed_installers_are_told(
    file_name: Option<&str>,
    error: &str,
    r: UpdateDownloadFailedPayload,
)
    requires
        call_ensures(installer_failed, (file_name, error), r),
    ensures
        file_name matches Some(name) ==> r.file_name@ == name@,
        file_name is None ==> r.file_name@ == "update-installer"@,
        r.error@ == "Could not launch installer: "@ + error@,
{
}

/// Law: an update is downloaded from the address that was given, without white space around
/// it; without an address or a name there is none.
pub proof fn law_updates_need_an_address_and_a_name(
    url: &str,
    file_name: &str,
    r: Result<UpdatePlan, String>,
)
    requires
        call_ensures(plan_update, (url, file_name), r),
    ensures
        r matches Ok(plan) ==> {
            &&& plan.url@ == text::trimmed(url@)
            &&& plan.url@.len() > 0
            &&& !text::is_blank(file_name@)
            &&& files::is_kept_under(text::trimmed(file_name@), Some(plan.file_name@))
        },
        text::is_blank(url@) ==> r is Err && r->Err_0@ == "Update URL is empty."@,
        !text::is_blank(url@) && text::is_blank(file_name@) ==> r is Err && r->Err_0@
            == "File name is empty."@,
        !text::is_blank(url@) && !text::is_blank(file_name@) && r is Err ==> r->Err_0@
            == "Could not resolve download file name."@ && files::is_kept_under(
            text::trimmed(file_name@),
            None,
        ),
{
}

/// Law: whoever asks for the share of a download gets the count of the total, whatever the
/// count is; nothing of an empty total, and no share without a total.
pub proof fn law_asked_share_is_the_count_of_the_total(
    downloaded: u64,
    total_bytes: Option<u64>,
    r: ProgressShare,
)
    requires
        call_ensures(share_of, (downloaded, total_bytes), r),
    ensures
        r matches ProgressShare::Part { downloaded: n, total } ==> n == downloaded && total_bytes
            == Some(total),
        r is Part <==> (total_bytes matches Some(t) && t > 0),
        r is Nothing <==> total_bytes == Some(0u64),
        r is Unknown <==> total_bytes is None,
{
}

/// Law: an event that was not waited for changes nothing.
pub proof fn law_ignored_events_change_no_download(d: DownloadView, event: DownloadEvent)
    ensures
        download_transition(d, event).1 is Ignore ==> download_transition(d, event).0 == d,
        d.phase is Reading && !(event is Chunk) && !(event is ReadFailed) ==> download_transition(
            d,
            event,
        ).1 is Ignore,
        d.phase is Writing && !(event is ChunkWritten) && !(event is WriteFailed)
            ==> download_transition(d, event).1 is Ignore,
        d.phase is Flushing && !(event is Flushed) && !(event is FlushFailed)
            ==> download_transition(d, event).1 is Ignore,
{
}

} // verus!
