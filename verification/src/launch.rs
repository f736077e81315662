//! What the application was launched with, and how the page learns of it.
use vstd::prelude::*;
use vstd::string::*;

use crate::encoding;
use crate::files;
use crate::release_channel;
use crate::release_channel::ReleaseChannel;
use crate::text;
use crate::urls;
use crate::urls::LaunchQueryPair;
use crate::urls::ParsedUrl;
use crate::urls::UrlParts;

verus! {

/// The version of the application, as the page is told.
pub const APP_VERSION: u32 = 13;

/// The type under which a file of the application is handed to the page.
pub const BDENGINE_MIME_TYPE: &'static str = "application/x-bdengine";

/// A file that the application was launched with.
pub struct LaunchFile {
    pub path: String,
    pub name: String,
    pub mime_type: String,
    pub base64: String,
}

/// The contents of a [`LaunchFile`].
pub struct LaunchFileView {
    pub path: Seq<char>,
    pub name: Seq<char>,
    pub mime_type: Seq<char>,
    pub base64: Seq<char>,
}

impl View for LaunchFile {
    type V = LaunchFileView;

    open spec fn view(&self) -> LaunchFileView {
        LaunchFileView {
            path: self.path@,
            name: self.name@,
            mime_type: self.mime_type@,
            base64: self.base64@,
        }
    }
}

/// A file as it is handed to the page.
pub open spec fn launch_file_view(path: Seq<char>, name: Seq<char>, bytes: Seq<u8>) -> LaunchFileView {
    LaunchFileView {
        path,
        name,
        mime_type: BDENGINE_MIME_TYPE@,
        base64: encoding::base64_text(bytes),
    }
}

/// A file with the given name and bytes, as it is handed to the page. The page reads
/// the same bytes out of it.
pub fn launch_file(path: &str, name: &str, bytes: &[u8]) -> (r: LaunchFile)
    requires
        encoding::fits_base64(bytes@),
    ensures
        r@ == launch_file_view(path@, name@, bytes@),
        encoding::base64_bytes(r.base64@) is Ok,
        encoding::base64_bytes(r.base64@)->Ok_0 == bytes@,
{
    LaunchFile {
        path: path.to_owned(),
        name: name.to_owned(),
        mime_type: BDENGINE_MIME_TYPE.to_owned(),
        base64: encoding::encode_base64(bytes),
    }
}

/// The file at a path, as it is handed to the page, `content` being its bytes if they
/// could be read. It goes by the file name that this platform gives to the path.
pub fn load_launch_file(path: &str, content: &Option<Vec<u8>>) -> (r: Option<LaunchFile>)
    requires
        content matches Some(bytes) ==> encoding::fits_base64(bytes@),
    ensures
        content is None ==> r is None,
        r matches Some(file) ==> {
            &&& file@ == launch_file_view(path@, file.name@, content->0@)
            &&& encoding::base64_bytes(file.base64@) is Ok
            &&& encoding::base64_bytes(file.base64@)->Ok_0 == content->0@
            &&& text::contains_text(path@, file.name@)
        },
        content is Some ==> exists|component: Option<String>| #[trigger]
            files::is_file_name(path@, component) && text::optional_text(component) == (match r {
                Some(file) => Some(file.name@),
                None => None,
            }),
        content is Some && files::is_portable_path(path@) ==> {
            &&& r is Some <==> files::portable_file_name(path@) is Some
            &&& r matches Some(file) ==> files::portable_file_name(path@) == Some(file.name@)
        },
        content is Some && files::has_named_tail(path@) ==> {
            &&& r is Some
            &&& files::ends_with(r->0.name@, files::path_tail(path@))
            &&& files::ends_with(path@, r->0.name@)
        },
{
    match content {
        Some(bytes) => match files::file_name_of(path) {
            Some(name) => Some(launch_file(path, name.as_str(), bytes.as_slice())),
            None => None,
        },
        None => None,
    }
}

/// `file` is what the page gets for a path, if anything: a file of the application whose
/// bytes could be read, under the file name that this platform gives to the path.
pub open spec fn is_launch_file(
    path: Seq<char>,
    is_file: bool,
    content: Option<Vec<u8>>,
    file: Option<LaunchFileView>,
) -> bool {
    if is_file && content is Some {
        exists|component: Option<String>| #[trigger]
            files::is_file_name(path, component) && file == (match component {
                Some(name) => if files::is_bdengine_name(name@) {
                    Some(launch_file_view(path, name@, content->0@))
                } else {
                    None
                },
                None => None,
            })
    } else {
        file is None
    }
}

/// The contents of an optional file.
pub open spec fn optional_file(file: Option<LaunchFile>) -> Option<LaunchFileView> {
    match file {
        Some(f) => Some(f@),
        None => None,
    }
}

/// What the page gets for a path: nothing, unless it is a file of the application.
/// `is_file` says whether it is a file at all, and `content` are its bytes if they could
/// be read.
pub fn launch_file_of(path: &str, is_file: bool, content: &Option<Vec<u8>>) -> (r: Option<
    LaunchFile,
>)
    requires
        content matches Some(bytes) ==> encoding::fits_base64(bytes@),
    ensures
        is_launch_file(path@, is_file, *content, optional_file(r)),
        r matches Some(file) ==> {
            &&& encoding::base64_bytes(file.base64@) is Ok
            &&& encoding::base64_bytes(file.base64@)->Ok_0 == content->0@
            &&& text::contains_text(path@, file.name@)
        },
        is_file && content is Some && files::is_portable_path(path@) ==> {
            let name = files::portable_file_name(path@);
            &&& r is Some <==> name is Some && files::is_bdengine_name(name->0)
            &&& r matches Some(file) ==> file.name@ == name->0
        },
        is_file && content is Some && files::has_named_tail(path@) && files::is_bdengine_name(
            files::path_tail(path@),
        ) ==> {
            &&& r is Some
            &&& files::ends_with(r->0.name@, files::path_tail(path@))
            &&& files::ends_with(path@, r->0.name@)
        },
        files::has_named_tail(path@) && files::extension(files::path_tail(path@)) is Some
            && !files::is_bdengine_name(files::path_tail(path@)) ==> r is None,
        files::has_named_tail(path@) && !files::path_tail(path@).contains('.') ==> r is None,
{
    if !is_file {
        return None;
    }
    match content {
        Some(bytes) => {
            let component: Option<String> = files::file_name_of(path);
            proof {
                if files::has_named_tail(path@) {
                    files::lemma_named_tail_decides(path@, component->0@);
                }
            }
            if files::has_bdengine_name(&component) {
                match component {
                    Some(name) => Some(launch_file(path, name.as_str(), bytes.as_slice())),
                    None => None,
                }
            } else {
                None
            }
        },
        None => None,
    }
}

/// What was found at a path: whether it is a file, and its bytes if they could be read.
pub struct FoundFile {
    pub is_file: bool,
    pub content: Option<Vec<u8>>,
}

/// What the application was launched with.
pub struct LaunchContext {
    /// The first link.
    pub deeplink: Option<String>,
    /// The pairs of all links, but for the application's own mark.
    pub query_pairs: Vec<LaunchQueryPair>,
    pub files: Vec<LaunchFile>,
}

/// The contents of a [`LaunchContext`].
pub struct LaunchContextView {
    pub deeplink: Option<Seq<char>>,
    pub query_pairs: Seq<(Seq<char>, Seq<char>)>,
    pub files: Seq<LaunchFileView>,
}

/// The contents of a list of files.
pub open spec fn files_view(files: Seq<LaunchFile>) -> Seq<LaunchFileView> {
    Seq::new(files.len(), |i: int| files[i]@)
}

impl View for LaunchContext {
    type V = LaunchContextView;

    open spec fn view(&self) -> LaunchContextView {
        LaunchContextView {
            deeplink: text::optional_text(self.deeplink),
            query_pairs: urls::pairs_view(self.query_pairs@),
            files: files_view(self.files@),
        }
    }
}

/// A launch with nothing.
pub open spec fn empty_context() -> LaunchContextView {
    LaunchContextView { deeplink: None, query_pairs: Seq::empty(), files: Seq::empty() }
}

/// A launch with something to tell the page.
pub open spec fn context_has_payload(context: LaunchContextView) -> bool {
    context.deeplink is Some || context.query_pairs.len() > 0 || context.files.len() > 0
}

impl Default for LaunchContext {
    fn default() -> (r: LaunchContext)
        ensures
            r@ == empty_context(),
    {
        let r = LaunchContext { deeplink: None, query_pairs: Vec::new(), files: Vec::new() };
        assert(r@.query_pairs =~= empty_context().query_pairs);
        assert(r@.files =~= empty_context().files);
        r
    }
}

impl LaunchContext {
    /// Tells whether there is anything to tell the page.
    pub fn has_payload(&self) -> (r: bool)
        ensures
            r == context_has_payload(self@),
    {
        self.deeplink.is_some() || !self.query_pairs.is_empty() || !self.files.is_empty()
    }

    /// The path of the first file.
    pub fn first_file_path(&self) -> (r: Option<String>)
        ensures
            text::optional_text(r) == (if self@.files.len() > 0 {
                Some(self@.files[0].path)
            } else {
                None
            }),
    {
        if self.files.len() > 0 {
            Some(self.files[0].path.clone())
        } else {
            None
        }
    }
}

impl Clone for LaunchContext {
    fn clone(&self) -> (r: LaunchContext)
        ensures
            r@ == self@,
    {
        let mut query_pairs: Vec<LaunchQueryPair> = Vec::new();
        let mut i: usize = 0;
        while i < self.query_pairs.len()
            invariant
                i <= self.query_pairs.len(),
                query_pairs.len() == i,
                forall|k: int| 0 <= k < i ==> #[trigger] query_pairs@[k]@ == self.query_pairs@[k]@,
            decreases self.query_pairs.len() - i,
        {
            query_pairs.push(
                LaunchQueryPair {
                    key: self.query_pairs[i].key.clone(),
                    value: self.query_pairs[i].value.clone(),
                },
            );
            i += 1;
        }
        let mut files: Vec<LaunchFile> = Vec::new();
        let mut j: usize = 0;
        while j < self.files.len()
            invariant
                j <= self.files.len(),
                files.len() == j,
                forall|k: int| 0 <= k < j ==> #[trigger] files@[k]@ == self.files@[k]@,
            decreases self.files.len() - j,
        {
            files.push(
                LaunchFile {
                    path: self.files[j].path.clone(),
                    name: self.files[j].name.clone(),
                    mime_type: self.files[j].mime_type.clone(),
                    base64: self.files[j].base64.clone(),
                },
            );
            j += 1;
        }
        let deeplink: Option<String> = match &self.deeplink {
            Some(link) => Some(link.clone()),
            None => None,
        };
        let r = LaunchContext { deeplink, query_pairs, files };
        assert(r@.query_pairs =~= self@.query_pairs);
        assert(r@.files =~= self@.files);
        r
    }
}

// ---------------------------------------------------------------------------
// The arguments of a launch
// ---------------------------------------------------------------------------
/// What the arguments of a launch say, before any file is looked for.
pub struct LaunchScan {
    pub deeplink: Option<String>,
    pub query_pairs: Vec<LaunchQueryPair>,
    /// The arguments that may be files, in order.
    pub paths: Vec<String>,
}

/// The contents of a [`LaunchScan`].
pub struct LaunchScanView {
    pub deeplink: Option<Seq<char>>,
    pub query_pairs: Seq<(Seq<char>, Seq<char>)>,
    pub paths: Seq<Seq<char>>,
}

/// The contents of a list of strings.
pub open spec fn texts_view(texts: Seq<String>) -> Seq<Seq<char>> {
    Seq::new(texts.len(), |i: int| texts[i]@)
}

impl View for LaunchScan {
    type V = LaunchScanView;

    open spec fn view(&self) -> LaunchScanView {
        LaunchScanView {
            deeplink: text::optional_text(self.deeplink),
            query_pairs: urls::pairs_view(self.query_pairs@),
            paths: texts_view(self.paths@),
        }
    }
}

/// The name under which the application marks its own pages.
pub open spec fn is_app_mark(pair: (Seq<char>, Seq<char>)) -> bool {
    pair.0 == "appReal"@
}

/// The pairs of a link, but for the application's own mark.
pub open spec fn foreign_pairs(pairs: Seq<(Seq<char>, Seq<char>)>) -> Seq<(Seq<char>, Seq<char>)>
    decreases pairs.len(),
{
    if pairs.len() == 0 {
        Seq::empty()
    } else if is_app_mark(pairs.last()) {
        foreign_pairs(pairs.drop_last())
    } else {
        foreign_pairs(pairs.drop_last()).push(pairs.last())
    }
}

/// What one more argument adds, `url` being what it is as an address.
pub open spec fn scan_arg(
    scan: LaunchScanView,
    arg: Seq<char>,
    url: Option<UrlParts>,
) -> LaunchScanView {
    if text::is_blank(arg) {
        scan
    } else {
        match url {
            Some(link) if urls::is_launch_link(link) => LaunchScanView {
                deeplink: if scan.deeplink is None {
                    Some(arg)
                } else {
                    scan.deeplink
                },
                query_pairs: scan.query_pairs + foreign_pairs(link.query_pairs),
                ..scan
            },
            _ => LaunchScanView { paths: scan.paths.push(arg), ..scan },
        }
    }
}

/// What nothing says.
pub open spec fn empty_scan() -> LaunchScanView {
    LaunchScanView { deeplink: None, query_pairs: Seq::empty(), paths: Seq::empty() }
}

/// `file` is what the page gets for a path where `found` was found.
pub open spec fn found_launch_file(
    path: Seq<char>,
    found: FoundFile,
    file: Option<LaunchFileView>,
) -> bool {
    is_launch_file(path, found.is_file, found.content, file)
}

/// `results` are what the page gets for each of some paths.
pub open spec fn are_launch_files(
    paths: Seq<Seq<char>>,
    found: Seq<FoundFile>,
    results: Seq<Option<LaunchFileView>>,
) -> bool {
    &&& results.len() == paths.len()
    &&& forall|i: int|
        0 <= i < paths.len() ==> #[trigger] found_launch_file(paths[i], found[i], results[i])
}

/// The files that are there, in order.
pub open spec fn present_files(results: Seq<Option<LaunchFileView>>) -> Seq<LaunchFileView>
    decreases results.len(),
{
    if results.len() == 0 {
        Seq::empty()
    } else {
        match results.last() {
            Some(file) => present_files(results.drop_last()).push(file),
            None => present_files(results.drop_last()),
        }
    }
}

/// What a list of arguments says.
pub open spec fn scan_args(args: Seq<Seq<char>>) -> LaunchScanView
    decreases args.len(),
{
    if args.len() == 0 {
        empty_scan()
    } else {
        scan_arg(scan_args(args.drop_last()), args.last(), urls::url_parse(args.last()))
    }
}

/// Appends the pairs of a link, but for the application's own mark.
fn push_foreign_pairs(target: &mut Vec<LaunchQueryPair>, pairs: &Vec<LaunchQueryPair>)
    ensures
        urls::pairs_view(final(target)@) == urls::pairs_view(old(target)@) + foreign_pairs(
            urls::pairs_view(pairs@),
        ),
{
    let mut i: usize = 0;
    let ghost all = urls::pairs_view(pairs@);
    let ghost before = urls::pairs_view(target@);
    assert(before + foreign_pairs(all.take(0)) =~= before);
    while i < pairs.len()
        invariant
            i <= pairs.len(),
            all == urls::pairs_view(pairs@),
            urls::pairs_view(target@) == before + foreign_pairs(all.take(i as int)),
        decreases pairs.len() - i,
    {
        let ghost now = target@;
        assert(all.take(i + 1).drop_last() == all.take(i as int));
        assert(all.take(i + 1).last() == pairs@[i as int]@);
        if !text::same_text(pairs[i].key.as_str(), "appReal") {
            target.push(
                LaunchQueryPair { key: pairs[i].key.clone(), value: pairs[i].value.clone() },
            );
            assert(urls::pairs_view(target@) =~= urls::pairs_view(now).push(pairs@[i as int]@));
            assert(before + foreign_pairs(all.take(i as int)).push(pairs@[i as int]@) =~= (before
                + foreign_pairs(all.take(i as int))).push(pairs@[i as int]@));
        }
        i += 1;
    }
    assert(all.take(pairs.len() as int) == all);
}

impl LaunchScan {
    /// Nothing said yet.
    pub fn new() -> (r: LaunchScan)
        ensures
            r@ == empty_scan(),
    {
        let r = LaunchScan { deeplink: None, query_pairs: Vec::new(), paths: Vec::new() };
        assert(r@.query_pairs =~= empty_scan().query_pairs);
        assert(r@.paths =~= empty_scan().paths);
        r
    }

    /// Takes one more argument, `url` being what it is as an address.
    pub fn take_arg(&mut self, arg: &str, url: &Option<ParsedUrl>)
        ensures
            final(self)@ == scan_arg(old(self)@, arg@, urls::optional_parts(*url)),
    {
        if text::trim(arg).is_empty() {
            return ;
        }
        match url {
            Some(link) => {
                if urls::is_supported_launch_url(link) {
                    if self.deeplink.is_none() {
                        self.deeplink = Some(arg.to_owned());
                    }
                    push_foreign_pairs(&mut self.query_pairs, &link.query_pairs);
                    return ;
                }
            },
            None => {},
        }
        let ghost before = self.paths@;
        self.paths.push(arg.to_owned());
        assert(texts_view(self.paths@) =~= texts_view(before).push(arg@));
    }

    /// The launch, with the files of the application among the paths, in order; `found`
    /// is what was found at each path.
    pub fn into_launch(self, found: &Vec<FoundFile>) -> (r: LaunchContext)
        requires
            found@.len() == self@.paths.len(),
            forall|i: int|
                0 <= i < found@.len() ==> ((#[trigger] found@[i]).content matches Some(bytes)
                    ==> encoding::fits_base64(bytes@)),
        ensures
            r@.deeplink == self@.deeplink,
            r@.query_pairs == self@.query_pairs,
            exists|results: Seq<Option<LaunchFileView>>| #[trigger]
                are_launch_files(self@.paths, found@, results) && r@.files == present_files(results),
    {
        let mut files: Vec<LaunchFile> = Vec::new();
        let ghost mut results: Seq<Option<LaunchFileView>> = Seq::empty();
        let mut i: usize = 0;
        assert(files_view(files@) =~= present_files(results));
        while i < self.paths.len()
            invariant
                i <= self.paths.len(),
                found@.len() == self.paths@.len(),
                forall|k: int|
                    0 <= k < found@.len() ==> ((#[trigger] found@[k]).content matches Some(bytes)
                        ==> encoding::fits_base64(bytes@)),
                results.len() == i,
                forall|k: int|
                    0 <= k < i ==> #[trigger] found_launch_file(
                        self.paths@[k]@,
                        found@[k],
                        results[k],
                    ),
                files_view(files@) == present_files(results),
            decreases self.paths.len() - i,
        {
            let file: Option<LaunchFile> = launch_file_of(
                self.paths[i].as_str(),
                found[i].is_file,
                &found[i].content,
            );
            let ghost before = results;
            let ghost kept = files@;
            let ghost one = optional_file(file);
            proof {
                results = results.push(one);
                assert(results.drop_last() =~= before);
                assert forall|k: int| 0 <= k < i + 1 implies #[trigger] found_launch_file(
                    self.paths@[k]@,
                    found@[k],
                    results[k],
                ) by {
                    if k < i {
                        assert(results[k] == before[k]);
                    }
                }
            }
            match file {
                Some(f) => {
                    files.push(f);
                    assert(files_view(files@) =~= files_view(kept).push(one->0));
                },
                None => {},
            }
            i += 1;
        }
        proof {
            let paths = texts_view(self.paths@);
            assert forall|k: int| 0 <= k < paths.len() implies #[trigger] found_launch_file(
                paths[k],
                found@[k],
                results[k],
            ) by {
                assert(paths[k] == self.paths@[k]@);
            }
            assert(are_launch_files(paths, found@, results));
        }
        self.into_context(files)
    }

    /// The launch, with the given files.
    pub fn into_context(self, files: Vec<LaunchFile>) -> (r: LaunchContext)
        ensures
            r@ == (LaunchContextView {
                deeplink: self@.deeplink,
                query_pairs: self@.query_pairs,
                files: files_view(files@),
            }),
    {
        LaunchContext { deeplink: self.deeplink, query_pairs: self.query_pairs, files }
    }
}

/// What the arguments of a launch say. What is neither blank nor a link is left to
/// be looked for as a file.
pub fn parse_launch_context(args: &Vec<String>) -> (r: LaunchScan)
    ensures
        r@ == scan_args(texts_view(args@)),
{
    let mut scan: LaunchScan = LaunchScan::new();
    let mut i: usize = 0;
    let ghost all = texts_view(args@);
    assert(all.take(0) =~= Seq::<Seq<char>>::empty());
    while i < args.len()
        invariant
            i <= args.len(),
            all == texts_view(args@),
            scan@ == scan_args(all.take(i as int)),
        decreases args.len() - i,
    {
        assert(all.take(i + 1).drop_last() == all.take(i as int));
        assert(all.take(i + 1).last() == args@[i as int]@);
        let url: Option<ParsedUrl> = urls::parse_url(args[i].as_str());
        scan.take_arg(args[i].as_str(), &url);
        i += 1;
    }
    assert(all.take(args.len() as int) =~= all);
    scan
}

/// An argument that is a link.
pub open spec fn is_link_arg(arg: Seq<char>) -> bool {
    !text::is_blank(arg) && (urls::url_parse(arg) matches Some(link) && urls::is_launch_link(link))
}

/// `file` is a file of the application that was found at `path`, with its bytes.
pub open spec fn is_application_file(
    file: LaunchFileView,
    path: Seq<char>,
    found: FoundFile,
) -> bool {
    &&& found.is_file
    &&& found.content is Some
    &&& files::is_bdengine_name(file.name)
    &&& file == launch_file_view(path, file.name, found.content->0@)
}

/// `file` is a file of the application that was found at one of `paths`.
pub open spec fn is_found_among(
    file: LaunchFileView,
    paths: Seq<Seq<char>>,
    found: Seq<FoundFile>,
) -> bool {
    exists|i: int| 0 <= i < paths.len() && #[trigger] is_application_file(file, paths[i], found[i])
}

/// Law: only files of the application reach the page, with their own bytes: each comes
/// from one of the paths, where a file was found whose bytes could be read, and it goes
/// by a name with the extension of the application's files.
pub proof fn law_only_application_files_reach_the_page(
    paths: Seq<Seq<char>>,
    found: Seq<FoundFile>,
    results: Seq<Option<LaunchFileView>>,
)
    requires
        are_launch_files(paths, found, results),
    ensures
        forall|k: int|
            0 <= k < present_files(results).len() ==> is_found_among(
                #[trigger] present_files(results)[k],
                paths,
                found,
            ),
    decreases paths.len(),
{
    if paths.len() > 0 {
        let n = paths.len() - 1;
        let fewer = paths.drop_last();
        let earlier = results.drop_last();
        assert forall|i: int| 0 <= i < fewer.len() implies #[trigger] found_launch_file(
            fewer[i],
            found[i],
            earlier[i],
        ) by {
            assert(found_launch_file(paths[i], found[i], results[i]));
        }
        law_only_application_files_reach_the_page(fewer, found, earlier);
        assert(found_launch_file(paths[n], found[n], results[n]));
        let all = present_files(results);
        let before = present_files(earlier);
        assert forall|k: int| 0 <= k < all.len() implies is_found_among(
            #[trigger] all[k],
            paths,
            found,
        ) by {
            if k < before.len() {
                assert(all[k] == before[k]);
                let i = choose|i: int|
                    0 <= i < fewer.len() && #[trigger] is_application_file(
                        before[k],
                        fewer[i],
                        found[i],
                    );
                assert(is_application_file(all[k], paths[i], found[i]));
            } else {
                assert(results[n] == Some(all[k]));
                assert(is_application_file(all[k], paths[n], found[n]));
            }
        }
    }
}

/// Law: the files that are there are all of them, in order: one more file comes last, and
/// a path without one adds nothing.
pub proof fn law_every_file_that_is_there_is_kept(
    results: Seq<Option<LaunchFileView>>,
    file: LaunchFileView,
)
    ensures
        present_files(Seq::empty()) == Seq::<LaunchFileView>::empty(),
        present_files(results.push(Some(file))) == present_files(results).push(file),
        present_files(results.push(None)) == present_files(results),
{
    assert(results.push(Some(file)).drop_last() =~= results);
    assert(results.push(None).drop_last() =~= results);
}

/// Law: a path leads to no file only if no file is there, if its bytes could not be read,
/// or if the name that this platform gives to it is not that of a file of the application.
/// A file has the path and the name as they are, the type of the application's files, and
/// the bytes in Base64.
pub proof fn law_application_files_are_not_left_out(
    path: Seq<char>,
    is_file: bool,
    content: Option<Vec<u8>>,
    file: Option<LaunchFileView>,
)
    requires
        is_launch_file(path, is_file, content, file),
    ensures
        file is None && is_file && content is Some ==> exists|component: Option<String>| #[trigger]
            files::is_file_name(path, component) && (component matches Some(name)
                ==> !files::is_bdengine_name(name@)),
        file matches Some(f) ==> {
            &&& is_file
            &&& content is Some
            &&& f.path == path
            &&& f.mime_type == "application/x-bdengine"@
            &&& f.base64 == encoding::base64_text(content->0@)
            &&& files::is_bdengine_name(f.name)
            &&& exists|component: Option<String>| #[trigger]
                files::is_file_name(path, component) && component is Some && component->0@ == f.name
        },
{
}

/// Law: there is something to tell the page exactly if the launch has a link, a pair or a
/// file.
pub proof fn law_payload_is_a_link_a_pair_or_a_file(context: LaunchContextView)
    ensures
        context.deeplink is Some ==> context_has_payload(context),
        context.query_pairs.len() > 0 ==> context_has_payload(context),
        context.files.len() > 0 ==> context_has_payload(context),
        context_has_payload(context) ==> context.deeplink is Some || context.query_pairs.len() > 0
            || context.files.len() > 0,
        !context_has_payload(empty_context()),
{
}

/// Law: the link of a launch is the first argument that is one.
pub proof fn law_deeplink_is_the_first_link(args: Seq<Seq<char>>)
    ensures
        match scan_args(args).deeplink {
            Some(link) => exists|i: int| #![trigger args[i]]
                0 <= i < args.len() && args[i] == link && is_link_arg(args[i]) && (forall|k: int|
                    0 <= k < i ==> !is_link_arg(#[trigger] args[k])),
            None => forall|k: int| 0 <= k < args.len() ==> !is_link_arg(#[trigger] args[k]),
        },
    decreases args.len(),
{
    if args.len() > 0 {
        let before = args.drop_last();
        law_deeplink_is_the_first_link(before);
        assert forall|k: int| 0 <= k < before.len() implies before[k] == args[k] by {}
        match scan_args(before).deeplink {
            Some(link) => {
                let i = choose|i: int| #![trigger before[i]]
                    0 <= i < before.len() && before[i] == link && is_link_arg(before[i]) && (forall|
                        k: int,
                    |
                        0 <= k < i ==> !is_link_arg(#[trigger] before[k]));
                assert(args[i] == link);
                assert forall|k: int| 0 <= k < i implies !is_link_arg(#[trigger] args[k]) by {
                    assert(!is_link_arg(before[k]));
                }
            },
            None => {
                assert forall|k: int| 0 <= k < before.len() implies !is_link_arg(
                    #[trigger] args[k],
                ) by {
                    assert(!is_link_arg(before[k]));
                }
                assert(args[args.len() - 1] == args.last());
            },
        }
    }
}

proof fn lemma_foreign_pairs_hold_no_mark(pairs: Seq<(Seq<char>, Seq<char>)>)
    ensures
        forall|i: int|
            0 <= i < foreign_pairs(pairs).len() ==> !is_app_mark(#[trigger] foreign_pairs(pairs)[i]),
    decreases pairs.len(),
{
    if pairs.len() > 0 {
        let before = foreign_pairs(pairs.drop_last());
        lemma_foreign_pairs_hold_no_mark(pairs.drop_last());
        assert forall|i: int| 0 <= i < foreign_pairs(pairs).len() implies !is_app_mark(
            #[trigger] foreign_pairs(pairs)[i],
        ) by {
            if i < before.len() {
                assert(foreign_pairs(pairs)[i] == before[i]);
            }
        }
    }
}

/// Law: the pairs of a link that are kept are all of its pairs but those under
/// `appReal`, as often as in the link and in the same order; a link without that key
/// keeps all of them.
pub proof fn law_all_other_pairs_of_a_link_are_kept(pairs: Seq<(Seq<char>, Seq<char>)>)
    ensures
        foreign_pairs(pairs) == pairs.filter(|pair: (Seq<char>, Seq<char>)| pair.0 != "appReal"@),
        (forall|i: int| 0 <= i < pairs.len() ==> (#[trigger] pairs[i]).0 != "appReal"@)
            ==> foreign_pairs(pairs) == pairs,
    decreases pairs.len(),
{
    reveal(Seq::filter);
    if pairs.len() > 0 {
        let before = pairs.drop_last();
        law_all_other_pairs_of_a_link_are_kept(before);
        if forall|i: int| 0 <= i < pairs.len() ==> (#[trigger] pairs[i]).0 != "appReal"@ {
            assert forall|i: int| 0 <= i < before.len() implies (#[trigger] before[i]).0
                != "appReal"@ by {
                assert(pairs[i].0 != "appReal"@);
            }
            assert(pairs[pairs.len() - 1].0 != "appReal"@);
            assert(before.push(pairs.last()) =~= pairs);
        }
    } else {
        assert(foreign_pairs(pairs) =~= pairs);
    }
}

/// Law: an argument is a link exactly if it is an address with the scheme of the
/// application, or of a page of the application, and not blank.
pub proof fn law_arguments_that_are_links(arg: Seq<char>)
    ensures
        is_link_arg(arg) ==> !text::is_blank(arg) && urls::url_parse(arg) is Some,
        urls::url_parse(arg) matches Some(url) ==> !text::is_blank(arg) ==> {
            &&& url.scheme == "bdengine"@ ==> is_link_arg(arg)
            &&& url.scheme == "https"@ && url.domain == Some("bdengine.app"@) ==> is_link_arg(arg)
            &&& url.scheme == "https"@ && url.domain == Some("beta.bdengine.app"@) ==> is_link_arg(
                arg,
            )
            &&& url.scheme != "bdengine"@ && url.scheme != "https"@ ==> !is_link_arg(arg)
            &&& url.scheme == "https"@ && url.domain != Some("bdengine.app"@) && url.domain != Some(
                "beta.bdengine.app"@,
            ) ==> !is_link_arg(arg)
        },
{
    reveal_strlit("bdengine");
    reveal_strlit("https");
    assert("bdengine"@.len() == 8 && "https"@.len() == 5);
}

/// Law: a launch without arguments says nothing.
pub proof fn law_no_arguments_say_nothing()
    ensures
        scan_args(Seq::empty()).deeplink is None,
        scan_args(Seq::empty()).query_pairs.len() == 0,
        scan_args(Seq::empty()).paths.len() == 0,
{
}

/// Law: one more argument that is a link adds the pairs of the link but those under
/// `appReal`, behind the pairs of the links before it, and no path.
pub proof fn law_a_link_adds_its_pairs(args: Seq<Seq<char>>, arg: Seq<char>)
    requires
        is_link_arg(arg),
    ensures
        scan_args(args.push(arg)).query_pairs == scan_args(args).query_pairs + urls::url_parse(
            arg,
        )->0.query_pairs.filter(|pair: (Seq<char>, Seq<char>)| pair.0 != "appReal"@),
        scan_args(args.push(arg)).paths == scan_args(args).paths,
        scan_args(args.push(arg)).deeplink is Some,
        scan_args(args).deeplink is None ==> scan_args(args.push(arg)).deeplink == Some(arg),
        scan_args(args).deeplink is Some ==> scan_args(args.push(arg)).deeplink == scan_args(
            args,
        ).deeplink,
{
    assert(args.push(arg).drop_last() =~= args);
    law_all_other_pairs_of_a_link_are_kept(urls::url_parse(arg)->0.query_pairs);
}

/// Law: whoever reads the arguments of a launch once more with a link behind them gets the
/// pairs as before and, behind them, all pairs of the link but those under `appReal`.
pub proof fn law_reading_one_more_link(
    args: &Vec<String>,
    more: &Vec<String>,
    before: LaunchScan,
    after: LaunchScan,
)
    requires
        call_ensures(parse_launch_context, (args,), before),
        call_ensures(parse_launch_context, (more,), after),
        more@.len() == args@.len() + 1,
        texts_view(more@).drop_last() == texts_view(args@),
        is_link_arg(more@.last()@),
    ensures
        urls::pairs_view(after.query_pairs@) == urls::pairs_view(before.query_pairs@)
            + urls::url_parse(more@.last()@)->0.query_pairs.filter(
            |pair: (Seq<char>, Seq<char>)| pair.0 != "appReal"@,
        ),
        texts_view(after.paths@) == texts_view(before.paths@),
{
    let all = texts_view(args@);
    let link = more@.last()@;
    assert(texts_view(more@) =~= all.push(link));
    law_a_link_adds_its_pairs(all, link);
}

/// Law: one more argument that is no link adds itself to the paths, unless it is blank,
/// and changes nothing else.
pub proof fn law_other_arguments_are_paths(args: Seq<Seq<char>>, arg: Seq<char>)
    requires
        !is_link_arg(arg),
    ensures
        text::is_blank(arg) ==> scan_args(args.push(arg)) == scan_args(args),
        !text::is_blank(arg) ==> scan_args(args.push(arg)).paths == scan_args(args).paths.push(arg),
        scan_args(args.push(arg)).query_pairs == scan_args(args).query_pairs,
        scan_args(args.push(arg)).deeplink == scan_args(args).deeplink,
{
    assert(args.push(arg).drop_last() =~= args);
}

/// Law: no argument can bring in the application's own mark.
pub proof fn law_launch_holds_no_app_mark(args: Seq<Seq<char>>)
    ensures
        forall|i: int|
            0 <= i < scan_args(args).query_pairs.len() ==> !is_app_mark(
                #[trigger] scan_args(args).query_pairs[i],
            ),
    decreases args.len(),
{
    if args.len() > 0 {
        law_launch_holds_no_app_mark(args.drop_last());
        let before = scan_args(args.drop_last()).query_pairs;
        match urls::url_parse(args.last()) {
            Some(link) => {
                lemma_foreign_pairs_hold_no_mark(link.query_pairs);
                assert forall|i: int| 0 <= i < scan_args(args).query_pairs.len() implies
                    !is_app_mark(#[trigger] scan_args(args).query_pairs[i]) by {
                    if i < before.len() {
                        assert(scan_args(args).query_pairs[i] == before[i]);
                    }
                }
            },
            None => {},
        }
    }
}

// ---------------------------------------------------------------------------
// The address of the page
// ---------------------------------------------------------------------------
/// The pairs that the page is opened with.
pub open spec fn remote_pairs(context: LaunchContextView) -> Seq<(Seq<char>, Seq<char>)> {
    let marks = seq![
        ("appReal"@, "true"@),
        ("appVersion"@, text::decimal(APP_VERSION as nat)),
    ];
    let open_file = if context.files.len() > 0 {
        seq![("openFile"@, "true"@)]
    } else {
        Seq::empty()
    };
    let from_link = if context.deeplink is Some {
        seq![("fromAppLink"@, "true"@)]
    } else {
        Seq::empty()
    };
    marks + context.query_pairs + open_file + from_link
}

fn pair_of(key: &str, value: &str) -> (r: LaunchQueryPair)
    ensures
        r@ == (key@, value@),
{
    LaunchQueryPair { key: key.to_owned(), value: value.to_owned() }
}

/// The pairs that the page is opened with.
pub fn remote_query_pairs(context: &LaunchContext) -> (r: Vec<LaunchQueryPair>)
    ensures
        urls::pairs_view(r@) == remote_pairs(context@),
{
    let mut r: Vec<LaunchQueryPair> = Vec::new();
    r.push(pair_of("appReal", "true"));
    let version: String = text::decimal_of(APP_VERSION as u64);
    r.push(pair_of("appVersion", version.as_str()));
    let ghost marks = urls::pairs_view(r@);
    assert(marks =~= seq![
        ("appReal"@, "true"@),
        ("appVersion"@, text::decimal(APP_VERSION as nat)),
    ]);
    let ghost all = urls::pairs_view(context.query_pairs@);
    assert(marks + all.take(0) =~= marks);
    let mut i: usize = 0;
    while i < context.query_pairs.len()
        invariant
            i <= context.query_pairs.len(),
            all == urls::pairs_view(context.query_pairs@),
            urls::pairs_view(r@) == marks + all.take(i as int),
        decreases context.query_pairs.len() - i,
    {
        let ghost now = r@;
        r.push(
            pair_of(context.query_pairs[i].key.as_str(), context.query_pairs[i].value.as_str()),
        );
        assert(urls::pairs_view(r@) =~= urls::pairs_view(now).push(all[i as int]));
        assert(marks + all.take(i + 1) =~= (marks + all.take(i as int)).push(all[i as int]));
        i += 1;
    }
    assert(all.take(context.query_pairs.len() as int) =~= all);
    let ghost base = marks + all;
    let ghost open_file: Seq<(Seq<char>, Seq<char>)> = if context@.files.len() > 0 {
        seq![("openFile"@, "true"@)]
    } else {
        Seq::empty()
    };
    let ghost now = r@;
    if !context.files.is_empty() {
        r.push(pair_of("openFile", "true"));
    }
    assert(urls::pairs_view(r@) =~= base + open_file);
    let ghost now = r@;
    if context.deeplink.is_some() {
        r.push(pair_of("fromAppLink", "true"));
    }
    assert(urls::pairs_view(r@) =~= remote_pairs(context@));
    r
}

/// The address that the page is opened under.
pub open spec fn remote_url(context: LaunchContextView, channel: ReleaseChannel) -> Seq<char> {
    urls::url_with_pairs(release_channel::channel_base_url(channel), remote_pairs(context))
}

/// The address that the page is opened under, on a channel. It is a page of the
/// application, and its query is read as the pairs of the launch.
pub fn build_remote_url(context: &LaunchContext, channel: ReleaseChannel) -> (r: String)
    ensures
        r@ == remote_url(context@, channel),
        urls::url_parse(r@) is Some,
        urls::is_embedded(urls::url_parse(r@)->0),
        urls::url_parse(r@)->0.query_pairs == remote_pairs(context@),
{
    let pairs: Vec<LaunchQueryPair> = remote_query_pairs(context);
    urls::append_query_pairs(channel.base_url(), &pairs)
}

/// Law: the page of a launch carries the application's own mark once, in front, as
/// `true`, whatever the launch was.
pub proof fn law_remote_pairs_hold_the_mark_once(args: Seq<Seq<char>>, files: Seq<LaunchFileView>)
    ensures
        ({
            let scan = scan_args(args);
            let pairs = remote_pairs(
                LaunchContextView { deeplink: scan.deeplink, query_pairs: scan.query_pairs, files },
            );
            &&& pairs[0] == ("appReal"@, "true"@)
            &&& forall|i: int| 0 < i < pairs.len() ==> !is_app_mark(#[trigger] pairs[i])
        }),
{
    law_launch_holds_no_app_mark(args);
    let scan = scan_args(args);
    let context = LaunchContextView {
        deeplink: scan.deeplink,
        query_pairs: scan.query_pairs,
        files,
    };
    let pairs = remote_pairs(context);
    let n = scan.query_pairs.len() as int;
    reveal_strlit("appReal");
    reveal_strlit("appVersion");
    reveal_strlit("openFile");
    reveal_strlit("fromAppLink");
    assert("appReal"@.len() == 7 && "appVersion"@.len() == 10 && "openFile"@.len() == 8
        && "fromAppLink"@.len() == 11);
    assert forall|i: int| 0 < i < pairs.len() implies !is_app_mark(#[trigger] pairs[i]) by {
        if 2 <= i < 2 + n {
            assert(pairs[i] == scan.query_pairs[i - 2]);
        }
    }
}

/// Law: the page is opened at the address of its channel, with the pairs of the launch.
pub proof fn law_page_is_opened_on_its_channel(context: LaunchContextView)
    ensures
        remote_url(context, ReleaseChannel::Stable) == urls::url_with_pairs(
            "https://bdengine.app/"@,
            remote_pairs(context),
        ),
        remote_url(context, ReleaseChannel::Beta) == urls::url_with_pairs(
            "https://beta.bdengine.app/"@,
            remote_pairs(context),
        ),
{
}

/// Law: where the pairs of a launch do not say it themselves, the page is told that it
/// opens a file exactly if the launch has one, whether or not it has a link, and that it
/// is opened from a link exactly if the launch has one, whether or not it has a file.
pub proof fn law_page_learns_of_files_and_links(context: LaunchContextView)
    requires
        forall|i: int|
            0 <= i < context.query_pairs.len() ==> (#[trigger] context.query_pairs[i]).0
                != "openFile"@ && context.query_pairs[i].0 != "fromAppLink"@,
    ensures
        remote_pairs(context).contains(("openFile"@, "true"@)) <==> context.files.len() > 0,
        remote_pairs(context).contains(("fromAppLink"@, "true"@)) <==> context.deeplink is Some,
{
    lemma_page_keys_differ();
    let pairs = remote_pairs(context);
    let n = context.query_pairs.len() as int;
    let file_pair = ("openFile"@, "true"@);
    let link_pair = ("fromAppLink"@, "true"@);
    if context.files.len() > 0 {
        assert(pairs[2 + n] == file_pair);
    }
    if context.deeplink is Some {
        assert(pairs[pairs.len() - 1] == link_pair);
    }
    assert forall|i: int| 2 <= i < 2 + n implies #[trigger] pairs[i] == context.query_pairs[i
        - 2] by {}
    if pairs.contains(file_pair) {
        let i = choose|i: int| 0 <= i < pairs.len() && pairs[i] == file_pair;
        if 2 <= i < 2 + n {
            assert(context.query_pairs[i - 2].0 != "openFile"@);
        }
    }
    if pairs.contains(link_pair) {
        let i = choose|i: int| 0 <= i < pairs.len() && pairs[i] == link_pair;
        if 2 <= i < 2 + n {
            assert(context.query_pairs[i - 2].0 != "fromAppLink"@);
        }
    }
}

proof fn lemma_page_keys_differ()
    ensures
        "appReal"@.len() == 7,
        "appVersion"@.len() == 10,
        "openFile"@.len() == 8,
        "fromAppLink"@.len() == 11,
{
    reveal_strlit("appReal");
    reveal_strlit("appVersion");
    reveal_strlit("openFile");
    reveal_strlit("fromAppLink");
}

/// Law: the page gets all pairs of the launch, unchanged and in order, behind the two
/// pairs of the application; at most two pairs follow them.
pub proof fn law_page_gets_the_pairs_of_the_launch(context: LaunchContextView)
    ensures
        ({
            let pairs = remote_pairs(context);
            let n = context.query_pairs.len();
            &&& 2 + n <= pairs.len() <= 4 + n
            &&& pairs.subrange(2, 2 + n as int) == context.query_pairs
            &&& pairs[0] == ("appReal"@, "true"@)
            &&& pairs[1] == ("appVersion"@, "13"@)
        }),
{
    let pairs = remote_pairs(context);
    assert(pairs.subrange(2, 2 + context.query_pairs.len() as int) =~= context.query_pairs);
    reveal_strlit("13");
    reveal_with_fuel(text::decimal, 3);
    assert(text::decimal(13) =~= "13"@);
}

/// Law: whoever asks for the pairs of a page gets those of the launch, unchanged and in
/// order, and is told of a file and of a link where there is one.
pub proof fn law_page_is_told_of_the_launch(context: &LaunchContext, r: Vec<LaunchQueryPair>)
    requires
        call_ensures(remote_query_pairs, (context,), r),
    ensures
        ({
            let pairs = urls::pairs_view(r@);
            let n = context.query_pairs@.len();
            &&& pairs.len() == 2 + n + (if context.files@.len() > 0 {
                1int
            } else {
                0
            }) + (if context.deeplink is Some {
                1int
            } else {
                0
            })
            &&& pairs[0] == ("appReal"@, "true"@)
            &&& pairs[1] == ("appVersion"@, "13"@)
            &&& pairs.subrange(2, 2 + n as int) == urls::pairs_view(context.query_pairs@)
            &&& context.files@.len() > 0 ==> pairs[2 + n as int] == ("openFile"@, "true"@)
            &&& context.deeplink is Some ==> pairs.last() == ("fromAppLink"@, "true"@)
        }),
{
    law_page_gets_the_pairs_of_the_launch(context@);
}

// ---------------------------------------------------------------------------
// The scripts and pages of the application
// ---------------------------------------------------------------------------
/// The launch script up to the launch itself.
pub const LAUNCH_SCRIPT_HEAD: &'static str = "(() => {
  const payload = ";

/// The launch script behind the launch itself.
pub const LAUNCH_SCRIPT_TAIL: &'static str = ";
  const install = () => {
    if (!window.__BDENGINE_DESKTOP__) {
      const pendingFileBatches = [];
      let consumer = null;
      const existingLaunchQueue = window.launchQueue;
      const decodeBase64 = (value) => Uint8Array.from(atob(value), (char) => char.charCodeAt(0));
      const makeHandle = (file) => ({
        kind: 'file',
        name: file.name,
        async getFile() {
          return new File([decodeBase64(file.base64)], file.name, {
            type: file.mimeType || 'application/octet-stream'
          });
        },
        async queryPermission() {
          return 'granted';
        },
        async requestPermission() {
          return 'granted';
        }
      });
      const flush = () => {
        if (!consumer) {
          return;
        }
        while (pendingFileBatches.length) {
          consumer({ files: pendingFileBatches.shift().map(makeHandle) });
        }
      };
      Object.defineProperty(window, 'launchQueue', {
        configurable: true,
        enumerable: false,
        writable: true,
        value: {
          setConsumer(fn) {
            consumer = fn;
            if (existingLaunchQueue && typeof existingLaunchQueue.setConsumer === 'function') {
              existingLaunchQueue.setConsumer(fn);
            }
            flush();
          }
        }
      });
      window.__BDENGINE_DESKTOP__ = {
        lastLaunchContext: null,
        pushLaunchContext(context) {
          this.lastLaunchContext = context;
          window.dispatchEvent(new CustomEvent('bdengine-launch-context', { detail: context }));
          const files = Array.isArray(context.files) ? context.files : [];
          if (files.length) {
            pendingFileBatches.push(files);
            flush();
          }
        }
      };
    }
    window.__BDENGINE_DESKTOP__.pushLaunchContext(payload);
  };
  if (document.readyState === 'loading') {
    document.addEventListener('DOMContentLoaded', install, { once: true });
  } else {
    install();
  }
})();";

/// The script that hands a launch, written as JSON, to the page.
pub fn launch_context_script(payload: &str) -> (r: String)
    ensures
        r@ == LAUNCH_SCRIPT_HEAD@ + payload@ + LAUNCH_SCRIPT_TAIL@,
{
    text::concat3(LAUNCH_SCRIPT_HEAD, payload, LAUNCH_SCRIPT_TAIL)
}

/// The script to run in the page for a launch, `payload` being the launch written
/// as JSON; `None` where there is nothing to tell.
pub fn launch_script_to_run(context: &LaunchContext, payload: &str) -> (r: Option<String>)
    ensures
        text::optional_text(r) == (if context_has_payload(context@) {
            Some(LAUNCH_SCRIPT_HEAD@ + payload@ + LAUNCH_SCRIPT_TAIL@)
        } else {
            None
        }),
{
    if context.has_payload() {
        Some(launch_context_script(payload))
    } else {
        None
    }
}

/// The splash page up to its image.
pub const SPLASH_HTML_HEAD: &'static str = "<!doctype html>
<html lang=\"en\">
  <head>
    <meta charset=\"utf-8\">
    <meta name=\"viewport\" content=\"width=device-width, initial-scale=1\">
    <title>BDEngine</title>
    <style>
      html, body {
        margin: 0;
        width: 100%;
        height: 100%;
        overflow: hidden;
        background: transparent;
      }
      body {
        display: flex;
        align-items: center;
        justify-content: center;
      }
      img {
        display: block;
        width: 100%;
        height: 100%;
        user-select: none;
        -webkit-user-drag: none;
        pointer-events: none;
      }
    </style>
  </head>
  <body>
    <img src=\"data:image/png;base64,";

/// The splash page behind its image.
pub const SPLASH_HTML_TAIL: &'static str = "\" alt=\"BDEngine splash\">
  </body>
</html>";

/// The splash page around an image in the PNG format.
pub fn build_splash_html(image_png: &[u8]) -> (r: String)
    requires
        encoding::fits_base64(image_png@),
    ensures
        r@ == SPLASH_HTML_HEAD@ + encoding::base64_text(image_png@) + SPLASH_HTML_TAIL@,
{
    let image: String = encoding::encode_base64(image_png);
    text::concat3(SPLASH_HTML_HEAD, image.as_str(), SPLASH_HTML_TAIL)
}

} // verus!
