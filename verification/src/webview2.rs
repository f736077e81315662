//! Making sure that the WebView2 runtime is there when the application starts.
use vstd::prelude::*;
use vstd::string::*;

use crate::text;

verus! {

/// Where the runtime can be downloaded.
pub const WEBVIEW2_DOWNLOAD_URL: &'static str =
    "https://developer.microsoft.com/en-us/microsoft-edge/webview2";

/// The identifier of the runtime in the registry.
pub const WEBVIEW2_CLIENT_GUID: &'static str = "{F3017226-FE2A-4295-8BDF-00C3A9A7E4C5}";

/// The installer that brings everything with it.
pub const OFFLINE_INSTALLER: &'static str = "redist\\MicrosoftEdgeWebView2RuntimeInstallerX64.exe";

/// The installer that downloads the rest.
pub const ONLINE_INSTALLER: &'static str = "redist\\MicrosoftEdgeWebview2Setup.exe";

// ---------------------------------------------------------------------------
// The bundled installers
// ---------------------------------------------------------------------------
/// The bundled installers, relative to the directory of the application.
pub fn webview2_installer_candidates() -> (r: [&'static str; 2])
    ensures
        r@[0]@ == OFFLINE_INSTALLER@,
        r@[1]@ == ONLINE_INSTALLER@,
{
    [OFFLINE_INSTALLER, ONLINE_INSTALLER]
}

/// The first of the bundled installers that is there, `present` telling of each in
/// turn whether it is.
pub fn first_present_installer(present: [bool; 2]) -> (r: Option<&'static str>)
    ensures
        match r {
            Some(path) => if present@[0] {
                path@ == OFFLINE_INSTALLER@
            } else {
                present@[1] && path@ == ONLINE_INSTALLER@
            },
            None => !present@[0] && !present@[1],
        },
{
    let candidates: [&'static str; 2] = webview2_installer_candidates();
    if present[0] {
        Some(candidates[0])
    } else if present[1] {
        Some(candidates[1])
    } else {
        None
    }
}

// ---------------------------------------------------------------------------
// The version of the runtime
// ---------------------------------------------------------------------------
/// The longest end of a text without white space.
pub open spec fn word_at_end(s: Seq<char>) -> Seq<char>
    decreases s.len(),
{
    if s.len() > 0 && !text::is_white_space(s.last()) {
        word_at_end(s.drop_last()).push(s.last())
    } else {
        Seq::empty()
    }
}

/// The last word of a line, which is empty if the line has none.
pub open spec fn last_word(line: Seq<char>) -> Seq<char> {
    word_at_end(text::trimmed_end(line))
}

/// The version in the lines of an answer of the registry: the last word of the first
/// line that holds a string value.
pub open spec fn version_in_lines(lines: Seq<Seq<char>>) -> Option<Seq<char>>
    decreases lines.len(),
{
    if lines.len() == 0 {
        None
    } else if text::contains_text(lines[0], "REG_SZ"@) && last_word(lines[0]).len() > 0 {
        Some(last_word(lines[0]))
    } else {
        version_in_lines(lines.drop_first())
    }
}

/// The version in an answer of the registry.
pub open spec fn version_in(output: Seq<char>) -> Option<Seq<char>> {
    version_in_lines(text::split_on(output, '\n'))
}

proof fn lemma_word_at_end(s: Seq<char>, i: int)
    requires
        0 <= i <= s.len(),
        forall|k: int| i <= k < s.len() ==> !text::is_white_space(#[trigger] s[k]),
        i > 0 ==> text::is_white_space(s[i - 1]),
    ensures
        word_at_end(s) == s.skip(i),
    decreases s.len(),
{
    if i < s.len() {
        let t = s.drop_last();
        assert(!text::is_white_space(s[s.len() - 1]));
        assert forall|k: int| i <= k < t.len() implies !text::is_white_space(#[trigger] t[k]) by {
            assert(t[k] == s[k]);
        }
        lemma_word_at_end(t, i);
        assert(t.skip(i).push(s.last()) =~= s.skip(i));
    } else {
        assert(s.skip(i) =~= Seq::<char>::empty());
    }
}

fn last_word_of(line: &Vec<char>) -> (r: String)
    ensures
        r@ == last_word(line@),
{
    let n: usize = line.len();
    let mut j: usize = n;
    while 0 < j && text::char_is_white_space(line[j - 1])
        invariant
            n == line.len(),
            j <= n,
            forall|k: int| j <= k < n ==> text::is_white_space(#[trigger] line@[k]),
        decreases j,
    {
        j -= 1;
    }
    let ghost t = line@.take(j as int);
    proof {
        text::lemma_trimmed_end_is_prefix(line@, j as int);
    }
    let mut i: usize = j;
    while 0 < i && !text::char_is_white_space(line[i - 1])
        invariant
            n == line.len(),
            i <= j <= n,
            forall|k: int| i <= k < j ==> !text::is_white_space(#[trigger] line@[k]),
        decreases i,
    {
        i -= 1;
    }
    proof {
        assert forall|k: int| i <= k < t.len() implies !text::is_white_space(#[trigger] t[k]) by {
            assert(t[k] == line@[k]);
        }
        lemma_word_at_end(t, i as int);
    }
    let mut r: String = String::new();
    let mut k: usize = i;
    while k < j
        invariant
            n == line.len(),
            i <= k <= j <= n,
            r@ == line@.subrange(i as int, k as int),
        decreases j - k,
    {
        r.push(line[k]);
        assert(line@.subrange(i as int, k + 1) =~= line@.subrange(i as int, k as int).push(
            line@[k as int],
        ));
        k += 1;
    }
    assert(r@ =~= t.skip(i as int));
    r
}

/// The version of the runtime in an answer of the registry.
pub fn version_of_output(output: &str) -> (r: Option<String>)
    ensures
        text::optional_text(r) == version_in(output@),
{
    let chars: Vec<char> = text::chars_of(output);
    let lines: Vec<Vec<char>> = text::split_chars(&chars, '\n');
    let ghost all = text::split_on(output@, '\n');
    assert(all.skip(0) =~= all);
    let mut i: usize = 0;
    while i < lines.len()
        invariant
            i <= lines.len(),
            text::parts_view(lines@) == all,
            all == text::split_on(output@, '\n'),
            version_in_lines(all) == version_in_lines(all.skip(i as int)),
        decreases lines.len() - i,
    {
        let ghost rest = all.skip(i as int);
        assert(rest[0] == lines@[i as int]@);
        assert(rest.drop_first() =~= all.skip(i + 1));
        if text::text_contains(&lines[i], "REG_SZ") {
            let word: String = last_word_of(&lines[i]);
            if text::chars_of(word.as_str()).len() > 0 {
                return Some(word);
            }
        }
        i += 1;
    }
    assert(all.skip(all.len() as int) =~= Seq::<Seq<char>>::empty());
    None
}

/// How a query of the registry went.
pub enum QueryOutcome {
    /// The query could not be run.
    NotRun,
    /// The query was run and failed.
    Failed,
    /// The query printed this.
    Printed(Vec<u8>),
}

/// What to do next.
pub enum SearchAction {
    /// Query this key of the registry.
    Query(String),
    /// The version is this.
    Found(String),
    /// There is no version.
    NotFound,
}

/// The contents of a [`SearchAction`].
pub enum SearchActionView {
    Query(Seq<char>),
    Found(Seq<char>),
    NotFound,
}

impl View for SearchAction {
    type V = SearchActionView;

    open spec fn view(&self) -> SearchActionView {
        match self {
            SearchAction::Query(key) => SearchActionView::Query(key@),
            SearchAction::Found(version) => SearchActionView::Found(version@),
            SearchAction::NotFound => SearchActionView::NotFound,
        }
    }
}

/// The keys of the registry under which the version can stand, before the identifier
/// of the runtime.
pub open spec fn key_prefixes() -> Seq<Seq<char>> {
    seq![
        "HKCU\\Software\\Microsoft\\EdgeUpdate\\Clients\\"@,
        "HKLM\\Software\\Microsoft\\EdgeUpdate\\Clients\\"@,
        "HKLM\\Software\\WOW6432Node\\Microsoft\\EdgeUpdate\\Clients\\"@,
    ]
}

/// The step of a search at which so many keys have been queried in vain.
pub open spec fn query_at(tried: int) -> SearchActionView {
    if 0 <= tried < key_prefixes().len() {
        SearchActionView::Query(key_prefixes()[tried] + WEBVIEW2_CLIENT_GUID@)
    } else {
        SearchActionView::NotFound
    }
}

/// The next action of a search whose query number `tried` went as `outcome` says. A
/// query that could not be run ends the search; one that failed, or that printed no
/// version, leads to the next key.
pub open spec fn search_transition(tried: int, outcome: QueryOutcome) -> (int, SearchActionView) {
    if tried >= key_prefixes().len() {
        (tried, SearchActionView::NotFound)
    } else {
        search_queried(tried, outcome)
    }
}

/// The next action of a search that has just made its query number `tried`.
pub open spec fn search_queried(tried: int, outcome: QueryOutcome) -> (int, SearchActionView) {
    match outcome {
        QueryOutcome::NotRun => (tried, SearchActionView::NotFound),
        QueryOutcome::Failed => (tried + 1, query_at(tried + 1)),
        QueryOutcome::Printed(bytes) => match version_in(text::utf8_lossy(bytes@)) {
            Some(version) => (tried, SearchActionView::Found(version)),
            None => (tried + 1, query_at(tried + 1)),
        },
    }
}

/// A search for the version of the runtime.
pub struct VersionSearch {
    tried: usize,
}

fn query_number(tried: usize) -> (r: SearchAction)
    ensures
        r@ == query_at(tried as int),
{
    let prefix: &str = if tried == 0 {
        "HKCU\\Software\\Microsoft\\EdgeUpdate\\Clients\\"
    } else if tried == 1 {
        "HKLM\\Software\\Microsoft\\EdgeUpdate\\Clients\\"
    } else if tried == 2 {
        "HKLM\\Software\\WOW6432Node\\Microsoft\\EdgeUpdate\\Clients\\"
    } else {
        return SearchAction::NotFound;
    };
    SearchAction::Query(text::concat2(prefix, WEBVIEW2_CLIENT_GUID))
}

impl VersionSearch {
    /// How many keys have been queried in vain.
    pub closed spec fn tried(&self) -> int {
        self.tried as int
    }

    /// Begins a search.
    pub fn begin() -> (r: (VersionSearch, SearchAction))
        ensures
            r.0.tried() == 0,
            r.1@ == query_at(0),
    {
        (VersionSearch { tried: 0 }, query_number(0))
    }

    fn next_query(&mut self) -> (r: SearchAction)
        requires
            old(self).tried() < key_prefixes().len(),
        ensures
            final(self).tried() == old(self).tried() + 1,
            r@ == query_at(old(self).tried() + 1),
    {
        self.tried = self.tried + 1;
        query_number(self.tried)
    }

    /// Takes how the last query went and tells what to do next.
    pub fn step(&mut self, outcome: QueryOutcome) -> (r: SearchAction)
        ensures
            (final(self).tried(), r@) == search_transition(old(self).tried(), outcome),
    {
        if self.tried >= 3 {
            return SearchAction::NotFound;
        }
        match outcome {
            QueryOutcome::NotRun => SearchAction::NotFound,
            QueryOutcome::Failed => self.next_query(),
            QueryOutcome::Printed(bytes) => {
                let output: String = text::lossy_text(bytes.as_slice());
                match version_of_output(output.as_str()) {
                    Some(version) => SearchAction::Found(version),
                    None => self.next_query(),
                }
            },
        }
    }
}

/// A query that leads to the next key: it failed, or it printed no version.
pub open spec fn is_in_vain(outcome: QueryOutcome) -> bool {
    match outcome {
        QueryOutcome::NotRun => false,
        QueryOutcome::Failed => true,
        QueryOutcome::Printed(bytes) => version_in(text::utf8_lossy(bytes@)) is None,
    }
}

/// Where a search stands after its queries went as `outcomes` say.
pub open spec fn search_after(outcomes: Seq<QueryOutcome>) -> (int, SearchActionView)
    decreases outcomes.len(),
{
    if outcomes.len() == 0 {
        (0, query_at(0))
    } else {
        search_transition(search_after(outcomes.drop_last()).0, outcomes.last())
    }
}

/// Law: as long as queries are in vain, the keys are queried one after another; when
/// all of them were, the search ends without a version.
pub proof fn law_search_goes_through_the_keys(outcomes: Seq<QueryOutcome>)
    requires
        outcomes.len() <= key_prefixes().len(),
        forall|i: int| 0 <= i < outcomes.len() ==> is_in_vain(#[trigger] outcomes[i]),
    ensures
        search_after(outcomes) == (outcomes.len() as int, query_at(outcomes.len() as int)),
        search_after(outcomes).1 is NotFound <==> outcomes.len() == key_prefixes().len(),
    decreases outcomes.len(),
{
    if outcomes.len() > 0 {
        let before = outcomes.drop_last();
        assert forall|i: int| 0 <= i < before.len() implies is_in_vain(#[trigger] before[i]) by {
            assert(before[i] == outcomes[i]);
        }
        law_search_goes_through_the_keys(before);
        assert(is_in_vain(outcomes[outcomes.len() - 1]));
    }
}

/// Law: the first query that is not in vain ends the search, with the version that it
/// printed, or without one if it could not be run.
pub proof fn law_search_ends_with_the_first_version(
    outcomes: Seq<QueryOutcome>,
    last: QueryOutcome,
)
    requires
        outcomes.len() < key_prefixes().len(),
        forall|i: int| 0 <= i < outcomes.len() ==> is_in_vain(#[trigger] outcomes[i]),
        !is_in_vain(last),
    ensures
        match last {
            QueryOutcome::Printed(bytes) => version_in(text::utf8_lossy(bytes@)) == Some(
                search_after(outcomes.push(last)).1->Found_0,
            ) && search_after(outcomes.push(last)).1 is Found,
            _ => search_after(outcomes.push(last)).1 is NotFound,
        },
{
    law_search_goes_through_the_keys(outcomes);
    assert(outcomes.push(last).drop_last() =~= outcomes);
}

/// Law: the keys of the registry, in the order in which they are queried: that of the user,
/// that of the machine, and that of the machine for programs of thirty-two bits.
pub proof fn law_keys_of_the_registry()
    ensures
        query_at(0) == SearchActionView::Query(
            "HKCU\\Software\\Microsoft\\EdgeUpdate\\Clients\\"@
                + "{F3017226-FE2A-4295-8BDF-00C3A9A7E4C5}"@,
        ),
        query_at(1) == SearchActionView::Query(
            "HKLM\\Software\\Microsoft\\EdgeUpdate\\Clients\\"@
                + "{F3017226-FE2A-4295-8BDF-00C3A9A7E4C5}"@,
        ),
        query_at(2) == SearchActionView::Query(
            "HKLM\\Software\\WOW6432Node\\Microsoft\\EdgeUpdate\\Clients\\"@
                + "{F3017226-FE2A-4295-8BDF-00C3A9A7E4C5}"@,
        ),
        query_at(3) is NotFound,
        key_prefixes().len() == 3,
{
}

/// Law: the last word of a line is the word that stands at its end, in front of the white
/// space there, if any; white space alone has no word.
pub proof fn law_last_word_stands_at_the_end(
    front: Seq<char>,
    word: Seq<char>,
    space: Seq<char>,
)
    requires
        front.len() > 0 ==> text::is_white_space(front.last()),
        word.len() > 0,
        forall|i: int| 0 <= i < word.len() ==> !text::is_white_space(#[trigger] word[i]),
        forall|i: int| 0 <= i < space.len() ==> text::is_white_space(#[trigger] space[i]),
    ensures
        last_word(front + word + space) == word,
        last_word(space).len() == 0,
{
    let line = front + word + space;
    let j = (front.len() + word.len()) as int;
    assert forall|k: int| j <= k < line.len() implies text::is_white_space(#[trigger] line[k]) by {
        assert(line[k] == space[k - j]);
    }
    assert(line[j - 1] == word[word.len() - 1]);
    text::lemma_trimmed_end_is_prefix(line, j);
    let kept = line.take(j);
    assert(kept =~= front + word);
    let i = front.len() as int;
    assert forall|k: int| i <= k < kept.len() implies !text::is_white_space(
        #[trigger] kept[k],
    ) by {
        assert(kept[k] == word[k - i]);
    }
    if i > 0 {
        assert(kept[i - 1] == front.last());
    }
    lemma_word_at_end(kept, i);
    assert(kept.skip(i) =~= word);
    text::lemma_trimmed_end_is_prefix(space, 0);
}

/// Law: the version is the last word of the first line that holds a string value and a
/// word; lines without a string value are passed over.
pub proof fn law_version_stands_in_the_first_line_with_a_value(
    line: Seq<char>,
    rest: Seq<Seq<char>>,
)
    ensures
        version_in_lines(Seq::empty()) is None,
        text::contains_text(line, "REG_SZ"@) && last_word(line).len() > 0 ==> version_in_lines(
            seq![line] + rest,
        ) == Some(last_word(line)),
        !text::contains_text(line, "REG_SZ"@) || last_word(line).len() == 0 ==> version_in_lines(
            seq![line] + rest,
        ) == version_in_lines(rest),
{
    let lines = seq![line] + rest;
    assert(lines[0] == line);
    assert(lines.drop_first() =~= rest);
}

/// Law: an answer of the registry is read line by line.
pub proof fn law_answers_are_read_line_by_line(line: Seq<char>, rest: Seq<char>)
    requires
        !line.contains('\n'),
    ensures
        version_in(line.push('\n') + rest) == (if text::contains_text(line, "REG_SZ"@) && last_word(
            line,
        ).len() > 0 {
            Some(last_word(line))
        } else {
            version_in(rest)
        }),
{
    text::law_parts_on_both_sides_of_a_separator(line, '\n', rest);
    text::law_a_text_without_separator_is_one_part(line, '\n');
    law_version_stands_in_the_first_line_with_a_value(line, text::split_on(rest, '\n'));
}

// ---------------------------------------------------------------------------
// Installing the runtime
// ---------------------------------------------------------------------------
/// What the check is waiting for.
#[derive(Clone, Copy, Debug, PartialEq, Eq, Structural)]
pub enum RuntimePhase {
    /// Whether the runtime is there.
    Detecting,
    /// Whether an installer is there.
    FindingInstaller,
    /// The end of the installer.
    Installing,
    /// Whether the runtime is there now.
    Confirming,
    /// The relaunch of the application.
    Relaunching,
    /// Nothing more.
    Done,
}

/// What happened.
pub enum RuntimeEvent {
    /// The search for the runtime is over; it has found it or not.
    Detected(bool),
    /// The search for an installer is over; it has found one or not.
    InstallerFound(bool),
    /// The installer could not be started.
    InstallerNotStarted(String),
    /// The installer has ended, with success or not, and with this code if it has one.
    InstallerEnded { success: bool, code: Option<i32> },
    Relaunched,
    /// The path of the application is not known.
    ExecutableUnknown(String),
    /// The application could not be started again.
    NotRelaunched(String),
}

/// What to do next.
pub enum RuntimeAction {
    /// Search for the runtime.
    Detect,
    /// Search for an installer.
    FindInstaller,
    /// Run the installer.
    RunInstaller,
    /// Start the application again.
    Relaunch,
    /// The check is over: whether the application was started again, or what is wrong.
    Finish(Result<bool, String>),
    /// The event answers nothing that was asked for.
    Ignore,
}

/// The contents of a [`RuntimeAction`].
pub enum RuntimeActionView {
    Detect,
    FindInstaller,
    RunInstaller,
    Relaunch,
    Finish(Result<bool, Seq<char>>),
    Ignore,
}

impl View for RuntimeAction {
    type V = RuntimeActionView;

    open spec fn view(&self) -> RuntimeActionView {
        match self {
            RuntimeAction::Detect => RuntimeActionView::Detect,
            RuntimeAction::FindInstaller => RuntimeActionView::FindInstaller,
            RuntimeAction::RunInstaller => RuntimeActionView::RunInstaller,
            RuntimeAction::Relaunch => RuntimeActionView::Relaunch,
            RuntimeAction::Finish(Ok(relaunched)) => RuntimeActionView::Finish(Ok(*relaunched)),
            RuntimeAction::Finish(Err(error)) => RuntimeActionView::Finish(Err(error@)),
            RuntimeAction::Ignore => RuntimeActionView::Ignore,
        }
    }
}

/// An exit code as it is written: `Some(3)`, or `None`.
pub open spec fn code_text(code: Option<i32>) -> Seq<char> {
    match code {
        Some(n) => "Some("@ + text::signed_decimal(n as int) + ")"@,
        None => "None"@,
    }
}

fn code_text_of(code: Option<i32>) -> (r: String)
    ensures
        r@ == code_text(code),
{
    match code {
        Some(n) => {
            let number: String = text::signed_decimal_of(n);
            text::concat3("Some(", number.as_str(), ")")
        },
        None => "None".to_owned(),
    }
}

/// The end of the check with an error.
pub open spec fn runtime_failed(error: Seq<char>) -> (RuntimePhase, RuntimeActionView) {
    (RuntimePhase::Done, RuntimeActionView::Finish(Err(error)))
}

/// The next phase and the next action of the check.
pub open spec fn runtime_transition(phase: RuntimePhase, event: RuntimeEvent) -> (
    RuntimePhase,
    RuntimeActionView,
) {
    match (phase, event) {
        (RuntimePhase::Detecting, RuntimeEvent::Detected(found)) => if found {
            (RuntimePhase::Done, RuntimeActionView::Finish(Ok(false)))
        } else {
            (RuntimePhase::FindingInstaller, RuntimeActionView::FindInstaller)
        },
        (RuntimePhase::FindingInstaller, RuntimeEvent::InstallerFound(found)) => if found {
            (RuntimePhase::Installing, RuntimeActionView::RunInstaller)
        } else {
            runtime_failed("WebView2 Runtime is missing and no bundled installer was found."@)
        },
        (RuntimePhase::Installing, RuntimeEvent::InstallerNotStarted(error)) => runtime_failed(
            "Could not launch bundled WebView2 installer: "@ + error@,
        ),
        (RuntimePhase::Installing, RuntimeEvent::InstallerEnded { success, code }) => if success {
            (RuntimePhase::Confirming, RuntimeActionView::Detect)
        } else {
            runtime_failed(
                "Bundled WebView2 installer exited with code "@ + code_text(code) + "."@,
            )
        },
        (RuntimePhase::Confirming, RuntimeEvent::Detected(found)) => if found {
            (RuntimePhase::Relaunching, RuntimeActionView::Relaunch)
        } else {
            runtime_failed(
                "WebView2 installer finished, but the runtime still could not be detected."@,
            )
        },
        (RuntimePhase::Relaunching, RuntimeEvent::Relaunched) => (
            RuntimePhase::Done,
            RuntimeActionView::Finish(Ok(true)),
        ),
        (RuntimePhase::Relaunching, RuntimeEvent::ExecutableUnknown(error)) => runtime_failed(
            "Could not resolve current executable: "@ + error@,
        ),
        (RuntimePhase::Relaunching, RuntimeEvent::NotRelaunched(error)) => runtime_failed(
            "Could not relaunch application: "@ + error@,
        ),
        _ => (phase, RuntimeActionView::Ignore),
    }
}

/// The check that the runtime is there, with the installation if it is not.
pub struct RuntimeCheck {
    phase: RuntimePhase,
}

impl RuntimeCheck {
    /// What the check is waiting for.
    pub closed spec fn phase(&self) -> RuntimePhase {
        self.phase
    }

    /// Begins the check.
    pub fn begin() -> (r: (RuntimeCheck, RuntimeAction))
        ensures
            r.0.phase() == RuntimePhase::Detecting,
            r.1 is Detect,
    {
        (RuntimeCheck { phase: RuntimePhase::Detecting }, RuntimeAction::Detect)
    }

    fn fail(&mut self, error: String) -> (r: RuntimeAction)
        ensures
            (final(self).phase(), r@) == runtime_failed(error@),
    {
        self.phase = RuntimePhase::Done;
        RuntimeAction::Finish(Err(error))
    }

    /// Takes what happened and tells what to do next.
    pub fn step(&mut self, event: RuntimeEvent) -> (r: RuntimeAction)
        ensures
            (final(self).phase(), r@) == runtime_transition(old(self).phase(), event),
    {
        match (self.phase, event) {
            (RuntimePhase::Detecting, RuntimeEvent::Detected(found)) => {
                if found {
                    self.phase = RuntimePhase::Done;
                    RuntimeAction::Finish(Ok(false))
                } else {
                    self.phase = RuntimePhase::FindingInstaller;
                    RuntimeAction::FindInstaller
                }
            },
            (RuntimePhase::FindingInstaller, RuntimeEvent::InstallerFound(found)) => {
                if found {
                    self.phase = RuntimePhase::Installing;
                    RuntimeAction::RunInstaller
                } else {
                    self.fail(
                        "WebView2 Runtime is missing and no bundled installer was found.".to_owned(),
                    )
                }
            },
            (RuntimePhase::Installing, RuntimeEvent::InstallerNotStarted(error)) => self.fail(
                text::concat2("Could not launch bundled WebView2 installer: ", error.as_str()),
            ),
            (RuntimePhase::Installing, RuntimeEvent::InstallerEnded { success, code }) => {
                if success {
                    self.phase = RuntimePhase::Confirming;
                    RuntimeAction::Detect
                } else {
                    let written: String = code_text_of(code);
                    self.fail(
                        text::concat3(
                            "Bundled WebView2 installer exited with code ",
                            written.as_str(),
                            ".",
                        ),
                    )
                }
            },
            (RuntimePhase::Confirming, RuntimeEvent::Detected(found)) => {
                if found {
                    self.phase = RuntimePhase::Relaunching;
                    RuntimeAction::Relaunch
                } else {
                    self.fail(
                        "WebView2 installer finished, but the runtime still could not be detected.".to_owned(),
                    )
                }
            },
            (RuntimePhase::Relaunching, RuntimeEvent::Relaunched) => {
                self.phase = RuntimePhase::Done;
                RuntimeAction::Finish(Ok(true))
            },
            (RuntimePhase::Relaunching, RuntimeEvent::ExecutableUnknown(error)) => self.fail(
                text::concat2("Could not resolve current executable: ", error.as_str()),
            ),
            (RuntimePhase::Relaunching, RuntimeEvent::NotRelaunched(error)) => self.fail(
                text::concat2("Could not relaunch application: ", error.as_str()),
            ),
            _ => RuntimeAction::Ignore,
        }
    }
}

/// Law: an installer is run only when the runtime was not found and an installer was,
/// and the application is started again only when the runtime was found after the
/// installer had ended with success.
pub proof fn law_installation_is_confirmed(phase: RuntimePhase, event: RuntimeEvent)
    ensures
        runtime_transition(phase, event).1 is RunInstaller <==> phase
            == RuntimePhase::FindingInstaller && event == RuntimeEvent::InstallerFound(true),
        runtime_transition(phase, event).1 is Relaunch <==> phase == RuntimePhase::Confirming
            && event == RuntimeEvent::Detected(true),
        runtime_transition(phase, event).0 == RuntimePhase::FindingInstaller && phase
            != RuntimePhase::FindingInstaller ==> phase == RuntimePhase::Detecting && event
            == RuntimeEvent::Detected(false),
        runtime_transition(phase, event).0 == RuntimePhase::Confirming && phase
            != RuntimePhase::Confirming ==> phase == RuntimePhase::Installing && (
        event matches RuntimeEvent::InstallerEnded { success, .. } && success),
        runtime_transition(phase, event).1 == RuntimeActionView::Finish(Ok(true)) <==> phase
            == RuntimePhase::Relaunching && event is Relaunched,
{
}

/// Law: what the check does with what it hears. A runtime that is there ends it without a
/// new start of the application; everything that goes wrong ends it, and is told.
pub proof fn law_check_of_the_runtime(phase: RuntimePhase, event: RuntimeEvent)
    ensures
        ({
            let action = runtime_transition(phase, event).1;
            &&& phase == RuntimePhase::Detecting && event == RuntimeEvent::Detected(true) ==> action
                == RuntimeActionView::Finish(Ok(false))
            &&& phase == RuntimePhase::Detecting && event == RuntimeEvent::Detected(false)
                ==> action is FindInstaller
            &&& phase == RuntimePhase::Installing ==> (
            event matches RuntimeEvent::InstallerEnded { success, .. } ==> success
                ==> action is Detect)
            &&& action == RuntimeActionView::Finish(Ok(false)) ==> phase == RuntimePhase::Detecting
                && event == RuntimeEvent::Detected(true)
            &&& action matches RuntimeActionView::Finish(Err(error)) ==> match event {
                RuntimeEvent::InstallerFound(found) => !found && phase
                    == RuntimePhase::FindingInstaller && error
                    == "WebView2 Runtime is missing and no bundled installer was found."@,
                RuntimeEvent::InstallerNotStarted(why) => phase == RuntimePhase::Installing && error
                    == "Could not launch bundled WebView2 installer: "@ + why@,
                RuntimeEvent::InstallerEnded { success, code } => !success && phase
                    == RuntimePhase::Installing && error
                    == "Bundled WebView2 installer exited with code "@ + (match code {
                    Some(n) => "Some("@ + text::signed_decimal(n as int) + ")"@,
                    None => "None"@,
                }) + "."@,
                RuntimeEvent::Detected(found) => !found && phase == RuntimePhase::Confirming
                    && error
                    == "WebView2 installer finished, but the runtime still could not be detected."@,
                RuntimeEvent::ExecutableUnknown(why) => phase == RuntimePhase::Relaunching && error
                    == "Could not resolve current executable: "@ + why@,
                RuntimeEvent::NotRelaunched(why) => phase == RuntimePhase::Relaunching && error
                    == "Could not relaunch application: "@ + why@,
                _ => false,
            }
            &&& (phase == RuntimePhase::FindingInstaller && event == RuntimeEvent::InstallerFound(
                false,
            )) || (phase == RuntimePhase::Installing && (event is InstallerNotStarted || (
            event matches RuntimeEvent::InstallerEnded { success, .. } && !success))) || (phase
                == RuntimePhase::Confirming && event == RuntimeEvent::Detected(false)) || (phase
                == RuntimePhase::Relaunching && (event is ExecutableUnknown
                || event is NotRelaunched)) ==> (action matches RuntimeActionView::Finish(Err(_)))
            &&& action is Finish ==> runtime_transition(phase, event).0 == RuntimePhase::Done
        }),
{
}

/// Law: an event that was not waited for does not change the check.
pub proof fn law_ignored_events_change_no_check(phase: RuntimePhase, event: RuntimeEvent)
    ensures
        runtime_transition(phase, event).1 is Ignore ==> runtime_transition(phase, event).0
            == phase,
        phase == RuntimePhase::Done ==> runtime_transition(phase, event).1 is Ignore,
        runtime_transition(phase, event).1 is RunInstaller ==> runtime_transition(phase, event).0
            == RuntimePhase::Installing,
        runtime_transition(phase, event).1 is Relaunch ==> runtime_transition(phase, event).0
            == RuntimePhase::Relaunching,
        runtime_transition(phase, event).1 is FindInstaller ==> runtime_transition(phase, event).0
            == RuntimePhase::FindingInstaller,
        runtime_transition(phase, event).1 is Detect ==> runtime_transition(phase, event).0
            == RuntimePhase::Confirming && phase == RuntimePhase::Installing,
{
}

// ---------------------------------------------------------------------------
// Starting the application
// ---------------------------------------------------------------------------
/// How the start of the application goes on after the check.
pub enum Startup {
    /// The application starts.
    Continue,
    /// The application ends: it was started again.
    Exit,
    /// An error is shown, a page is opened, and the application ends.
    ShowError { title: String, message: String, url: String },
}

/// What the user reads when the runtime is not there.
pub open spec fn startup_message(error: Seq<char>) -> Seq<char> {
    error + "\n\nOpen this page to install Microsoft Edge WebView2 Runtime:\n"@
        + WEBVIEW2_DOWNLOAD_URL@
}

/// How the start of the application goes on after the check.
pub fn startup_after_check(check: &Result<bool, String>) -> (r: Startup)
    ensures
        match check {
            Ok(relaunched) => if *relaunched {
                r is Exit
            } else {
                r is Continue
            },
            Err(error) => r matches Startup::ShowError { title, message, url } && title@
                == "BDEngine"@ && message@ == startup_message(error@) && url@
                == WEBVIEW2_DOWNLOAD_URL@,
        },
{
    match check {
        Ok(relaunched) => if *relaunched {
            Startup::Exit
        } else {
            Startup::Continue
        },
        Err(error) => {
            let message: String = text::concat3(
                error.as_str(),
                "\n\nOpen this page to install Microsoft Edge WebView2 Runtime:\n",
                WEBVIEW2_DOWNLOAD_URL,
            );
            Startup::ShowError {
                title: "BDEngine".to_owned(),
                message,
                url: WEBVIEW2_DOWNLOAD_URL.to_owned(),
            }
        },
    }
}

/// Law: what the user reads is the error, and behind it where the runtime is to be found.
pub proof fn law_users_read_the_error_and_the_page(error: Seq<char>)
    ensures
        startup_message(error) == error
            + "\n\nOpen this page to install Microsoft Edge WebView2 Runtime:\n"@
            + "https://developer.microsoft.com/en-us/microsoft-edge/webview2"@,
{
}

/// Law: of the bundled installers, the one that brings everything with it comes first.
pub proof fn law_offline_installer_comes_first(present: [bool; 2], r: Option<&'static str>)
    requires
        call_ensures(first_present_installer, (present,), r),
    ensures
        present@[0] ==> r is Some && r->0@
            == "redist\\MicrosoftEdgeWebView2RuntimeInstallerX64.exe"@,
        !present@[0] && present@[1] ==> r is Some && r->0@
            == "redist\\MicrosoftEdgeWebview2Setup.exe"@,
        !present@[0] && !present@[1] ==> r is None,
{
}

/// Law: after the check the application ends if it was started again, goes on if it was
/// not, and otherwise shows the error.
pub proof fn law_start_after_the_check(check: &Result<bool, String>, r: Startup)
    requires
        call_ensures(startup_after_check, (check,), r),
    ensures
        r is Exit <==> (check matches Ok(relaunched) && *relaunched),
        r is Continue <==> (check matches Ok(relaunched) && !*relaunched),
        r is ShowError <==> check is Err,
        r matches Startup::ShowError { title, message, url } ==> {
            &&& title@ == "BDEngine"@
            &&& message@ == startup_message(check->Err_0@)
            &&& url@ == "https://developer.microsoft.com/en-us/microsoft-edge/webview2"@
        },
{
}

} // verus!
