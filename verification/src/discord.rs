//! What Discord shows of the user's work.
use vstd::prelude::*;
use vstd::string::*;

use crate::text;

verus! {

/// The image that Discord shows.
pub const DISCORD_LARGE_IMAGE_KEY: &'static str = "bde_logo";

/// The text of that image.
pub const DISCORD_LARGE_TEXT: &'static str = "BDEngine";

/// The button that Discord shows.
pub const DISCORD_BUTTON_LABEL: &'static str = "Open BDEngine";

/// Where that button leads.
pub const DISCORD_OPEN_URL: &'static str = "https://bdengine.app";

/// What the page says of the user's work.
pub struct DiscordPresencePayload {
    pub mode: String,
    pub party_id: Option<String>,
    pub current_size: Option<i32>,
    pub max_size: Option<i32>,
}

/// The contents of a [`DiscordPresencePayload`].
pub struct PresenceView {
    pub mode: Seq<char>,
    pub party_id: Option<Seq<char>>,
    pub current_size: Option<i32>,
    pub max_size: Option<i32>,
}

impl View for DiscordPresencePayload {
    type V = PresenceView;

    open spec fn view(&self) -> PresenceView {
        PresenceView {
            mode: self.mode@,
            party_id: text::optional_text(self.party_id),
            current_size: self.current_size,
            max_size: self.max_size,
        }
    }
}

/// The image of an activity, and its text.
pub struct DiscordAssets {
    pub large_image: String,
    pub large_text: String,
}

/// A button of an activity, and where it leads.
pub struct DiscordButton {
    pub label: String,
    pub url: String,
}

/// A party, with how many are in it and how many can be.
pub struct DiscordParty {
    pub id: String,
    pub current_size: i32,
    pub max_size: i32,
}

/// An activity, as Discord shows it.
pub struct DiscordActivity {
    pub details: Option<String>,
    pub state: Option<String>,
    pub assets: Option<DiscordAssets>,
    pub buttons: Vec<DiscordButton>,
    pub party: Option<DiscordParty>,
}

/// The contents of a [`DiscordActivity`]: the image and each button with their texts,
/// the party with its sizes.
pub struct ActivityContents {
    pub details: Option<Seq<char>>,
    pub state: Option<Seq<char>>,
    pub assets: Option<(Seq<char>, Seq<char>)>,
    pub buttons: Seq<(Seq<char>, Seq<char>)>,
    pub party: Option<(Seq<char>, i32, i32)>,
}

impl View for DiscordActivity {
    type V = ActivityContents;

    open spec fn view(&self) -> ActivityContents {
        ActivityContents {
            details: text::optional_text(self.details),
            state: text::optional_text(self.state),
            assets: match self.assets {
                Some(a) => Some((a.large_image@, a.large_text@)),
                None => None,
            },
            buttons: Seq::new(
                self.buttons@.len(),
                |i: int| (self.buttons@[i].label@, self.buttons@[i].url@),
            ),
            party: match self.party {
                Some(p) => Some((p.id@, p.current_size, p.max_size)),
                None => None,
            },
        }
    }
}

/// An activity that shows nothing.
pub open spec fn empty_activity() -> ActivityContents {
    ActivityContents {
        details: None,
        state: None,
        assets: None,
        buttons: Seq::empty(),
        party: None,
    }
}

impl DiscordActivity {
    /// An activity that shows nothing.
    pub fn new() -> (r: DiscordActivity)
        ensures
            r@ == empty_activity(),
    {
        let r = DiscordActivity {
            details: None,
            state: None,
            assets: None,
            buttons: Vec::new(),
            party: None,
        };
        assert(r@.buttons =~= Seq::empty());
        r
    }
}

/// What Discord says of a mode of work.
pub open spec fn mode_details(mode: Seq<char>) -> Option<Seq<char>> {
    if mode == "editing"@ {
        Some("Editing a project"@)
    } else if mode == "animating"@ {
        Some("Animating a model"@)
    } else if mode == "sound"@ {
        Some("Creating sound effects"@)
    } else if mode == "painting"@ {
        Some("Painting textures"@)
    } else if mode == "share_party"@ {
        Some("In a Share Party"@)
    } else {
        None
    }
}

/// What Discord says of a mode of work.
pub fn discord_presence_details(mode: &str) -> (r: Option<&'static str>)
    ensures
        match r {
            Some(details) => mode_details(mode@) == Some(details@),
            None => mode_details(mode@) is None,
        },
{
    if text::same_text(mode, "editing") {
        Some("Editing a project")
    } else if text::same_text(mode, "animating") {
        Some("Animating a model")
    } else if text::same_text(mode, "sound") {
        Some("Creating sound effects")
    } else if text::same_text(mode, "painting") {
        Some("Painting textures")
    } else if text::same_text(mode, "share_party") {
        Some("In a Share Party")
    } else {
        None
    }
}

/// How many are in the party: no number counts as none, and so does a negative one.
pub open spec fn party_current(payload: PresenceView) -> i32 {
    match payload.current_size {
        Some(n) => if n < 0 {
            0
        } else {
            n
        },
        None => 0,
    }
}

/// How many can be in the party: at least as many as are in it.
pub open spec fn party_max(payload: PresenceView) -> i32 {
    let n = match payload.max_size {
        Some(m) => m,
        None => 0,
    };
    if n < party_current(payload) {
        party_current(payload)
    } else {
        n
    }
}

/// The activity for a mode of work outside a party.
pub open spec fn plain_activity(details: Seq<char>) -> ActivityContents {
    ActivityContents {
        details: Some(details),
        state: None,
        assets: Some((DISCORD_LARGE_IMAGE_KEY@, DISCORD_LARGE_TEXT@)),
        buttons: seq![(DISCORD_BUTTON_LABEL@, DISCORD_OPEN_URL@)],
        party: None,
    }
}

/// The activity that the page's words lead to, or what is wrong with them. In a party
/// it shows how many are connected; it shows the party itself where that has a name.
pub open spec fn activity_for(payload: PresenceView) -> Result<ActivityContents, Seq<char>> {
    let mode = text::trimmed(payload.mode);
    match mode_details(mode) {
        None => Err("Unsupported Discord presence mode: "@ + payload.mode),
        Some(details) => if mode == "share_party"@ {
            let current = party_current(payload);
            let max = party_max(payload);
            Ok(
                ActivityContents {
                    state: Some(
                        text::decimal(current as nat) + "/"@ + text::decimal(max as nat)
                            + " users connected"@,
                    ),
                    party: match payload.party_id {
                        Some(id) => if text::is_blank(id) {
                            None
                        } else {
                            Some((id, current, max))
                        },
                        None => None,
                    },
                    ..plain_activity(details)
                },
            )
        } else {
            Ok(plain_activity(details))
        },
    }
}

fn users_connected(current: i32, max: i32) -> (r: String)
    requires
        0 <= current,
        0 <= max,
    ensures
        r@ == text::decimal(current as nat) + "/"@ + text::decimal(max as nat)
            + " users connected"@,
{
    let a: String = text::decimal_of(current as u64);
    let b: String = text::decimal_of(max as u64);
    let sizes: String = text::concat3(a.as_str(), "/", b.as_str());
    text::concat2(sizes.as_str(), " users connected")
}

/// The activity that the page's words lead to.
pub fn build_discord_activity(payload: &DiscordPresencePayload) -> (r: Result<
    DiscordActivity,
    String,
>)
    ensures
        r is Ok == activity_for(payload@) is Ok,
        match r {
            Ok(activity) => activity@ == activity_for(payload@)->Ok_0,
            Err(error) => error@ == activity_for(payload@)->Err_0,
        },
{
    let mode: &str = text::trim(payload.mode.as_str());
    let details: &'static str = match discord_presence_details(mode) {
        Some(d) => d,
        None => {
            return Err(
                text::concat2("Unsupported Discord presence mode: ", payload.mode.as_str()),
            );
        },
    };
    let mut activity: DiscordActivity = DiscordActivity::new();
    activity.details = Some(details.to_owned());
    activity.assets = Some(
        DiscordAssets {
            large_image: DISCORD_LARGE_IMAGE_KEY.to_owned(),
            large_text: DISCORD_LARGE_TEXT.to_owned(),
        },
    );
    assert(activity.buttons@.len() == 0) by {
        assert(activity@.buttons.len() == 0);
    }
    activity.buttons.push(
        DiscordButton { label: DISCORD_BUTTON_LABEL.to_owned(), url: DISCORD_OPEN_URL.to_owned() },
    );
    assert(activity@.buttons =~= seq![(DISCORD_BUTTON_LABEL@, DISCORD_OPEN_URL@)]);
    assert(activity@ == plain_activity(details@));
    if text::same_text(mode, "share_party") {
        let current: i32 = match payload.current_size {
            Some(n) => if n < 0 {
                0
            } else {
                n
            },
            None => 0,
        };
        let given: i32 = match payload.max_size {
            Some(n) => n,
            None => 0,
        };
        let max: i32 = if given < current {
            current
        } else {
            given
        };
        activity.state = Some(users_connected(current, max));
        match &payload.party_id {
            Some(id) => {
                if text::chars_of(text::trim(id.as_str())).len() > 0 {
                    activity.party = Some(
                        DiscordParty { id: id.clone(), current_size: current, max_size: max },
                    );
                }
            },
            None => {},
        }
        assert(activity@.buttons =~= seq![(DISCORD_BUTTON_LABEL@, DISCORD_OPEN_URL@)]);
    }
    Ok(activity)
}

/// Law: no party shows more users than it can hold, nor a negative number of them.
pub proof fn law_party_sizes_are_ordered(payload: PresenceView)
    ensures
        0 <= party_current(payload) <= party_max(payload),
        activity_for(payload) matches Ok(activity) ==> (activity.party matches Some(party) ==> {
            &&& 0 <= party.1 <= party.2
            &&& !text::is_blank(party.0)
        }),
{
}

/// Law: the party and its size are shown in the mode `share_party` only.
pub proof fn law_only_share_party_shows_a_party(payload: PresenceView)
    ensures
        activity_for(payload) matches Ok(activity) ==> (activity.state is Some <==> text::trimmed(
            payload.mode,
        ) == "share_party"@) && (activity.party is Some ==> activity.state is Some),
{
}

proof fn lemma_modes_differ()
    ensures
        "editing"@.len() == 7,
        "animating"@.len() == 9,
        "sound"@.len() == 5,
        "painting"@.len() == 8,
        "share_party"@.len() == 11,
{
    reveal_strlit("editing");
    reveal_strlit("animating");
    reveal_strlit("sound");
    reveal_strlit("painting");
    reveal_strlit("share_party");
}

/// Law: what Discord says of each mode of work; there is no other mode.
pub proof fn law_modes_have_their_words(mode: Seq<char>)
    ensures
        mode_details("editing"@) == Some("Editing a project"@),
        mode_details("animating"@) == Some("Animating a model"@),
        mode_details("sound"@) == Some("Creating sound effects"@),
        mode_details("painting"@) == Some("Painting textures"@),
        mode_details("share_party"@) == Some("In a Share Party"@),
        mode_details(mode) is Some <==> mode == "editing"@ || mode == "animating"@ || mode
            == "sound"@ || mode == "painting"@ || mode == "share_party"@,
{
    lemma_modes_differ();
}

/// Law: an activity goes by the mode without white space around it and says what belongs
/// to that mode; it always shows the image and the button of the application. For other
/// modes there is none, and the mode is told as it was given.
pub proof fn law_activities_go_by_their_mode(payload: PresenceView)
    ensures
        activity_for(payload) is Ok <==> mode_details(text::trimmed(payload.mode)) is Some,
        activity_for(payload) matches Ok(activity) ==> {
            &&& activity.details == mode_details(text::trimmed(payload.mode))
            &&& activity.assets == Some(("bde_logo"@, "BDEngine"@))
            &&& activity.buttons == seq![("Open BDEngine"@, "https://bdengine.app"@)]
        },
        activity_for(payload) matches Err(error) ==> error == "Unsupported Discord presence mode: "@
            + payload.mode,
{
}

/// Law: a party shows how many are in it, no number and a negative one being none, and how
/// many can be, which is never less; both numbers stand in the words of the activity. The
/// party itself is shown under its identifier as it was given, unless that is blank.
pub proof fn law_a_party_shows_its_sizes(payload: PresenceView)
    requires
        text::trimmed(payload.mode) == "share_party"@,
    ensures
        activity_for(payload) matches Ok(activity) && ({
            let given = match payload.current_size {
                Some(n) => n as int,
                None => 0,
            };
            let room = match payload.max_size {
                Some(n) => n as int,
                None => 0,
            };
            let current = if given > 0 {
                given
            } else {
                0
            };
            let max = if room > current {
                room
            } else {
                current
            };
            &&& activity.state == Some(
                text::decimal(current as nat) + "/"@ + text::decimal(max as nat)
                    + " users connected"@,
            )
            &&& (activity.party is Some <==> (payload.party_id matches Some(id)
                && !text::is_blank(id)))
            &&& activity.party matches Some(party) ==> {
                &&& party.0 == payload.party_id->0
                &&& party.1 == current
                &&& party.2 == max
            }
        }),
{
    lemma_modes_differ();
}

} // verus!
