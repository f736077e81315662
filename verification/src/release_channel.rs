//! The release channel of the application and the configuration that keeps it.
use vstd::prelude::*;
use vstd::string::*;

use crate::text;

verus! {

/// Where the stable release is served.
pub const STABLE_BASE_URL: &'static str = "https://bdengine.app/";

/// Where the beta release is served.
pub const BETA_BASE_URL: &'static str = "https://beta.bdengine.app/";

/// Which release of the application is shown.
#[derive(Clone, Copy, Debug, PartialEq, Eq, Structural)]
pub enum ReleaseChannel {
    Stable,
    Beta,
}

impl Default for ReleaseChannel {
    fn default() -> (r: ReleaseChannel)
        ensures
            r == ReleaseChannel::Stable,
    {
        ReleaseChannel::Stable
    }
}

/// The name of a channel.
pub open spec fn channel_name(channel: ReleaseChannel) -> Seq<char> {
    match channel {
        ReleaseChannel::Stable => "stable"@,
        ReleaseChannel::Beta => "beta"@,
    }
}

/// The address of a channel.
pub open spec fn channel_base_url(channel: ReleaseChannel) -> Seq<char> {
    match channel {
        ReleaseChannel::Stable => STABLE_BASE_URL@,
        ReleaseChannel::Beta => BETA_BASE_URL@,
    }
}

/// The channel that a text names, in any case and with any white space around it.
pub open spec fn named_channel(value: Seq<char>) -> Option<ReleaseChannel> {
    let name = text::ascii_lowered(text::trimmed(value));
    if name == "stable"@ || name == "release"@ {
        Some(ReleaseChannel::Stable)
    } else if name == "beta"@ {
        Some(ReleaseChannel::Beta)
    } else {
        None
    }
}

impl ReleaseChannel {
    /// The name of the channel.
    pub fn as_str(self) -> (r: &'static str)
        ensures
            r@ == channel_name(self),
    {
        match self {
            ReleaseChannel::Stable => "stable",
            ReleaseChannel::Beta => "beta",
        }
    }

    /// The channel that a text names.
    pub fn from_str(value: &str) -> (r: Option<ReleaseChannel>)
        ensures
            r == named_channel(value@),
    {
        let name: String = text::to_ascii_lower(text::trim(value));
        if text::same_text(name.as_str(), "stable") || text::same_text(name.as_str(), "release") {
            Some(ReleaseChannel::Stable)
        } else if text::same_text(name.as_str(), "beta") {
            Some(ReleaseChannel::Beta)
        } else {
            None
        }
    }

    /// The address of the channel.
    pub fn base_url(self) -> (r: &'static str)
        ensures
            r@ == channel_base_url(self),
    {
        match self {
            ReleaseChannel::Stable => STABLE_BASE_URL,
            ReleaseChannel::Beta => BETA_BASE_URL,
        }
    }
}

/// The channel that was asked for, or what is answered where there is none.
pub fn requested_channel(value: &str) -> (r: Result<ReleaseChannel, String>)
    ensures
        match r {
            Ok(channel) => named_channel(value@) == Some(channel),
            Err(message) => named_channel(value@) is None && message@
                == "Unsupported release channel."@,
        },
{
    match ReleaseChannel::from_str(value) {
        Some(channel) => Ok(channel),
        None => Err("Unsupported release channel.".to_owned()),
    }
}

/// Law: a channel is found again under its own name.
pub proof fn law_channel_name_round_trip(channel: ReleaseChannel)
    ensures
        named_channel(channel_name(channel)) == Some(channel),
{
    reveal_strlit("stable");
    reveal_strlit("release");
    reveal_strlit("beta");
    let name = channel_name(channel);
    assert(text::trimmed_start(name) == name);
    assert(text::trimmed(name) == name);
    assert(text::ascii_lowered(name) =~= name);
    if channel == ReleaseChannel::Beta {
        assert(name[0] == 'b');
        assert("stable"@[0] == 's' && "release"@[0] == 'r');
    }
}

/// What the application remembers from one run to the next.
#[derive(Clone, Copy, Debug, PartialEq, Eq, Structural)]
pub struct AppConfig {
    pub release_channel: ReleaseChannel,
    pub webview2_checked: bool,
}

/// The configuration of a first run.
pub open spec fn default_config() -> AppConfig {
    AppConfig { release_channel: ReleaseChannel::Stable, webview2_checked: false }
}

impl Default for AppConfig {
    fn default() -> (r: AppConfig)
        ensures
            r == default_config(),
    {
        AppConfig { release_channel: ReleaseChannel::Stable, webview2_checked: false }
    }
}

impl AppConfig {
    /// The configuration that was read, or that of a first run where none was.
    pub fn loaded(stored: Option<AppConfig>) -> (r: AppConfig)
        ensures
            r == (match stored {
                Some(config) => config,
                None => default_config(),
            }),
    {
        match stored {
            Some(config) => config,
            None => AppConfig::default(),
        }
    }

    /// The same configuration for another channel.
    pub fn with_release_channel(self, channel: ReleaseChannel) -> (r: AppConfig)
        ensures
            r == (AppConfig { release_channel: channel, ..self }),
    {
        AppConfig { release_channel: channel, webview2_checked: self.webview2_checked }
    }

    /// The configuration to store before the WebView2 runtime is looked for, which
    /// is done once; `None` where it was done already.
    pub fn begin_webview2_check(self) -> (r: Option<AppConfig>)
        ensures
            r == (if self.webview2_checked {
                None
            } else {
                Some(AppConfig { webview2_checked: true, ..self })
            }),
    {
        if self.webview2_checked {
            None
        } else {
            Some(AppConfig { release_channel: self.release_channel, webview2_checked: true })
        }
    }
}

/// Law: a channel is named by `stable` or `release`, or by `beta`, in letters of any case
/// and with any white space around them; nothing else names one.
pub proof fn law_channels_are_named(value: Seq<char>)
    ensures
        ({
            let name = text::ascii_lowered(text::trimmed(value));
            &&& name == "stable"@ || name == "release"@ ==> named_channel(value) == Some(
                ReleaseChannel::Stable,
            )
            &&& name == "beta"@ ==> named_channel(value) == Some(ReleaseChannel::Beta)
            &&& named_channel(value) is Some ==> name == "stable"@ || name == "release"@ || name
                == "beta"@
        }),
        named_channel(text::trimmed(value)) == named_channel(value),
        named_channel(text::ascii_lowered(text::trimmed(value))) == named_channel(value),
{
    reveal_strlit("stable");
    reveal_strlit("release");
    reveal_strlit("beta");
    assert("stable"@.len() == 6 && "release"@.len() == 7 && "beta"@.len() == 4);
    text::law_trim_is_idempotent(value);
    let t = text::trimmed(value);
    let low = text::ascii_lowered(t);
    text::lemma_trimmed_ends(value);
    if low.len() > 0 {
        assert(!text::is_white_space(low[0]) && !text::is_white_space(low[low.len() - 1]));
        assert(text::trimmed_start(low) == low);
        assert(low.last() == low[low.len() - 1]);
        assert(text::trimmed(low) == low);
    }
    text::law_lower_case_changes_capitals_only(t);
}

/// Law: the channels have different names and different addresses, and each address is
/// that of a page of the application.
pub proof fn law_channels_are_told_apart()
    ensures
        channel_name(ReleaseChannel::Stable) == "stable"@,
        channel_name(ReleaseChannel::Beta) == "beta"@,
        channel_base_url(ReleaseChannel::Stable) == "https://bdengine.app/"@,
        channel_base_url(ReleaseChannel::Beta) == "https://beta.bdengine.app/"@,
        channel_name(ReleaseChannel::Stable) != channel_name(ReleaseChannel::Beta),
        channel_base_url(ReleaseChannel::Stable) != channel_base_url(ReleaseChannel::Beta),
{
    reveal_strlit("stable");
    reveal_strlit("beta");
    reveal_strlit("https://bdengine.app/");
    reveal_strlit("https://beta.bdengine.app/");
    assert("stable"@.len() == 6 && "beta"@.len() == 4);
    assert("https://bdengine.app/"@.len() == 21 && "https://beta.bdengine.app/"@.len() == 26);
}

/// Law: a first run shows the stable release and has not looked for the runtime.
pub proof fn law_first_run()
    ensures
        default_config().release_channel == ReleaseChannel::Stable,
        !default_config().webview2_checked,
{
}

/// Law: a request for a channel is granted exactly if it names one.
pub proof fn law_requested_channels_are_named(value: &str, r: Result<ReleaseChannel, String>)
    requires
        call_ensures(requested_channel, (value,), r),
    ensures
        r is Ok <==> named_channel(value@) is Some,
        r matches Ok(channel) ==> named_channel(value@) == Some(channel),
        r matches Err(message) ==> message@ == "Unsupported release channel."@,
{
}

/// Law: the configuration is what was stored; another channel changes nothing else; and the
/// runtime is looked for once.
pub proof fn law_configuration_is_kept(
    config: AppConfig,
    channel: ReleaseChannel,
    loaded: AppConfig,
    changed: AppConfig,
    begun: Option<AppConfig>,
)
    requires
        call_ensures(AppConfig::loaded, (Some(config),), loaded),
        call_ensures(AppConfig::with_release_channel, (config, channel), changed),
        call_ensures(AppConfig::begin_webview2_check, (config,), begun),
    ensures
        loaded == config,
        changed.release_channel == channel,
        changed.webview2_checked == config.webview2_checked,
        begun is Some <==> !config.webview2_checked,
        begun matches Some(stored) ==> stored.webview2_checked && stored.release_channel
            == config.release_channel,
{
}

} // verus!
