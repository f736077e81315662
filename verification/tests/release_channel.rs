use bdengine_desktop::release_channel::requested_channel;
use bdengine_desktop::release_channel::AppConfig;
use bdengine_desktop::release_channel::ReleaseChannel;

#[test]
fn channels_are_found_by_name() {
    assert_eq!(ReleaseChannel::from_str("stable"), Some(ReleaseChannel::Stable));
    assert_eq!(ReleaseChannel::from_str(" Release\n"), Some(ReleaseChannel::Stable));
    assert_eq!(ReleaseChannel::from_str("BETA"), Some(ReleaseChannel::Beta));
    assert_eq!(ReleaseChannel::from_str(""), None);
    assert_eq!(ReleaseChannel::from_str("beta2"), None);
}

#[test]
fn every_channel_is_found_under_its_own_name() {
    for channel in [ReleaseChannel::Stable, ReleaseChannel::Beta] {
        assert_eq!(ReleaseChannel::from_str(channel.as_str()), Some(channel));
    }
    assert_eq!(ReleaseChannel::Stable.as_str(), "stable");
    assert_eq!(ReleaseChannel::Beta.as_str(), "beta");
}

#[test]
fn channels_have_their_addresses() {
    assert_eq!(ReleaseChannel::Stable.base_url(), "https://bdengine.app/");
    assert_eq!(ReleaseChannel::Beta.base_url(), "https://beta.bdengine.app/");
}

#[test]
fn unknown_channels_are_refused() {
    assert_eq!(requested_channel("beta"), Ok(ReleaseChannel::Beta));
    assert_eq!(requested_channel("nightly"), Err("Unsupported release channel.".to_string()));
}

#[test]
fn first_run_is_stable_and_unchecked() {
    let config = AppConfig::default();
    assert_eq!(config.release_channel, ReleaseChannel::Stable);
    assert!(!config.webview2_checked);
    assert_eq!(AppConfig::loaded(None), config);
}

#[test]
fn channel_is_changed_and_the_rest_kept() {
    let stored = AppConfig { release_channel: ReleaseChannel::Stable, webview2_checked: true };
    assert_eq!(AppConfig::loaded(Some(stored)), stored);
    let changed = stored.with_release_channel(ReleaseChannel::Beta);
    assert_eq!(changed.release_channel, ReleaseChannel::Beta);
    assert!(changed.webview2_checked);
}

#[test]
fn runtime_is_checked_once() {
    let first = AppConfig::default().begin_webview2_check().unwrap();
    assert!(first.webview2_checked);
    assert_eq!(first.release_channel, ReleaseChannel::Stable);
    assert_eq!(first.begin_webview2_check(), None);
}
